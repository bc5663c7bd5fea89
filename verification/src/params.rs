//! Request parameters: a map from parameter names to values, kept as a
//! vector of pairs whose keys are distinct.

use vstd::prelude::*;

use crate::text::{
    chars_of, decimal, parse_i64, parse_i64_str, split_once, split_once_chars, string_of,
    u64_to_string,
};

verus! {

/// Keys of `s` are pairwise distinct.
pub open spec fn keys_distinct<V>(s: Seq<(Seq<char>, V)>) -> bool {
    forall|i: int, j: int| 0 <= i < j < s.len() ==> #[trigger] s[i].0 != #[trigger] s[j].0
}

/// `k` is the key of some pair of `s`.
pub open spec fn has_key<V>(s: Seq<(Seq<char>, V)>, k: Seq<char>) -> bool {
    exists|i: int| 0 <= i < s.len() && #[trigger] s[i].0 == k
}

/// The map that a list of pairs with distinct keys stands for.
pub open spec fn pairs_map<V>(s: Seq<(Seq<char>, V)>) -> Map<Seq<char>, V> {
    Map::new(
        |k: Seq<char>| has_key(s, k),
        |k: Seq<char>| s[choose|i: int| 0 <= i < s.len() && #[trigger] s[i].0 == k].1,
    )
}

pub proof fn lemma_pairs_map_at<V>(s: Seq<(Seq<char>, V)>, i: int)
    requires
        keys_distinct(s),
        0 <= i < s.len(),
    ensures
        pairs_map(s).contains_key(s[i].0),
        pairs_map(s)[s[i].0] == s[i].1,
{
    let k = s[i].0;
    assert(has_key(s, k));
    let j = choose|j: int| 0 <= j < s.len() && #[trigger] s[j].0 == k;
    if j != i {
        if j < i {
            assert(s[j].0 != s[i].0);
        } else {
            assert(s[i].0 != s[j].0);
        }
    }
}

pub proof fn lemma_pairs_map_push<V>(s: Seq<(Seq<char>, V)>, k: Seq<char>, v: V)
    requires
        keys_distinct(s),
        !has_key(s, k),
    ensures
        keys_distinct(s.push((k, v))),
        pairs_map(s.push((k, v))) == pairs_map(s).insert(k, v),
{
    let t = s.push((k, v));
    assert forall|i: int, j: int| 0 <= i < j < t.len() implies #[trigger] t[i].0 != #[trigger] t[j].0 by {
        if j == s.len() {
            assert(s[i].0 != k);
        } else {
            assert(s[i].0 != s[j].0);
        }
    }
    assert forall|x: Seq<char>| has_key(t, x) <==> (has_key(s, x) || x == k) by {
        if has_key(s, x) {
            let i = choose|i: int| 0 <= i < s.len() && #[trigger] s[i].0 == x;
            assert(t[i].0 == x);
        }
        if x == k {
            assert(t[s.len() as int].0 == k);
        }
        if has_key(t, x) && x != k {
            let i = choose|i: int| 0 <= i < t.len() && #[trigger] t[i].0 == x;
            assert(s[i].0 == x);
        }
    }
    assert forall|x: Seq<char>| #[trigger] pairs_map(t).contains_key(x) implies pairs_map(t)[x]
        == pairs_map(s).insert(k, v)[x] by {
        let i = choose|i: int| 0 <= i < t.len() && #[trigger] t[i].0 == x;
        lemma_pairs_map_at(t, i);
        if i < s.len() {
            lemma_pairs_map_at(s, i);
        }
    }
    assert(pairs_map(t) =~= pairs_map(s).insert(k, v));
}

pub proof fn lemma_pairs_map_update<V>(s: Seq<(Seq<char>, V)>, i: int, v: V)
    requires
        keys_distinct(s),
        0 <= i < s.len(),
    ensures
        keys_distinct(s.update(i, (s[i].0, v))),
        pairs_map(s.update(i, (s[i].0, v))) == pairs_map(s).insert(s[i].0, v),
{
    let k = s[i].0;
    let t = s.update(i, (k, v));
    assert forall|a: int, b: int| 0 <= a < b < t.len() implies #[trigger] t[a].0 != #[trigger] t[b].0 by {
        assert(s[a].0 != s[b].0);
    }
    assert forall|x: Seq<char>| has_key(t, x) <==> has_key(s, x) by {
        if has_key(s, x) {
            let j = choose|j: int| 0 <= j < s.len() && #[trigger] s[j].0 == x;
            assert(t[j].0 == x);
        }
        if has_key(t, x) {
            let j = choose|j: int| 0 <= j < t.len() && #[trigger] t[j].0 == x;
            assert(s[j].0 == x);
        }
    }
    lemma_pairs_map_at(s, i);
    assert forall|x: Seq<char>| #[trigger] pairs_map(t).contains_key(x) implies pairs_map(t)[x]
        == pairs_map(s).insert(k, v)[x] by {
        let j = choose|j: int| 0 <= j < t.len() && #[trigger] t[j].0 == x;
        lemma_pairs_map_at(t, j);
        lemma_pairs_map_at(s, j);
    }
    assert(pairs_map(t) =~= pairs_map(s).insert(k, v));
}

pub proof fn lemma_pairs_map_len<V>(s: Seq<(Seq<char>, V)>)
    requires
        keys_distinct(s),
    ensures
        pairs_map(s).dom().finite(),
        pairs_map(s).len() == s.len(),
    decreases s.len(),
{
    if s.len() == 0 {
        assert(pairs_map(s).dom() =~= Set::<Seq<char>>::empty());
    } else {
        let t = s.drop_last();
        assert forall|i: int, j: int| 0 <= i < j < t.len() implies #[trigger] t[i].0
            != #[trigger] t[j].0 by {
            assert(s[i].0 != s[j].0);
        }
        lemma_pairs_map_len(t);
        let l = s.last();
        assert(!has_key(t, l.0)) by {
            if has_key(t, l.0) {
                let i = choose|i: int| 0 <= i < t.len() && #[trigger] t[i].0 == l.0;
                assert(s[i].0 != s[s.len() - 1].0);
            }
        }
        lemma_pairs_map_push(t, l.0, l.1);
        assert(t.push(l) =~= s);
    }
}

/// The names and values of a list of string pairs.
pub open spec fn pair_views(s: Seq<(String, String)>) -> Seq<(Seq<char>, Seq<char>)> {
    s.map_values(|e: (String, String)| (e.0@, e.1@))
}

/// The position of `key` in `entries`, if it is there.
fn position_in(entries: &Vec<(String, String)>, key: &String) -> (r: Option<usize>)
    ensures
        match r {
            Some(i) => i < entries@.len() && entries@[i as int].0@ == key@,
            None => !has_key(pair_views(entries@), key@),
        },
{
    let mut i: usize = 0;
    while i < entries.len()
        invariant
            i <= entries@.len(),
            forall|j: int| 0 <= j < i ==> entries@[j].0@ != key@,
        decreases entries@.len() - i,
    {
        if entries[i].0 == *key {
            return Some(i);
        }
        i = i + 1;
    }
    assert forall|j: int| 0 <= j < entries@.len() implies #[trigger] pair_views(entries@)[j].0
        != key@ by {
        assert(entries@[j].0@ != key@);
    }
    None
}

/// Request parameters: a map in which each name has one value.
pub struct ParamMap {
    entries: Vec<(String, String)>,
}

impl ParamMap {
    #[verifier::type_invariant]
    spec fn distinct(self) -> bool {
        keys_distinct(pair_views(self.entries@))
    }

    /// The map from names to values.
    pub closed spec fn spec_map(self) -> Map<Seq<char>, Seq<char>> {
        pairs_map(pair_views(self.entries@))
    }

    /// An empty map.
    pub fn new() -> (r: ParamMap)
        ensures
            r@ == Map::<Seq<char>, Seq<char>>::empty(),
    {
        let r = ParamMap { entries: Vec::new() };
        assert(r@ =~= Map::<Seq<char>, Seq<char>>::empty());
        r
    }

    /// The value of `key`, if any.
    pub fn get(&self, key: &str) -> (r: Option<&String>)
        ensures
            match r {
                Some(v) => self@.contains_key(key@) && self@[key@] == v@,
                None => !self@.contains_key(key@),
            },
    {
        proof {
            use_type_invariant(self);
        }
        let k = String::from_str(key);
        match position_in(&self.entries, &k) {
            Some(i) => {
                proof {
                    lemma_pairs_map_at(pair_views(self.entries@), i as int);
                }
                Some(&self.entries[i].1)
            },
            None => None,
        }
    }

    /// Sets `key` to `value`, replacing any value it had.
    pub fn insert(&mut self, key: String, value: String)
        ensures
            final(self)@ == old(self)@.insert(key@, value@),
    {
        proof {
            use_type_invariant(&*self);
        }
        let mut entries: Vec<(String, String)> = Vec::new();
        std::mem::swap(&mut entries, &mut self.entries);
        let ghost old_views = pair_views(entries@);
        match position_in(&entries, &key) {
            Some(i) => {
                let ghost vv = value@;
                entries.set(i, (key, value));
                proof {
                    lemma_pairs_map_update(old_views, i as int, vv);
                    assert(pair_views(entries@) =~= old_views.update(i as int, (old_views[i as int].0, vv)));
                }
            },
            None => {
                let ghost kv = key@;
                let ghost vv = value@;
                entries.push((key, value));
                proof {
                    lemma_pairs_map_push(old_views, kv, vv);
                    assert(pair_views(entries@) =~= old_views.push((kv, vv)));
                }
            },
        }
        self.entries = entries;
    }

    /// Sets `key` to `value` unless `key` already has a value
    /// (`entry(key).or_insert(value)`).
    pub fn insert_if_absent(&mut self, key: String, value: String)
        ensures
            final(self)@ == (if old(self)@.contains_key(key@) {
                old(self)@
            } else {
                old(self)@.insert(key@, value@)
            }),
    {
        proof {
            use_type_invariant(&*self);
        }
        let present = self.get(key.as_str()).is_some();
        if !present {
            self.insert(key, value);
        }
    }

    /// The number of parameters.
    pub fn len(&self) -> (r: usize)
        ensures
            r == self@.len(),
    {
        proof {
            use_type_invariant(self);
            lemma_pairs_map_len(pair_views(self.entries@));
        }
        self.entries.len()
    }

    /// The parameters as name/value pairs, each name once.
    pub fn entries(&self) -> (r: &Vec<(String, String)>)
        ensures
            keys_distinct(pair_views(r@)),
            pairs_map(pair_views(r@)) == self@,
    {
        proof {
            use_type_invariant(self);
        }
        &self.entries
    }
}

impl View for ParamMap {
    type V = Map<Seq<char>, Seq<char>>;

    open spec fn view(&self) -> Map<Seq<char>, Seq<char>> {
        self.spec_map()
    }
}


/// The contents of a list of strings.
pub open spec fn string_views(s: Seq<String>) -> Seq<Seq<char>> {
    s.map_values(|x: String| x@)
}

/// The contents of a list of string-slice pairs.
pub open spec fn str_pair_views(s: Seq<(&str, &str)>) -> Seq<(Seq<char>, Seq<char>)> {
    s.map_values(|e: (&str, &str)| (e.0@, e.1@))
}

/// The map that `parse_params` builds: each `key=value` argument, split at
/// its first `=`, sets `key` to `value`, later arguments overriding earlier
/// ones; arguments without `=` are ignored.
pub open spec fn parsed_params(raw: Seq<Seq<char>>) -> Map<Seq<char>, Seq<char>>
    decreases raw.len(),
{
    if raw.len() == 0 {
        Map::empty()
    } else {
        let m = parsed_params(raw.drop_last());
        match split_once(raw.last(), '=') {
            Some((k, v)) => m.insert(k, v),
            None => m,
        }
    }
}

/// `m` with each pair of `pairs` set in turn, later pairs overriding.
pub open spec fn insert_all(m: Map<Seq<char>, Seq<char>>, pairs: Seq<(Seq<char>, Seq<char>)>) -> Map<
    Seq<char>,
    Seq<char>,
>
    decreases pairs.len(),
{
    if pairs.len() == 0 {
        m
    } else {
        insert_all(m, pairs.drop_last()).insert(pairs.last().0, pairs.last().1)
    }
}

/// `m` with each pair of `defaults` added where its key has no value yet.
pub open spec fn fill_defaults(m: Map<Seq<char>, Seq<char>>, defaults: Seq<(Seq<char>, Seq<char>)>) -> Map<
    Seq<char>,
    Seq<char>,
>
    decreases defaults.len(),
{
    if defaults.len() == 0 {
        m
    } else {
        let p = fill_defaults(m, defaults.drop_last());
        let d = defaults.last();
        if p.contains_key(d.0) {
            p
        } else {
            p.insert(d.0, d.1)
        }
    }
}

/// The name of the workspace parameter.
pub open spec fn workspace_key() -> Seq<char> {
    seq!['w', 'o', 'r', 'k', 's', 'p', 'a', 'c', 'e', '_', 'i', 'd']
}

/// What `with_workspace` builds.
pub open spec fn workspace_params(
    ws: u64,
    raw: Seq<Seq<char>>,
    defaults: Seq<(Seq<char>, Seq<char>)>,
) -> Map<Seq<char>, Seq<char>> {
    fill_defaults(parsed_params(raw).insert(workspace_key(), decimal(ws as nat)), defaults)
}

/// What `ws_map` builds.
pub open spec fn workspace_pairs(ws: u64, pairs: Seq<(Seq<char>, Seq<char>)>) -> Map<
    Seq<char>,
    Seq<char>,
> {
    insert_all(Map::empty().insert(workspace_key(), decimal(ws as nat)), pairs)
}

/// Parses `["key=value", ...]` into a map.
pub fn parse_params(raw: &[String]) -> (r: ParamMap)
    ensures
        r@ == parsed_params(string_views(raw@)),
{
    let mut m = ParamMap::new();
    let mut i: usize = 0;
    while i < raw.len()
        invariant
            i <= raw@.len(),
            m@ == parsed_params(string_views(raw@).take(i as int)),
        decreases raw@.len() - i,
    {
        let ghost prev = string_views(raw@).take(i as int);
        assert(string_views(raw@).take(i + 1).drop_last() =~= prev);
        assert(string_views(raw@).take(i + 1).last() == raw@[i as int]@);
        let cs = chars_of(raw[i].as_str());
        match split_once_chars(cs.as_slice(), '=') {
            Some((k, v)) => {
                m.insert(string_of(k.as_slice()), string_of(v.as_slice()));
            },
            None => {},
        }
        i = i + 1;
    }
    assert(string_views(raw@).take(raw@.len() as int) =~= string_views(raw@));
    m
}

/// Sets each pair of `pairs` in turn, later pairs overriding.
fn insert_pairs(m: &mut ParamMap, pairs: &[(&str, &str)])
    ensures
        final(m)@ == insert_all(old(m)@, str_pair_views(pairs@)),
{
    let mut i: usize = 0;
    while i < pairs.len()
        invariant
            i <= pairs@.len(),
            m@ == insert_all(old(m)@, str_pair_views(pairs@).take(i as int)),
        decreases pairs@.len() - i,
    {
        let ghost prev = str_pair_views(pairs@).take(i as int);
        assert(str_pair_views(pairs@).take(i + 1).drop_last() =~= prev);
        let (k, v) = pairs[i];
        m.insert(String::from_str(k), String::from_str(v));
        i = i + 1;
    }
    assert(str_pair_views(pairs@).take(pairs@.len() as int) =~= str_pair_views(pairs@));
}

/// Adds each pair of `defaults` whose key has no value yet.
fn fill_pairs(m: &mut ParamMap, defaults: &[(&str, &str)])
    ensures
        final(m)@ == fill_defaults(old(m)@, str_pair_views(defaults@)),
{
    let mut i: usize = 0;
    while i < defaults.len()
        invariant
            i <= defaults@.len(),
            m@ == fill_defaults(old(m)@, str_pair_views(defaults@).take(i as int)),
        decreases defaults@.len() - i,
    {
        let ghost prev = str_pair_views(defaults@).take(i as int);
        assert(str_pair_views(defaults@).take(i + 1).drop_last() =~= prev);
        let (k, v) = defaults[i];
        m.insert_if_absent(String::from_str(k), String::from_str(v));
        i = i + 1;
    }
    assert(str_pair_views(defaults@).take(defaults@.len() as int) =~= str_pair_views(defaults@));
}

/// Builds a parameter map from `key=value` arguments, sets `workspace_id`
/// to `ws` (overriding an argument of that name) and adds each default
/// whose key has no value.
pub fn with_workspace(ws: u64, raw: &[String], defaults: &[(&str, &str)]) -> (r: ParamMap)
    ensures
        r@ == workspace_params(ws, string_views(raw@), str_pair_views(defaults@)),
{
    let mut m = parse_params(raw);
    m.insert(String::from_str("workspace_id"), u64_to_string(ws));
    proof {
        reveal_strlit("workspace_id");
    }
    assert("workspace_id"@ =~= workspace_key());
    fill_pairs(&mut m, defaults);
    m
}

/// A map holding `workspace_id` set to `ws`, then each pair of `pairs`.
pub fn ws_map(ws: u64, pairs: &[(&str, &str)]) -> (r: ParamMap)
    ensures
        r@ == workspace_pairs(ws, str_pair_views(pairs@)),
{
    let mut m = ParamMap::new();
    m.insert(String::from_str("workspace_id"), u64_to_string(ws));
    proof {
        reveal_strlit("workspace_id");
    }
    assert("workspace_id"@ =~= workspace_key());
    insert_pairs(&mut m, pairs);
    m
}


/// A parameter value as it is sent in a JSON body.
pub enum JsonScalar {
    Number(i64),
    Text(Seq<char>),
}

/// The JSON value sent for a parameter value: a number where the value reads
/// as an `i64`, else the string itself.
pub open spec fn coerce(v: Seq<char>) -> JsonScalar {
    match parse_i64(v) {
        Some(n) => JsonScalar::Number(n),
        None => JsonScalar::Text(v),
    }
}

/// A JSON number or string.
pub enum JsonValue {
    Number(i64),
    Text(String),
}

impl View for JsonValue {
    type V = JsonScalar;

    open spec fn view(&self) -> JsonScalar {
        match self {
            JsonValue::Number(n) => JsonScalar::Number(*n),
            JsonValue::Text(s) => JsonScalar::Text(s@),
        }
    }
}

/// The names and values of a list of JSON fields.
pub open spec fn field_views(s: Seq<(String, JsonValue)>) -> Seq<(Seq<char>, JsonScalar)> {
    s.map_values(|e: (String, JsonValue)| (e.0@, e.1@))
}

/// A flat JSON object: each name once, each value a number or a string.
pub struct JsonObject {
    fields: Vec<(String, JsonValue)>,
}

impl JsonObject {
    #[verifier::type_invariant]
    spec fn distinct(self) -> bool {
        keys_distinct(field_views(self.fields@))
    }

    /// The map from field names to values.
    pub closed spec fn spec_map(self) -> Map<Seq<char>, JsonScalar> {
        pairs_map(field_views(self.fields@))
    }

    /// The fields as name/value pairs, each name once.
    pub fn fields(&self) -> (r: &Vec<(String, JsonValue)>)
        ensures
            keys_distinct(field_views(r@)),
            pairs_map(field_views(r@)) == self@,
    {
        proof {
            use_type_invariant(self);
        }
        &self.fields
    }
}

impl View for JsonObject {
    type V = Map<Seq<char>, JsonScalar>;

    open spec fn view(&self) -> Map<Seq<char>, JsonScalar> {
        self.spec_map()
    }
}

/// The JSON value for one parameter value.
pub fn json_value(v: &String) -> (r: JsonValue)
    ensures
        r@ == coerce(v@),
{
    match parse_i64_str(v.as_str()) {
        Some(n) => JsonValue::Number(n),
        None => JsonValue::Text(v.clone()),
    }
}

/// The parameters as a JSON object, with each value that reads as an `i64`
/// sent as a number.
pub fn to_json(params: &ParamMap) -> (r: JsonObject)
    ensures
        r@ == params@.map_values(|v: Seq<char>| coerce(v)),
{
    let entries = params.entries();
    let ghost src = pair_views(entries@);
    let mut fields: Vec<(String, JsonValue)> = Vec::new();
    let mut i: usize = 0;
    while i < entries.len()
        invariant
            i <= entries@.len(),
            src == pair_views(entries@),
            keys_distinct(src),
            fields@.len() == i,
            forall|j: int|
                0 <= j < i ==> #[trigger] field_views(fields@)[j] == (src[j].0, coerce(src[j].1)),
        decreases entries@.len() - i,
    {
        let (k, v) = &entries[i];
        let value = json_value(v);
        let ghost before = fields@;
        fields.push((k.clone(), value));
        i = i + 1;
        assert(field_views(fields@)[i - 1] == (src[i - 1].0, coerce(src[i - 1].1)));
        assert forall|j: int| 0 <= j < i - 1 implies #[trigger] field_views(fields@)[j]
            == field_views(before)[j] by {
            assert(fields@[j] == before[j]);
        }
    }
    let ghost fv = field_views(fields@);
    assert forall|a: int, b: int| 0 <= a < b < fv.len() implies #[trigger] fv[a].0
        != #[trigger] fv[b].0 by {
        assert(src[a].0 != src[b].0);
    }
    let r = JsonObject { fields };
    assert forall|k: Seq<char>| has_key(fv, k) <==> has_key(src, k) by {
        if has_key(fv, k) {
            let j = choose|j: int| 0 <= j < fv.len() && #[trigger] fv[j].0 == k;
            assert(src[j].0 == k);
        }
        if has_key(src, k) {
            let j = choose|j: int| 0 <= j < src.len() && #[trigger] src[j].0 == k;
            assert(fv[j].0 == k);
        }
    }
    assert forall|k: Seq<char>| #[trigger] pairs_map(fv).contains_key(k) implies pairs_map(fv)[k]
        == coerce(pairs_map(src)[k]) by {
        let j = choose|j: int| 0 <= j < fv.len() && #[trigger] fv[j].0 == k;
        lemma_pairs_map_at(fv, j);
        lemma_pairs_map_at(src, j);
    }
    assert(r@ =~= params@.map_values(|v: Seq<char>| coerce(v)));
    r
}


proof fn lemma_fill_defaults(
    m: Map<Seq<char>, Seq<char>>,
    defaults: Seq<(Seq<char>, Seq<char>)>,
)
    ensures
        forall|k: Seq<char>| #[trigger]
            m.contains_key(k) ==> fill_defaults(m, defaults).contains_key(k)
                && fill_defaults(m, defaults)[k] == m[k],
        forall|i: int|
            0 <= i < defaults.len() ==> fill_defaults(m, defaults).contains_key(
                (#[trigger] defaults[i]).0,
            ),
        forall|k: Seq<char>| #[trigger]
            fill_defaults(m, defaults).contains_key(k) ==> m.contains_key(k) || exists|i: int|
                0 <= i < defaults.len() && (#[trigger] defaults[i]).0 == k,
    decreases defaults.len(),
{
    if defaults.len() > 0 {
        let dl = defaults.drop_last();
        lemma_fill_defaults(m, dl);
        let p = fill_defaults(m, dl);
        assert forall|i: int| 0 <= i < defaults.len() implies fill_defaults(
            m,
            defaults,
        ).contains_key((#[trigger] defaults[i]).0) by {
            if i < defaults.len() - 1 {
                assert(defaults[i] == dl[i]);
            }
        }
        assert forall|k: Seq<char>| #[trigger]
            fill_defaults(m, defaults).contains_key(k) implies m.contains_key(k) || exists|i: int|
            0 <= i < defaults.len() && (#[trigger] defaults[i]).0 == k by {
            if !m.contains_key(k) && p.contains_key(k) {
                let i = choose|i: int| 0 <= i < dl.len() && (#[trigger] dl[i]).0 == k;
                assert(defaults[i] == dl[i]);
            }
            if !p.contains_key(k) {
                assert(defaults[defaults.len() - 1] == defaults.last());
            }
        }
    }
}

/// What `with_workspace` promises: `workspace_id` is the given workspace
/// whatever the arguments say; every other argument keeps the value it was
/// given; each default is present, and holds its default value only where
/// no argument set that key.
pub proof fn lemma_workspace_params(
    ws: u64,
    raw: Seq<Seq<char>>,
    defaults: Seq<(Seq<char>, Seq<char>)>,
)
    ensures
        workspace_params(ws, raw, defaults).contains_key(workspace_key()),
        workspace_params(ws, raw, defaults)[workspace_key()] == decimal(ws as nat),
        forall|k: Seq<char>|
            k != workspace_key() && #[trigger] parsed_params(raw).contains_key(k) ==> workspace_params(
                ws,
                raw,
                defaults,
            ).contains_key(k) && workspace_params(ws, raw, defaults)[k] == parsed_params(raw)[k],
        forall|i: int|
            0 <= i < defaults.len() ==> workspace_params(ws, raw, defaults).contains_key(
                (#[trigger] defaults[i]).0,
            ),
        forall|k: Seq<char>| #[trigger]
            workspace_params(ws, raw, defaults).contains_key(k) ==> k == workspace_key()
                || parsed_params(raw).contains_key(k) || exists|i: int|
                0 <= i < defaults.len() && (#[trigger] defaults[i]).0 == k,
{
    let m = parsed_params(raw).insert(workspace_key(), decimal(ws as nat));
    lemma_fill_defaults(m, defaults);
    assert forall|k: Seq<char>|
        k != workspace_key() && #[trigger] parsed_params(raw).contains_key(k) implies workspace_params(
        ws,
        raw,
        defaults,
    ).contains_key(k) && workspace_params(ws, raw, defaults)[k] == parsed_params(raw)[k] by {
        assert(m.contains_key(k));
    }
    assert(m.contains_key(workspace_key()));
}

/// Sent as JSON, the parameters that `with_workspace` builds carry the
/// workspace as a number (for a workspace ID that fits in `i64`).
pub proof fn lemma_workspace_id_is_number(
    ws: u64,
    raw: Seq<Seq<char>>,
    defaults: Seq<(Seq<char>, Seq<char>)>,
)
    requires
        ws <= i64::MAX,
    ensures
        workspace_params(ws, raw, defaults).map_values(|v: Seq<char>| coerce(v))[workspace_key()]
            == JsonScalar::Number(ws as i64),
{
    lemma_workspace_params(ws, raw, defaults);
    crate::text::lemma_parse_decimal(ws as nat);
}

} // verus!
