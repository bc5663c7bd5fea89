//! Short TAPD IDs (at most nine digits) and their long form: a two-digit
//! prefix (`11` on the cloud service, `10` elsewhere), the workspace ID, and
//! the short ID padded to nine digits.

use vstd::prelude::*;

use crate::text::{
    all_digits, chars_of, char_seqs, extend_chars, is_ascii_digit, is_digit, is_white, join,
    join_chars, lemma_split_join, lemma_split_pieces, lemma_split_without_sep, lemma_trim_fixed,
    lemma_trim_idempotent, lemma_trim_keeps_absent, pad_zeros, split, split_chars, string_of, trim,
    trim_chars,
};

verus! {

/// The prefix of long IDs.
pub open spec fn id_prefix(cloud: bool) -> Seq<char> {
    if cloud {
        seq!['1', '1']
    } else {
        seq!['1', '0']
    }
}

/// A trimmed piece that is converted: at most nine characters, all ASCII
/// digits, which is the same as at most nine bytes, all ASCII digits.
pub open spec fn is_short_id(t: Seq<char>) -> bool {
    t.len() <= 9 && all_digits(t)
}

/// The long form of one comma-separated piece.
pub open spec fn long_id(piece: Seq<char>, ws: Seq<char>, cloud: bool) -> Seq<char> {
    let t = trim(piece);
    if is_short_id(t) {
        id_prefix(cloud) + ws + pad_zeros(t, 9)
    } else {
        t
    }
}

/// Each comma-separated piece of `s` in long form, joined by commas.
pub open spec fn long_ids(s: Seq<char>, ws: Seq<char>, cloud: bool) -> Seq<char> {
    join(split(s, ',').map_values(|p: Seq<char>| long_id(p, ws, cloud)), ',')
}

fn all_ascii_digits(s: &[char]) -> (r: bool)
    ensures
        r == all_digits(s@),
{
    let mut i: usize = 0;
    while i < s.len()
        invariant
            i <= s@.len(),
            forall|k: int| 0 <= k < i ==> is_digit(#[trigger] s@[k]),
        decreases s@.len() - i,
    {
        if !is_ascii_digit(s[i]) {
            return false;
        }
        i = i + 1;
    }
    true
}

/// `format!("{s:0>w}")` on characters.
pub fn pad_zeros_chars(s: &[char], w: usize) -> (r: Vec<char>)
    ensures
        r@ == pad_zeros(s@, w as nat),
{
    let mut r: Vec<char> = Vec::new();
    if s.len() < w {
        let mut i: usize = 0;
        while i < w - s.len()
            invariant
                s@.len() < w,
                i <= w - s@.len(),
                r@ == Seq::new(i as nat, |j: int| '0'),
            decreases w - s@.len() - i,
        {
            r.push('0');
            i = i + 1;
            assert(r@ =~= Seq::new(i as nat, |j: int| '0'));
        }
    }
    extend_chars(&mut r, s);
    assert(s@.len() >= w ==> r@ =~= s@);
    r
}

fn long_id_chars(piece: &[char], ws: &[char], cloud: bool) -> (r: Vec<char>)
    ensures
        r@ == long_id(piece@, ws@, cloud),
{
    let t = trim_chars(piece);
    if t.len() <= 9 && all_ascii_digits(t.as_slice()) {
        let mut r: Vec<char> = Vec::new();
        r.push('1');
        r.push(if cloud { '1' } else { '0' });
        assert(r@ =~= id_prefix(cloud));
        extend_chars(&mut r, ws);
        let padded = pad_zeros_chars(t.as_slice(), 9);
        extend_chars(&mut r, padded.as_slice());
        r
    } else {
        t
    }
}

/// Converts each comma-separated short ID in `id_str` to its long form;
/// pieces are trimmed, and pieces that are not short IDs are kept as they
/// are.
pub fn to_long_ids(id_str: &str, workspace_id: &str, is_cloud: bool) -> (r: String)
    ensures
        r@ == long_ids(id_str@, workspace_id@, is_cloud),
        !id_str@.contains(',') ==> r@ == long_id(id_str@, workspace_id@, is_cloud),
{
    let cs = chars_of(id_str);
    let ws = chars_of(workspace_id);
    let parts = split_chars(cs.as_slice(), ',');
    let ghost pieces = split(id_str@, ',');
    let mut out: Vec<Vec<char>> = Vec::new();
    let mut i: usize = 0;
    while i < parts.len()
        invariant
            i <= parts@.len(),
            char_seqs(parts@) == pieces,
            ws@ == workspace_id@,
            out@.len() == i,
            forall|j: int|
                0 <= j < i ==> #[trigger] char_seqs(out@)[j] == long_id(pieces[j], ws@, is_cloud),
        decreases parts@.len() - i,
    {
        let ghost before = out@;
        let converted = long_id_chars(parts[i].as_slice(), ws.as_slice(), is_cloud);
        assert(parts@[i as int]@ == pieces[i as int]);
        let ghost cv = converted@;
        let ghost pi = pieces[i as int];
        assert(cv == long_id(pi, ws@, is_cloud));
        out.push(converted);
        i = i + 1;
        assert forall|j: int| 0 <= j < i implies #[trigger] char_seqs(out@)[j] == long_id(
            pieces[j],
            ws@,
            is_cloud,
        ) by {
            if j < i - 1 {
                assert(out@[j] == before[j]);
                assert(char_seqs(before)[j] == long_id(pieces[j], ws@, is_cloud));
            } else {
                assert(out@[j]@ == cv);
            }
        }
    }
    assert(char_seqs(out@) =~= pieces.map_values(|p: Seq<char>| long_id(p, ws@, is_cloud)));
    let joined = join_chars(&out, ',');
    proof {
        if !id_str@.contains(',') {
            lemma_split_without_sep(id_str@, ',');
            let m = pieces.map_values(|p: Seq<char>| long_id(p, ws@, is_cloud));
            assert(m.len() == 1);
        }
    }
    string_of(joined.as_slice())
}


proof fn lemma_pad_digits(t: Seq<char>)
    requires
        all_digits(t),
    ensures
        all_digits(pad_zeros(t, 9)),
        pad_zeros(t, 9).len() >= 9,
{
    let p = pad_zeros(t, 9);
    if t.len() < 9 {
        let z = Seq::new((9 - t.len()) as nat, |i: int| '0');
        assert forall|i: int| 0 <= i < p.len() implies is_digit(#[trigger] p[i]) by {
            if i < z.len() {
                assert(p[i] == z[i]);
            } else {
                assert(p[i] == t[i - z.len()]);
            }
        }
    }
}

proof fn lemma_long_id_short(t: Seq<char>, ws: Seq<char>, cloud: bool)
    requires
        is_short_id(t),
    ensures
        ({
            let r = id_prefix(cloud) + ws + pad_zeros(t, 9);
            &&& r.len() > 9
            &&& !is_white(r[0])
            &&& !is_white(r.last())
            &&& (!ws.contains(',') ==> !r.contains(','))
        }),
{
    lemma_pad_digits(t);
    let p = pad_zeros(t, 9);
    let pre = id_prefix(cloud);
    let r = pre + ws + p;
    assert(r[0] == pre[0]);
    assert(r.last() == p[p.len() - 1]);
    assert(is_digit(p[p.len() - 1]));
    if !ws.contains(',') && r.contains(',') {
        let k = choose|k: int| 0 <= k < r.len() && r[k] == ',';
        if k < 2 {
            assert(r[k] == pre[k]);
        } else if k < 2 + ws.len() {
            assert(r[k] == ws[k - 2]);
        } else {
            assert(r[k] == p[k - 2 - ws.len()]);
            assert(is_digit(p[k - 2 - ws.len()]));
        }
    }
}

/// Converting a piece that is already converted changes nothing.
proof fn lemma_long_id_fixed(p: Seq<char>, ws: Seq<char>, cloud: bool)
    ensures
        long_id(long_id(p, ws, cloud), ws, cloud) == long_id(p, ws, cloud),
        !p.contains(',') && !ws.contains(',') ==> !long_id(p, ws, cloud).contains(','),
{
    let t = trim(p);
    if is_short_id(t) {
        lemma_long_id_short(t, ws, cloud);
        let r = id_prefix(cloud) + ws + pad_zeros(t, 9);
        lemma_trim_fixed(r);
    } else {
        lemma_trim_idempotent(p);
        if !p.contains(',') {
            lemma_trim_keeps_absent(p, ',');
        }
    }
}

/// Normalising IDs twice is normalising them once: the long form of an ID
/// is left as it is (for a workspace ID without a comma).
pub proof fn lemma_long_ids_idempotent(s: Seq<char>, ws: Seq<char>, cloud: bool)
    requires
        !ws.contains(','),
    ensures
        long_ids(long_ids(s, ws, cloud), ws, cloud) == long_ids(s, ws, cloud),
{
    let ps = split(s, ',');
    lemma_split_pieces(s, ',');
    let q = ps.map_values(|p: Seq<char>| long_id(p, ws, cloud));
    assert forall|i: int| 0 <= i < q.len() implies !(#[trigger] q[i]).contains(',') by {
        lemma_long_id_fixed(ps[i], ws, cloud);
    }
    lemma_split_join(q, ',');
    let q2 = q.map_values(|p: Seq<char>| long_id(p, ws, cloud));
    assert forall|i: int| 0 <= i < q.len() implies #[trigger] q2[i] == q[i] by {
        lemma_long_id_fixed(ps[i], ws, cloud);
    }
    assert(q2 =~= q);
}


proof fn lemma_single_piece(p: Seq<char>, ws: Seq<char>, cloud: bool)
    requires
        !p.contains(','),
    ensures
        long_ids(p, ws, cloud) == long_id(p, ws, cloud),
{
    lemma_split_without_sep(p, ',');
    let m = split(p, ',').map_values(|q: Seq<char>| long_id(q, ws, cloud));
    assert(m.len() == 1);
    assert(m[0] == long_id(p, ws, cloud));
}

/// An ID of at most nine ASCII digits (after trimming; zeros and the empty
/// ID included) becomes `11` on the cloud service, `10` elsewhere, then the
/// workspace ID, then the ID padded on the left with zeros to nine digits.
pub proof fn lemma_short_id_long_form(p: Seq<char>, ws: Seq<char>, cloud: bool)
    requires
        !p.contains(','),
        trim(p).len() <= 9,
        forall|i: int| 0 <= i < trim(p).len() ==> '0' <= #[trigger] trim(p)[i] <= '9',
    ensures
        long_ids(p, ws, cloud) == seq!['1', if cloud { '1' } else { '0' }] + ws + Seq::new(
            (9 - trim(p).len()) as nat,
            |i: int| '0',
        ) + trim(p),
{
    lemma_single_piece(p, ws, cloud);
    let t = trim(p);
    assert(is_short_id(t));
    if t.len() == 9 {
        assert(Seq::new(0nat, |i: int| '0') + t =~= t);
    }
    assert(id_prefix(cloud) =~= seq!['1', if cloud { '1' } else { '0' }]);
    assert(id_prefix(cloud) + ws + pad_zeros(t, 9) =~= seq!['1', if cloud { '1' } else { '0' }]
        + ws + Seq::new((9 - t.len()) as nat, |i: int| '0') + t);
}

/// An ID that is longer than nine characters after trimming, or holds a
/// character that is not an ASCII digit, is only trimmed.
pub proof fn lemma_other_id_kept(p: Seq<char>, ws: Seq<char>, cloud: bool)
    requires
        !p.contains(','),
        trim(p).len() > 9 || exists|i: int|
            0 <= i < trim(p).len() && !('0' <= #[trigger] trim(p)[i] <= '9'),
    ensures
        long_ids(p, ws, cloud) == trim(p),
{
    lemma_single_piece(p, ws, cloud);
    if trim(p).len() <= 9 {
        let i = choose|i: int| 0 <= i < trim(p).len() && !('0' <= #[trigger] trim(p)[i] <= '9');
        assert(!is_digit(trim(p)[i]));
    }
}

} // verus!
