use tapd_cli::params::{parse_params, to_json, with_workspace, ws_map, JsonValue, ParamMap};

fn s(x: &str) -> String {
    x.to_string()
}

fn get(m: &ParamMap, k: &str) -> Option<String> {
    m.get(k).cloned()
}

fn field(o: &tapd_cli::params::JsonObject, k: &str) -> Option<String> {
    o.fields().iter().find(|(name, _)| name == k).map(|(_, v)| match v {
        JsonValue::Number(n) => format!("num:{n}"),
        JsonValue::Text(t) => format!("text:{t}"),
    })
}

#[test]
fn parse_params_splits_at_first_equals() {
    let m = parse_params(&[s("a=1"), s("b=x=y"), s("noequals"), s("c=")]);
    assert_eq!(m.len(), 3);
    assert_eq!(get(&m, "a"), Some(s("1")));
    assert_eq!(get(&m, "b"), Some(s("x=y")));
    assert_eq!(get(&m, "c"), Some(s("")));
    assert_eq!(get(&m, "noequals"), None);
}

#[test]
fn parse_params_later_argument_wins() {
    let m = parse_params(&[s("status=open"), s("status=closed")]);
    assert_eq!(m.len(), 1);
    assert_eq!(get(&m, "status"), Some(s("closed")));
}

#[test]
fn parse_params_empty_key_and_no_args() {
    let m = parse_params(&[s("=v")]);
    assert_eq!(get(&m, ""), Some(s("v")));
    assert_eq!(parse_params(&[]).len(), 0);
}

#[test]
fn with_workspace_overrides_workspace_and_fills_defaults() {
    let m = with_workspace(
        12345678,
        &[s("workspace_id=9"), s("limit=20"), s("status=open")],
        &[("page", "1"), ("limit", "10")],
    );
    assert_eq!(m.len(), 4);
    assert_eq!(get(&m, "workspace_id"), Some(s("12345678")));
    assert_eq!(get(&m, "limit"), Some(s("20")));
    assert_eq!(get(&m, "page"), Some(s("1")));
    assert_eq!(get(&m, "status"), Some(s("open")));
}

#[test]
fn with_workspace_zero_and_max() {
    let m = with_workspace(0, &[], &[]);
    assert_eq!(get(&m, "workspace_id"), Some(s("0")));
    let m = with_workspace(u64::MAX, &[], &[]);
    assert_eq!(get(&m, "workspace_id"), Some(s("18446744073709551615")));
}

#[test]
fn ws_map_sets_pairs_in_order() {
    let m = ws_map(7, &[("object_id", "5"), ("type", "story"), ("type", "bug")]);
    assert_eq!(m.len(), 3);
    assert_eq!(get(&m, "workspace_id"), Some(s("7")));
    assert_eq!(get(&m, "object_id"), Some(s("5")));
    assert_eq!(get(&m, "type"), Some(s("bug")));
}

#[test]
fn to_json_coerces_integers_only() {
    let m = parse_params(&[
        s("a=12"),
        s("b=-7"),
        s("c=+3"),
        s("d=abc"),
        s("e="),
        s("f=9223372036854775807"),
        s("g=9223372036854775808"),
        s("h=-9223372036854775808"),
        s("i=1.5"),
        s("j=-"),
        s("k=007"),
        s("l= 1"),
    ]);
    let o = to_json(&m);
    assert_eq!(o.fields().len(), 12);
    assert_eq!(field(&o, "a"), Some(s("num:12")));
    assert_eq!(field(&o, "b"), Some(s("num:-7")));
    assert_eq!(field(&o, "c"), Some(s("num:3")));
    assert_eq!(field(&o, "d"), Some(s("text:abc")));
    assert_eq!(field(&o, "e"), Some(s("text:")));
    assert_eq!(field(&o, "f"), Some(s("num:9223372036854775807")));
    assert_eq!(field(&o, "g"), Some(s("text:9223372036854775808")));
    assert_eq!(field(&o, "h"), Some(s("num:-9223372036854775808")));
    assert_eq!(field(&o, "i"), Some(s("text:1.5")));
    assert_eq!(field(&o, "j"), Some(s("text:-")));
    assert_eq!(field(&o, "k"), Some(s("num:7")));
    assert_eq!(field(&o, "l"), Some(s("text: 1")));
}

#[test]
fn workspace_id_is_sent_as_number() {
    let m = with_workspace(12345678, &[s("name=x")], &[]);
    let o = to_json(&m);
    assert_eq!(field(&o, "workspace_id"), Some(s("num:12345678")));
}

#[test]
fn insert_and_insert_if_absent() {
    let mut m = ParamMap::new();
    m.insert(s("a"), s("1"));
    m.insert(s("a"), s("2"));
    m.insert_if_absent(s("a"), s("3"));
    m.insert_if_absent(s("b"), s("4"));
    assert_eq!(m.len(), 2);
    assert_eq!(get(&m, "a"), Some(s("2")));
    assert_eq!(get(&m, "b"), Some(s("4")));
}
