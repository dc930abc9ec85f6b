use lldb_attach::json::Json;
use lldb_attach::Translator;

fn s(x: &str) -> String {
    x.to_string()
}

#[test]
fn scalars_render_canonically() {
    assert_eq!(Json::Null.to_text(), "null");
    assert_eq!(Json::Bool(true).to_text(), "true");
    assert_eq!(Json::Bool(false).to_text(), "false");
    assert_eq!(Json::Number(s("42")).to_text(), "42");
    assert_eq!(Json::Str(s("hi")).to_text(), "\"hi\"");
}

#[test]
fn strings_are_escaped() {
    assert_eq!(Json::Str(s("a\"b")).to_text(), "\"a\\\"b\"");
    assert_eq!(Json::Str(s("a\\b")).to_text(), "\"a\\\\b\"");
    assert_eq!(Json::Str(s("a\nb\tc")).to_text(), "\"a\\nb\\tc\"");
    assert_eq!(Json::Str(s("\u{1}")).to_text(), "\"\\u0001\"");
}

#[test]
fn arrays_and_objects_render_compactly() {
    let v = Json::Arr(vec![Json::Number(s("1")), Json::Str(s("x")), Json::Null]);
    assert_eq!(v.to_text(), "[1,\"x\",null]");
    let o = Json::Obj(vec![
        (s("a"), Json::Number(s("1"))),
        (s("b"), Json::Arr(vec![])),
        (s("c"), Json::Obj(vec![])),
    ]);
    assert_eq!(o.to_text(), "{\"a\":1,\"b\":[],\"c\":{}}");
}

#[test]
fn rendering_agrees_with_a_reference_parser() {
    let o = Json::Obj(vec![
        (s("request"), Json::Str(s("attach"))),
        (s("attachCommands"), Json::Arr(vec![Json::Str(s("gdb-remote h:1"))])),
        (s("stopOnEntry"), Json::Bool(true)),
        (s("n"), Json::Number(s("7"))),
    ]);
    let parsed: serde_json::Value = serde_json::from_str(&o.to_text()).expect("valid JSON");
    let expected: serde_json::Value = serde_json::from_str(
        "{\"request\":\"attach\",\"attachCommands\":[\"gdb-remote h:1\"],\"stopOnEntry\":true,\"n\":7}",
    )
    .unwrap();
    assert_eq!(parsed, expected);
}

#[test]
fn whole_output_configuration_renders_exactly() {
    let cfg = Json::Obj(vec![
        (s("target"), Json::Str(s("tcp://1.2.3.4:1234"))),
        (s("program"), Json::Str(s("${HOME}/a.out"))),
    ]);
    let mut t = Translator::new();
    t.classify(cfg);
    let bundle = t.translate("/home/alice/proj", "").unwrap();
    assert_eq!(
        bundle.configuration.to_text(),
        "{\"request\":\"attach\",\"attachCommands\":[\"target create /home/alice/a.out\",\"gdb-remote 1.2.3.4:1234\"]}"
    );
}

#[test]
fn deep_copy_is_structurally_identical() {
    let v = Json::Obj(vec![
        (s("a"), Json::Arr(vec![Json::Bool(false), Json::Str(s("x\n"))])),
        (s("b"), Json::Null),
    ]);
    let c = v.deep_copy();
    assert_eq!(c.to_text(), v.to_text());
}

#[test]
fn get_finds_only_present_keys() {
    let v = Json::Obj(vec![(s("a"), Json::Null)]);
    assert!(v.get("a").is_some());
    assert!(v.get("b").is_none());
    assert!(Json::Null.get("a").is_none());
}
