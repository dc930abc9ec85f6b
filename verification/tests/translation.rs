use lldb_attach::json::Json;
use lldb_attach::AttachBundle;
use lldb_attach::RequestKind;
use lldb_attach::Translator;

fn s(x: &str) -> String {
    x.to_string()
}

fn jstr(x: &str) -> Json {
    Json::Str(s(x))
}

fn obj(entries: Vec<(&str, Json)>) -> Json {
    Json::Obj(entries.into_iter().map(|(k, v)| (s(k), v)).collect())
}

fn arr(items: Vec<Json>) -> Json {
    Json::Arr(items)
}

fn get_strings(cfg: &Json, key: &str) -> Vec<String> {
    match cfg.get(key) {
        Some(Json::Arr(items)) => items
            .iter()
            .map(|j| match j {
                Json::Str(t) => t.clone(),
                _ => panic!("entry under {key} is not a string"),
            })
            .collect(),
        _ => panic!("missing array under {key}"),
    }
}

fn translate_ok(config: Json, root: &str) -> AttachBundle {
    let mut t = Translator::new();
    t.classify(config);
    t.translate(root, "").expect("translation should succeed")
}

#[test]
fn classify_launch_and_attach() {
    let mut t = Translator::new();
    assert_eq!(t.classify(obj(vec![("request", jstr("launch"))])), RequestKind::Launch);
    assert_eq!(t.classify(obj(vec![("request", jstr("attach"))])), RequestKind::Attach);
    assert_eq!(t.classify(obj(vec![])), RequestKind::Attach);
    assert_eq!(t.classify(obj(vec![("request", jstr("foo"))])), RequestKind::Attach);
    assert_eq!(t.classify(obj(vec![("request", Json::Bool(true))])), RequestKind::Attach);
}

#[test]
fn missing_target_fails() {
    let mut t = Translator::new();
    t.classify(obj(vec![("program", jstr("/bin/a"))]));
    let err = t.translate("/home/alice/proj", "").unwrap_err();
    assert_eq!(err, "missing or invalid `target` (expected tcp://HOST:PORT)");
}

#[test]
fn non_string_target_fails() {
    let mut t = Translator::new();
    t.classify(obj(vec![("target", Json::Number(s("1234")))]));
    assert!(t.translate("/home/alice/proj", "").is_err());
}

#[test]
fn target_without_tcp_prefix_fails() {
    let mut t = Translator::new();
    t.classify(obj(vec![("target", jstr("1.2.3.4:1234"))]));
    assert!(t.translate("/home/alice/proj", "").is_err());
}

#[test]
fn translate_without_classify_fails() {
    let t = Translator::new();
    assert!(t.translate("/home/alice/proj", "").is_err());
}

#[test]
fn attach_commands_for_program_and_target() {
    let cfg = obj(vec![
        ("target", jstr("tcp://1.2.3.4:1234")),
        ("program", jstr("${HOME}/a.out")),
    ]);
    let bundle = translate_ok(cfg, "/home/alice/proj");
    let cmds = get_strings(&bundle.configuration, "attachCommands");
    assert_eq!(
        cmds,
        vec![s("target create /home/alice/a.out"), s("gdb-remote 1.2.3.4:1234")]
    );
}

#[test]
fn user_attach_commands_follow_remote_connect() {
    let cfg = obj(vec![
        ("target", jstr("tcp://1.2.3.4:1234")),
        ("program", jstr("${HOME}/a.out")),
        ("attachCommands", arr(vec![jstr("b x")])),
    ]);
    let bundle = translate_ok(cfg, "/home/alice/proj");
    let cmds = get_strings(&bundle.configuration, "attachCommands");
    assert_eq!(
        cmds,
        vec![
            s("target create /home/alice/a.out"),
            s("gdb-remote 1.2.3.4:1234"),
            s("b x"),
        ]
    );
}

#[test]
fn non_string_attach_commands_are_skipped() {
    let cfg = obj(vec![
        ("target", jstr("tcp://h:1")),
        ("attachCommands", arr(vec![Json::Bool(true), jstr("c one"), Json::Null, jstr("c two")])),
    ]);
    let bundle = translate_ok(cfg, "/srv/x");
    let cmds = get_strings(&bundle.configuration, "attachCommands");
    assert_eq!(cmds, vec![s("gdb-remote h:1"), s("c one"), s("c two")]);
}

#[test]
fn no_program_means_no_target_create() {
    let cfg = obj(vec![("target", jstr("tcp://h:1"))]);
    let bundle = translate_ok(cfg, "/home/alice/proj");
    let cmds = get_strings(&bundle.configuration, "attachCommands");
    assert_eq!(cmds, vec![s("gdb-remote h:1")]);
}

#[test]
fn path_mappings_expanded_and_source_map_generated() {
    let cfg = obj(vec![
        ("target", jstr("tcp://1.2.3.4:1234")),
        (
            "pathMappings",
            arr(vec![obj(vec![
                ("localRoot", jstr("${HOME}/src")),
                ("remoteRoot", jstr("/remote/src")),
            ])]),
        ),
    ]);
    let bundle = translate_ok(cfg, "/home/alice/proj");

    match bundle.configuration.get("pathMappings") {
        Some(Json::Arr(items)) => {
            assert_eq!(items.len(), 1);
            match items[0].get("localRoot") {
                Some(Json::Str(t)) => assert_eq!(t.as_str(), "/home/alice/src"),
                _ => panic!("localRoot missing"),
            }
            match items[0].get("remoteRoot") {
                Some(Json::Str(t)) => assert_eq!(t.as_str(), "/remote/src"),
                _ => panic!("remoteRoot missing"),
            }
        }
        _ => panic!("pathMappings missing"),
    }

    let inits = get_strings(&bundle.configuration, "initCommands");
    assert_eq!(inits, vec![s("settings set target.source-map /remote/src /home/alice/src")]);
}

#[test]
fn user_init_commands_precede_source_map() {
    let cfg = obj(vec![
        ("target", jstr("tcp://h:1")),
        ("initCommands", arr(vec![jstr("settings set x y"), Json::Number(s("3"))])),
        (
            "pathMappings",
            arr(vec![obj(vec![
                ("localRoot", jstr("/l")),
                ("remoteRoot", jstr("/r")),
            ])]),
        ),
    ]);
    let bundle = translate_ok(cfg, "/home/alice/proj");
    let inits = get_strings(&bundle.configuration, "initCommands");
    assert_eq!(
        inits,
        vec![s("settings set x y"), s("settings set target.source-map /r /l")]
    );
}

#[test]
fn remote_root_is_expanded_too() {
    let cfg = obj(vec![
        ("target", jstr("tcp://h:1")),
        (
            "pathMappings",
            arr(vec![obj(vec![
                ("localRoot", jstr("/l")),
                ("remoteRoot", jstr("${HOME}/r")),
            ])]),
        ),
    ]);
    let bundle = translate_ok(cfg, "/home/alice/proj");
    match bundle.configuration.get("pathMappings") {
        Some(Json::Arr(items)) => match items[0].get("remoteRoot") {
            Some(Json::Str(t)) => assert_eq!(t.as_str(), "/home/alice/r"),
            _ => panic!("remoteRoot missing"),
        },
        _ => panic!("pathMappings missing"),
    }
    let inits = get_strings(&bundle.configuration, "initCommands");
    assert_eq!(inits, vec![s("settings set target.source-map /home/alice/r /l")]);
}

#[test]
fn user_placeholder_expands_through_inferred_home() {
    let cfg = obj(vec![
        ("target", jstr("tcp://h:1")),
        ("program", jstr("/opt/${USER}/bin/a-$USER")),
    ]);
    let bundle = translate_ok(cfg, "/home/bob/proj");
    let cmds = get_strings(&bundle.configuration, "attachCommands");
    assert_eq!(cmds, vec![s("target create /opt/bob/bin/a-bob"), s("gdb-remote h:1")]);
}

#[test]
fn mapping_without_both_roots_gives_no_source_map() {
    let cfg = obj(vec![
        ("target", jstr("tcp://h:1")),
        ("pathMappings", arr(vec![obj(vec![("localRoot", jstr("/l"))])])),
    ]);
    let bundle = translate_ok(cfg, "/srv/x");
    assert!(bundle.configuration.get("initCommands").is_none());
}

#[test]
fn non_conforming_mapping_passes_through() {
    let cfg = obj(vec![
        ("target", jstr("tcp://h:1")),
        ("pathMappings", arr(vec![jstr("odd"), Json::Null])),
    ]);
    let bundle = translate_ok(cfg, "/srv/x");
    match bundle.configuration.get("pathMappings") {
        Some(Json::Arr(items)) => {
            assert_eq!(items.len(), 2);
            assert!(matches!(&items[0], Json::Str(t) if t.as_str() == "odd"));
            assert!(matches!(items[1], Json::Null));
        }
        _ => panic!("pathMappings missing"),
    }
}

#[test]
fn init_commands_omitted_when_both_sources_absent() {
    let cfg = obj(vec![("target", jstr("tcp://h:1"))]);
    let bundle = translate_ok(cfg, "/home/alice/proj");
    assert!(bundle.configuration.get("initCommands").is_none());
    assert!(bundle.configuration.get("pathMappings").is_none());
}

#[test]
fn env_absent_gives_no_pairs() {
    let cfg = obj(vec![("target", jstr("tcp://h:1"))]);
    let bundle = translate_ok(cfg, "/srv/x");
    assert!(bundle.envs.is_empty());
}

#[test]
fn env_pairs_follow_input_order_and_stringify() {
    let cfg = obj(vec![
        ("target", jstr("tcp://h:1")),
        ("env", obj(vec![("X", jstr("1")), ("Y", Json::Number(s("2")))])),
    ]);
    let bundle = translate_ok(cfg, "/srv/x");
    assert_eq!(bundle.envs, vec![(s("X"), s("1")), (s("Y"), s("2"))]);
}

#[test]
fn stop_on_entry_carried_through() {
    let cfg = obj(vec![
        ("target", jstr("tcp://h:1")),
        ("stopOnEntry", Json::Bool(true)),
    ]);
    let bundle = translate_ok(cfg, "/srv/x");
    assert!(matches!(bundle.configuration.get("stopOnEntry"), Some(Json::Bool(true))));
}

#[test]
fn output_request_is_attach_even_for_launch() {
    let cfg = obj(vec![
        ("request", jstr("launch")),
        ("target", jstr("tcp://h:1")),
    ]);
    let mut t = Translator::new();
    let kind = t.classify(cfg);
    assert_eq!(kind, RequestKind::Launch);
    let bundle = t.translate("/srv/x", "").unwrap();
    assert_eq!(bundle.request, RequestKind::Launch);
    match bundle.configuration.get("request") {
        Some(Json::Str(t)) => assert_eq!(t.as_str(), "attach"),
        _ => panic!("request missing"),
    }
}

#[test]
fn fixed_command_and_empty_arguments() {
    let cfg = obj(vec![("target", jstr("tcp://h:1"))]);
    let bundle = translate_ok(cfg, "/srv/x");
    assert_eq!(bundle.command, "lldb-dap-20");
    assert!(bundle.arguments.is_empty());
}

#[test]
fn translate_reads_state_without_consuming_it() {
    let mut t = Translator::new();
    t.classify(obj(vec![("target", jstr("tcp://h:1"))]));
    let a = t.translate("/home/alice/proj", "").unwrap();
    let b = t.translate("/home/alice/proj", "").unwrap();
    assert_eq!(
        get_strings(&a.configuration, "attachCommands"),
        get_strings(&b.configuration, "attachCommands")
    );
}

#[test]
fn reclassify_overwrites_cache() {
    let mut t = Translator::new();
    t.classify(obj(vec![("target", jstr("tcp://old:1"))]));
    t.classify(obj(vec![("target", jstr("tcp://new:2"))]));
    let bundle = t.translate("/srv/x", "").unwrap();
    let cmds = get_strings(&bundle.configuration, "attachCommands");
    assert_eq!(cmds, vec![s("gdb-remote new:2")]);
}

#[test]
fn env_home_fallback_feeds_expansion() {
    let cfg = obj(vec![
        ("target", jstr("tcp://h:1")),
        ("program", jstr("${HOME}/a.out")),
    ]);
    let mut t = Translator::new();
    t.classify(cfg);
    let bundle = t.translate("/srv/x", "/home/carol").unwrap();
    let cmds = get_strings(&bundle.configuration, "attachCommands");
    assert_eq!(cmds, vec![s("target create /home/carol/a.out"), s("gdb-remote h:1")]);
}
