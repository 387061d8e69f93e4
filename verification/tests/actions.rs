use titanpl::actions::{
    actions_dir_candidates, bundle_file_names, find_actions_dir, join_path, resolve_actions_dir,
    split_file_name,
};
use titanpl::fast_path::{
    is_server_name, is_transport_name, transport_headers, FastPathRegistry, PrecomputedRoute,
};
use titanpl::json::JsonValue;
use titanpl::syntax::{analyze_action_source, role_of};

fn pairs(list: &[(&str, &str)]) -> Vec<(String, String)> {
    list.iter().map(|(k, v)| (k.to_string(), v.to_string())).collect()
}

#[test]
fn paths_are_joined_with_one_slash() {
    assert_eq!(join_path("/app", "actions"), "/app/actions");
    assert_eq!(join_path("/app/", "actions"), "/app/actions");
    assert_eq!(join_path("", "actions"), "actions");
    assert_eq!(join_path("/", "app"), "/app");
    assert_eq!(join_path(".", ".."), "./..");
}

#[test]
fn the_actions_are_looked_for_in_five_directories() {
    assert_eq!(
        actions_dir_candidates("/srv/app"),
        vec![
            "/srv/app/server/actions",
            "/srv/app/actions",
            "/srv/app/../server/actions",
            "/app/actions",
            "actions",
        ]
    );
}

#[test]
fn the_first_directory_that_is_present_is_taken() {
    assert_eq!(
        find_actions_dir("/p", &vec![false, true, true, false, true]),
        Some("/p/actions".to_string())
    );
    assert_eq!(
        find_actions_dir("/p", &vec![false, false, false, false, true]),
        Some("actions".to_string())
    );
    assert_eq!(find_actions_dir("/p", &vec![true]), Some("/p/server/actions".to_string()));
    assert_eq!(find_actions_dir("/p", &vec![false, false, false, false, false]), None);
    assert_eq!(find_actions_dir("/p", &vec![]), None);
    assert_eq!(find_actions_dir("/p", &vec![false, false, false, false, false, true]), None);
}

#[test]
fn the_directory_is_resolved_in_order() {
    assert_eq!(
        resolve_actions_dir(Some("/x".to_string()), true, Some("/y".to_string())),
        "/x"
    );
    assert_eq!(resolve_actions_dir(None, true, Some("/y".to_string())), "/app/actions");
    assert_eq!(resolve_actions_dir(None, false, Some("/y".to_string())), "/y");
    assert_eq!(resolve_actions_dir(None, false, None), "./actions");
}

#[test]
fn an_action_lies_in_a_bundle_or_a_script() {
    assert_eq!(
        bundle_file_names("hello"),
        ("hello.jsbundle".to_string(), "hello.js".to_string())
    );
}

#[test]
fn file_names_have_a_stem_and_an_extension() {
    let split = |name: &str| {
        let (stem, extension) = split_file_name(name);
        assert_eq!(
            std::path::Path::new(name).file_stem().map(|s| s.to_str().unwrap().to_string()),
            if name.is_empty() { None } else { Some(stem.clone()) },
            "stem of {name}"
        );
        assert_eq!(
            std::path::Path::new(name).extension().map(|s| s.to_str().unwrap().to_string()),
            extension,
            "extension of {name}"
        );
        (stem, extension)
    };
    assert_eq!(split("hello.js"), ("hello".to_string(), Some("js".to_string())));
    assert_eq!(split("a.b.jsbundle"), ("a.b".to_string(), Some("jsbundle".to_string())));
    assert_eq!(split("noext"), ("noext".to_string(), None));
    assert_eq!(split(".hidden"), (".hidden".to_string(), None));
    assert_eq!(split(".hidden.js"), (".hidden".to_string(), Some("js".to_string())));
    assert_eq!(split("dot."), ("dot".to_string(), Some(String::new())));
    assert_eq!(split(""), (String::new(), None));
}

#[test]
fn the_registry_serves_the_static_actions_of_a_directory() {
    let files = vec![
        ("json.jsbundle".to_string(), r#"function json(req){ return t.response.json({message:"Hello, World!"},{headers:{Server:"titanpl"}}); }"#.to_string()),
        ("db.js".to_string(), "function db(req){ return t.response.json(drift(t.db.query())); }".to_string()),
        ("notes.txt".to_string(), r#"function n(req){ return t.response.text("x"); }"#.to_string()),
        (".js".to_string(), r#"function n(req){ return t.response.text("x"); }"#.to_string()),
        ("text.js".to_string(), r#"function text(req){ return t.response.text("old"); }"#.to_string()),
        ("text.jsbundle".to_string(), r#"function text(req){ return t.response.text("new"); }"#.to_string()),
        ("broken.js".to_string(), "function (".to_string()),
    ];
    let registry = FastPathRegistry::build(&files);
    assert_eq!(registry.len(), 2);
    let json = registry.get("json").expect("served");
    assert_eq!(json.body.as_ref(), br#"{"message":"Hello, World!"}"#);
    assert_eq!(registry.get("text").unwrap().body.as_ref(), b"new");
    assert!(registry.get("db").is_none());
    assert!(registry.get("notes").is_none());
    assert!(registry.get("").is_none());
    assert!(registry.get("broken").is_none());
    assert_eq!(FastPathRegistry::build(&vec![]).len(), 0);
}

#[test]
fn actions_are_registered_one_by_one() {
    let mut registry = FastPathRegistry::new();
    let hello = analyze_action_source(r#"function f(req){ return t.response.text("hello"); }"#);
    let bye = analyze_action_source(r#"function f(req){ return t.response.text("bye"); }"#);
    assert_eq!(registry.len(), 0);
    registry.insert("a".to_string(), hello.unwrap());
    assert_eq!(registry.len(), 1);
    assert_eq!(registry.get("a").unwrap().body.as_ref(), b"hello");
    registry.insert("b".to_string(), bye.as_ref().unwrap().duplicate());
    registry.insert("a".to_string(), bye.unwrap());
    assert_eq!(registry.len(), 2);
    assert_eq!(registry.get("a").unwrap().body.as_ref(), b"bye");
}

#[test]
fn the_transport_sets_the_content_type_and_one_server_header() {
    let response = analyze_action_source(
        r#"function f(req){ return t.response.json({a: 1}, {headers: {"Content-Type": "text/x", SERVER: "mine", "X-Kept": "yes", server: "too"}}); }"#,
    )
    .unwrap();
    assert_eq!(response.extra_headers.len(), 4);
    assert_eq!(
        response.response_headers(),
        pairs(&[("content-type", "application/json"), ("server", "too"), ("X-Kept", "yes")])
    );
    let hello = analyze_action_source(
        r#"function json(req){ return t.response.json({message:"Hello, World!"},{headers:{Server:"titanpl"}}); }"#,
    )
    .unwrap();
    assert_eq!(hello.status, 200);
    assert_eq!(
        hello.response_headers(),
        pairs(&[("content-type", "application/json"), ("server", "titanpl")])
    );
    assert_eq!(
        transport_headers("text/plain", &pairs(&[("Server-Timing", "x"), ("CONTENT-TYPE", "y")])),
        pairs(&[("content-type", "text/plain"), ("server", "TitanPL"), ("Server-Timing", "x")])
    );
}

#[test]
fn reply_routes_are_computed_ahead() {
    let json = PrecomputedRoute::from_json(&JsonValue::Object(vec![(
        "ok".to_string(),
        JsonValue::Bool(true),
    )]));
    assert_eq!(json.content_type, "application/json");
    assert_eq!(json.body.as_ref(), br#"{"ok":true}"#);
    let text = PrecomputedRoute::from_text("héllo");
    assert_eq!(text.content_type, "text/plain; charset=utf-8");
    assert_eq!(text.body.as_ref(), "héllo".as_bytes());
    assert_eq!(
        text.response_headers(),
        pairs(&[("content-type", "text/plain; charset=utf-8"), ("server", "TitanPL")])
    );
}

fn file(name: &str, source: &str) -> (String, String) {
    (name.to_string(), source.to_string())
}

#[test]
fn the_bundle_of_an_action_is_preferred_in_any_order() {
    let script = file("text.js", r#"function text(req){ return t.response.text("script"); }"#);
    let bundle = file("text.jsbundle", r#"function text(req){ return t.response.text("bundle"); }"#);
    let first = FastPathRegistry::build(&vec![script.clone(), bundle.clone()]);
    let second = FastPathRegistry::build(&vec![bundle, script]);
    for registry in [first, second] {
        assert_eq!(registry.len(), 1);
        assert_eq!(registry.get("text").unwrap().body.as_ref(), b"bundle");
    }
}

#[test]
fn an_action_with_a_dynamic_bundle_is_not_served_from_its_script() {
    let script = file("db.js", r#"function db(req){ return t.response.text("static"); }"#);
    let bundle = file("db.jsbundle", "function db(req){ return t.response.json(req.query); }");
    assert_eq!(FastPathRegistry::build(&vec![script.clone(), bundle.clone()]).len(), 0);
    assert_eq!(FastPathRegistry::build(&vec![bundle, script.clone()]).len(), 0);
    assert_eq!(FastPathRegistry::build(&vec![script]).len(), 1);
}

#[test]
fn of_two_files_of_one_name_the_later_is_the_source() {
    let old = file("a.js", r#"function a(req){ return t.response.text("old"); }"#);
    let new = file("a.js", r#"function a(req){ return t.response.text("new"); }"#);
    let registry = FastPathRegistry::build(&vec![old, new]);
    assert_eq!(registry.len(), 1);
    assert_eq!(registry.get("a").unwrap().body.as_ref(), b"new");
}

#[test]
fn the_name_of_a_file_tells_its_role() {
    let bundle = role_of("json.jsbundle");
    assert_eq!(bundle.stem, "json");
    assert!(bundle.action && bundle.bundle);
    let script = role_of("json.js");
    assert!(script.action && !script.bundle);
    assert!(!role_of("notes.txt").action);
    assert!(!role_of("json").action);
    let hidden = role_of(".js");
    assert_eq!(hidden.stem, ".js");
    assert!(!hidden.action);
}

#[test]
fn the_transport_knows_its_own_headers_by_their_lowered_names() {
    assert!(is_transport_name("content-type"));
    assert!(is_transport_name("server"));
    assert!(!is_transport_name("Server"));
    assert!(!is_transport_name("content-length"));
    assert!(!is_transport_name("server-timing"));
    assert!(!is_transport_name(""));
    assert!(is_server_name("server"));
    assert!(!is_server_name("content-type"));
    assert!(!is_server_name("SERVER"));
}
