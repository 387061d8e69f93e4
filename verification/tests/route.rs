use titanpl::json::JsonValue;
use titanpl::number::JsNumber;
use titanpl::route::{
    get_param, insert_param, match_dynamic_route, match_route, parses_as_integer, path_segments,
    split_text, DynamicRoute, Resolution, RouteTable, RouteVal,
};

fn route(method: &str, pattern: &str, action: &str) -> DynamicRoute {
    DynamicRoute {
        method: method.to_string(),
        pattern: pattern.to_string(),
        action: action.to_string(),
    }
}

fn pairs(list: &[(&str, &str)]) -> Vec<(String, String)> {
    list.iter().map(|(k, v)| (k.to_string(), v.to_string())).collect()
}

fn chars(s: &str) -> Vec<char> {
    s.chars().collect()
}

#[test]
fn a_pattern_binds_its_placeholders() {
    let routes = vec![route("GET", "/users/:id", "user")];
    let (action, params) = match_dynamic_route("GET", "/users/42", &routes).expect("match");
    assert_eq!(action, "user");
    assert_eq!(params, pairs(&[("id", "42")]));
}

#[test]
fn a_number_placeholder_takes_integers_only() {
    let routes = vec![route("GET", "/users/:id<number>", "user")];
    assert!(match_dynamic_route("GET", "/users/42", &routes).is_some());
    assert!(match_dynamic_route("GET", "/users/-7", &routes).is_some());
    assert!(match_dynamic_route("GET", "/users/+7", &routes).is_some());
    assert!(match_dynamic_route("GET", "/users/abc", &routes).is_none());
    assert!(match_dynamic_route("GET", "/users/4.2", &routes).is_none());
    assert!(match_dynamic_route("GET", "/users/9223372036854775807", &routes).is_some());
    assert!(match_dynamic_route("GET", "/users/9223372036854775808", &routes).is_none());
    let (_, params) = match_dynamic_route("GET", "/users/007", &routes).unwrap();
    assert_eq!(params, pairs(&[("id", "007")]));
}

#[test]
fn a_string_placeholder_takes_anything_and_other_kinds_nothing() {
    let strings = vec![route("GET", "/a/:x<string>", "s")];
    assert!(match_dynamic_route("GET", "/a/anything", &strings).is_some());
    let unknown = vec![route("GET", "/a/:x<uuid>", "u")];
    assert!(match_dynamic_route("GET", "/a/anything", &unknown).is_none());
    let unclosed = vec![route("GET", "/a/:x<number", "n")];
    assert!(match_dynamic_route("GET", "/a/12", &unclosed).is_some());
    assert!(match_dynamic_route("GET", "/a/ab", &unclosed).is_none());
    let many = vec![route("GET", "/a/:x<number>>>", "n")];
    let (_, params) = match_dynamic_route("GET", "/a/12", &many).unwrap();
    assert_eq!(params, pairs(&[("x", "12")]));
}

#[test]
fn literal_segments_must_be_equal_and_counts_too() {
    let routes = vec![route("GET", "/users/:id/posts", "posts")];
    assert!(match_dynamic_route("GET", "/users/1/posts", &routes).is_some());
    assert!(match_dynamic_route("GET", "/users/1/post", &routes).is_none());
    assert!(match_dynamic_route("GET", "/users/1", &routes).is_none());
    assert!(match_dynamic_route("GET", "/users/1/posts/2", &routes).is_none());
    assert!(match_dynamic_route("GET", "/users//posts", &routes).is_some());
}

#[test]
fn slashes_at_the_ends_do_not_count() {
    let routes = vec![route("GET", "users/:id/", "user")];
    assert!(match_dynamic_route("GET", "///users/1//", &routes).is_some());
    assert!(match_dynamic_route("GET", "users/1", &routes).is_some());
    let root = vec![route("GET", "/", "root")];
    assert!(match_dynamic_route("GET", "/", &root).is_some());
    assert!(match_dynamic_route("GET", "", &root).is_some());
    assert!(match_dynamic_route("GET", "/a", &root).is_none());
}

#[test]
fn the_method_must_be_the_same() {
    let routes = vec![route("POST", "/a/:x", "a")];
    assert!(match_dynamic_route("GET", "/a/1", &routes).is_none());
    assert!(match_dynamic_route("post", "/a/1", &routes).is_none());
    assert!(match_dynamic_route("POST", "/a/1", &routes).is_some());
}

#[test]
fn the_first_route_that_matches_wins() {
    let routes = vec![
        route("GET", "/a/:x<number>", "numbers"),
        route("GET", "/a/:y", "anything"),
        route("GET", "/a/:z", "never"),
    ];
    let (action, params) = match_dynamic_route("GET", "/a/5", &routes).unwrap();
    assert_eq!(action, "numbers");
    assert_eq!(params, pairs(&[("x", "5")]));
    let (action, params) = match_dynamic_route("GET", "/a/five", &routes).unwrap();
    assert_eq!(action, "anything");
    assert_eq!(params, pairs(&[("y", "five")]));
    assert!(match_dynamic_route("GET", "/b/5", &routes).is_none());
    assert!(match_dynamic_route("GET", "/a/5", &[]).is_none());
}

#[test]
fn a_name_bound_twice_keeps_its_last_value() {
    let routes = vec![route("GET", "/:a/:b/:a", "twice")];
    let (_, params) = match_dynamic_route("GET", "/1/2/3", &routes).unwrap();
    assert_eq!(params, pairs(&[("a", "3"), ("b", "2")]));
    let mut list = pairs(&[("a", "1")]);
    insert_param(&mut list, "b".to_string(), "2".to_string());
    insert_param(&mut list, "a".to_string(), "9".to_string());
    assert_eq!(list, pairs(&[("a", "9"), ("b", "2")]));
    assert_eq!(get_param(&list, "a").unwrap(), "9");
    assert!(get_param(&list, "c").is_none());
}

#[test]
fn one_route_is_matched_against_segments() {
    let segments = path_segments("/x/12/");
    assert_eq!(segments, vec![chars("x"), chars("12")]);
    let params = match_route(&route("GET", "/x/:n<number>", "a"), "GET", &segments).unwrap();
    assert_eq!(params, pairs(&[("n", "12")]));
    assert!(match_route(&route("PUT", "/x/:n", "a"), "GET", &segments).is_none());
    assert_eq!(path_segments(""), vec![chars("")]);
    assert_eq!(path_segments("a//b"), vec![chars("a"), chars(""), chars("b")]);
    assert_eq!(split_text("a&b&", '&'), vec![chars("a"), chars("b"), chars("")]);
}

#[test]
fn integers_are_told_from_other_texts() {
    for good in ["0", "-0", "+0", "12", "-12", "0012", "9223372036854775807", "-9223372036854775808"] {
        assert!(parses_as_integer(&chars(good)), "{good}");
        assert!(good.parse::<i64>().is_ok());
    }
    for bad in [
        "", "-", "+", "1.0", " 1", "1 ", "1e3", "0x1", "--1", "+-1", "9223372036854775808",
        "-9223372036854775809", "99999999999999999999999999", "१२",
    ] {
        assert!(!parses_as_integer(&chars(bad)), "{bad}");
        assert!(bad.parse::<i64>().is_err());
    }
}

fn exact(kind: &str, value: JsonValue) -> RouteVal {
    RouteVal { kind: kind.to_string(), value }
}

fn table() -> RouteTable {
    let mut table = RouteTable::new();
    table.add_exact("GET:/hello".to_string(), exact("action", JsonValue::String("hello".to_string())));
    table.add_exact("GET:/status".to_string(), exact("json", JsonValue::Object(vec![(
        "ok".to_string(),
        JsonValue::Bool(true),
    )])));
    table.add_exact("GET:/ping".to_string(), exact("reply", JsonValue::String("pong".to_string())));
    table.add_exact("GET:/odd".to_string(), exact("reply", JsonValue::Number(JsNumber::Int(1))));
    table.add_exact("GET:/nameless".to_string(), exact("action", JsonValue::Null));
    table.add_dynamic(route("GET", "/hello", "shadowed"));
    table.add_dynamic(route("GET", "/:page", "page"));
    table.add_dynamic(route("GET", "/odd", "odd_dynamic"));
    table
}

#[test]
fn an_exact_route_overrides_the_dynamic_routes() {
    match table().resolve("GET", "/hello") {
        Resolution::Action { name, params, dynamic } => {
            assert_eq!(name, "hello");
            assert!(params.is_empty());
            assert!(!dynamic);
        }
        other => panic!("{other:?}"),
    }
}

#[test]
fn exact_routes_reply_with_json_or_text() {
    match table().resolve("GET", "/status") {
        Resolution::Json(value) => assert_eq!(value.to_json_text(), r#"{"ok":true}"#),
        other => panic!("{other:?}"),
    }
    match table().resolve("GET", "/ping") {
        Resolution::Text(text) => assert_eq!(text, "pong"),
        other => panic!("{other:?}"),
    }
    match table().resolve("GET", "/nameless") {
        Resolution::Action { name, .. } => assert_eq!(name, "unknown"),
        other => panic!("{other:?}"),
    }
}

#[test]
fn a_request_without_exact_route_goes_to_the_dynamic_routes() {
    match table().resolve("GET", "/about") {
        Resolution::Action { name, params, dynamic } => {
            assert_eq!(name, "page");
            assert_eq!(params, pairs(&[("page", "about")]));
            assert!(dynamic);
        }
        other => panic!("{other:?}"),
    }
    match table().resolve("GET", "/odd") {
        Resolution::Action { name, .. } => assert_eq!(name, "page"),
        other => panic!("{other:?}"),
    }
    assert!(matches!(table().resolve("POST", "/hello"), Resolution::NotFound));
    assert!(matches!(table().resolve("GET", "/a/b"), Resolution::NotFound));
}

#[test]
fn a_later_exact_route_of_the_same_key_replaces_the_earlier() {
    let mut table = RouteTable::new();
    table.add_exact("GET:/a".to_string(), exact("reply", JsonValue::String("one".to_string())));
    table.add_exact("GET:/a".to_string(), exact("reply", JsonValue::String("two".to_string())));
    match table.resolve("GET", "/a") {
        Resolution::Text(text) => assert_eq!(text, "two"),
        other => panic!("{other:?}"),
    }
}
