use titanpl::ast::{
    is_identifier_for_symbol, is_object_mutated, mutates, names_mutating_method, Argument,
    BinaryOperator, DeclaredIn, Declaration, Element, Expr, Module, Property, Site, Symbol,
    UnaryOperator, MAX_EVAL_DEPTH,
};
use titanpl::eval::{eval_static, interpolated, plus, resolve_identifier};
use titanpl::fast_path::{
    analyze_module, analyze_response_call, detect_response_method, extract_response_options,
    unique_response, CallOutcome, ResponseMethod, StaticResponse,
};
use titanpl::json::JsonValue;
use titanpl::number::JsNumber;

fn text(s: &str) -> Expr {
    Expr::Text(s.to_string())
}

fn whole(n: u64) -> Expr {
    Expr::Number { bits: (n as f64).to_bits(), text: format!("{}", n as f64) }
}

fn name(n: &str, symbol: Option<usize>) -> Expr {
    Expr::Identifier { name: n.to_string(), symbol }
}

fn member(object: Expr, property: &str) -> Expr {
    Expr::StaticMember { object: Box::new(object), property: property.to_string() }
}

fn response_callee(method: &str) -> Expr {
    member(member(name("t", None), "response"), method)
}

fn object(members: Vec<(&str, Expr)>) -> Expr {
    Expr::Object(
        members
            .into_iter()
            .map(|(key, value)| Property::Member { key: Some(key.to_string()), value })
            .collect(),
    )
}

fn symbol(assigned: bool, declaration: Declaration) -> Symbol {
    Symbol { assigned, redeclarations: 0, declared_in: DeclaredIn::Elsewhere, declaration }
}

fn variable(init: Option<Expr>) -> Symbol {
    symbol(false, Declaration::Variable { init })
}

fn empty_module() -> Module {
    Module { symbols: vec![], sites: vec![] }
}

fn json_of(value: &JsonValue) -> String {
    value.to_json_text()
}

#[test]
fn literals_evaluate_to_themselves() {
    let m = empty_module();
    assert_eq!(json_of(&eval_static(&m, &text("a"), 0).unwrap()), "\"a\"");
    assert_eq!(json_of(&eval_static(&m, &whole(42), 0).unwrap()), "42");
    assert_eq!(json_of(&eval_static(&m, &Expr::Bool(true), 0).unwrap()), "true");
    assert_eq!(json_of(&eval_static(&m, &Expr::Null, 0).unwrap()), "null");
    assert!(eval_static(&m, &Expr::Other, 0).is_none());
    assert!(eval_static(&m, &member(name("a", None), "b"), 0).is_none());
}

#[test]
fn a_literal_that_is_not_finite_has_no_value() {
    let m = empty_module();
    let nan = Expr::Number { bits: 0x7ff8_0000_0000_0000, text: "NaN".to_string() };
    let infinity = Expr::Number { bits: 0x7ff0_0000_0000_0000, text: "inf".to_string() };
    assert!(eval_static(&m, &nan, 0).is_none());
    assert!(eval_static(&m, &infinity, 0).is_none());
}

#[test]
fn nothing_is_evaluated_below_the_deepest_level() {
    let m = empty_module();
    assert!(eval_static(&m, &text("a"), MAX_EVAL_DEPTH).is_some());
    assert!(eval_static(&m, &text("a"), MAX_EVAL_DEPTH + 1).is_none());
    let array = Expr::Array(vec![Element::Item(text("a"))]);
    assert!(eval_static(&m, &array, MAX_EVAL_DEPTH - 1).is_some());
    assert!(eval_static(&m, &array, MAX_EVAL_DEPTH).is_none());
}

#[test]
fn names_are_resolved_through_their_declarations() {
    let m = Module {
        symbols: vec![
            variable(Some(text("v"))),
            variable(None),
            symbol(true, Declaration::Variable { init: Some(text("w")) }),
            symbol(false, Declaration::Other),
            variable(Some(name("first", Some(0)))),
        ],
        sites: vec![],
    };
    assert_eq!(json_of(&eval_static(&m, &name("a", Some(0)), 0).unwrap()), "\"v\"");
    assert_eq!(json_of(&eval_static(&m, &name("b", Some(1)), 0).unwrap()), "null");
    assert!(eval_static(&m, &name("c", Some(2)), 0).is_none());
    assert!(eval_static(&m, &name("d", Some(3)), 0).is_none());
    assert_eq!(json_of(&eval_static(&m, &name("e", Some(4)), 0).unwrap()), "\"v\"");
    assert!(eval_static(&m, &name("f", None), 0).is_none());
    assert!(eval_static(&m, &name("g", Some(9)), 0).is_none());
    assert_eq!(json_of(&resolve_identifier(&m, Some(0), 0).unwrap()), "\"v\"");
    assert!(resolve_identifier(&m, Some(0), MAX_EVAL_DEPTH).is_none());
}

#[test]
fn a_literal_that_is_changed_in_place_has_no_value() {
    let push = Site::Call { callee: member(name("a", Some(0)), "push"), arguments: vec![] };
    let assign = Site::Assignment { target: member(name("b", Some(1)), "x") };
    let computed = Site::Assignment {
        target: Expr::ComputedMember { object: Box::new(name("b", Some(1))) },
    };
    let delete = Site::Unary {
        operator: UnaryOperator::Delete,
        argument: member(name("c", Some(2)), "x"),
    };
    let negate = Site::Unary {
        operator: UnaryOperator::Negation,
        argument: member(name("d", Some(3)), "x"),
    };
    let read = Site::Call { callee: member(name("d", Some(3)), "indexOf"), arguments: vec![] };
    let plain = Site::Assignment { target: name("d", Some(3)) };
    assert!(mutates(&push, 0) && !mutates(&push, 1));
    assert!(mutates(&assign, 1) && mutates(&computed, 1) && !mutates(&assign, 0));
    assert!(mutates(&delete, 2));
    assert!(!mutates(&negate, 3) && !mutates(&read, 3) && !mutates(&plain, 3));
    let sites = vec![push, assign, computed, delete, negate, read, plain];
    assert!(is_object_mutated(&sites, 0));
    assert!(is_object_mutated(&sites, 1));
    assert!(is_object_mutated(&sites, 2));
    assert!(!is_object_mutated(&sites, 3));
    let m = Module {
        symbols: vec![
            variable(Some(Expr::Array(vec![]))),
            variable(Some(object(vec![]))),
            variable(Some(object(vec![]))),
            variable(Some(Expr::Array(vec![Element::Hole]))),
            variable(Some(text("s"))),
        ],
        sites,
    };
    assert!(eval_static(&m, &name("a", Some(0)), 0).is_none());
    assert!(eval_static(&m, &name("b", Some(1)), 0).is_none());
    assert!(eval_static(&m, &name("c", Some(2)), 0).is_none());
    assert_eq!(json_of(&eval_static(&m, &name("d", Some(3)), 0).unwrap()), "[null]");
    assert!(names_mutating_method("copyWithin") && !names_mutating_method("map"));
    assert!(is_identifier_for_symbol(&name("x", Some(4)), 4));
    assert!(!is_identifier_for_symbol(&name("x", None), 4));
}

#[test]
fn a_string_that_is_the_target_of_push_still_has_its_value() {
    let m = Module {
        symbols: vec![variable(Some(text("s")))],
        sites: vec![Site::Call { callee: member(name("a", Some(0)), "push"), arguments: vec![] }],
    };
    assert_eq!(json_of(&eval_static(&m, &name("a", Some(0)), 0).unwrap()), "\"s\"");
}

#[test]
fn plus_concatenates_and_adds() {
    let s = |t: &str| JsonValue::String(t.to_string());
    let n = |v: i64| JsonValue::Number(JsNumber::Int(v));
    assert_eq!(json_of(&plus(&s("a"), &s("b")).unwrap()), "\"ab\"");
    assert_eq!(json_of(&plus(&s("a"), &n(-1)).unwrap()), "\"a-1\"");
    assert_eq!(json_of(&plus(&n(2), &s("b")).unwrap()), "\"2b\"");
    assert_eq!(json_of(&plus(&n(2), &n(3)).unwrap()), "5");
    assert!(plus(&n(2), &JsonValue::Bool(true)).is_none());
    assert!(plus(&JsonValue::Null, &s("a")).is_none());
    assert!(plus(&s("a"), &JsonValue::Array(vec![])).is_none());
    assert_eq!(interpolated(&JsonValue::Bool(false)).unwrap(), "false");
    assert!(interpolated(&JsonValue::Object(vec![])).is_none());
}

#[test]
fn only_addition_and_negation_are_evaluated() {
    let m = empty_module();
    let subtraction = Expr::Binary { operator: BinaryOperator::Other, left: Box::new(whole(2)), right: Box::new(whole(1)) };
    assert!(eval_static(&m, &subtraction, 0).is_none());
    let addition = Expr::Binary { operator: BinaryOperator::Addition, left: Box::new(whole(2)), right: Box::new(whole(1)) };
    assert_eq!(json_of(&eval_static(&m, &addition, 0).unwrap()), "3");
    let negation = Expr::Unary { operator: UnaryOperator::Negation, argument: Box::new(whole(2)) };
    assert_eq!(json_of(&eval_static(&m, &negation, 0).unwrap()), "-2");
    let other = Expr::Unary { operator: UnaryOperator::Other, argument: Box::new(whole(2)) };
    assert!(eval_static(&m, &other, 0).is_none());
    let of_text = Expr::Unary { operator: UnaryOperator::Negation, argument: Box::new(text("a")) };
    assert!(eval_static(&m, &of_text, 0).is_none());
}

#[test]
fn template_without_interpolation_skips_quasis_without_text() {
    let m = empty_module();
    let lenient = Expr::Template {
        quasis: vec![Some("a".to_string()), None, Some("b".to_string())],
        expressions: vec![],
    };
    assert_eq!(json_of(&eval_static(&m, &lenient, 0).unwrap()), "\"ab\"");
    let strict = Expr::Template {
        quasis: vec![Some("a".to_string()), None],
        expressions: vec![whole(1)],
    };
    assert!(eval_static(&m, &strict, 0).is_none());
    let whole = Expr::Template {
        quasis: vec![Some("a".to_string()), Some("b".to_string())],
        expressions: vec![whole(1)],
    };
    assert_eq!(json_of(&eval_static(&m, &whole, 0).unwrap()), "\"a1b\"");
}

#[test]
fn response_methods_are_detected_by_their_callee() {
    assert_eq!(detect_response_method(&response_callee("json")), Some(ResponseMethod::Json));
    assert_eq!(detect_response_method(&response_callee("text")), Some(ResponseMethod::Text));
    assert_eq!(detect_response_method(&response_callee("html")), Some(ResponseMethod::Html));
    assert_eq!(detect_response_method(&response_callee("xml")), None);
    assert_eq!(detect_response_method(&member(member(name("u", None), "response"), "json")), None);
    assert_eq!(detect_response_method(&member(name("t", None), "json")), None);
    assert_eq!(ResponseMethod::Html.content_type(), "text/html");
}

#[test]
fn a_response_call_is_static_or_dynamic() {
    let m = empty_module();
    assert!(matches!(
        analyze_response_call(&m, ResponseMethod::Json, &vec![]),
        CallOutcome::Dynamic
    ));
    assert!(matches!(
        analyze_response_call(&m, ResponseMethod::Json, &vec![Argument::Spread]),
        CallOutcome::Dynamic
    ));
    assert!(matches!(
        analyze_response_call(&m, ResponseMethod::Text, &vec![Argument::Value(whole(1))]),
        CallOutcome::Dynamic
    ));
    let options = object(vec![("status", whole(201))]);
    let arguments = vec![Argument::Value(text("hi")), Argument::Value(options)];
    match analyze_response_call(&m, ResponseMethod::Text, &arguments) {
        CallOutcome::Static(response) => {
            assert_eq!(response.status, 201);
            assert_eq!(response.body.as_ref(), b"hi");
            assert_eq!(response.content_type, "text/plain");
        }
        other => panic!("not static: {other:?}"),
    }
    let spread_options = vec![Argument::Value(text("hi")), Argument::Spread];
    match analyze_response_call(&m, ResponseMethod::Html, &spread_options) {
        CallOutcome::Static(response) => assert_eq!(response.status, 200),
        other => panic!("not static: {other:?}"),
    }
}

#[test]
fn options_are_read_from_an_object() {
    let value = eval_static(
        &empty_module(),
        &object(vec![
            ("status", whole(404)),
            ("headers", object(vec![("A", text("x")), ("B", whole(1))])),
        ]),
        0,
    )
    .unwrap();
    let options = extract_response_options(&value);
    assert_eq!(options.status, 404);
    assert_eq!(options.headers, vec![("A".to_string(), "x".to_string())]);
    let none = extract_response_options(&JsonValue::Null);
    assert_eq!(none.status, 200);
    assert!(none.headers.is_empty());
}

#[test]
fn the_module_analysis_needs_all_calls_to_agree() {
    let call = |payload: Expr| Site::Call {
        callee: response_callee("json"),
        arguments: vec![Argument::Value(payload)],
    };
    let agreeing = Module { symbols: vec![], sites: vec![call(whole(1)), call(whole(1))] };
    let response = analyze_module(&agreeing).expect("static");
    assert_eq!(response.body.as_ref(), b"1");
    let differing = Module { symbols: vec![], sites: vec![call(whole(1)), call(whole(2))] };
    assert!(analyze_module(&differing).is_none());
    let dynamic = Module { symbols: vec![], sites: vec![call(whole(1)), call(Expr::Other)] };
    assert!(analyze_module(&dynamic).is_none());
    assert!(analyze_module(&empty_module()).is_none());
}

#[test]
fn the_module_analysis_falls_back_to_plain_returns() {
    let returning = |e: Expr| Site::Return { value: Some(e) };
    let plain = Module {
        symbols: vec![],
        sites: vec![
            returning(object(vec![("a", whole(1))])),
            returning(object(vec![("__esModule", Expr::Bool(true))])),
            returning(object(vec![("a", whole(1))])),
        ],
    };
    let response = analyze_module(&plain).expect("static");
    assert_eq!(response.body.as_ref(), br#"{"a":1}"#);
    assert_eq!(response.content_type, "application/json");
    let numbers_only = Module { symbols: vec![], sites: vec![returning(whole(1))] };
    assert!(analyze_module(&numbers_only).is_none());
    let beside_a_name = Module {
        symbols: vec![],
        sites: vec![returning(object(vec![("a", whole(1))])), returning(name("x", None))],
    };
    assert!(analyze_module(&beside_a_name).is_none());
    let beside_nothing = Module {
        symbols: vec![],
        sites: vec![returning(object(vec![("a", whole(1))])), Site::Return { value: None }],
    };
    assert!(analyze_module(&beside_nothing).is_none());
}

#[test]
fn unique_response_compares_every_field() {
    let base = analyze_module(&Module {
        symbols: vec![],
        sites: vec![Site::Call {
            callee: response_callee("json"),
            arguments: vec![Argument::Value(whole(1))],
        }],
    })
    .unwrap();
    let copy = base.duplicate();
    assert!(base.same_as(&copy));
    assert!(unique_response(&vec![base.duplicate(), copy.duplicate()]).is_some());
    assert!(unique_response(&vec![]).is_none());
    let mut other_status = base.duplicate();
    other_status.status = 201;
    assert!(!base.same_as(&other_status));
    assert!(unique_response(&vec![base.duplicate(), other_status]).is_none());
    let mut other_header = base.duplicate();
    other_header.extra_headers.push(("A".to_string(), "b".to_string()));
    assert!(!base.same_as(&other_header));
    let other_type = StaticResponse {
        body: base.body.clone(),
        content_type: "text/plain",
        status: base.status,
        extra_headers: vec![],
    };
    assert!(!base.same_as(&other_type));
}

#[test]
fn a_name_is_written_again_by_assignment_redeclaration_or_loop() {
    let facts = |assigned: bool, redeclarations: usize, declared_in: DeclaredIn| Symbol {
        assigned,
        redeclarations,
        declared_in,
        declaration: Declaration::Variable { init: Some(text("v")) },
    };
    assert!(!facts(false, 0, DeclaredIn::Elsewhere).written_again());
    assert!(facts(true, 0, DeclaredIn::Elsewhere).written_again());
    assert!(facts(false, 1, DeclaredIn::Elsewhere).written_again());
    assert!(facts(false, 0, DeclaredIn::ForIn).written_again());
    assert!(facts(false, 0, DeclaredIn::ForOf).written_again());
    for (written, value) in [
        (facts(false, 0, DeclaredIn::Elsewhere), true),
        (facts(true, 0, DeclaredIn::Elsewhere), false),
        (facts(false, 2, DeclaredIn::Elsewhere), false),
        (facts(false, 0, DeclaredIn::ForOf), false),
    ] {
        let m = Module { symbols: vec![written], sites: vec![Site::Other] };
        assert_eq!(eval_static(&m, &name("x", Some(0)), 0).is_some(), value);
    }
}

#[test]
fn nodes_of_other_kinds_are_passed_over() {
    let call = || Site::Call {
        callee: response_callee("text"),
        arguments: vec![Argument::Value(text("hi"))],
    };
    let bare = Module { symbols: vec![], sites: vec![call()] };
    let among = Module {
        symbols: vec![],
        sites: vec![Site::Other, call(), Site::Other, Site::Other],
    };
    let expected = analyze_module(&bare).expect("static");
    let found = analyze_module(&among).expect("static");
    assert_eq!(found.body, expected.body);
    assert_eq!(found.body.as_ref(), b"hi");
    let nothing = Module { symbols: vec![], sites: vec![Site::Other, Site::Other] };
    assert!(analyze_module(&nothing).is_none());
    assert!(!mutates(&Site::Other, 0));
}
