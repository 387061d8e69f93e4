use titanpl::fast_path::StaticResponse;
use titanpl::ast::{DeclaredIn, Declaration, Element, Expr, Module, Site};
use titanpl::syntax::{analyze_action_source, read_module};

fn body_text(response: &StaticResponse) -> String {
    String::from_utf8(response.body.as_ref().to_vec()).unwrap()
}

#[test]
fn static_json_action_with_server_header() {
    let source = r#"function json(req){ return t.response.json({message:"Hello, World!"},{headers:{Server:"titanpl"}}); }"#;
    let response = analyze_action_source(source).expect("static");
    assert_eq!(response.status, 200);
    assert_eq!(response.content_type, "application/json");
    assert_eq!(body_text(&response), r#"{"message":"Hello, World!"}"#);
    assert_eq!(
        response.extra_headers,
        vec![("Server".to_string(), "titanpl".to_string())]
    );
}

#[test]
fn static_json_via_resolved_variable() {
    let source = r#"var msg = "Hello"+", "+"World!"; function j(req){ return t.response.json({message:msg}); }"#;
    let response = analyze_action_source(source).expect("static");
    assert_eq!(body_text(&response), r#"{"message":"Hello, World!"}"#);
    assert!(response.extra_headers.is_empty());
    assert_eq!(response.status, 200);
}

#[test]
fn array_filled_in_a_loop_is_dynamic() {
    let source = r#"function q(req){ var r=[]; for(var i=0;i<3;i++) r.push({id:i}); return t.response.json(r); }"#;
    assert!(analyze_action_source(source).is_none());
}

#[test]
fn numbers_keep_their_javascript_value() {
    let source = r#"function f(req){ return t.response.json({a: 1.5, b: -2, c: -0.25, d: 1e21, e: 0, f: 12345678901234567890, g: -0, h: 0x10}); }"#;
    let response = analyze_action_source(source).expect("static");
    assert_eq!(
        body_text(&response),
        r#"{"a":1.5,"b":-2,"c":-0.25,"d":1e+21,"e":0,"f":1.2345678901234567e+19,"g":0,"h":16}"#
    );
}

#[test]
fn integer_sums_and_concatenations_are_folded() {
    let source = r#"var n = 1 + 2; function f(req){ return t.response.json({n: n, s: "n=" + n, t: 7 + "up", u: -n}); }"#;
    let response = analyze_action_source(source).expect("static");
    assert_eq!(body_text(&response), r#"{"n":3,"s":"n=3","t":"7up","u":-3}"#);
}

#[test]
fn sums_that_need_rounding_are_dynamic() {
    let fractional = r#"function f(req){ return t.response.json({n: 0.1 + 0.2}); }"#;
    assert!(analyze_action_source(fractional).is_none());
    let large = r#"function f(req){ return t.response.json({n: 9007199254740992 + 1}); }"#;
    assert!(analyze_action_source(large).is_none());
    let safe = r#"function f(req){ return t.response.json({n: 9007199254740991 + 1}); }"#;
    let response = analyze_action_source(safe).expect("static");
    assert_eq!(body_text(&response), r#"{"n":9007199254740992}"#);
}

#[test]
fn template_literal_interpolates_every_scalar() {
    let source = "var a = 1; var b = true; var c = null; var d = 'x'; var e = 2.5;\nfunction f(req){ return t.response.text(`${a}-${b}-${c}-${d}-${e}!`); }";
    let response = analyze_action_source(source).expect("static");
    assert_eq!(response.content_type, "text/plain");
    assert_eq!(body_text(&response), "1-true-null-x-2.5!");
}

#[test]
fn template_literal_with_an_object_is_dynamic() {
    let source = "var o = {a: 1};\nfunction f(req){ return t.response.text(`v=${o}`); }";
    assert!(analyze_action_source(source).is_none());
}

#[test]
fn html_response_has_its_content_type() {
    let source = r#"function f(req){ return t.response.html("<h1>Hi</h1>", {status: 404}); }"#;
    let response = analyze_action_source(source).expect("static");
    assert_eq!(response.content_type, "text/html");
    assert_eq!(response.status, 404);
    assert_eq!(body_text(&response), "<h1>Hi</h1>");
}

#[test]
fn text_response_of_an_object_is_dynamic() {
    let source = r#"function f(req){ return t.response.text({a: 1}); }"#;
    assert!(analyze_action_source(source).is_none());
}

#[test]
fn strings_are_escaped_in_json() {
    let source = r#"function f(req){ return t.response.json({"q": "a\"b\\c\n", "u": "é"}); }"#;
    let response = analyze_action_source(source).expect("static");
    assert_eq!(body_text(&response), "{\"q\":\"a\\\"b\\\\c\\n\",\"u\":\"é\"}");
}

#[test]
fn holes_become_null_and_spreads_are_dynamic() {
    let holes = r#"function f(req){ return t.response.json([1, , 3]); }"#;
    let response = analyze_action_source(holes).expect("static");
    assert_eq!(body_text(&response), "[1,null,3]");
    let spread = r#"var a = [1]; function f(req){ return t.response.json([...a]); }"#;
    assert!(analyze_action_source(spread).is_none());
    let object_spread = r#"var a = {x: 1}; function f(req){ return t.response.json({...a}); }"#;
    assert!(analyze_action_source(object_spread).is_none());
    let argument_spread = r#"var a = [{x: 1}]; function f(req){ return t.response.json(...a); }"#;
    assert!(analyze_action_source(argument_spread).is_none());
}

#[test]
fn computed_keys_are_dynamic_and_literal_keys_are_not() {
    let computed = r#"var k = "a"; function f(req){ return t.response.json({[k]: 1}); }"#;
    assert!(analyze_action_source(computed).is_none());
    let literal = r#"function f(req){ return t.response.json({"a b": 1, 7: 2, c: 3}); }"#;
    let response = analyze_action_source(literal).expect("static");
    assert_eq!(body_text(&response), r#"{"a b":1,"7":2,"c":3}"#);
}

#[test]
fn a_key_written_twice_keeps_its_place_and_last_value() {
    let source = r#"function f(req){ return t.response.json({a: 1, b: 2, a: 3}); }"#;
    let response = analyze_action_source(source).expect("static");
    assert_eq!(body_text(&response), r#"{"a":3,"b":2}"#);
}

#[test]
fn members_keep_the_order_of_the_source() {
    let source = r#"function f(req){ return t.response.json({z: 1, a: 2, m: 3}); }"#;
    let response = analyze_action_source(source).expect("static");
    assert_eq!(body_text(&response), r#"{"z":1,"a":2,"m":3}"#);
}

#[test]
fn differing_responses_are_dynamic_and_equal_ones_static() {
    let differing = r#"function f(req){ if (req.x) { return t.response.json({a: 1}); } return t.response.json({a: 2}); }"#;
    assert!(analyze_action_source(differing).is_none());
    let equal = r#"function f(req){ if (req.x) { return t.response.json({a: 1}); } return t.response.json({a: 1}); }"#;
    let response = analyze_action_source(equal).expect("static");
    assert_eq!(body_text(&response), r#"{"a":1}"#);
    let other_status = r#"function f(req){ if (req.x) { return t.response.json({a: 1}, {status: 201}); } return t.response.json({a: 1}); }"#;
    assert!(analyze_action_source(other_status).is_none());
}

#[test]
fn one_dynamic_call_makes_the_action_dynamic() {
    let source = r#"function f(req){ if (req.x) { return t.response.json({a: req.x}); } return t.response.json({a: 1}); }"#;
    assert!(analyze_action_source(source).is_none());
}

#[test]
fn status_outside_the_range_falls_back_to_200() {
    for status in ["99", "600", "-1", "200.5", "\"201\""] {
        let source = format!(
            "function f(req){{ return t.response.json({{a: 1}}, {{status: {status}}}); }}"
        );
        let response = analyze_action_source(&source).expect("static");
        assert_eq!(response.status, 200, "status {status}");
    }
    for status in [100u16, 204, 301, 599] {
        let source = format!(
            "function f(req){{ return t.response.json({{a: 1}}, {{status: {status}}}); }}"
        );
        let response = analyze_action_source(&source).expect("static");
        assert_eq!(response.status, status);
    }
}

#[test]
fn headers_that_are_no_strings_are_left_out() {
    let source = r#"function f(req){ return t.response.json({a: 1}, {headers: {A: "x", B: 2, C: "y", D: null}}); }"#;
    let response = analyze_action_source(source).expect("static");
    assert_eq!(
        response.extra_headers,
        vec![
            ("A".to_string(), "x".to_string()),
            ("C".to_string(), "y".to_string())
        ]
    );
}

#[test]
fn dynamic_options_make_the_action_dynamic() {
    let source = r#"function f(req){ return t.response.json({a: 1}, {status: req.status}); }"#;
    assert!(analyze_action_source(source).is_none());
    let not_an_object = r#"function f(req){ return t.response.json({a: 1}, 5); }"#;
    let response = analyze_action_source(not_an_object).expect("static");
    assert_eq!(response.status, 200);
}

#[test]
fn a_call_without_argument_has_no_static_value() {
    let only = r#"function f(req){ return t.response.json(); }"#;
    assert!(analyze_action_source(only).is_none());
    let beside = r#"function f(req){ if (req.x) { return t.response.json(); } return t.response.json({a: 1}); }"#;
    assert!(analyze_action_source(beside).is_none());
    let alone = r#"function f(req){ return t.response.json({a: 1}); }"#;
    assert_eq!(body_text(&analyze_action_source(alone).expect("static")), r#"{"a":1}"#);
}

#[test]
fn parentheses_leave_no_trace() {
    let source = r#"var a = (("x")); function f(req){ return t.response.json(({v: (a) + ("y")})); }"#;
    let response = analyze_action_source(source).expect("static");
    assert_eq!(body_text(&response), r#"{"v":"xy"}"#);
}

#[test]
fn declarator_without_initializer_is_null() {
    let source = r#"var a; function f(req){ return t.response.json({a: a}); }"#;
    let response = analyze_action_source(source).expect("static");
    assert_eq!(body_text(&response), r#"{"a":null}"#);
}

#[test]
fn parameters_and_globals_are_dynamic() {
    let parameter = r#"function f(req){ return t.response.json({a: req}); }"#;
    assert!(analyze_action_source(parameter).is_none());
    let global = r#"function f(req){ return t.response.json({a: undefined}); }"#;
    assert!(analyze_action_source(global).is_none());
    let function = r#"function g(){} function f(req){ return t.response.json({a: g}); }"#;
    assert!(analyze_action_source(function).is_none());
}

#[test]
fn every_mutating_method_makes_the_binding_dynamic() {
    for method in [
        "push", "pop", "shift", "unshift", "splice", "sort", "reverse", "fill", "copyWithin",
        "set", "delete", "clear",
    ] {
        let source = format!(
            "var a = [1, 2]; a.{method}(1); function f(req){{ return t.response.json(a); }}"
        );
        assert!(analyze_action_source(&source).is_none(), "method {method}");
    }
    let reading = "var a = [1, 2]; a.indexOf(1); function f(req){ return t.response.json(a); }";
    let response = analyze_action_source(reading).expect("static");
    assert_eq!(body_text(&response), "[1,2]");
}

#[test]
fn mutation_of_another_binding_does_not_matter() {
    let source = "var a = [1]; var b = [2]; b.push(3); function f(req){ return t.response.json(a); }";
    let response = analyze_action_source(source).expect("static");
    assert_eq!(body_text(&response), "[1]");
}

#[test]
fn nesting_is_followed_sixteen_levels_deep() {
    let nested = |levels: usize| {
        let mut value = String::from("1");
        for _ in 0..levels {
            value = format!("[{value}]");
        }
        format!("function f(req){{ return t.response.json({value}); }}")
    };
    let deepest = analyze_action_source(&nested(16)).expect("static");
    assert_eq!(body_text(&deepest), "[[[[[[[[[[[[[[[[1]]]]]]]]]]]]]]]]");
    assert!(analyze_action_source(&nested(17)).is_none());
}

#[test]
fn a_chain_of_names_is_followed_sixteen_steps() {
    let chain = |steps: usize| {
        let mut source = String::from("var v0 = 1;\n");
        for i in 1..=steps {
            source.push_str(&format!("var v{} = v{};\n", i, i - 1));
        }
        source.push_str(&format!(
            "function f(req){{ return t.response.json(v{steps}); }}"
        ));
        source
    };
    let longest = analyze_action_source(&chain(15)).expect("static");
    assert_eq!(body_text(&longest), "1");
    assert!(analyze_action_source(&chain(16)).is_none());
}

#[test]
fn names_that_refer_to_each_other_are_dynamic() {
    let source = "var a = b; var b = a; function f(req){ return t.response.json(a); }";
    assert!(analyze_action_source(source).is_none());
}

#[test]
fn source_that_does_not_parse_is_dynamic() {
    assert!(analyze_action_source("function (").is_none());
    assert!(analyze_action_source("").is_none());
}

#[test]
fn text_that_looks_like_a_response_call_is_no_call() {
    let source = r#"// t.response.json({a: 1})
var s = "t.response.json({a: 2})";
function f(req){ return t.response.json({a: 3}); }"#;
    let response = analyze_action_source(source).expect("static");
    assert_eq!(body_text(&response), r#"{"a":3}"#);
}

#[test]
fn other_callees_are_no_response_calls() {
    for callee in ["x.response.json", "t.reply.json", "t.response.xml", "response.json", "t.response.json.call"] {
        let source = format!("function f(req){{ return {callee}({{a: 1}}); }}");
        assert!(analyze_action_source(&source).is_none(), "callee {callee}");
    }
}

#[test]
fn plain_return_of_a_literal_is_a_json_response() {
    let object = r#"function f(req){ return { ok: true, n: [1, 2] }; }"#;
    let response = analyze_action_source(object).expect("static");
    assert_eq!(response.content_type, "application/json");
    assert_eq!(response.status, 200);
    assert!(response.extra_headers.is_empty());
    assert_eq!(body_text(&response), r#"{"ok":true,"n":[1,2]}"#);
    let text = r#"function f(req){ return "hello"; }"#;
    let response = analyze_action_source(text).expect("static");
    assert_eq!(body_text(&response), r#""hello""#);
}

#[test]
fn plain_returns_must_agree_and_be_static() {
    let differing = r#"function f(req){ if (req.x) { return {a: 1}; } return {a: 2}; }"#;
    assert!(analyze_action_source(differing).is_none());
    let dynamic = r#"function f(req){ return {a: req.x}; }"#;
    assert!(analyze_action_source(dynamic).is_none());
    let none = r#"function f(req){ return req; }"#;
    assert!(analyze_action_source(none).is_none());
}

#[test]
fn bundler_boilerplate_is_no_return_of_the_action() {
    let source = r#"
var wrap = function(mod) { return { __esModule: true, default: mod }; };
var define = function() { return { __defProp: 1 }; };
var copy = function() { return { "__copyProps": 2 }; };
function f(req){ return { ok: true }; }
"#;
    let response = analyze_action_source(source).expect("static");
    assert_eq!(body_text(&response), r#"{"ok":true}"#);
    let only_boilerplate = r#"var wrap = function(mod) { return { __esModule: true }; };"#;
    assert!(analyze_action_source(only_boilerplate).is_none());
}

#[test]
fn a_return_of_anything_else_makes_plain_returns_dynamic() {
    let computed = r#"function f(req){ var g = function(){ return {a: 1}; }; return compute(req, g()); }"#;
    assert!(analyze_action_source(computed).is_none());
    let bare = r#"function f(req){ if (req.x) { return; } return {a: 1}; }"#;
    assert!(analyze_action_source(bare).is_none());
    let number = r#"function f(req){ return 1; }"#;
    assert!(analyze_action_source(number).is_none());
}

#[test]
fn names_that_are_written_otherwise_are_dynamic() {
    let taken_apart = r#"var {a} = {a: 1}; function f(req){ return t.response.json({a: a}); }"#;
    assert!(analyze_action_source(taken_apart).is_none());
    let from_array = r#"var [a] = [1]; function f(req){ return t.response.json({a: a}); }"#;
    assert!(analyze_action_source(from_array).is_none());
    let declared_again = r#"var a = 1; var a = 2; function f(req){ return t.response.json({a: a}); }"#;
    assert!(analyze_action_source(declared_again).is_none());
    let loop_of = r#"function f(req){ for (var x of [1, 2]) { return t.response.json({x: x}); } }"#;
    assert!(analyze_action_source(loop_of).is_none());
    let loop_in = r#"function f(req){ for (const k in {a: 1}) { return t.response.json({k: k}); } }"#;
    assert!(analyze_action_source(loop_in).is_none());
    let plain_loop = r#"function f(req){ for (var i = 0; i < 1;) { return t.response.json({i: i}); } }"#;
    assert_eq!(body_text(&analyze_action_source(plain_loop).unwrap()), r#"{"i":0}"#);
}

#[test]
fn plain_returns_are_not_looked_at_beside_response_calls() {
    let source = r#"function g(){ return {a: 2}; } function f(req){ return t.response.json({a: 1}); }"#;
    let response = analyze_action_source(source).expect("static");
    assert_eq!(body_text(&response), r#"{"a":1}"#);
}

fn looked_at(module: &Module) -> Vec<&Site> {
    module.sites.iter().filter(|site| !matches!(site, Site::Other)).collect()
}

#[test]
fn the_module_of_a_source_lists_its_nodes_and_symbols() {
    let module = read_module("var a = [1]; a.push(2); function f(req){ return t.response.json(a); }")
        .expect("parses");
    assert_eq!(module.symbols.len(), 3);
    assert_eq!(looked_at(&module).len(), 3);
    assert!(module.sites.len() > 3);
    assert!(matches!(module.sites[0], Site::Other));
    assert!(read_module("function (").is_none());
}

#[test]
fn the_nodes_of_a_module_come_in_the_order_of_the_source() {
    let module = read_module("var a = [1]; a.push(2); function f(req){ return t.response.json(a); }")
        .expect("parses");
    let sites = looked_at(&module);
    assert!(matches!(sites[0], Site::Call { .. }));
    assert!(matches!(sites[1], Site::Return { .. }));
    assert!(matches!(sites[2], Site::Call { .. }));
    match sites[0] {
        Site::Call { arguments, .. } => assert_eq!(arguments.len(), 1),
        _ => panic!("a call"),
    }
    let other = read_module("x = 1; delete y.z; f(1, ...r, 3);").expect("parses");
    let sites = looked_at(&other);
    assert!(matches!(sites[0], Site::Assignment { .. }));
    assert!(matches!(sites[1], Site::Unary { .. }));
    match sites[2] {
        Site::Call { arguments, .. } => assert_eq!(arguments.len(), 3),
        _ => panic!("a call"),
    }
    assert_eq!(sites.len(), 3);
}

#[test]
fn a_source_without_statements_has_a_module_without_symbols() {
    let module = read_module("").expect("parses");
    assert_eq!(module.symbols.len(), 0);
    assert_eq!(looked_at(&module).len(), 0);
    assert!(analyze_action_source("").is_none());
    assert!(analyze_action_source("function (").is_none());
}

#[test]
fn the_facts_about_a_name_are_read_as_they_stand() {
    let module = read_module(
        "var plain = 1; var twice = 1; var twice = 2; let set = 1; set = 2; for (var key in o) {} for (const item of o) {} function f({ taken }) {}",
    )
    .expect("parses");
    let facts: Vec<(bool, usize, DeclaredIn)> = module
        .symbols
        .iter()
        .map(|symbol| (symbol.assigned, symbol.redeclarations, symbol.declared_in))
        .collect();
    assert_eq!(facts[0], (false, 0, DeclaredIn::Elsewhere));
    assert_eq!(facts[1], (false, 2, DeclaredIn::Elsewhere));
    assert_eq!(facts[2], (true, 0, DeclaredIn::Elsewhere));
    assert_eq!(facts[3].2, DeclaredIn::ForIn);
    assert_eq!(facts[4].2, DeclaredIn::ForOf);
    assert!(matches!(module.symbols[0].declaration, Declaration::Variable { init: Some(_) }));
    assert!(module.symbols.iter().any(|symbol| matches!(symbol.declaration, Declaration::Other)));
    assert!(!module.symbols[0].written_again());
    for written in 1..5 {
        assert!(module.symbols[written].written_again(), "symbol {written}");
    }
}

fn depth_of(expr: &Expr) -> usize {
    match expr {
        Expr::Array(elements) => match elements.first() {
            Some(Element::Item(inner)) => 1 + depth_of(inner),
            _ => 1,
        },
        _ => 0,
    }
}

#[test]
fn expressions_are_read_whole() {
    let source = format!("var deep = {}1{};", "[".repeat(40), "]".repeat(40));
    let module = read_module(&source).expect("parses");
    match &module.symbols[0].declaration {
        Declaration::Variable { init: Some(init) } => assert_eq!(depth_of(init), 40),
        _ => panic!("a variable"),
    }
    let served = format!("{source} function f(req){{ return t.response.json(deep); }}");
    assert!(analyze_action_source(&served).is_none());
}

#[test]
fn a_response_call_without_argument_makes_the_action_dynamic() {
    let source = "function f(req){ if(req.q){ return t.response.json(); } return t.response.json({a:1}); }";
    assert!(analyze_action_source(source).is_none());
    assert!(analyze_action_source("function f(req){ return t.response.text(); }").is_none());
}

#[test]
fn a_source_with_a_syntax_error_is_dynamic() {
    let sound = r#"function f(req){ return t.response.text("x"); }"#;
    assert!(analyze_action_source(sound).is_some());
    for broken in [
        r#"function f(req){ return t.response.text("x"); } let a = 1 2;"#,
        r#"function f(req){ return t.response.text("x"); } function ("#,
        r#"function f(req){ return t.response.text("x"); } var = ;"#,
        r#"function f(req){ return t.response.text("x") "#,
    ] {
        assert!(read_module(broken).is_none(), "{broken}");
        assert!(analyze_action_source(broken).is_none(), "{broken}");
    }
    let top_level = r#"return t.response.text("x");"#;
    assert!(analyze_action_source(top_level).is_some());
}
