use titanpl::fast_path::StaticResponse;
use titanpl::syntax::analyze_action_source;

/// Runs the analysis and returns the response if the action is static.
fn analyze(source: &str) -> Option<StaticResponse> {
    analyze_action_source(source)
}

// --- Literals ---

#[test]
fn test_literal_json() {
    let source = r#"
        function json(req) {
            return t.response.json({ message: "Hello, World!" });
        }
    "#;
    let resp = analyze(source).expect("should detect static");
    assert_eq!(resp.content_type, "application/json");
    assert_eq!(resp.body.as_ref(), br#"{"message":"Hello, World!"}"#);
    assert_eq!(resp.status, 200);
}

#[test]
fn test_literal_text() {
    let source = r#"
        function plaintext(req) {
            return t.response.text("Hello, World!", {
                headers: { "Content-Type": "text/plain", Server: "titanpl" }
            });
        }
    "#;
    let resp = analyze(source).expect("should detect static");
    assert_eq!(resp.content_type, "text/plain");
    assert_eq!(resp.body.as_ref(), b"Hello, World!");
}

#[test]
fn test_with_status_and_headers() {
    let source = r#"
        function api(req) {
            return t.response.json({ ok: true }, { status: 201, headers: { Server: "titanpl" } });
        }
    "#;
    let resp = analyze(source).expect("should detect static");
    assert_eq!(resp.status, 201);
    assert!(resp.extra_headers.iter().any(|(k, v)| k == "Server" && v == "titanpl"));
}

// --- Variable resolution ---

#[test]
fn test_var_reference() {
    let source = r#"
        var msg = "Hello, World!";
        function json(req) {
            return t.response.json({ message: msg });
        }
    "#;
    let resp = analyze(source).expect("should resolve var to literal");
    assert_eq!(resp.body.as_ref(), br#"{"message":"Hello, World!"}"#);
}

#[test]
fn test_const_reference() {
    let source = r#"
        const greeting = "Hello, World!";
        function json(req) {
            return t.response.json({ message: greeting });
        }
    "#;
    let resp = analyze(source).expect("should resolve const to literal");
    assert_eq!(resp.body.as_ref(), br#"{"message":"Hello, World!"}"#);
}

#[test]
fn test_transitive_const() {
    let source = r#"
        var a = "Hello";
        var b = a;
        function json(req) {
            return t.response.json({ message: b });
        }
    "#;
    let resp = analyze(source).expect("should resolve transitively");
    assert_eq!(resp.body.as_ref(), br#"{"message":"Hello"}"#);
}

#[test]
fn test_var_in_options() {
    let source = r#"
        var STATUS = 201;
        var SERVER = "titanpl";
        function api(req) {
            return t.response.json({ ok: true }, { status: STATUS, headers: { Server: SERVER } });
        }
    "#;
    let resp = analyze(source).expect("should resolve options vars");
    assert_eq!(resp.status, 201);
    assert!(resp.extra_headers.iter().any(|(k, v)| k == "Server" && v == "titanpl"));
}

// --- String operations ---

#[test]
fn test_string_concatenation() {
    let source = r#"
        var greeting = "Hello" + ", " + "World!";
        function json(req) {
            return t.response.json({ message: greeting });
        }
    "#;
    let resp = analyze(source).expect("should resolve concatenation");
    assert_eq!(resp.body.as_ref(), br#"{"message":"Hello, World!"}"#);
}

#[test]
fn test_template_literal() {
    let source = r#"
        var name = "World";
        function json(req) {
            return t.response.text(`Hello, ${name}!`);
        }
    "#;
    let resp = analyze(source).expect("should resolve template");
    assert_eq!(resp.body.as_ref(), b"Hello, World!");
}

// --- Dynamic detection (should correctly reject) ---

#[test]
fn test_req_access_is_dynamic() {
    let source = r#"
        function json(req) {
            return t.response.json({ message: req.query.msg });
        }
    "#;
    assert!(analyze(source).is_none(), "req access should be dynamic");
}

#[test]
fn test_function_call_is_dynamic() {
    let source = r#"
        function json(req) {
            return t.response.json({ time: Date.now() });
        }
    "#;
    assert!(analyze(source).is_none(), "Date.now() should be dynamic");
}

#[test]
fn test_mutated_var_is_dynamic() {
    let source = r#"
        var msg = "Hello";
        msg = "Goodbye";
        function json(req) {
            return t.response.json({ message: msg });
        }
    "#;
    assert!(analyze(source).is_none(), "mutated var should be dynamic");
}

#[test]
fn test_math_random_is_dynamic() {
    let source = r#"
        function json(req) {
            var id = Math.floor(Math.random() * 100);
            return t.response.json({ id: id });
        }
    "#;
    assert!(analyze(source).is_none(), "Math.random should be dynamic");
}

#[test]
fn test_drift_is_dynamic() {
    let source = r#"
        function db(req) {
            var conn = t.db.connect(process.env.DATABASE_URL);
            var rows = drift(conn.query("SELECT * FROM world"));
            return t.response.json(rows);
        }
    "#;
    assert!(analyze(source).is_none(), "drift should be dynamic");
}

// --- Real bundle format test ---

#[test]
fn test_real_json_bundle() {
    let source = r#"
var Titan = t;
var __titan_exports = (() => {
  var __defProp = Object.defineProperty;
  var __getOwnPropDesc = Object.getOwnPropertyDescriptor;
  var __getOwnPropNames = Object.getOwnPropertyNames;
  var __hasOwnProp = Object.prototype.hasOwnProperty;
  var __export = (target, all) => {
for (var name in all)
  __defProp(target, name, { get: all[name], enumerable: true });
  };
  var __copyProps = (to, from, except, desc) => {
if (from && typeof from === "object" || typeof from === "function") {
  for (let key of __getOwnPropNames(from))
    if (!__hasOwnProp.call(to, key) && key !== except)
      __defProp(to, key, { get: () => from[key], enumerable: !(desc = __getOwnPropDesc(from, key)) || desc.enumerable });
}
return to;
  };
  var __toCommonJS = (mod) => __copyProps(__defProp({}, "__esModule", { value: true }), mod);
  var json_exports = {};
  __export(json_exports, {
json: () => json
  });
  var msg = "Hello, World!";
  function json(req) {
return t.response.json({
  message: msg
}, {
  headers: {
    Server: "titanpl"
  }
});
  }
  return __toCommonJS(json_exports);
})();
    "#;
    let resp = analyze(source).expect("should detect static in real bundle");
    assert_eq!(resp.content_type, "application/json");
    assert_eq!(resp.body.as_ref(), br#"{"message":"Hello, World!"}"#);
    assert!(resp.extra_headers.iter().any(|(k, v)| k == "Server" && v == "titanpl"));
}

#[test]
fn test_real_db_bundle_is_dynamic() {
    let source = r#"
  function db(req) {
const id = Math.floor(Math.random() * 1e4) + 1;
const conn = t.db.connect(process.env.DATABASE_URL);
const rows = drift(conn.query(
  `SELECT id, randomnumber FROM world WHERE id = ${id}`
));
return t.response.json({
  id: rows[0].id,
  randomNumber: rows[0].randomnumber
}, {
  headers: {
    Server: "titanpl"
  }
});
  }
    "#;
    assert!(analyze(source).is_none(), "db action should be dynamic");
}

// =========================================================================
// ARRAY / OBJECT MUTATION DETECTION
// =========================================================================

#[test]
fn test_array_with_push_is_dynamic() {
    let source = r#"
  var results = [];
  results.push({ id: 1 });
  return t.response.json(results);
    "#;
    assert!(analyze(source).is_none(), "array with .push() should be dynamic");
}

#[test]
fn test_array_with_splice_is_dynamic() {
    let source = r#"
  var items = [1, 2, 3];
  items.splice(0, 1);
  return t.response.json(items);
    "#;
    assert!(analyze(source).is_none(), "array with .splice() should be dynamic");
}

#[test]
fn test_object_with_property_assign_is_dynamic() {
    let source = r#"
  var obj = {};
  obj.name = "dynamic";
  return t.response.json(obj);
    "#;
    assert!(analyze(source).is_none(), "object with property assign should be dynamic");
}

#[test]
fn test_object_with_computed_assign_is_dynamic() {
    let source = r#"
  var obj = {};
  obj["key"] = "value";
  return t.response.json(obj);
    "#;
    assert!(analyze(source).is_none(), "object with computed assign should be dynamic");
}

#[test]
fn test_immutable_array_is_static() {
    let source = r#"
  var items = [1, 2, 3];
  return t.response.json(items);
    "#;
    let result = analyze(source);
    assert!(result.is_some(), "immutable array should be static");
    let r = result.unwrap();
    assert_eq!(r.content_type, "application/json");
    assert_eq!(std::str::from_utf8(&r.body).unwrap(), "[1,2,3]");
}

#[test]
fn test_immutable_object_is_static() {
    let source = r#"
  var config = { version: "1.0", debug: false };
  return t.response.json(config);
    "#;
    let result = analyze(source);
    assert!(result.is_some(), "immutable object should be static");
    let r = result.unwrap();
    assert_eq!(r.content_type, "application/json");
}

#[test]
fn test_tfb_queries_pattern_is_dynamic() {
    // Real TFB pattern: const results = []; for loop with push
    let source = r#"
  var count = 5;
  var results = [];
  for (var i = 0; i < count; i++) {
results.push({ id: i, randomnumber: 42 });
  }
  return t.response.json(results, {
headers: { Server: "titanpl" }
  });
    "#;
    assert!(analyze(source).is_none(), "TFB queries pattern should be dynamic");
}

#[test]
fn test_array_sort_is_dynamic() {
    let source = r#"
  var items = [3, 1, 2];
  items.sort();
  return t.response.json(items);
    "#;
    assert!(analyze(source).is_none(), "array with .sort() should be dynamic");
}

#[test]
fn test_delete_property_is_dynamic() {
    let source = r#"
  var obj = { a: 1, b: 2 };
  delete obj.b;
  return t.response.json(obj);
    "#;
    assert!(analyze(source).is_none(), "object with delete should be dynamic");
}
