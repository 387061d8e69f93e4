//! Static evaluation: the JSON value of an expression when that value is the
//! same on every run, found by constant propagation through the declarations
//! of a module.

use vstd::prelude::*;
use vstd::string::StringExecFns;
use crate::ast::{
    is_mutated_in_place, is_object_mutated, BinaryOperator, Declaration, Element, Expr, Module,
    Property, UnaryOperator, MAX_EVAL_DEPTH,
};
use crate::json::{
    insert_member, items_view, lemma_array_view, lemma_object_view, members_view, value_view,
    with_member, Json, JsonValue,
};
use crate::number::{number_text, spec_from_double, spec_negated, spec_sum, JsNumber};

verus! {

/// How many further levels of nesting may be entered at `depth`.
pub open spec fn levels_left(depth: nat) -> nat {
    if depth > MAX_EVAL_DEPTH + 1 {
        0
    } else {
        (MAX_EVAL_DEPTH + 1 - depth) as nat
    }
}

/// `l + r` on static values: concatenation when either side is a string and
/// the other a string or a number, the sum of two numbers where
/// [`spec_sum`] knows it, and no value otherwise.
pub open spec fn spec_plus(l: Json, r: Json) -> Option<Json> {
    match (l, r) {
        (Json::Text(a), Json::Text(b)) => Some(Json::Text(a + b)),
        (Json::Text(a), Json::Number(n)) => Some(Json::Text(a + number_text(n))),
        (Json::Number(n), Json::Text(b)) => Some(Json::Text(number_text(n) + b)),
        (Json::Number(a), Json::Number(b)) => match spec_sum(a, b) {
            Some(s) => Some(Json::Number(s)),
            None => None,
        },
        _ => None,
    }
}

/// The text that a value contributes to a template literal: a string as it
/// is, a number as its text, a boolean or `null` as its keyword. An array or
/// an object contributes none.
pub open spec fn interpolation_text(j: Json) -> Option<Seq<char>> {
    match j {
        Json::Text(s) => Some(s),
        Json::Number(n) => Some(number_text(n)),
        Json::Bool(b) => Some(
            if b {
                "true"@
            } else {
                "false"@
            },
        ),
        Json::Null => Some("null"@),
        _ => None,
    }
}

/// The cooked texts of the first `n` quasis, one after the other; a quasi
/// without cooked text adds nothing.
pub open spec fn cooked_text(quasis: Seq<Option<String>>, n: nat) -> Seq<char>
    decreases n,
{
    if n == 0 || n > quasis.len() {
        Seq::empty()
    } else {
        cooked_text(quasis, (n - 1) as nat) + match quasis[n - 1] {
            Some(s) => s@,
            None => Seq::empty(),
        }
    }
}

/// The static value of `e` in module `m` at nesting level `depth`, or `None`
/// where `e` has none:
/// - a literal is its value; a numeric literal that is not finite has none;
/// - an object or array literal is made of the values of its entries, each
///   one level deeper; a spread or a computed key has no value, a hole is
///   `null`, and a key written twice keeps its first place and last value;
/// - a name is the value of its initializer, one level deeper, if it was
///   declared by a variable declarator, is never written again and, where
///   the initializer is an array or object literal, is never changed in
///   place; a declarator without initializer gives `null`;
/// - a template literal with interpolations is the concatenation of its
///   quasis and the texts of its interpolations; without interpolations it
///   is the concatenation of the cooked quasis;
/// - `+` is [`spec_plus`] of both sides, unary `-` is [`spec_negated`];
/// - nothing has a value deeper than [`MAX_EVAL_DEPTH`], and no other
///   expression has one.
pub open spec fn spec_eval(m: Module, e: Expr, depth: nat) -> Option<Json>
    decreases levels_left(depth), 1nat,
{
    if depth > MAX_EVAL_DEPTH {
        None
    } else {
        match e {
            Expr::Text(s) => Some(Json::Text(s@)),
            Expr::Number { bits, text } => match spec_from_double(bits, text@) {
                Some(n) => Some(Json::Number(n)),
                None => None,
            },
            Expr::Bool(b) => Some(Json::Bool(b)),
            Expr::Null => Some(Json::Null),
            Expr::Object(properties) => match spec_eval_properties(
                m,
                properties@,
                depth + 1,
                properties@.len(),
            ) {
                Some(members) => Some(Json::Object(members)),
                None => None,
            },
            Expr::Array(elements) => match spec_eval_elements(
                m,
                elements@,
                depth + 1,
                elements@.len(),
            ) {
                Some(items) => Some(Json::Array(items)),
                None => None,
            },
            Expr::Identifier { name, symbol } => spec_resolve(m, symbol, depth),
            Expr::Template { quasis, expressions } => if expressions@.len() == 0 {
                Some(Json::Text(cooked_text(quasis@, quasis@.len())))
            } else {
                match spec_eval_template(m, quasis@, expressions@, depth + 1, quasis@.len()) {
                    Some(text) => Some(Json::Text(text)),
                    None => None,
                }
            },
            Expr::Binary { operator, left, right } => if operator != BinaryOperator::Addition {
                None
            } else {
                match (spec_eval(m, *left, depth + 1), spec_eval(m, *right, depth + 1)) {
                    (Some(l), Some(r)) => spec_plus(l, r),
                    _ => None,
                }
            },
            Expr::Unary { operator, argument } => if operator != UnaryOperator::Negation {
                None
            } else {
                match spec_eval(m, *argument, depth + 1) {
                    Some(Json::Number(n)) => match spec_negated(n) {
                        Some(negated) => Some(Json::Number(negated)),
                        None => None,
                    },
                    _ => None,
                }
            },
            _ => None,
        }
    }
}

/// The static value of a reference that resolves to `symbol`: the case of a
/// name in [`spec_eval`].
pub open spec fn spec_resolve(m: Module, symbol: Option<usize>, depth: nat) -> Option<Json>
    decreases levels_left(depth), 0nat,
{
    match symbol {
        None => None,
        Some(s) => if depth > MAX_EVAL_DEPTH || s >= m.symbols@.len()
            || m.symbols@[s as int].is_written_again() {
            None
        } else {
            match m.symbols@[s as int].declaration {
                Declaration::Variable { init: Some(init) } => if (init is Array || init
                    is Object) && is_mutated_in_place(m.sites@, s as nat) {
                    None
                } else {
                    spec_eval(m, init, depth + 1)
                },
                Declaration::Variable { init: None } => Some(Json::Null),
                Declaration::Other => None,
            }
        },
    }
}

/// The members made by the first `n` properties, each value taken at
/// `depth`.
pub open spec fn spec_eval_properties(
    m: Module,
    properties: Seq<Property>,
    depth: nat,
    n: nat,
) -> Option<Seq<(Seq<char>, Json)>>
    decreases levels_left(depth), n + 2,
{
    if n == 0 || n > properties.len() {
        Some(Seq::empty())
    } else {
        match spec_eval_properties(m, properties, depth, (n - 1) as nat) {
            None => None,
            Some(before) => match properties[n - 1] {
                Property::Member { key: Some(key), value } => match spec_eval(m, value, depth) {
                    Some(v) => Some(with_member(before, key@, v)),
                    None => None,
                },
                _ => None,
            },
        }
    }
}

/// The items made by the first `n` elements, each value taken at `depth`.
pub open spec fn spec_eval_elements(m: Module, elements: Seq<Element>, depth: nat, n: nat) -> Option<
    Seq<Json>,
>
    decreases levels_left(depth), n + 2,
{
    if n == 0 || n > elements.len() {
        Some(Seq::empty())
    } else {
        match spec_eval_elements(m, elements, depth, (n - 1) as nat) {
            None => None,
            Some(before) => match elements[n - 1] {
                Element::Spread => None,
                Element::Hole => Some(before.push(Json::Null)),
                Element::Item(e) => match spec_eval(m, e, depth) {
                    Some(v) => Some(before.push(v)),
                    None => None,
                },
            },
        }
    }
}

/// The text made by the first `n` quasis of a template literal and the
/// interpolations that follow them, each value taken at `depth`.
pub open spec fn spec_eval_template(
    m: Module,
    quasis: Seq<Option<String>>,
    expressions: Seq<Expr>,
    depth: nat,
    n: nat,
) -> Option<Seq<char>>
    decreases levels_left(depth), n + 2,
{
    if n == 0 || n > quasis.len() {
        Some(Seq::empty())
    } else {
        match (spec_eval_template(m, quasis, expressions, depth, (n - 1) as nat), quasis[n - 1]) {
            (Some(before), Some(cooked)) => if n - 1 < expressions.len() {
                match spec_eval(m, expressions[n - 1], depth) {
                    Some(v) => match interpolation_text(v) {
                        Some(piece) => Some(before + cooked@ + piece),
                        None => None,
                    },
                    None => None,
                }
            } else {
                Some(before + cooked@)
            },
            _ => None,
        }
    }
}

/// `l + r` on static values: see [`spec_plus`].
pub fn plus(l: &JsonValue, r: &JsonValue) -> (v: Option<JsonValue>)
    ensures
        value_view(v) == spec_plus(l@, r@),
{
    match (l, r) {
        (JsonValue::String(a), JsonValue::String(b)) => Some(
            JsonValue::String(crate::text::joined(a.as_str(), b.as_str())),
        ),
        (JsonValue::String(a), JsonValue::Number(n)) => {
            let t = n.text();
            Some(JsonValue::String(crate::text::joined(a.as_str(), t.as_str())))
        },
        (JsonValue::Number(n), JsonValue::String(b)) => {
            let t = n.text();
            Some(JsonValue::String(crate::text::joined(t.as_str(), b.as_str())))
        },
        (JsonValue::Number(a), JsonValue::Number(b)) => match a.plus(b) {
            Some(s) => Some(JsonValue::Number(s)),
            None => None,
        },
        _ => None,
    }
}

/// The text that `v` contributes to a template literal: see
/// [`interpolation_text`].
pub fn interpolated(v: &JsonValue) -> (r: Option<String>)
    ensures
        match r {
            Some(s) => interpolation_text(v@) == Some(s@),
            None => interpolation_text(v@) is None,
        },
{
    match v {
        JsonValue::String(s) => Some(s.clone()),
        JsonValue::Number(n) => Some(n.text()),
        JsonValue::Bool(b) => if *b {
            Some(String::from_str("true"))
        } else {
            Some(String::from_str("false"))
        },
        JsonValue::Null => Some(String::from_str("null")),
        _ => None,
    }
}

fn cooked(quasis: &Vec<Option<String>>) -> (r: String)
    ensures
        r@ == cooked_text(quasis@, quasis@.len()),
{
    let mut out = String::new();
    let mut i: usize = 0;
    while i < quasis.len()
        invariant
            i <= quasis.len(),
            out@ == cooked_text(quasis@, i as nat),
        decreases quasis.len() - i,
    {
        match &quasis[i] {
            Some(s) => {
                out.append(s.as_str());
            },
            None => {
                assert(out@ + Seq::<char>::empty() =~= out@);
            },
        }
        i = i + 1;
    }
    out
}

/// The static value of `expr` in `module` at nesting level `depth`: see
/// [`spec_eval`].
pub fn eval_static(module: &Module, expr: &Expr, depth: usize) -> (r: Option<JsonValue>)
    ensures
        value_view(r) == spec_eval(*module, *expr, depth as nat),
    decreases levels_left(depth as nat), 1nat,
{
    if depth > MAX_EVAL_DEPTH {
        return None;
    }
    match expr {
        Expr::Text(s) => Some(JsonValue::String(s.clone())),
        Expr::Number { bits, text } => match JsNumber::from_double(*bits, text.clone()) {
            Some(n) => Some(JsonValue::Number(n)),
            None => None,
        },
        Expr::Bool(b) => Some(JsonValue::Bool(*b)),
        Expr::Null => Some(JsonValue::Null),
        Expr::Object(properties) => match eval_properties(module, properties, depth + 1) {
            Some(members) => {
                proof {
                    lemma_object_view(members);
                }
                Some(JsonValue::Object(members))
            },
            None => None,
        },
        Expr::Array(elements) => match eval_elements(module, elements, depth + 1) {
            Some(items) => {
                proof {
                    lemma_array_view(items);
                }
                Some(JsonValue::Array(items))
            },
            None => None,
        },
        Expr::Identifier { name, symbol } => resolve_identifier(module, *symbol, depth),
        Expr::Template { quasis, expressions } => {
            if expressions.len() == 0 {
                Some(JsonValue::String(cooked(quasis)))
            } else {
                match eval_template(module, quasis, expressions, depth + 1) {
                    Some(text) => Some(JsonValue::String(text)),
                    None => None,
                }
            }
        },
        Expr::Binary { operator, left, right } => {
            match operator {
                BinaryOperator::Addition => {},
                BinaryOperator::Other => {
                    return None;
                },
            }
            let l = match eval_static(module, left, depth + 1) {
                Some(v) => v,
                None => {
                    return None;
                },
            };
            let r = match eval_static(module, right, depth + 1) {
                Some(v) => v,
                None => {
                    return None;
                },
            };
            plus(&l, &r)
        },
        Expr::Unary { operator, argument } => {
            match operator {
                UnaryOperator::Negation => {},
                _ => {
                    return None;
                },
            }
            match eval_static(module, argument, depth + 1) {
                Some(JsonValue::Number(n)) => match n.negated() {
                    Some(negated) => Some(JsonValue::Number(negated)),
                    None => None,
                },
                _ => None,
            }
        },
        _ => None,
    }
}

/// The static value of a reference to `symbol` at nesting level `depth`: see
/// [`spec_resolve`].
pub fn resolve_identifier(module: &Module, symbol: Option<usize>, depth: usize) -> (r: Option<
    JsonValue,
>)
    ensures
        value_view(r) == spec_resolve(*module, symbol, depth as nat),
    decreases levels_left(depth as nat), 0nat,
{
    let s = match symbol {
        Some(s) => s,
        None => {
            return None;
        },
    };
    if depth > MAX_EVAL_DEPTH || s >= module.symbols.len() {
        return None;
    }
    let entry = &module.symbols[s];
    if entry.written_again() {
        return None;
    }
    match &entry.declaration {
        Declaration::Variable { init: Some(init) } => {
            let literal = match init {
                Expr::Array(_) => true,
                Expr::Object(_) => true,
                _ => false,
            };
            if literal && is_object_mutated(&module.sites, s) {
                None
            } else {
                eval_static(module, init, depth + 1)
            }
        },
        Declaration::Variable { init: None } => Some(JsonValue::Null),
        Declaration::Other => None,
    }
}

fn eval_properties(module: &Module, properties: &Vec<Property>, depth: usize) -> (r: Option<
    Vec<(String, JsonValue)>,
>)
    requires
        depth <= MAX_EVAL_DEPTH + 1,
    ensures
        match r {
            Some(members) => spec_eval_properties(
                *module,
                properties@,
                depth as nat,
                properties@.len(),
            ) == Some(members_view(members@)),
            None => spec_eval_properties(*module, properties@, depth as nat, properties@.len())
                is None,
        },
    decreases levels_left(depth as nat), properties@.len() + 2,
{
    let mut members: Vec<(String, JsonValue)> = Vec::new();
    let mut i: usize = 0;
    assert(members_view(members@) =~= Seq::empty());
    while i < properties.len()
        invariant
            i <= properties.len(),
            depth <= MAX_EVAL_DEPTH + 1,
            spec_eval_properties(*module, properties@, depth as nat, i as nat) == Some(
                members_view(members@),
            ),
        decreases properties.len() - i,
    {
        match &properties[i] {
            Property::Member { key: Some(key), value } => {
                match eval_static(module, value, depth) {
                    Some(v) => {
                        insert_member(&mut members, key.clone(), v);
                    },
                    None => {
                        proof {
                            lemma_properties_fail(
                                *module,
                                properties@,
                                depth as nat,
                                i as nat + 1,
                                properties@.len(),
                            );
                        }
                        return None;
                    },
                }
            },
            _ => {
                proof {
                    lemma_properties_fail(
                        *module,
                        properties@,
                        depth as nat,
                        i as nat + 1,
                        properties@.len(),
                    );
                }
                return None;
            },
        }
        i = i + 1;
    }
    Some(members)
}

fn eval_elements(module: &Module, elements: &Vec<Element>, depth: usize) -> (r: Option<
    Vec<JsonValue>,
>)
    requires
        depth <= MAX_EVAL_DEPTH + 1,
    ensures
        match r {
            Some(items) => spec_eval_elements(
                *module,
                elements@,
                depth as nat,
                elements@.len(),
            ) == Some(items_view(items@)),
            None => spec_eval_elements(*module, elements@, depth as nat, elements@.len())
                is None,
        },
    decreases levels_left(depth as nat), elements@.len() + 2,
{
    let mut items: Vec<JsonValue> = Vec::new();
    let mut i: usize = 0;
    assert(items_view(items@) =~= Seq::empty());
    while i < elements.len()
        invariant
            i <= elements.len(),
            depth <= MAX_EVAL_DEPTH + 1,
            spec_eval_elements(*module, elements@, depth as nat, i as nat) == Some(
                items_view(items@),
            ),
        decreases elements.len() - i,
    {
        let ghost before = items_view(items@);
        match &elements[i] {
            Element::Spread => {
                proof {
                    lemma_elements_fail(
                        *module,
                        elements@,
                        depth as nat,
                        i as nat + 1,
                        elements@.len(),
                    );
                }
                return None;
            },
            Element::Hole => {
                items.push(JsonValue::Null);
                assert(items_view(items@) =~= before.push(Json::Null));
            },
            Element::Item(e) => {
                match eval_static(module, e, depth) {
                    Some(v) => {
                        items.push(v);
                        assert(items_view(items@) =~= before.push(v@));
                    },
                    None => {
                        proof {
                            lemma_elements_fail(
                                *module,
                                elements@,
                                depth as nat,
                                i as nat + 1,
                                elements@.len(),
                            );
                        }
                        return None;
                    },
                }
            },
        }
        i = i + 1;
    }
    Some(items)
}

fn eval_template(
    module: &Module,
    quasis: &Vec<Option<String>>,
    expressions: &Vec<Expr>,
    depth: usize,
) -> (r: Option<String>)
    requires
        depth <= MAX_EVAL_DEPTH + 1,
    ensures
        match r {
            Some(text) => spec_eval_template(
                *module,
                quasis@,
                expressions@,
                depth as nat,
                quasis@.len(),
            ) == Some(text@),
            None => spec_eval_template(
                *module,
                quasis@,
                expressions@,
                depth as nat,
                quasis@.len(),
            ) is None,
        },
    decreases levels_left(depth as nat), quasis@.len() + 2,
{
    let mut out = String::new();
    let mut i: usize = 0;
    while i < quasis.len()
        invariant
            i <= quasis.len(),
            depth <= MAX_EVAL_DEPTH + 1,
            spec_eval_template(*module, quasis@, expressions@, depth as nat, i as nat) == Some(
                out@,
            ),
        decreases quasis.len() - i,
    {
        let ghost before = out@;
        match &quasis[i] {
            Some(text) => {
                out.append(text.as_str());
            },
            None => {
                proof {
                    lemma_template_fails(
                        *module,
                        quasis@,
                        expressions@,
                        depth as nat,
                        i as nat + 1,
                        quasis@.len(),
                    );
                }
                return None;
            },
        }
        if i < expressions.len() {
            let piece = match eval_static(module, &expressions[i], depth) {
                Some(v) => interpolated(&v),
                None => None,
            };
            match piece {
                Some(p) => {
                    out.append(p.as_str());
                },
                None => {
                    proof {
                        lemma_template_fails(
                            *module,
                            quasis@,
                            expressions@,
                            depth as nat,
                            i as nat + 1,
                            quasis@.len(),
                        );
                    }
                    return None;
                },
            }
        }
        i = i + 1;
    }
    Some(out)
}

proof fn lemma_properties_fail(m: Module, properties: Seq<Property>, depth: nat, n: nat, k: nat)
    requires
        1 <= n <= k <= properties.len(),
        spec_eval_properties(m, properties, depth, n) is None,
    ensures
        spec_eval_properties(m, properties, depth, k) is None,
    decreases k,
{
    if n < k {
        lemma_properties_fail(m, properties, depth, n, (k - 1) as nat);
    }
}

proof fn lemma_elements_fail(m: Module, elements: Seq<Element>, depth: nat, n: nat, k: nat)
    requires
        1 <= n <= k <= elements.len(),
        spec_eval_elements(m, elements, depth, n) is None,
    ensures
        spec_eval_elements(m, elements, depth, k) is None,
    decreases k,
{
    if n < k {
        lemma_elements_fail(m, elements, depth, n, (k - 1) as nat);
    }
}

proof fn lemma_template_fails(
    m: Module,
    quasis: Seq<Option<String>>,
    expressions: Seq<Expr>,
    depth: nat,
    n: nat,
    k: nat,
)
    requires
        1 <= n <= k <= quasis.len(),
        spec_eval_template(m, quasis, expressions, depth, n) is None,
    ensures
        spec_eval_template(m, quasis, expressions, depth, k) is None,
    decreases k,
{
    if n < k {
        lemma_template_fails(m, quasis, expressions, depth, n, (k - 1) as nat);
    }
}

} // verus!
