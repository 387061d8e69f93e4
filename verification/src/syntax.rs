//! Reading an action's source with the `oxc` parser and semantic analysis:
//! what they hold of the source is brought, one for one, into the plain
//! values of [`crate::ast`]. Nothing is decided here; the analysis of the
//! module is [`crate::fast_path::analyze_module`].

use vstd::prelude::*;
use oxc::ast::ast::{Expression, PropertyKey};
use oxc::ast::AstKind;
use oxc::semantic::{Semantic, SymbolId};
use crate::ast::{
    Argument, BinaryOperator, DeclaredIn, Declaration, Element, Expr, Module, Property, Site,
    Symbol, UnaryOperator,
};
use crate::actions::{file_stem, split_file_name};
use crate::fast_path::{
    analyze_module, decides, has_source, is_action_file, is_bundle_file,
    lemma_one_source_for_an_action, outranks, response_view, spec_analyze, FastPathRegistry,
    ResponseView, StaticResponse,
};
use crate::json::{
    distinct_keys, find_key, lemma_find_key, lemma_other_members_are_kept,
    lemma_write_keeps_keys_distinct, lemma_written_member_is_read, member,
};
use crate::text::{chars_of, same_text};

verus! {

/// `oxc::semantic::Semantic`: the syntax nodes, symbols and references of a
/// program.
#[verifier::external_type_specification]
#[verifier::external_body]
pub struct ExSemantic<'a>(oxc::semantic::Semantic<'a>);

/// `oxc::ast::AstKind`: a syntax node of any kind.
#[verifier::external_type_specification]
#[verifier::external_body]
pub struct ExAstKind<'a>(oxc::ast::AstKind<'a>);

/// `oxc::ast::ast::Expression`: an expression.
#[verifier::external_type_specification]
#[verifier::external_body]
pub struct ExExpression<'a>(oxc::ast::ast::Expression<'a>);

/// `oxc::ast::ast::PropertyKey`: the key of a property of an object literal.
#[verifier::external_type_specification]
#[verifier::external_body]
pub struct ExPropertyKey<'a>(oxc::ast::ast::PropertyKey<'a>);

/// `oxc::semantic::SymbolId`: the index of a declared symbol.
#[verifier::external_type_specification]
#[verifier::external_body]
pub struct ExSymbolId(oxc::semantic::SymbolId);

/// `oxc::ast::ast::UnaryExpression`: a unary expression.
#[verifier::external_type_specification]
#[verifier::external_body]
pub struct ExUnaryExpression<'a>(oxc::ast::ast::UnaryExpression<'a>);

/// The fields `operator` and `argument` of a unary expression; of the
/// operators, negation and `delete` are told apart.
#[verifier::external_body]
fn unary_parts<'a>(semantic: &Semantic<'a>, unary: &oxc::ast::ast::UnaryExpression<'a>) -> (
    UnaryOperator,
    Expr,
) {
    let operator = match unary.operator {
        oxc::syntax::operator::UnaryOperator::UnaryNegation => UnaryOperator::Negation,
        oxc::syntax::operator::UnaryOperator::Delete => UnaryOperator::Delete,
        _ => UnaryOperator::Other,
    };
    (operator, expression_of(semantic, &unary.argument))
}

/// The fields `operator`, `left` and `right` of a binary expression; of the
/// operators, addition is told apart.
#[verifier::external_body]
fn binary_of<'a>(semantic: &Semantic<'a>, expr: &Expression<'a>) -> Expr {
    let Expression::BinaryExpression(binary) = expr else {
        return Expr::Other;
    };
    let operator = match binary.operator {
        oxc::syntax::operator::BinaryOperator::Addition => BinaryOperator::Addition,
        _ => BinaryOperator::Other,
    };
    let left = Box::new(expression_of(semantic, &binary.left));
    Expr::Binary { operator, left, right: Box::new(expression_of(semantic, &binary.right)) }
}

/// The text of a property key that is an identifier, a string literal or a
/// numeric literal; `None` for a computed key.
#[verifier::external_body]
fn property_key_to_string<'a>(key: &PropertyKey<'a>) -> Option<String> {
    match key {
        PropertyKey::StaticIdentifier(identifier) => Some(identifier.name.to_string()),
        PropertyKey::StringLiteral(literal) => Some(literal.value.to_string()),
        PropertyKey::NumericLiteral(literal) => Some(literal.value.to_string()),
        _ => None,
    }
}

/// The properties of an object literal, in their order: a property with its
/// key and its value, a spread as a spread.
#[verifier::external_body]
fn properties_of<'a>(semantic: &Semantic<'a>, expr: &Expression<'a>) -> Vec<Property> {
    let Expression::ObjectExpression(object) = expr else {
        return Vec::new();
    };
    object.properties.iter().map(
        |property|
            match property {
                oxc::ast::ast::ObjectPropertyKind::ObjectProperty(p) => Property::Member {
                    key: property_key_to_string(&p.key),
                    value: expression_of(semantic, &p.value),
                },
                oxc::ast::ast::ObjectPropertyKind::SpreadProperty(_) => Property::Spread,
            },
    ).collect()
}

/// The elements of an array literal, in their order: an expression, a hole
/// or a spread each as what it is.
#[verifier::external_body]
fn elements_of<'a>(semantic: &Semantic<'a>, expr: &Expression<'a>) -> Vec<Element> {
    let Expression::ArrayExpression(array) = expr else {
        return Vec::new();
    };
    array.elements.iter().map(
        |element|
            match element {
                oxc::ast::ast::ArrayExpressionElement::Elision(_) => Element::Hole,
                other => match other.as_expression() {
                    Some(item) => Element::Item(expression_of(semantic, item)),
                    None => Element::Spread,
                },
            },
    ).collect()
}

/// A template literal: the cooked text of each quasi, and the interpolated
/// expressions, both in their order.
#[verifier::external_body]
fn template_of<'a>(semantic: &Semantic<'a>, expr: &Expression<'a>) -> Expr {
    let Expression::TemplateLiteral(template) = expr else {
        return Expr::Other;
    };
    Expr::Template {
        quasis: template.quasis.iter().map(
            |quasi| quasi.value.cooked.as_ref().map(|text| text.to_string()),
        ).collect(),
        expressions: template.expressions.iter().map(|e| expression_of(semantic, e)).collect(),
    }
}

/// A reference to a name: the field `name` of the identifier, and the index
/// of the symbol that `Scoping::get_reference` resolves it to, if any.
#[verifier::external_body]
fn identifier_of<'a>(semantic: &Semantic<'a>, expr: &Expression<'a>) -> Expr {
    let Expression::Identifier(identifier) = expr else {
        return Expr::Other;
    };
    let symbol = match identifier.reference_id.get() {
        Some(reference) => semantic.scoping().get_reference(reference).symbol_id(),
        None => None,
    };
    Expr::Identifier { name: identifier.name.to_string(), symbol: symbol.map(|id| id.index()) }
}

/// A numeric literal: the field `value`, as the bit pattern of the double
/// and as the text that `serde_json::to_string` writes for it.
#[verifier::external_body]
fn number_of<'a>(expr: &Expression<'a>) -> Expr {
    let Expression::NumericLiteral(literal) = expr else {
        return Expr::Other;
    };
    Expr::Number {
        bits: literal.value.to_bits(),
        text: serde_json::to_string(&literal.value).unwrap_or_default(),
    }
}

/// A binary, unary or member expression, with its operands; any other
/// expression is `Other`.
#[verifier::external_body]
fn operation_of<'a>(semantic: &Semantic<'a>, expr: &Expression<'a>) -> Expr {
    match expr {
        Expression::BinaryExpression(_) => binary_of(semantic, expr),
        Expression::UnaryExpression(unary) => {
            let (operator, argument) = unary_parts(semantic, unary);
            Expr::Unary { operator, argument: Box::new(argument) }
        },
        other => member_of(semantic, other),
    }
}

/// A member expression, with its object and, for a static access, the name
/// of the property; any other expression is `Other`.
#[verifier::external_body]
fn member_of<'a>(semantic: &Semantic<'a>, expr: &Expression<'a>) -> Expr {
    match expr {
        Expression::StaticMemberExpression(m) => Expr::StaticMember {
            object: Box::new(expression_of(semantic, &m.object)),
            property: m.property.name.to_string(),
        },
        Expression::ComputedMemberExpression(m) => Expr::ComputedMember {
            object: Box::new(expression_of(semantic, &m.object)),
        },
        _ => Expr::Other,
    }
}

/// An expression, by `Expression::without_parentheses` and its variant: a
/// literal with its value, a name, an object, array or template literal
/// with its parts, an operation with its operands.
#[verifier::external_body]
fn expression_of<'a>(semantic: &Semantic<'a>, expr: &Expression<'a>) -> Expr {
    match expr.without_parentheses() {
        Expression::StringLiteral(literal) => Expr::Text(literal.value.to_string()),
        Expression::BooleanLiteral(literal) => Expr::Bool(literal.value),
        Expression::NullLiteral(_) => Expr::Null,
        inner @ Expression::NumericLiteral(_) => number_of(inner),
        inner @ Expression::Identifier(_) => identifier_of(semantic, inner),
        inner @ Expression::ObjectExpression(_) => Expr::Object(properties_of(semantic, inner)),
        inner @ Expression::ArrayExpression(_) => Expr::Array(elements_of(semantic, inner)),
        inner @ Expression::TemplateLiteral(_) => template_of(semantic, inner),
        inner => operation_of(semantic, inner),
    }
}

/// The arguments of a call expression, in their order, each by
/// `Argument::as_expression`: an expression, or a spread.
#[verifier::external_body]
fn arguments_of<'a>(semantic: &Semantic<'a>, kind: AstKind<'a>) -> Vec<Argument> {
    let AstKind::CallExpression(call) = kind else {
        return Vec::new();
    };
    call.arguments.iter().map(
        |argument|
            match argument.as_expression() {
                Some(value) => Argument::Value(expression_of(semantic, value)),
                None => Argument::Spread,
            },
    ).collect()
}

/// The left-hand side of an assignment expression, where it is a member
/// access; `Other` where it is anything else.
#[verifier::external_body]
fn target_of<'a>(semantic: &Semantic<'a>, kind: AstKind<'a>) -> Expr {
    let AstKind::AssignmentExpression(assignment) = kind else {
        return Expr::Other;
    };
    match &assignment.left {
        oxc::ast::ast::AssignmentTarget::StaticMemberExpression(m) => Expr::StaticMember {
            object: Box::new(expression_of(semantic, &m.object)),
            property: m.property.name.to_string(),
        },
        oxc::ast::ast::AssignmentTarget::ComputedMemberExpression(m) => Expr::ComputedMember {
            object: Box::new(expression_of(semantic, &m.object)),
        },
        _ => Expr::Other,
    }
}

/// A node by its kind: a call with its callee and arguments, an assignment
/// with its left-hand side, a unary operation with its operator and
/// operand, a `return` statement with its argument; `Other` for a node of
/// any other kind.
#[verifier::external_body]
fn site_of<'a>(semantic: &Semantic<'a>, kind: AstKind<'a>) -> Site {
    match kind {
        AstKind::CallExpression(call) => Site::Call {
            callee: expression_of(semantic, &call.callee),
            arguments: arguments_of(semantic, kind),
        },
        AstKind::AssignmentExpression(_) => Site::Assignment { target: target_of(semantic, kind) },
        AstKind::UnaryExpression(unary) => {
            let (operator, argument) = unary_parts(semantic, unary);
            Site::Unary { operator, argument }
        },
        AstKind::ReturnStatement(statement) => Site::Return {
            value: statement.argument.as_ref().map(|value| expression_of(semantic, value)),
        },
        _ => Site::Other,
    }
}

/// The kind of node that holds the statement declaring a symbol, by
/// `AstNodes::parent_id` and `AstNodes::parent_kind` of the declaring node.
#[verifier::external_body]
fn declared_in<'a>(semantic: &Semantic<'a>, symbol: SymbolId) -> DeclaredIn {
    let nodes = semantic.nodes();
    let declaration = nodes.parent_id(semantic.scoping().symbol_declaration(symbol));
    match nodes.parent_kind(declaration) {
        AstKind::ForInStatement(_) => DeclaredIn::ForIn,
        AstKind::ForOfStatement(_) => DeclaredIn::ForOf,
        _ => DeclaredIn::Elsewhere,
    }
}

/// `Semantic::symbol_declaration`: the node that declares the symbol. A
/// variable declarator whose field `id` is a plain identifier is a variable,
/// with its field `init`; any other declaring node is `Other`.
#[verifier::external_body]
fn declaration_of<'a>(semantic: &Semantic<'a>, symbol: SymbolId) -> Declaration {
    let AstKind::VariableDeclarator(declarator) = semantic.symbol_declaration(symbol).kind() else {
        return Declaration::Other;
    };
    match &declarator.id {
        oxc::ast::ast::BindingPattern::BindingIdentifier(_) => Declaration::Variable {
            init: declarator.init.as_ref().map(|init| expression_of(semantic, init)),
        },
        _ => Declaration::Other,
    }
}

/// The facts about a symbol: `Scoping::symbol_is_mutated`; the length of
/// `Scoping::symbol_redeclarations`, which is empty for a symbol that is
/// declared once; where its declaration stands and what declares it.
#[verifier::external_body]
fn symbol_of<'a>(semantic: &Semantic<'a>, symbol: SymbolId) -> Symbol {
    Symbol {
        assigned: semantic.scoping().symbol_is_mutated(symbol),
        redeclarations: semantic.scoping().symbol_redeclarations(symbol).len(),
        declared_in: declared_in(semantic, symbol),
        declaration: declaration_of(semantic, symbol),
    }
}

/// The symbols of `Scoping::symbol_ids` and the nodes of `Semantic::nodes`,
/// each in their order.
#[verifier::external_body]
fn program_of<'a>(semantic: &Semantic<'a>) -> Module {
    Module {
        symbols: semantic.scoping().symbol_ids().map(|id| symbol_of(semantic, id)).collect(),
        sites: semantic.nodes().iter().map(|node| site_of(semantic, node.kind())).collect(),
    }
}

/// The module that the parser and the semantic analysis hold for a source,
/// and none for a source that the parser does not accept: what
/// `Parser::new(..).parse()` and `SemanticBuilder::new().build(..)` make of
/// the source, with the source type of an ES module and `return` allowed
/// outside a function, brought one for one into the plain values of
/// [`Module`]: every symbol of `Scoping::symbol_ids` and every node of
/// `Semantic::nodes`, in their order, with expressions whole. It depends on
/// the source alone.
pub uninterp spec fn module_of(source: Seq<char>) -> Option<Module>;

/// `Parser::new(..).with_options(..).parse()` and
/// `SemanticBuilder::new().build(..)` on a fresh arena, with the source
/// type of an ES module and `return` allowed outside a function. Where the
/// parser gave up or reports an error there is no module. The contract
/// gives the result its name, [`module_of`].
#[verifier::external_body]
fn read_source(source: &str) -> (r: Option<Module>)
    ensures
        r == module_of(source@),
{
    let arena = oxc::allocator::Allocator::default();
    let options =
        oxc::parser::ParseOptions { allow_return_outside_function: true, ..Default::default() };
    let kind = oxc::span::SourceType::mjs();
    let parsed = oxc::parser::Parser::new(&arena, source, kind).with_options(options).parse();
    if parsed.panicked || !parsed.errors.is_empty() {
        return None;
    }
    let semantic = oxc::semantic::SemanticBuilder::new().build(&parsed.program).semantic;
    Some(program_of(&semantic))
}

/// The static response of what was read from a source: that of the module,
/// and none where there is no module.
pub open spec fn analysis_of(module: Option<Module>) -> Option<ResponseView> {
    match module {
        Some(m) => spec_analyze(m),
        None => None,
    }
}

/// Parses the source of an action and reads the module from it: the
/// module of the source, and none for a source that the parser does not
/// accept.
pub fn read_module(source: &str) -> (r: Option<Module>)
    ensures
        r == module_of(source@),
{
    read_source(source)
}

/// The static response of an action, if its source has one: the response
/// that [`analyze_module`] finds for the module of the source, and none
/// for a source that the parser does not accept.
pub fn analyze_action_source(source: &str) -> (r: Option<StaticResponse>)
    ensures
        response_view(r) == analysis_of(module_of(source@)),
{
    match read_source(source) {
        Some(module) => analyze_module(&module),
        None => None,
    }
}

/// What the name of a file tells of the action that it may hold.
pub struct FileRole {
    /// The stem of the name, which names the action.
    pub stem: String,
    /// Whether the file may hold an action.
    pub action: bool,
    /// Whether the file holds a bundled action.
    pub bundle: bool,
}

/// Whether `role` is what the name of a file tells.
pub open spec fn is_role_of(role: FileRole, file_name: Seq<char>) -> bool {
    &&& role.stem@ == file_stem(file_name)
    &&& role.action == is_action_file(file_name)
    &&& role.bundle == is_bundle_file(file_name)
}

/// What the name of a file tells: see [`is_role_of`].
pub fn role_of(file_name: &str) -> (r: FileRole)
    ensures
        is_role_of(r, file_name@),
{
    let (stem, extension) = split_file_name(file_name);
    let (script, bundle) = match extension {
        Some(e) => (same_text(e.as_str(), "js"), same_text(e.as_str(), "jsbundle")),
        None => (false, false),
    };
    let named = chars_of(stem.as_str()).len() > 0;
    FileRole { stem, action: (script || bundle) && named, bundle }
}

fn roles_of(files: &Vec<(String, String)>) -> (r: Vec<FileRole>)
    ensures
        r@.len() == files@.len(),
        forall|i: int| 0 <= i < r@.len() ==> is_role_of(#[trigger] r@[i], files@[i].0@),
{
    let mut out: Vec<FileRole> = Vec::new();
    let mut i: usize = 0;
    while i < files.len()
        invariant
            i <= files.len(),
            out@.len() == i,
            forall|j: int| 0 <= j < i ==> is_role_of(#[trigger] out@[j], files@[j].0@),
        decreases files.len() - i,
    {
        out.push(role_of(files[i].0.as_str()));
        i = i + 1;
    }
    out
}

fn is_source(files: &Vec<(String, String)>, roles: &Vec<FileRole>, k: usize) -> (r: bool)
    requires
        k < files@.len(),
        roles@.len() == files@.len(),
        forall|i: int| 0 <= i < roles@.len() ==> is_role_of(#[trigger] roles@[i], files@[i].0@),
    ensures
        r == decides(files@, k as int),
{
    if !roles[k].action {
        return false;
    }
    let mut j: usize = 0;
    while j < roles.len()
        invariant
            j <= roles.len(),
            k < files@.len(),
            roles@.len() == files@.len(),
            forall|i: int|
                0 <= i < roles@.len() ==> is_role_of(#[trigger] roles@[i], files@[i].0@),
            forall|i: int| 0 <= i < j ==> !#[trigger] outranks(files@, i, k as int),
        decreases roles.len() - j,
    {
        assert(is_role_of(roles@[j as int], files@[j as int].0@));
        assert(is_role_of(roles@[k as int], files@[k as int].0@));
        let before = if roles[j].bundle == roles[k].bundle {
            j > k
        } else {
            roles[j].bundle
        };
        if roles[j].action && before && same_text(roles[j].stem.as_str(), roles[k].stem.as_str()) {
            assert(outranks(files@, j as int, k as int));
            return false;
        }
        j = j + 1;
    }
    assert(is_role_of(roles@[k as int], files@[k as int].0@));
    true
}

impl FastPathRegistry {
    /// The registry for the files of the actions directory, each given by
    /// its name and its source, in any order. An action is served from the
    /// registry exactly where the analysis finds a response for the file
    /// that is its source: the bundle of the action where there is one, a
    /// file that is none otherwise. No action is entered twice, and without
    /// files the registry is empty.
    pub fn build(files: &Vec<(String, String)>) -> (r: FastPathRegistry)
        ensures
            distinct_keys(r@),
            forall|k: int| #[trigger]
                decides(files@, k) ==> member(r@, file_stem(files@[k].0@)) == analysis_of(
                    module_of(files@[k].1@),
                ),
            forall|i: int|
                0 <= i < r@.len() ==> has_source(files@, files@.len() as int, (#[trigger] r@[i]).0),
            files@.len() == 0 ==> r@.len() == 0,
    {
        let roles = roles_of(files);
        let mut registry = FastPathRegistry::new();
        let mut k: usize = 0;
        while k < files.len()
            invariant
                k <= files.len(),
                roles@.len() == files@.len(),
                forall|i: int|
                    0 <= i < roles@.len() ==> is_role_of(#[trigger] roles@[i], files@[i].0@),
                distinct_keys(registry@),
                forall|j: int|
                    j < k && #[trigger] decides(files@, j) ==> member(
                        registry@,
                        file_stem(files@[j].0@),
                    ) == analysis_of(module_of(files@[j].1@)),
                forall|i: int|
                    0 <= i < registry@.len() ==> has_source(
                        files@,
                        k as int,
                        (#[trigger] registry@[i]).0,
                    ),
            decreases files.len() - k,
        {
            let ghost before = registry@;
            let ghost name = file_stem(files@[k as int].0@);
            if is_source(files, &roles, k) {
                proof {
                    lemma_find_key(before, name, 0);
                    let at = find_key(before, name, 0);
                    if at < before.len() {
                        let j = choose|j: int|
                            j < k && #[trigger] decides(files@, j) && file_stem(files@[j].0@)
                                == before[at].0;
                        lemma_one_source_for_an_action(files@, j, k as int);
                    }
                    assert(member(before, name) is None);
                }
                match analyze_action_source(files[k].1.as_str()) {
                    Some(response) => {
                        assert(is_role_of(roles@[k as int], files@[k as int].0@));
                        registry.insert(roles[k].stem.clone(), response);
                        proof {
                            let after = registry@;
                            lemma_write_keeps_keys_distinct(before, name, response@);
                            lemma_written_member_is_read(before, name, response@);
                            assert forall|j: int| j < k && #[trigger] decides(files@, j) implies member(
                                after,
                                file_stem(files@[j].0@),
                            ) == analysis_of(module_of(files@[j].1@)) by {
                                if file_stem(files@[j].0@) == name {
                                    lemma_one_source_for_an_action(files@, j, k as int);
                                }
                                lemma_other_members_are_kept(
                                    before,
                                    name,
                                    response@,
                                    file_stem(files@[j].0@),
                                );
                            }
                            assert forall|i: int| 0 <= i < after.len() implies has_source(
                                files@,
                                k + 1,
                                (#[trigger] after[i]).0,
                            ) by {
                                if i < before.len() {
                                    assert(after[i] == before[i]);
                                    let j = choose|j: int|
                                        j < k && #[trigger] decides(files@, j) && file_stem(
                                            files@[j].0@,
                                        ) == before[i].0;
                                    assert(decides(files@, j));
                                } else {
                                    assert(after[i].0 == name);
                                    assert(decides(files@, k as int));
                                }
                            }
                        }
                    },
                    None => {
                        proof {
                            assert forall|i: int| 0 <= i < before.len() implies has_source(
                                files@,
                                k + 1,
                                (#[trigger] before[i]).0,
                            ) by {
                                let j = choose|j: int|
                                    j < k && #[trigger] decides(files@, j) && file_stem(
                                        files@[j].0@,
                                    ) == before[i].0;
                                assert(decides(files@, j));
                            }
                        }
                    },
                }
            } else {
                proof {
                    assert forall|i: int| 0 <= i < before.len() implies has_source(
                        files@,
                        k + 1,
                        (#[trigger] before[i]).0,
                    ) by {
                        let j = choose|j: int|
                            j < k && #[trigger] decides(files@, j) && file_stem(files@[j].0@)
                                == before[i].0;
                        assert(decides(files@, j));
                    }
                }
            }
            k = k + 1;
        }
        proof {
            if files@.len() == 0 && registry@.len() > 0 {
                assert(has_source(files@, 0, registry@[0].0));
            }
        }
        registry
    }
}

} // verus!
