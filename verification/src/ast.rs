//! An action's syntax as plain values, as the parser and the semantic
//! analysis hold it: every node of the source, with its expressions where
//! the analyzer looks at it, and the facts about each declared name. What
//! follows from them (whether a name is written again, whether a value is
//! changed in place) is decided here.

use vstd::prelude::*;

verus! {

broadcast use vstd::std_specs::vec::axiom_vec_index_decreases;

/// The deepest level of nesting at which an expression is still evaluated.
pub const MAX_EVAL_DEPTH: usize = 16;

/// A unary operator, as far as the analyzer tells them apart.
#[derive(Clone, Copy, Debug, PartialEq, Eq, Structural)]
pub enum UnaryOperator {
    /// `-x`
    Negation,
    /// `delete x.y`
    Delete,
    /// Any other unary operator.
    Other,
}

/// A binary operator, as far as the analyzer tells them apart.
#[derive(Clone, Copy, Debug, PartialEq, Eq, Structural)]
pub enum BinaryOperator {
    /// `a + b`
    Addition,
    /// Any other binary operator.
    Other,
}

/// An expression. Parentheses leave no trace: a parenthesized expression is
/// the expression inside.
#[derive(Debug)]
pub enum Expr {
    /// A string literal.
    Text(String),
    /// A numeric literal: the bit pattern of its double and the decimal text
    /// that stands for it in JSON.
    Number { bits: u64, text: String },
    /// `true` or `false`.
    Bool(bool),
    /// `null`.
    Null,
    /// An object literal.
    Object(Vec<Property>),
    /// An array literal.
    Array(Vec<Element>),
    /// A reference to a name, with the declared symbol it resolves to.
    Identifier { name: String, symbol: Option<usize> },
    /// A template literal: the cooked text of each quasi (`None` where the
    /// quasi has none) and the interpolated expressions.
    Template { quasis: Vec<Option<String>>, expressions: Vec<Expr> },
    /// A binary operation.
    Binary { operator: BinaryOperator, left: Box<Expr>, right: Box<Expr> },
    /// A unary operation.
    Unary { operator: UnaryOperator, argument: Box<Expr> },
    /// `object.property`
    StaticMember { object: Box<Expr>, property: String },
    /// `object[...]`
    ComputedMember { object: Box<Expr> },
    /// Anything else: a call, a conditional, a function, `await`, `new`.
    Other,
}

/// One entry of an object literal.
#[derive(Debug)]
pub enum Property {
    /// `...rest`
    Spread,
    /// `key: value`; the key is `None` where it is computed.
    Member { key: Option<String>, value: Expr },
}

/// One entry of an array literal.
#[derive(Debug)]
pub enum Element {
    /// `...rest`
    Spread,
    /// A hole, as in `[1, , 3]`.
    Hole,
    /// An expression.
    Item(Expr),
}

/// One argument of a call.
#[derive(Debug)]
pub enum Argument {
    /// `...rest`
    Spread,
    /// An expression.
    Value(Expr),
}

/// How a name was declared.
#[derive(Debug)]
pub enum Declaration {
    /// By a variable declarator that binds the name alone, with its
    /// initializer if it has one.
    Variable { init: Option<Expr> },
    /// In any other way: a pattern that takes a value apart, a parameter, a
    /// function, a class, an import.
    Other,
}

/// Where the declaration of a name stands: what kind of node holds the
/// statement that declares it.
#[derive(Clone, Copy, Debug, PartialEq, Eq, Structural)]
pub enum DeclaredIn {
    /// In the head of a `for-in` loop.
    ForIn,
    /// In the head of a `for-of` loop.
    ForOf,
    /// Anywhere else.
    Elsewhere,
}

/// The facts about a declared name.
#[derive(Debug)]
pub struct Symbol {
    /// Whether a reference writes to the name.
    pub assigned: bool,
    /// How many declarations of the name are kept as redeclared: none for
    /// a name that is declared once, and all of them, the first included,
    /// for a name that is declared again.
    pub redeclarations: usize,
    /// Where the declaration stands.
    pub declared_in: DeclaredIn,
    /// How the name was declared.
    pub declaration: Declaration,
}

impl Symbol {
    /// Whether the name is written again after its declaration: a reference
    /// writes to it, it is declared again, or the head of a `for-in` or
    /// `for-of` loop binds it anew on every round.
    pub open spec fn is_written_again(self) -> bool {
        self.assigned || self.redeclarations > 0 || self.declared_in != DeclaredIn::Elsewhere
    }

    /// Whether the name is written again: see [`Symbol::is_written_again`].
    pub fn written_again(&self) -> (r: bool)
        ensures
            r == self.is_written_again(),
    {
        let by_loop = match self.declared_in {
            DeclaredIn::Elsewhere => false,
            _ => true,
        };
        self.assigned || self.redeclarations > 0 || by_loop
    }
}

/// A node of the source. The analyzer looks at calls, assignments, unary
/// operations and `return` statements; every other node is `Other`.
#[derive(Debug)]
pub enum Site {
    /// A call.
    Call { callee: Expr, arguments: Vec<Argument> },
    /// An assignment, with its left-hand side.
    Assignment { target: Expr },
    /// A unary operation.
    Unary { operator: UnaryOperator, argument: Expr },
    /// A `return` statement, with the returned expression if there is one.
    Return { value: Option<Expr> },
    /// A node of any other kind.
    Other,
}

/// An action's source: its declared names, and its nodes in the order in
/// which the semantic analysis holds them. An identifier's symbol is an
/// index into `symbols`.
#[derive(Debug)]
pub struct Module {
    pub symbols: Vec<Symbol>,
    pub sites: Vec<Site>,
}

/// Whether an expression is a reference that resolves to `symbol`.
pub open spec fn refers_to(e: Expr, symbol: nat) -> bool {
    match e {
        Expr::Identifier { name, symbol: Some(s) } => s == symbol,
        _ => false,
    }
}

/// Whether an expression reads a member of the value bound to `symbol`.
pub open spec fn is_member_of(e: Expr, symbol: nat) -> bool {
    match e {
        Expr::StaticMember { object, property } => refers_to(*object, symbol),
        Expr::ComputedMember { object } => refers_to(*object, symbol),
        _ => false,
    }
}

/// The methods that change the array, map or set they are called on.
pub open spec fn is_mutating_method(name: Seq<char>) -> bool {
    name == "push"@ || name == "pop"@ || name == "shift"@ || name == "unshift"@ || name
        == "splice"@ || name == "sort"@ || name == "reverse"@ || name == "fill"@ || name
        == "copyWithin"@ || name == "set"@ || name == "delete"@ || name == "clear"@
}

/// Whether a site changes the value bound to `symbol` in place: a mutating
/// method called on it, an assignment to one of its members, or the deletion
/// of one.
pub open spec fn site_mutates(site: Site, symbol: nat) -> bool {
    match site {
        Site::Call { callee: Expr::StaticMember { object, property }, arguments } => {
            is_mutating_method(property@) && refers_to(*object, symbol)
        },
        Site::Assignment { target } => is_member_of(target, symbol),
        Site::Unary { operator: UnaryOperator::Delete, argument } => is_member_of(
            argument,
            symbol,
        ),
        _ => false,
    }
}

/// Whether any site changes the value bound to `symbol` in place.
pub open spec fn is_mutated_in_place(sites: Seq<Site>, symbol: nat) -> bool {
    exists|i: int| 0 <= i < sites.len() && site_mutates(#[trigger] sites[i], symbol)
}

/// Whether `name` is one of the mutating methods.
pub fn names_mutating_method(name: &str) -> (r: bool)
    ensures
        r == is_mutating_method(name@),
{
    crate::text::same_text(name, "push") || crate::text::same_text(name, "pop")
        || crate::text::same_text(name, "shift") || crate::text::same_text(name, "unshift")
        || crate::text::same_text(name, "splice") || crate::text::same_text(name, "sort")
        || crate::text::same_text(name, "reverse") || crate::text::same_text(name, "fill")
        || crate::text::same_text(name, "copyWithin") || crate::text::same_text(name, "set")
        || crate::text::same_text(name, "delete") || crate::text::same_text(name, "clear")
}

/// Whether `e` is a reference that resolves to `symbol`.
pub fn is_identifier_for_symbol(e: &Expr, symbol: usize) -> (r: bool)
    ensures
        r == refers_to(*e, symbol as nat),
{
    match e {
        Expr::Identifier { name, symbol: Some(s) } => *s == symbol,
        _ => false,
    }
}

/// Whether `e` reads a member of the value bound to `symbol`.
pub fn is_member_of_symbol(e: &Expr, symbol: usize) -> (r: bool)
    ensures
        r == is_member_of(*e, symbol as nat),
{
    match e {
        Expr::StaticMember { object, property } => is_identifier_for_symbol(object, symbol),
        Expr::ComputedMember { object } => is_identifier_for_symbol(object, symbol),
        _ => false,
    }
}

/// Whether `site` changes the value bound to `symbol` in place.
pub fn mutates(site: &Site, symbol: usize) -> (r: bool)
    ensures
        r == site_mutates(*site, symbol as nat),
{
    match site {
        Site::Call { callee, arguments } => match callee {
            Expr::StaticMember { object, property } => {
                names_mutating_method(property.as_str()) && is_identifier_for_symbol(
                    object,
                    symbol,
                )
            },
            _ => false,
        },
        Site::Assignment { target } => is_member_of_symbol(target, symbol),
        Site::Unary { operator, argument } => match operator {
            UnaryOperator::Delete => is_member_of_symbol(argument, symbol),
            _ => false,
        },
        Site::Return { value } => false,
        Site::Other => false,
    }
}

/// Whether any of `sites` changes the value bound to `symbol` in place.
pub fn is_object_mutated(sites: &Vec<Site>, symbol: usize) -> (r: bool)
    ensures
        r == is_mutated_in_place(sites@, symbol as nat),
{
    let mut i: usize = 0;
    while i < sites.len()
        invariant
            i <= sites.len(),
            forall|j: int| 0 <= j < i ==> !site_mutates(#[trigger] sites@[j], symbol as nat),
        decreases sites.len() - i,
    {
        if mutates(&sites[i], symbol) {
            return true;
        }
        i = i + 1;
    }
    false
}

} // verus!
