//! First pieces of the syntax-tree layer: the node traits and the nodes a
//! `let` statement is made of.

use crate::lexer::token::Token;
use vstd::prelude::*;

verus! {

/// Behaviour every node of the syntax tree offers: reporting the literal
/// text of the token it is associated with.
pub trait Node {
    /// The token text this node reports, as a mathematical value.
    spec fn spec_token_literal(&self) -> Seq<char>;

    /// Returns the literal text of the token this node is associated with.
    fn token_literal(&self) -> (s: String)
        ensures
            s@ == self.spec_token_literal(),
    ;
}

/// Behaviour of statements; statements produce no values.
pub trait Statement {
    /// Marker method, mainly for debugging.
    fn statement_node(&self);
}

/// Behaviour of expressions; expressions produce values.
pub trait Expression {
    /// Marker method, mainly for debugging.
    fn expression_node(&self);
}

/// Root node of every syntax tree the parser produces: a program is a
/// series of statements.
pub struct Program<T> where T: Node + Statement {
    pub statements: Vec<T>,
}

impl<T> Node for Program<T> where T: Node + Statement {
    open spec fn spec_token_literal(&self) -> Seq<char> {
        if self.statements@.len() == 0 {
            Seq::empty()
        } else {
            self.statements@[0].spec_token_literal()
        }
    }

    /// A program reports the literal of its first statement, or nothing
    /// when it has none.
    fn token_literal(&self) -> (s: String) {
        if self.statements.is_empty() {
            String::default()
        } else {
            self.statements[0].token_literal()
        }
    }
}

/// An identifier expression: the token plus the name it spells.
pub struct Identifier<'a> {
    pub token: Token<'a>,
    pub value: &'a str,
}

impl Expression for Identifier<'_> {
    fn expression_node(&self) {
    }
}

impl Node for Identifier<'_> {
    open spec fn spec_token_literal(&self) -> Seq<char> {
        self.token.literal@
    }

    fn token_literal(&self) -> (s: String) {
        self.token.literal.to_owned()
    }
}

/// A `let` statement: its keyword token, the name it binds, and the bound
/// value.
pub struct LetStatement<'a, T> where T: Node + Expression {
    pub token: Token<'a>,
    pub identifier: Identifier<'a>,
    pub value: T,
}

impl<T> Statement for LetStatement<'_, T> where T: Node + Expression {
    fn statement_node(&self) {
    }
}

impl<T> Node for LetStatement<'_, T> where T: Node + Expression {
    open spec fn spec_token_literal(&self) -> Seq<char> {
        self.token.literal@
    }

    fn token_literal(&self) -> (s: String) {
        self.token.literal.to_owned()
    }
}

} // verus!
