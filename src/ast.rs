//! The statement and expression tree that the cleanup pass edits.
use vstd::prelude::*;

verus! {

/// Identity of a labelled block or loop. Two labels are the same target
/// exactly when their identifiers are equal.
#[derive(Clone, Copy, Debug, PartialEq, Eq, Structural)]
pub struct Label(pub u64);

/// The suffix written on an integer literal.
#[derive(Clone, Copy, Debug, PartialEq, Eq, Structural)]
pub enum LitIntType {
    Unsuffixed,
    Signed,
    Unsigned,
}

/// A literal value.
#[derive(Debug, PartialEq, Eq)]
pub enum Lit {
    Int(u128, LitIntType),
    Bool(bool),
    Str(String),
}

/// The pattern of a dispatch arm.
#[derive(Debug, PartialEq, Eq)]
pub enum Pat {
    Wild,
    Lit(Lit),
}

/// An ordered sequence of statements.
#[derive(Debug, PartialEq, Eq)]
pub struct Block {
    pub stmts: Vec<Stmt>,
}

/// One arm of a multi-way dispatch.
#[derive(Debug, PartialEq, Eq)]
pub struct Arm {
    pub pat: Pat,
    pub body: Box<Expr>,
}

/// An expression of the tree.
#[derive(Debug, PartialEq, Eq)]
pub enum Expr {
    /// A variable or other named value.
    Path(String),
    Lit(Lit),
    /// Condition, then-block, optional else-expression.
    If(Box<Expr>, Block, Option<Box<Expr>>),
    /// Scrutinee and arms, in order.
    Match(Box<Expr>, Vec<Arm>),
    /// A block, with an optional label.
    Block(Block, Option<Label>),
    /// A break, with an optional target label and an optional value.
    Break(Option<Label>, Option<Box<Expr>>),
    /// A return, with an optional value.
    Ret(Option<Box<Expr>>),
}

/// A statement of a sequence.
#[derive(Debug, PartialEq, Eq)]
pub enum Stmt {
    /// An expression in tail form, without a trailing semicolon.
    Expr(Box<Expr>),
    /// An expression evaluated for its effect, followed by a semicolon.
    Semi(Box<Expr>),
}

} // verus!
