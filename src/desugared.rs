//! The core tree that desugaring produces: fewer node kinds, every binder
//! named, every elided term a numbered hole.

use vstd::prelude::*;

use crate::concrete::Operation;
use crate::lexemes::Span;

verus! {

/// A name in the core tree, with where it came from.
#[derive(Debug, PartialEq)]
pub struct Ident {
    pub name: String,
    pub span: Span,
}

/// An argument of an application; erased arguments vanish at run time.
#[derive(Debug, PartialEq)]
pub struct AppArg {
    pub erased: bool,
    pub value: Box<Expr>,
}

#[derive(Debug, PartialEq)]
pub enum ExprKind {
    /// A local variable.
    Var(Ident),
    /// A reference to a top-level declaration.
    Ctr(Ident),
    /// A dependent function type.
    All { param: Ident, typ: Box<Expr>, body: Box<Expr>, erased: bool },
    Lambda { param: Ident, body: Box<Expr>, erased: bool },
    App(Box<Expr>, Vec<AppArg>),
    Let(Ident, Box<Expr>, Box<Expr>),
    Ann(Box<Expr>, Box<Expr>),
    Binary(Operation, Box<Expr>, Box<Expr>),
    U60(u64),
    F60(u64),
    U120(u128),
    Nat(num_bigint::BigUint),
    Str(String),
    Char(char),
    Typ,
    TypeU60,
    TypeU120,
    TypeF60,
    /// A hole that the user asked to see, `?name`.
    Help(String),
    /// An elided term, numbered once for the whole program.
    Hole(u64),
    /// Stands where a construct could not be lowered.
    Invalid,
}

#[derive(Debug, PartialEq)]
pub struct Expr {
    pub data: ExprKind,
    pub span: Span,
}

/// A parameter of a declaration.
#[derive(Debug, PartialEq)]
pub struct Argument {
    pub name: Ident,
    pub typ: Box<Expr>,
    /// Erased at run time.
    pub erased: bool,
    /// Filled in by the elaborator rather than written at call sites.
    pub hidden: bool,
}

/// A pattern on the left of a rule.
#[derive(Debug, PartialEq)]
pub enum Pat {
    Var(Ident),
    Ctr(Ident, Vec<Pat>),
    U60(u64),
    Str(String),
    Char(char),
    Invalid,
}

/// One equation of a function.
#[derive(Debug, PartialEq)]
pub struct Rule {
    pub name: Ident,
    pub patterns: Vec<Pat>,
    pub body: Box<Expr>,
}

/// A data constructor of a type.
#[derive(Debug, PartialEq)]
pub struct Constructor {
    pub name: Ident,
    pub args: Vec<Argument>,
}

#[derive(Debug, PartialEq)]
pub enum Entry {
    /// A function: its type and, when it has one, its body.
    Function { name: Ident, args: Vec<Argument>, typ: Box<Expr>, body: Option<Box<Expr>> },
    Rule(Rule),
    Command { name: Ident, args: Vec<Expr> },
    Type { name: Ident, params: Vec<Argument>, constructors: Vec<Constructor> },
}

/// The desugared program: its entries in the order they were produced,
/// each with the name of the declaration it came from.
#[derive(Debug, PartialEq)]
pub struct Book {
    pub entries: Vec<(String, Entry)>,
}

impl Book {
    pub fn new() -> (r: Book)
        ensures
            r.entries@.len() == 0,
    {
        Book { entries: Vec::new() }
    }
}

} // verus!
