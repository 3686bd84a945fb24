//! The concrete syntax tree, with all of the sugar. It keeps the structural
//! tokens of the source so that the program can be printed back and
//! diagnostics can point at any of them.

use vstd::prelude::*;

use crate::lexemes;
use crate::lexemes::{AngleBracket, Brace, Bracket, Colon, Equal, Ident, Item, Name, Paren, QualifiedIdent, Token, Tokenized};

verus! {

/// num_bigint's unbounded natural number, carried through unopened as the
/// value of a `Nat` literal.
#[verifier::external_type_specification]
#[verifier::external_body]
pub struct ExBigUint(num_bigint::BigUint);

#[derive(Debug, PartialEq)]
pub enum AttributeStyleKind {
    String(Tokenized<String>),
    Number(Tokenized<u64>),
    Identifier(Ident),
    List(Bracket<Vec<AttributeStyle>>),
}

/// The argument part of an attribute: the value after an equal sign
/// (`#name = "Vaundy"`) or one of the arguments (`#derive[match]`).
pub type AttributeStyle = Item<AttributeStyleKind>;

#[derive(Debug, PartialEq)]
pub struct AttributeKind {
    pub hash: lexemes::Hash,
    pub name: Ident,
    pub value: Option<Equal<AttributeStyle>>,
    pub arguments: Option<Bracket<Vec<AttributeStyle>>>,
}

/// A compiler directive attached to a top-level item.
pub type Attribute = Item<AttributeKind>;

/// A name with an optional type annotation.
#[derive(Debug, PartialEq)]
pub struct TypeBinding {
    pub name: Name,
    pub binding_type: Option<Colon<Box<Expr>>>,
}

#[derive(Debug, PartialEq)]
pub enum ParameterBinding {
    Implicit(AngleBracket<TypeBinding>),
    Explicit(Paren<TypeBinding>),
}

/// A parameter of a signature, with its erasure marker: `-` (erased at run
/// time), `+` (kept) or both.
#[derive(Debug, PartialEq)]
pub enum SignatureParameter {
    Exclude(ParameterBinding),
    Include(ParameterBinding),
    Both(ParameterBinding),
}

/// The erasure marker written before a parameter: `-` erases it at run
/// time, `+` keeps it, `-+` and `+-` mark it as both; no marker, or any
/// other text, keeps it.
pub open spec fn modifier_kind(m: Option<Seq<char>>) -> SignatureParameterKind {
    match m {
        Some(t) => if t == seq!['-'] {
            SignatureParameterKind::Exclude
        } else if t == seq!['-', '+'] || t == seq!['+', '-'] {
            SignatureParameterKind::Both
        } else {
            SignatureParameterKind::Include
        },
        None => SignatureParameterKind::Include,
    }
}

/// Which of the three erasure markers a parameter carries.
#[derive(Debug, Clone, Copy, PartialEq, Eq, Structural)]
pub enum SignatureParameterKind {
    Exclude,
    Include,
    Both,
}

impl SignatureParameter {
    pub open spec fn kind(&self) -> SignatureParameterKind {
        match self {
            SignatureParameter::Exclude(_) => SignatureParameterKind::Exclude,
            SignatureParameter::Include(_) => SignatureParameterKind::Include,
            SignatureParameter::Both(_) => SignatureParameterKind::Both,
        }
    }

    pub open spec fn binding(&self) -> ParameterBinding {
        match self {
            SignatureParameter::Exclude(b) => *b,
            SignatureParameter::Include(b) => *b,
            SignatureParameter::Both(b) => *b,
        }
    }

    /// The parameter `binding` under the erasure marker `modifier`.
    pub fn with_modifier(modifier: Option<&str>, binding: ParameterBinding) -> (r: SignatureParameter)
        ensures
            r.kind() == modifier_kind(
                match modifier {
                    Some(m) => Some(m@),
                    None => None,
                },
            ),
            r.binding() == binding,
    {
        match modifier {
            None => SignatureParameter::Include(binding),
            Some(m) => {
                let cs = crate::lexer::chars_of(m);
                let n = cs.len();
                if n == 1 && cs[0] == '-' {
                    proof {
                        assert(m@ =~= seq!['-']);
                    }
                    SignatureParameter::Exclude(binding)
                } else if n == 2 && ((cs[0] == '-' && cs[1] == '+') || (cs[0] == '+' && cs[1] == '-')) {
                    proof {
                        if cs[0] == '-' {
                            assert(m@ =~= seq!['-', '+']);
                        } else {
                            assert(m@ =~= seq!['+', '-']);
                        }
                    }
                    SignatureParameter::Both(binding)
                } else {
                    proof {
                        assert(m@ != seq!['-']) by {
                            if m@ == seq!['-'] {
                                assert(m@[0] == '-');
                            }
                        }
                        assert(m@ != seq!['-', '+']) by {
                            if m@ == seq!['-', '+'] {
                                assert(m@[0] == '-' && m@[1] == '+');
                            }
                        }
                        assert(m@ != seq!['+', '-']) by {
                            if m@ == seq!['+', '-'] {
                                assert(m@[0] == '+' && m@[1] == '-');
                            }
                        }
                    }
                    SignatureParameter::Include(binding)
                }
            },
        }
    }
}

/// A reference to a local declaration.
#[derive(Debug, PartialEq)]
pub struct LocalExpr {
    pub name: Name,
}

/// A reference to a top-level declaration.
#[derive(Debug, PartialEq)]
pub struct ConstructorExpr {
    pub name: Name,
}

/// The parameter of a function type or of a lambda: a binding in
/// parentheses, such as `(x : Int)`, or a bare expression.
#[derive(Debug, PartialEq)]
pub enum PiParameter {
    Named(Paren<TypeBinding>),
    Expr(Box<Expr>),
}

/// A dependent function type.
#[derive(Debug, PartialEq)]
pub struct PiExpr {
    pub tilde: lexemes::Tilde,
    pub param: PiParameter,
    pub arrow: lexemes::RightArrow,
    pub body: Box<Expr>,
}

/// A dependent pair type: the type of the second element may depend on the
/// first one.
#[derive(Debug, PartialEq)]
pub struct SigmaExpr {
    pub param: Bracket<TypeBinding>,
    pub arrow: lexemes::RightArrow,
    pub body: Box<Expr>,
}

/// An anonymous function.
#[derive(Debug, PartialEq)]
pub struct LambdaExpr {
    pub tilde: Option<lexemes::Tilde>,
    pub param: PiParameter,
    pub arrow: lexemes::FatArrow,
    pub body: Box<Expr>,
}

#[derive(Debug, PartialEq)]
pub struct Rename(pub Ident, pub Equal<Box<Expr>>);

#[derive(Debug, PartialEq)]
pub enum NamedBinding {
    Named(Paren<Rename>),
    Expr(Box<Expr>),
}

/// An argument of an application; a tilde marks an erased one.
#[derive(Debug, PartialEq)]
pub struct Binding {
    pub tilde: Option<lexemes::Tilde>,
    pub value: NamedBinding,
}

/// A function applied to a sequence of arguments.
#[derive(Debug, PartialEq)]
pub struct AppExpr {
    pub fun: Box<Expr>,
    pub arg: Vec<Binding>,
}

/// A type annotation.
#[derive(Debug, PartialEq)]
pub struct AnnExpr {
    pub value: Box<Expr>,
    pub colon: lexemes::ColonColon,
    pub typ: Box<Expr>,
}

/// A constant written in the program. A 60-bit float is kept as the bits
/// of its IEEE-754 encoding.
#[derive(Debug, PartialEq)]
pub enum Literal {
    U60(Tokenized<u64>),
    F60(Tokenized<u64>),
    U120(Tokenized<u128>),
    Nat(Tokenized<num_bigint::BigUint>),
    String(Tokenized<String>),
    Char(Tokenized<char>),
}

/// The primitive types and the help marker `?name`.
#[derive(Debug, PartialEq)]
pub enum TypeExpr {
    Help(Tokenized<String>),
    Type(lexemes::Type),
    TypeU60(Token),
    TypeU120(Token),
    TypeF60(Token),
}

#[derive(Debug, Clone, Copy, PartialEq, Eq, Structural)]
pub enum Operation {
    Add,
    Sub,
    Mul,
    Div,
    Mod,
    Eq,
    Neq,
    Lt,
    Gt,
    Leq,
    Geq,
    And,
    Or,
    Xor,
    Not,
    Shl,
    Shr,
}

/// A binary operation.
#[derive(Debug, PartialEq)]
pub struct BinaryExpr {
    pub left: Box<Expr>,
    pub op: Tokenized<Operation>,
    pub right: Box<Expr>,
}

/// A named monadic binding inside a `do` block.
#[derive(Debug, PartialEq)]
pub struct AskExpr {
    pub ask: lexemes::Ask,
    pub name: Ident,
    pub value: Equal<Box<Expr>>,
}

/// A let binding.
#[derive(Debug, PartialEq)]
pub struct LetExpr {
    pub let_token: lexemes::Let,
    pub name: Ident,
    pub value: Equal<Box<Expr>>,
    pub semi: Option<lexemes::Semi>,
    pub next: Box<Expr>,
}

/// The `pure` of the monad of a `do` block.
#[derive(Debug, PartialEq)]
pub struct ReturnExpr {
    pub return_token: lexemes::Return,
    pub value: Box<Expr>,
}

#[derive(Debug, PartialEq)]
pub struct Stmt {
    pub value: Expr,
    pub semi: Option<lexemes::Semi>,
}

pub type Block = Brace<Vec<Stmt>>;

/// A block in the `do` notation, such as
/// `do A { ask a = 2; ask b = 3; return a + b; }`.
#[derive(Debug, PartialEq)]
pub struct DoNode {
    pub do_token: lexemes::Do,
    pub typ: Option<Ident>,
    pub value: Block,
}

/// A conditional expression.
#[derive(Debug, PartialEq)]
pub struct IfExpr {
    pub cond: Tokenized<Box<Expr>>,
    pub then_branch: Brace<Box<Expr>>,
    pub otherwise: Tokenized<Brace<Box<Expr>>>,
}

/// A dependent pair, such as `$ a b`.
#[derive(Debug, PartialEq)]
pub struct PairNode<T> {
    pub sign: lexemes::Sign,
    pub left: Box<T>,
    pub right: Box<T>,
}

/// A substitution of a value inside the context, such as
/// `specialize a into #0 in a`.
#[derive(Debug, PartialEq)]
pub struct SubstExpr {
    pub specialize: lexemes::Specialize,
    pub name: Ident,
    pub into: Token,
    pub hash: lexemes::Hash,
    pub num: u64,
    pub in_token: Token,
    pub value: Box<Expr>,
}

/// A list of values between brackets.
#[derive(Debug, PartialEq)]
pub struct ListNode<T> {
    pub bracket: Bracket<Vec<T>>,
}

/// One case of a match.
#[derive(Debug, PartialEq)]
pub struct CaseNode {
    pub name: Ident,
    pub arrow: lexemes::FatArrow,
    pub value: Box<Expr>,
}

/// A case analysis on a value (a dependent eliminator), such as
/// `match List a { nil => 0 cons => a.head }`.
#[derive(Debug, PartialEq)]
pub struct MatchExpr {
    pub match_token: lexemes::Match,
    pub typ: Option<Ident>,
    pub with: Option<(lexemes::With, Vec<PiParameter>)>,
    pub scrutinee: Box<Expr>,
    pub cases: Brace<Vec<CaseNode>>,
    pub motive: Option<Colon<Box<Expr>>>,
}

/// Brings each field of a record into scope, such as `open List a a.head`.
/// The name should be an identifier, but any expression is kept so that
/// the error can be reported later.
#[derive(Debug, PartialEq)]
pub struct OpenExpr {
    pub open: lexemes::Open,
    pub typ: Ident,
    pub name: Box<Expr>,
    pub motive: Option<Colon<Box<Expr>>>,
    pub body: Brace<Vec<Stmt>>,
}

/// What is done with the field reached by an access.
#[derive(Debug, PartialEq)]
pub enum AccessOperation {
    Assign(Token, Box<Expr>),
    Mut(Token, Box<Expr>),
    Get,
}

/// Reads or changes fields of a record.
#[derive(Debug, PartialEq)]
pub struct AccessExpr {
    pub typ: Box<Expr>,
    pub expr: Box<Expr>,
    pub fields: Vec<(lexemes::Dot, Ident)>,
    pub operation: AccessOperation,
}

#[derive(Debug, PartialEq)]
pub enum ExprKind {
    Local(Box<LocalExpr>),
    Pi(Box<PiExpr>),
    Sigma(Box<SigmaExpr>),
    Lambda(Box<LambdaExpr>),
    App(Box<AppExpr>),
    Let(Box<LetExpr>),
    Ann(Box<AnnExpr>),
    Binary(Box<BinaryExpr>),
    Do(Box<DoNode>),
    If(Box<IfExpr>),
    Literal(Box<Literal>),
    Constructor(Box<ConstructorExpr>),
    Pair(Box<PairNode<Expr>>),
    List(Box<ListNode<Expr>>),
    Subst(Box<SubstExpr>),
    Match(Box<MatchExpr>),
    Open(Box<OpenExpr>),
    Access(Box<AccessExpr>),
    Type(Box<TypeExpr>),
    Paren(Box<Paren<Expr>>),
    Error,
}

pub type Expr = Item<ExprKind>;

/// A constructor applied to argument patterns.
#[derive(Debug, PartialEq)]
pub struct ConstructorPat {
    pub name: QualifiedIdent,
    pub args: Vec<SignatureParameter>,
}

/// The left side of a rule, matched against a value.
#[derive(Debug, PartialEq)]
pub enum PatKind {
    Name(Name),
    Pair(PairNode<Pat>),
    Constructor(ConstructorPat),
    List(ListNode<Pat>),
    Literal(Literal),
}

pub type Pat = Item<PatKind>;

/// The type of a function, such as `Add (n: Nat) (m: Nat) : Nat`, with an
/// optional body.
#[derive(Debug, PartialEq)]
pub struct Signature {
    pub name: Name,
    pub parameters: Vec<SignatureParameter>,
    pub return_type: Option<Colon<Expr>>,
    pub value: Option<Block>,
}

/// One equation of a function, such as `Add Nat.zero m = m`. It carries no
/// signature: rules and signatures are joined by name.
#[derive(Debug, PartialEq)]
pub struct Rule {
    pub name: Ident,
    pub patterns: Vec<Pat>,
    pub value: Equal<Expr>,
}

/// A function defined by a body, with no equations, such as
/// `Add (n: Nat) (m: Nat) : Nat { n + m }`.
#[derive(Debug, PartialEq)]
pub struct Function {
    pub name: Ident,
    pub arguments: Vec<SignatureParameter>,
    pub return_typ: Option<Colon<Expr>>,
    pub value: Brace<Expr>,
}

/// A directive run at compile time, such as `@eval (+ 1 1)`.
#[derive(Debug, PartialEq)]
pub struct Command {
    pub at: Token,
    pub name: Ident,
    pub arguments: Vec<Expr>,
}

/// A data constructor of a type family, such as `some (value: a) : Maybe a`.
#[derive(Debug, PartialEq)]
pub struct Constructor {
    pub name: Ident,
    pub arguments: Vec<SignatureParameter>,
    pub typ: Option<Colon<Vec<Expr>>>,
}

/// A type family with its constructors, parameters and indices.
#[derive(Debug, PartialEq)]
pub struct TypeDef {
    pub name: QualifiedIdent,
    pub constructors: Vec<Constructor>,
    pub params: Vec<SignatureParameter>,
    pub indices: Vec<SignatureParameter>,
}

/// A type with a single constructor whose fields are named.
#[derive(Debug, PartialEq)]
pub struct RecordDef {
    pub name: QualifiedIdent,
    pub fields: Vec<TypeBinding>,
    pub params: Vec<SignatureParameter>,
    pub indices: Vec<SignatureParameter>,
}

#[derive(Debug, PartialEq)]
pub enum TopLevelKind {
    Function(Function),
    Commmand(Command),
    Signature(Signature),
    Record(RecordDef),
    Type(TypeDef),
    Rule(Rule),
}

#[derive(Debug, PartialEq)]
pub struct Attributed<T> {
    pub attributes: Vec<Attribute>,
    pub data: T,
}

/// A top-level item with its attributes.
pub type TopLevel = Attributed<Item<TopLevelKind>>;

/// The root of the tree: what parsing a module gives.
#[derive(Debug, PartialEq)]
pub struct Module {
    pub shebang: Option<String>,
    pub items: Vec<TopLevel>,
    pub eof: Token,
}

/// The whole program: top-level declarations keyed by their names, in the
/// order they were added. No name appears twice.
#[derive(Debug, PartialEq)]
pub struct Book {
    pub entries: Vec<(String, TopLevel)>,
}

impl Book {
    /// The names of the declarations, in order.
    pub open spec fn names(&self) -> Seq<Seq<char>> {
        self.entries@.map_values(|e: (String, TopLevel)| e.0@)
    }

    pub open spec fn wf(&self) -> bool {
        self.names().no_duplicates()
    }

    pub fn new() -> (r: Book)
        ensures
            r.entries@.len() == 0,
            r.wf(),
    {
        Book { entries: Vec::new() }
    }

    /// Where the declaration called `name` stands, if there is one.
    pub fn find(&self, name: &String) -> (r: Option<usize>)
        ensures
            r matches Some(i) ==> i < self.entries@.len() && self.names()[i as int] == name@,
            r is None ==> !self.names().contains(name@),
    {
        let mut i: usize = 0;
        while i < self.entries.len()
            invariant
                i <= self.entries@.len(),
                forall|j: int| 0 <= j < i ==> self.names()[j] != name@,
            decreases self.entries@.len() - i,
        {
            if self.entries[i].0 == *name {
                return Some(i);
            }
            i = i + 1;
        }
        proof {
            if self.names().contains(name@) {
                let j = choose|j: int| 0 <= j < self.names().len() && self.names()[j] == name@;
                assert(self.names()[j] != name@);
            }
        }
        None
    }

    /// Adds a declaration under `name`. A name that is already declared is
    /// refused, and the item is handed back.
    pub fn insert(&mut self, name: String, item: TopLevel) -> (r: Result<(), TopLevel>)
        requires
            old(self).wf(),
        ensures
            final(self).wf(),
            old(self).names().contains(name@) <==> r is Err,
            r is Ok ==> final(self).names() == old(self).names().push(name@),
            r is Ok ==> final(self).entries@.drop_last() == old(self).entries@,
            r matches Err(i) ==> i == item && final(self).entries@ == old(self).entries@,
    {
        match self.find(&name) {
            Some(_) => Err(item),
            None => {
                let ghost before = self.entries@;
                self.entries.push((name, item));
                proof {
                    assert(self.names() =~= old(self).names().push(name@));
                    assert(self.entries@.drop_last() =~= before);
                    assert forall|a: int, b: int|
                        0 <= a < self.names().len() && 0 <= b < self.names().len() && a != b
                            implies self.names()[a] != self.names()[b] by {
                        if a < before.len() && b < before.len() {
                            assert(old(self).names()[a] == self.names()[a]);
                            assert(old(self).names()[b] == self.names()[b]);
                        } else if a == before.len() {
                            assert(old(self).names()[b] == self.names()[b]);
                        } else {
                            assert(old(self).names()[a] == self.names()[a]);
                        }
                    }
                }
                Ok(())
            },
        }
    }
}

} // verus!
