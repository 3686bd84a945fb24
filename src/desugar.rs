//! Lowers the concrete tree into the core tree, one top-level declaration
//! at a time. On the way it numbers every elided term as a hole, names the
//! binders that the source left unnamed, and reports every construct it
//! cannot lower without stopping at the first.

use vstd::prelude::*;

use std::sync::mpsc::Sender;

use crate::concrete;
use crate::concrete::{
    Book, ExprKind, Literal, NamedBinding, ParameterBinding, Pat, PatKind, PiParameter,
    SignatureParameter, TopLevel, TopLevelKind, TypeBinding, TypeExpr,
};
use crate::desugared;
use crate::lexemes;
use crate::lexemes::{Colon, Name, Span};

verus! {

/// std's sending half of a channel, carried through unopened: the pass
/// only hands errors to it.
#[verifier::external_type_specification]
#[verifier::external_body]
#[verifier::reject_recursive_types(T)]
pub struct ExSender<T>(Sender<T>);

/// Relies on num_bigint::BigUint's Clone: the copy holds the same digits,
/// so it is the same number.
pub assume_specification[ <num_bigint::BigUint as Clone>::clone ](b: &num_bigint::BigUint) -> (r:
    num_bigint::BigUint)
    ensures
        r == *b,
;

/// What the pass reports when it cannot lower a declaration.
#[derive(Debug, PartialEq)]
pub enum PassError {
    /// A part of the tree that the parser could not read.
    InvalidSyntax(Span),
    /// A construct that this pass does not lower.
    UnsupportedSyntax(Span),
    /// A binder written as an expression that is not a plain name.
    ExpectedName(Span),
    /// A rule whose name has no signature or function in the program.
    RuleWithoutSignature(String, Span),
    /// A hole past the last number the counter can give.
    TooManyHoles(Span),
    /// A fresh name past the last number the counter can give.
    TooManyNames(Span),
}

/// Relies on std::sync::mpsc::Sender::send: it queues the error for the
/// receiver and never blocks. It fails only when the receiver is gone, and
/// the error is then dropped, as there is nobody left to tell.
#[verifier::external_body]
fn send_to(sender: &Sender<PassError>, err: PassError) {
    let _ = sender.send(err);
}

/// The decimal digit `d`, for `d` below ten.
pub open spec fn digit_char(d: nat) -> char {
    if d == 0 {
        '0'
    } else if d == 1 {
        '1'
    } else if d == 2 {
        '2'
    } else if d == 3 {
        '3'
    } else if d == 4 {
        '4'
    } else if d == 5 {
        '5'
    } else if d == 6 {
        '6'
    } else if d == 7 {
        '7'
    } else if d == 8 {
        '8'
    } else {
        '9'
    }
}

/// `n` written in decimal, without leading zeros.
pub open spec fn decimal(n: nat) -> Seq<char>
    decreases n,
{
    if n < 10 {
        seq![digit_char(n)]
    } else {
        decimal(n / 10).push(digit_char(n % 10))
    }
}

/// The fresh name minted by the `n`-th request of a pass: `_x` and `n`.
pub open spec fn fresh_name(n: nat) -> Seq<char> {
    seq!['_', 'x'] + decimal(n)
}

proof fn lemma_decimal_len(n: nat)
    ensures
        decimal(n).len() >= 1,
        n >= 10 ==> decimal(n).len() >= 2,
    decreases n,
{
    if n >= 10 {
        lemma_decimal_len(n / 10);
    }
}

/// Different numbers are written differently.
pub proof fn lemma_decimal_injective(a: nat, b: nat)
    requires
        decimal(a) == decimal(b),
    ensures
        a == b,
    decreases a,
{
    lemma_decimal_len(a);
    lemma_decimal_len(b);
    if a < 10 && b < 10 {
        assert(decimal(a)[0] == digit_char(a));
        assert(decimal(b)[0] == digit_char(b));
    } else if a >= 10 && b >= 10 {
        assert(decimal(a).last() == digit_char(a % 10));
        assert(decimal(b).last() == digit_char(b % 10));
        assert(decimal(a).drop_last() =~= decimal(a / 10));
        assert(decimal(b).drop_last() =~= decimal(b / 10));
        lemma_decimal_injective(a / 10, b / 10);
    }
}

fn digit_exec(d: u64) -> (r: char)
    requires
        d < 10,
    ensures
        r == digit_char(d as nat),
{
    if d == 0 {
        '0'
    } else if d == 1 {
        '1'
    } else if d == 2 {
        '2'
    } else if d == 3 {
        '3'
    } else if d == 4 {
        '4'
    } else if d == 5 {
        '5'
    } else if d == 6 {
        '6'
    } else if d == 7 {
        '7'
    } else if d == 8 {
        '8'
    } else {
        '9'
    }
}

/// Appends `n` written in decimal to `out`.
fn push_decimal(out: &mut String, n: u64)
    ensures
        final(out)@ == old(out)@ + decimal(n as nat),
    decreases n,
{
    if n >= 10 {
        push_decimal(out, n / 10);
    }
    crate::lexer::push_char(out, digit_exec(n % 10));
    proof {
        if n >= 10 {
            assert(old(out)@ + decimal(n as nat) =~= old(out)@ + decimal((n / 10) as nat) + seq![
                digit_char((n % 10) as nat),
            ]);
        } else {
            assert(old(out)@ + decimal(n as nat) =~= old(out)@.push(digit_char(n as nat)));
        }
    }
}

/// The state of one desugaring pass.
pub struct DesugarState<'a> {
    /// Where the errors go, in the order they are found.
    pub errors: Sender<PassError>,
    /// The program being lowered.
    pub old_book: &'a concrete::Book,
    /// What has been lowered so far.
    pub new_book: desugared::Book,
    /// How many fresh names were minted.
    pub name_count: u64,
    /// How many holes were numbered.
    pub holes: u64,
    /// Set by the first error, and never reset.
    pub failed: bool,
    /// Every error sent, in order.
    pub sent: Ghost<Seq<PassError>>,
    /// Every hole number handed out, in order.
    pub holes_given: Ghost<Seq<u64>>,
    /// Every fresh name handed out, in order.
    pub names_given: Ghost<Seq<Seq<char>>>,
}

impl<'a> DesugarState<'a> {
    pub open spec fn wf(&self) -> bool {
        &&& self.holes_given@.len() == self.holes
        &&& forall|i: int| 0 <= i < self.holes_given@.len() ==> self.holes_given@[i] == i
        &&& self.names_given@.len() == self.name_count
        &&& forall|i: int|
            0 <= i < self.names_given@.len() ==> self.names_given@[i] == fresh_name((i + 1) as nat)
        &&& self.failed <==> self.sent@.len() > 0
    }

    /// `self` comes from `prev` by work of the pass on one piece of a
    /// declaration: errors and counters only grow, the books stay.
    pub open spec fn follows(&self, prev: &Self) -> bool {
        &&& prev.sent@.is_prefix_of(self.sent@)
        &&& prev.holes <= self.holes
        &&& prev.name_count <= self.name_count
        &&& self.new_book == prev.new_book
        &&& self.old_book == prev.old_book
    }

    /// A fresh state for lowering `book`: no errors, no holes, no names.
    pub fn new(errors: Sender<PassError>, book: &'a concrete::Book) -> (r: DesugarState<'a>)
        ensures
            r.wf(),
            r.old_book == book,
            r.new_book.entries@.len() == 0,
            r.name_count == 0,
            r.holes == 0,
            !r.failed,
            r.sent@.len() == 0,
    {
        DesugarState {
            errors,
            old_book: book,
            new_book: desugared::Book::new(),
            name_count: 0,
            holes: 0,
            failed: false,
            sent: Ghost(Seq::empty()),
            holes_given: Ghost(Seq::empty()),
            names_given: Ghost(Seq::empty()),
        }
    }

    /// Numbers a new hole: one more than the one before, from zero.
    fn gen_hole(&mut self) -> (r: u64)
        requires
            old(self).wf(),
            old(self).holes < u64::MAX,
        ensures
            final(self).wf(),
            final(self).follows(old(self)),
            r == old(self).holes,
            final(self).holes == old(self).holes + 1,
            final(self).holes_given@ == old(self).holes_given@.push(r),
            final(self).sent == old(self).sent,
            final(self).name_count == old(self).name_count,
    {
        let r = self.holes;
        self.holes = self.holes + 1;
        proof {
            self.holes_given@ = self.holes_given@.push(r);
        }
        r
    }

    /// Mints a new name, `_x` followed by how many names were minted,
    /// this one included.
    fn gen_name(&mut self, span: Span) -> (r: desugared::Ident)
        requires
            old(self).wf(),
            old(self).name_count < u64::MAX,
        ensures
            final(self).wf(),
            final(self).follows(old(self)),
            r.name@ == fresh_name((old(self).name_count + 1) as nat),
            r.span == span,
            final(self).name_count == old(self).name_count + 1,
            final(self).names_given@ == old(self).names_given@.push(r.name@),
            final(self).sent == old(self).sent,
            final(self).holes == old(self).holes,
    {
        self.name_count = self.name_count + 1;
        let mut name = String::new();
        crate::lexer::push_char(&mut name, '_');
        crate::lexer::push_char(&mut name, 'x');
        push_decimal(&mut name, self.name_count);
        proof {
            assert(name@ =~= fresh_name(self.name_count as nat));
            self.names_given@ = self.names_given@.push(name@);
        }
        desugared::Ident { name, span }
    }

    /// Reports `err` and marks the pass as failed; the caller goes on.
    fn send_err(&mut self, err: PassError)
        requires
            old(self).wf(),
        ensures
            final(self).wf(),
            final(self).follows(old(self)),
            final(self).sent@ == old(self).sent@.push(err),
            final(self).failed,
            final(self).holes == old(self).holes,
            final(self).name_count == old(self).name_count,
    {
        proof {
            self.sent@ = self.sent@.push(err);
        }
        send_to(&self.errors, err);
        self.failed = true;
    }

    /// A numbered hole at `span`. When the numbers have run out, the error
    /// is reported and an invalid term stands in.
    fn gen_hole_expr(&mut self, span: Span) -> (r: Box<desugared::Expr>)
        requires
            old(self).wf(),
        ensures
            final(self).wf(),
            final(self).follows(old(self)),
            r.span == span,
            old(self).holes < u64::MAX ==> r.data == desugared::ExprKind::Hole(old(self).holes)
                && final(self).sent == old(self).sent && final(self).holes == old(self).holes + 1,
            old(self).holes == u64::MAX ==> r.data == desugared::ExprKind::Invalid
                && final(self).sent@ == old(self).sent@.push(PassError::TooManyHoles(span))
                && final(self).holes == u64::MAX,
            final(self).holes <= old(self).holes + 1,
            final(self).name_count == old(self).name_count,
    {
        if self.holes < u64::MAX {
            let h = self.gen_hole();
            Box::new(desugared::Expr { data: desugared::ExprKind::Hole(h), span })
        } else {
            self.send_err(PassError::TooManyHoles(span));
            Box::new(desugared::Expr { data: desugared::ExprKind::Invalid, span })
        }
    }
}

/// Within one pass, the holes are numbered 0, 1, 2, ... in the order they
/// are asked for, so no two are the same.
pub proof fn lemma_holes_in_call_order(st: &DesugarState)
    requires
        st.wf(),
    ensures
        forall|i: int| 0 <= i < st.holes_given@.len() ==> st.holes_given@[i] == i,
        forall|i: int, j: int|
            0 <= i < j < st.holes_given@.len() ==> st.holes_given@[i] < st.holes_given@[j],
{
}

/// Within one pass, the `n`-th fresh name is `_x` followed by `n`, and no
/// two fresh names are the same.
pub proof fn lemma_fresh_names_distinct(st: &DesugarState)
    requires
        st.wf(),
    ensures
        forall|i: int|
            0 <= i < st.names_given@.len() ==> st.names_given@[i] == fresh_name((i + 1) as nat),
        forall|i: int, j: int|
            0 <= i < j < st.names_given@.len() ==> st.names_given@[i] != st.names_given@[j],
{
    assert forall|i: int, j: int|
        0 <= i < j < st.names_given@.len() implies st.names_given@[i] != st.names_given@[j] by {
        if st.names_given@[i] == st.names_given@[j] {
            let a = fresh_name((i + 1) as nat);
            let b = fresh_name((j + 1) as nat);
            assert(a.skip(2) =~= decimal((i + 1) as nat));
            assert(b.skip(2) =~= decimal((j + 1) as nat));
            lemma_decimal_injective((i + 1) as nat, (j + 1) as nat);
        }
    }
}

/// Whether `e` lowers with no error, numbering aside: none of its parts is
/// a construct this pass does not lower, a parse error, or a binder that is
/// not a plain name.
pub open spec fn expr_lowers(e: concrete::Expr) -> bool
    decreases e,
{
    match e.data {
        ExprKind::Local(_) => true,
        ExprKind::Constructor(_) => true,
        ExprKind::Literal(_) => true,
        ExprKind::Type(_) => true,
        ExprKind::Pi(p) => {
            &&& match p.param {
                PiParameter::Named(b) => match b.1.binding_type {
                    Some(t) => expr_lowers(*t.1),
                    None => true,
                },
                PiParameter::Expr(t) => expr_lowers(*t),
            }
            &&& expr_lowers(*p.body)
        },
        ExprKind::Sigma(s) => {
            &&& match s.param.1.binding_type {
                Some(t) => expr_lowers(*t.1),
                None => true,
            }
            &&& expr_lowers(*s.body)
        },
        ExprKind::Lambda(l) => {
            &&& match l.param {
                PiParameter::Named(b) => b.1.binding_type is None,
                PiParameter::Expr(t) => t.data is Local,
            }
            &&& expr_lowers(*l.body)
        },
        ExprKind::App(a) => {
            &&& expr_lowers(*a.fun)
            &&& forall|i: int|
                0 <= i < a.arg@.len() ==> match (#[trigger] a.arg@[i]).value {
                    NamedBinding::Expr(x) => expr_lowers(*x),
                    NamedBinding::Named(_) => false,
                }
        },
        ExprKind::Let(l) => expr_lowers(*l.value.1) && expr_lowers(*l.next),
        ExprKind::Ann(a) => expr_lowers(*a.value) && expr_lowers(*a.typ),
        ExprKind::Binary(b) => expr_lowers(*b.left) && expr_lowers(*b.right),
        ExprKind::If(i) => {
            &&& expr_lowers(*i.cond.1)
            &&& expr_lowers(*i.then_branch.1)
            &&& expr_lowers(*i.otherwise.1.1)
        },
        ExprKind::Pair(p) => expr_lowers(*p.left) && expr_lowers(*p.right),
        ExprKind::List(l) => forall|i: int|
            0 <= i < l.bracket.1@.len() ==> expr_lowers(l.bracket.1@[i]),
        ExprKind::Paren(p) => expr_lowers(p.1),
        ExprKind::Do(_) => false,
        ExprKind::Match(_) => false,
        ExprKind::Open(_) => false,
        ExprKind::Access(_) => false,
        ExprKind::Subst(_) => false,
        ExprKind::Error => false,
    }
}

/// How many nodes `e` has, a list counting each of its cells too.
pub open spec fn expr_size(e: concrete::Expr) -> nat
    decreases e, 0nat,
{
    1 + (match e.data {
        ExprKind::Pi(p) => (match p.param {
            PiParameter::Named(b) => match b.1.binding_type {
                Some(t) => expr_size(*t.1),
                None => 0,
            },
            PiParameter::Expr(t) => expr_size(*t),
        }) + expr_size(*p.body),
        ExprKind::Sigma(s) => (match s.param.1.binding_type {
            Some(t) => expr_size(*t.1),
            None => 0,
        }) + expr_size(*s.body),
        ExprKind::Lambda(l) => expr_size(*l.body),
        ExprKind::App(a) => expr_size(*a.fun) + args_size(a.arg@),
        ExprKind::Let(l) => expr_size(*l.value.1) + expr_size(*l.next),
        ExprKind::Ann(a) => expr_size(*a.value) + expr_size(*a.typ),
        ExprKind::Binary(b) => expr_size(*b.left) + expr_size(*b.right),
        ExprKind::If(i) => expr_size(*i.cond.1) + expr_size(*i.then_branch.1) + expr_size(
            *i.otherwise.1.1,
        ),
        ExprKind::Pair(p) => expr_size(*p.left) + expr_size(*p.right),
        ExprKind::List(l) => items_size(l.bracket.1@),
        ExprKind::Paren(p) => expr_size(p.1),
        _ => 0,
    })
}

/// The size of a binding: one for the hole that stands for a missing
/// type, or the size of the type written.
pub open spec fn binding_size(tb: TypeBinding) -> nat {
    1 + match tb.binding_type {
        Some(t) => expr_size(*t.1),
        None => 0,
    }
}

/// The sizes of the arguments of an application, added up.
pub open spec fn args_size(s: Seq<concrete::Binding>) -> nat
    decreases s, s.len(),
{
    if s.len() == 0 {
        0
    } else {
        (match s[0].value {
            NamedBinding::Expr(x) => expr_size(*x),
            NamedBinding::Named(_) => 0,
        }) + args_size(s.subrange(1, s.len() as int))
    }
}

/// The sizes of the elements of a list, one more for each cell, added up.
pub open spec fn items_size(s: Seq<concrete::Expr>) -> nat
    decreases s, s.len(),
{
    if s.len() == 0 {
        0
    } else {
        1 + expr_size(s[0]) + items_size(s.subrange(1, s.len() as int))
    }
}

/// The text of a name.
pub open spec fn name_text(n: Name) -> Seq<char> {
    match n {
        Name::Ident(i) => i.0.data.1@,
        Name::QualifiedIdent(q) => q.0.data.1@,
    }
}

fn ident_of_name(n: &Name) -> (r: desugared::Ident)
    ensures
        r.name@ == name_text(*n),
{
    match n {
        Name::Ident(i) => desugared::Ident { name: i.0.data.1.clone(), span: i.0.span },
        Name::QualifiedIdent(q) => desugared::Ident { name: q.0.data.1.clone(), span: q.0.span },
    }
}

fn ident_of(i: &lexemes::Ident) -> (r: desugared::Ident)
    ensures
        r.name@ == i.0.data.1@,
        r.span == i.0.span,
{
    desugared::Ident { name: i.0.data.1.clone(), span: i.0.span }
}

fn mk(data: desugared::ExprKind, span: Span) -> (r: Box<desugared::Expr>)
    ensures
        r.data == data,
        r.span == span,
{
    Box::new(desugared::Expr { data, span })
}

/// A reference to the top-level declaration `name`.
fn global(name: &str, span: Span) -> (r: Box<desugared::Expr>)
    ensures
        r.data matches desugared::ExprKind::Ctr(i) && i.name@ == name@,
{
    mk(desugared::ExprKind::Ctr(desugared::Ident { name: String::from_str(name), span }), span)
}

fn arg(erased: bool, value: Box<desugared::Expr>) -> (r: desugared::AppArg)
    ensures
        r.erased == erased,
        r.value == value,
{
    desugared::AppArg { erased, value }
}

/// The core value of a literal.
pub open spec fn literal_kind(l: Literal) -> desugared::ExprKind {
    match l {
        Literal::U60(t) => desugared::ExprKind::U60(t.1),
        Literal::F60(t) => desugared::ExprKind::F60(t.1),
        Literal::U120(t) => desugared::ExprKind::U120(t.1),
        Literal::Nat(t) => desugared::ExprKind::Nat(t.1),
        Literal::String(t) => desugared::ExprKind::Str(t.1),
        Literal::Char(t) => desugared::ExprKind::Char(t.1),
    }
}

/// The core marker of a primitive type, or of a help hole.
pub open spec fn type_kind(t: TypeExpr) -> desugared::ExprKind {
    match t {
        TypeExpr::Help(h) => desugared::ExprKind::Help(h.1),
        TypeExpr::Type(_) => desugared::ExprKind::Typ,
        TypeExpr::TypeU60(_) => desugared::ExprKind::TypeU60,
        TypeExpr::TypeU120(_) => desugared::ExprKind::TypeU120,
        TypeExpr::TypeF60(_) => desugared::ExprKind::TypeF60,
    }
}

/// `r` is the top-level declaration `name` applied to `n` arguments.
pub open spec fn applies_global(r: desugared::Expr, name: Seq<char>, n: nat) -> bool {
    r.data matches desugared::ExprKind::App(f, args) && args@.len() == n && (
    f.data matches desugared::ExprKind::Ctr(i) && i.name@ == name)
}

/// What each construct of the concrete tree becomes, at its top: a local
/// a variable and a reference a constructor of the same name, a literal
/// the same value, a function type a binder, a lambda a lambda (or an
/// invalid term when its parameter cannot be bound), an operation the same
/// operation, the sugar for pairs, lists, conditionals and dependent pairs
/// an application of `Pair.new`, `List.cons` or `List.nil`, `Bool.if` and
/// `Sigma`; parentheses vanish, and the constructs that do not lower
/// become invalid terms. The result keeps the span of the expression.
pub open spec fn lowers_to_head(e: concrete::Expr, r: desugared::Expr) -> bool
    decreases e,
{
    match e.data {
        ExprKind::Paren(p) => lowers_to_head(p.1, r),
        _ => r.span == e.span && match e.data {
            ExprKind::Local(l) => r.data matches desugared::ExprKind::Var(i) && i.name@ == name_text(
                l.name,
            ),
            ExprKind::Constructor(c) => r.data matches desugared::ExprKind::Ctr(i) && i.name@
                == name_text(c.name),
            ExprKind::Literal(l) => r.data == literal_kind(*l),
            ExprKind::Type(t) => r.data == type_kind(*t),
            ExprKind::Pi(_) => r.data matches desugared::ExprKind::All { erased, .. } && !erased,
            ExprKind::Sigma(_) => applies_global(r, "Sigma"@, 2),
            ExprKind::Lambda(l) => if match l.param {
                PiParameter::Named(b) => b.1.binding_type is None,
                PiParameter::Expr(t) => t.data is Local,
            } {
                r.data matches desugared::ExprKind::Lambda { erased, .. } && erased == (l.tilde is Some)
            } else {
                r.data is Invalid
            },
            ExprKind::App(_) => r.data is App,
            ExprKind::Let(l) => r.data matches desugared::ExprKind::Let(i, _, _) && i.name@
                == l.name.0.data.1@,
            ExprKind::Ann(_) => r.data is Ann,
            ExprKind::Binary(b) => r.data matches desugared::ExprKind::Binary(op, _, _) && op
                == b.op.1,
            ExprKind::If(_) => applies_global(r, "Bool.if"@, 4),
            ExprKind::Pair(_) => applies_global(r, "Pair.new"@, 4),
            ExprKind::List(l) => if l.bracket.1@.len() == 0 {
                applies_global(r, "List.nil"@, 1)
            } else {
                applies_global(r, "List.cons"@, 3)
            },
            _ => r.data is Invalid,
        },
    }
}

/// Between `prev` and `st` the pass used at most twice `size` hole
/// numbers and at most `size` fresh names.
pub open spec fn spent_within(st: &DesugarState, prev: &DesugarState, size: int) -> bool {
    &&& st.holes <= prev.holes + 2 * size
    &&& st.name_count <= prev.name_count + size
}

/// The pass on `st` has run out of hole numbers or of names.
pub open spec fn exhausted(st: &DesugarState) -> bool {
    st.holes == u64::MAX || st.name_count == u64::MAX
}

/// Errors were reported between `prev` and `st`.
pub open spec fn reported(st: &DesugarState, prev: &DesugarState) -> bool {
    st.sent@.len() > prev.sent@.len()
}

/// What lowering a part of the program promises: the state moves on by
/// the rules of `follows`, a part that does not lower is reported, and
/// one that does is reported only once the counters have run out.
pub open spec fn lowering(st: &DesugarState, prev: &DesugarState, lowers: bool) -> bool {
    &&& st.wf()
    &&& st.follows(prev)
    &&& !lowers ==> reported(st, prev)
    &&& reported(st, prev) ==> !lowers || exhausted(st)
}

impl<'a> DesugarState<'a> {
    /// A fresh name at `span`; once the names have run out, the error is
    /// reported and `_` stands in.
    fn fresh_ident(&mut self, span: Span) -> (r: desugared::Ident)
        requires
            old(self).wf(),
        ensures
            final(self).wf(),
            final(self).follows(old(self)),
            old(self).name_count < u64::MAX ==> r.name@ == fresh_name(
                (old(self).name_count + 1) as nat,
            ) && final(self).sent == old(self).sent,
            old(self).name_count == u64::MAX ==> final(self).sent@ == old(self).sent@.push(
                PassError::TooManyNames(span),
            ),
            reported(final(self), old(self)) ==> exhausted(final(self)),
            final(self).name_count <= old(self).name_count + 1,
            final(self).holes == old(self).holes,
    {
        if self.name_count < u64::MAX {
            self.gen_name(span)
        } else {
            self.send_err(PassError::TooManyNames(span));
            let mut name = String::new();
            crate::lexer::push_char(&mut name, '_');
            desugared::Ident { name, span }
        }
    }

    /// The type written in a binding, or a hole where none is written.
    fn binding_type(&mut self, tb: &TypeBinding, span: Span) -> (r: Box<desugared::Expr>)
        requires
            old(self).wf(),
        ensures
            lowering(
                final(self),
                old(self),
                match tb.binding_type {
                    Some(t) => expr_lowers(*t.1),
                    None => true,
                },
            ),
            spent_within(final(self), old(self), binding_size(*tb) as int),
        decreases tb, 0nat,
    {
        match &tb.binding_type {
            Some(t) => self.desugar_expr(&t.1),
            None => self.gen_hole_expr(span),
        }
    }

    /// Lowers one expression.
    pub fn desugar_expr(&mut self, e: &concrete::Expr) -> (r: Box<desugared::Expr>)
        requires
            old(self).wf(),
        ensures
            lowering(final(self), old(self), expr_lowers(*e)),
            lowers_to_head(*e, *r),
            spent_within(final(self), old(self), expr_size(*e) as int),
        decreases e, 1nat,
    {
        let span = e.span;
        match &e.data {
            ExprKind::Local(l) => mk(desugared::ExprKind::Var(ident_of_name(&l.name)), span),
            ExprKind::Constructor(c) => mk(desugared::ExprKind::Ctr(ident_of_name(&c.name)), span),
            ExprKind::Literal(lit) => mk(literal(lit), span),
            ExprKind::Type(t) => mk(type_expr(t), span),
            ExprKind::Pi(p) => {
                let (param, typ) = match &p.param {
                    PiParameter::Named(b) => {
                        let param = ident_of_name(&b.1.name);
                        let typ = self.binding_type(&b.1, span);
                        (param, typ)
                    },
                    PiParameter::Expr(t) => {
                        let typ = self.desugar_expr(t);
                        let param = self.fresh_ident(span);
                        (param, typ)
                    },
                };
                let body = self.desugar_expr(&p.body);
                mk(desugared::ExprKind::All { param, typ, body, erased: false }, span)
            },
            ExprKind::Sigma(sg) => {
                let param = ident_of_name(&sg.param.1.name);
                let typ = self.binding_type(&sg.param.1, span);
                let body = self.desugar_expr(&sg.body);
                let lam = mk(desugared::ExprKind::Lambda { param, body, erased: false }, span);
                let mut args = Vec::new();
                args.push(arg(false, typ));
                args.push(arg(false, lam));
                mk(desugared::ExprKind::App(global("Sigma", span), args), span)
            },
            ExprKind::Lambda(l) => {
                let erased = l.tilde.is_some();
                let param = match &l.param {
                    PiParameter::Named(b) => match &b.1.binding_type {
                        None => Some(ident_of_name(&b.1.name)),
                        Some(_) => {
                            self.send_err(PassError::UnsupportedSyntax(span));
                            None
                        },
                    },
                    PiParameter::Expr(t) => match &t.data {
                        ExprKind::Local(x) => Some(ident_of_name(&x.name)),
                        _ => {
                            self.send_err(PassError::ExpectedName(t.span));
                            None
                        },
                    },
                };
                let body = self.desugar_expr(&l.body);
                match param {
                    Some(param) => mk(desugared::ExprKind::Lambda { param, body, erased }, span),
                    None => mk(desugared::ExprKind::Invalid, span),
                }
            },
            ExprKind::App(a) => {
                let ghost st0 = *self;
                let fun = self.desugar_expr(&a.fun);
                proof {
                    assert(a.arg@.subrange(0, a.arg@.len() as int) =~= a.arg@);
                }
                let mut args: Vec<desugared::AppArg> = Vec::new();
                let mut i: usize = 0;
                while i < a.arg.len()
                    invariant
                        0 <= i <= a.arg@.len(),
                        e.data == ExprKind::App(*a),
                        self.wf(),
                        self.follows(&st0),
                        st0 == *old(self),
                        !expr_lowers(*a.fun) ==> reported(self, &st0),
                        !reported(self, &st0) ==> forall|j: int|
                            0 <= j < i ==> match (#[trigger] a.arg@[j]).value {
                                NamedBinding::Expr(x) => expr_lowers(*x),
                                NamedBinding::Named(_) => false,
                            },
                        reported(self, &st0) ==> !expr_lowers(*e) || exhausted(self),
                        spent_within(
                            self,
                            &st0,
                            expr_size(*a.fun) + args_size(a.arg@) - args_size(
                                a.arg@.subrange(i as int, a.arg@.len() as int),
                            ),
                        ),
                    decreases a.arg@.len() - i,
                {
                    let b = &a.arg[i];
                    let ghost bv = a.arg@[i as int];
                    proof {
                        let n = a.arg@.len() as int;
                        assert(a.arg@.subrange(i as int, n).subrange(1, n - i) =~= a.arg@.subrange(
                            i + 1,
                            n,
                        ));
                        assert(a.arg@.subrange(i as int, n)[0] == bv);
                    }
                    match &b.value {
                        NamedBinding::Expr(x) => {
                            proof {
                                assert(decreases_to!(*e => e.data));
                                assert(decreases_to!(e.data => e.data->App_0));
                                assert(decreases_to!(a.arg => a.arg@));
                                assert(decreases_to!(a.arg@ => a.arg@[i as int]));
                                assert(decreases_to!(bv => bv.value));
                                assert(decreases_to!(bv.value => bv.value->Expr_0));
                            }
                            let v = self.desugar_expr(x);
                            args.push(arg(b.tilde.is_some(), v));
                        },
                        NamedBinding::Named(_) => {
                            self.send_err(PassError::UnsupportedSyntax(span));
                        },
                    }
                    i = i + 1;
                }
                proof {
                    assert(a.arg@.subrange(a.arg@.len() as int, a.arg@.len() as int).len() == 0);
                }
                mk(desugared::ExprKind::App(fun, args), span)
            },
            ExprKind::Let(l) => {
                let value = self.desugar_expr(&l.value.1);
                let next = self.desugar_expr(&l.next);
                mk(desugared::ExprKind::Let(ident_of(&l.name), value, next), span)
            },
            ExprKind::Ann(a) => {
                let value = self.desugar_expr(&a.value);
                let typ = self.desugar_expr(&a.typ);
                mk(desugared::ExprKind::Ann(value, typ), span)
            },
            ExprKind::Binary(b) => {
                let left = self.desugar_expr(&b.left);
                let right = self.desugar_expr(&b.right);
                mk(desugared::ExprKind::Binary(b.op.1, left, right), span)
            },
            ExprKind::If(c) => {
                let motive = self.gen_hole_expr(span);
                let cond = self.desugar_expr(&c.cond.1);
                let then_branch = self.desugar_expr(&c.then_branch.1);
                let otherwise = self.desugar_expr(&c.otherwise.1.1);
                let mut args = Vec::new();
                args.push(arg(true, motive));
                args.push(arg(false, cond));
                args.push(arg(false, then_branch));
                args.push(arg(false, otherwise));
                mk(desugared::ExprKind::App(global("Bool.if", span), args), span)
            },
            ExprKind::Pair(p) => {
                let first_type = self.gen_hole_expr(span);
                let second_type = self.gen_hole_expr(span);
                let left = self.desugar_expr(&p.left);
                let right = self.desugar_expr(&p.right);
                let mut args = Vec::new();
                args.push(arg(true, first_type));
                args.push(arg(true, second_type));
                args.push(arg(false, left));
                args.push(arg(false, right));
                mk(desugared::ExprKind::App(global("Pair.new", span), args), span)
            },
            ExprKind::List(l) => {
                let ghost st0 = *self;
                let items = &l.bracket.1;
                let nil_type = self.gen_hole_expr(span);
                let mut nil_args = Vec::new();
                nil_args.push(arg(true, nil_type));
                let mut acc = mk(desugared::ExprKind::App(global("List.nil", span), nil_args), span);
                let mut i: usize = items.len();
                proof {
                    assert(items@.subrange(items@.len() as int, items@.len() as int).len() == 0);
                }
                while i > 0
                    invariant
                        i <= items@.len(),
                        e.data == ExprKind::List(*l),
                        items == &l.bracket.1,
                        acc.span == span,
                        i == items@.len() ==> applies_global(*acc, "List.nil"@, 1),
                        i < items@.len() ==> applies_global(*acc, "List.cons"@, 3),
                        self.holes <= st0.holes + 1 + 2 * items_size(
                            items@.subrange(i as int, items@.len() as int),
                        ),
                        self.name_count <= st0.name_count + items_size(
                            items@.subrange(i as int, items@.len() as int),
                        ),
                        self.wf(),
                        self.follows(&st0),
                        st0 == *old(self),
                        !reported(self, &st0) ==> forall|j: int|
                            i <= j < items@.len() ==> expr_lowers(items@[j]),
                        reported(self, &st0) ==> !expr_lowers(*e) || exhausted(self),
                    decreases i,
                {
                    i = i - 1;
                    proof {
                        let n = items@.len() as int;
                        assert(items@.subrange(i as int, n).subrange(1, n - i) =~= items@.subrange(
                            i + 1,
                            n,
                        ));
                        assert(items@.subrange(i as int, n)[0] == items@[i as int]);
                        assert(decreases_to!(*e => e.data));
                        assert(decreases_to!(e.data => e.data->List_0));
                        assert(decreases_to!(l.bracket => l.bracket.1));
                        assert(decreases_to!(l.bracket.1 => l.bracket.1@));
                        assert(decreases_to!(l.bracket.1@ => l.bracket.1@[i as int]));
                    }
                    let elem_type = self.gen_hole_expr(span);
                    let head = self.desugar_expr(&items[i]);
                    let mut cons_args = Vec::new();
                    cons_args.push(arg(true, elem_type));
                    cons_args.push(arg(false, head));
                    cons_args.push(arg(false, acc));
                    acc = mk(desugared::ExprKind::App(global("List.cons", span), cons_args), span);
                }
                proof {
                    assert(items@.subrange(0, items@.len() as int) =~= items@);
                }
                acc
            },
            ExprKind::Paren(p) => self.desugar_expr(&p.1),
            ExprKind::Error => {
                self.send_err(PassError::InvalidSyntax(span));
                mk(desugared::ExprKind::Invalid, span)
            },
            _ => {
                self.send_err(PassError::UnsupportedSyntax(span));
                mk(desugared::ExprKind::Invalid, span)
            },
        }
    }
}

fn literal(lit: &Literal) -> (r: desugared::ExprKind)
    ensures
        r == literal_kind(*lit),
{
    match lit {
        Literal::U60(t) => desugared::ExprKind::U60(t.1),
        Literal::F60(t) => desugared::ExprKind::F60(t.1),
        Literal::U120(t) => desugared::ExprKind::U120(t.1),
        Literal::Nat(t) => desugared::ExprKind::Nat(t.1.clone()),
        Literal::String(t) => desugared::ExprKind::Str(t.1.clone()),
        Literal::Char(t) => desugared::ExprKind::Char(t.1),
    }
}

fn type_expr(t: &TypeExpr) -> (r: desugared::ExprKind)
    ensures
        r == type_kind(*t),
{
    match t {
        TypeExpr::Help(h) => desugared::ExprKind::Help(h.1.clone()),
        TypeExpr::Type(_) => desugared::ExprKind::Typ,
        TypeExpr::TypeU60(_) => desugared::ExprKind::TypeU60,
        TypeExpr::TypeU120(_) => desugared::ExprKind::TypeU120,
        TypeExpr::TypeF60(_) => desugared::ExprKind::TypeF60,
    }
}

/// The binding inside a signature parameter.
pub open spec fn param_binding(p: SignatureParameter) -> TypeBinding {
    let b = match p {
        SignatureParameter::Exclude(b) => b,
        SignatureParameter::Include(b) => b,
        SignatureParameter::Both(b) => b,
    };
    match b {
        ParameterBinding::Implicit(a) => a.1,
        ParameterBinding::Explicit(p) => p.1,
    }
}

pub open spec fn binding_lowers(tb: TypeBinding) -> bool {
    match tb.binding_type {
        Some(t) => expr_lowers(*t.1),
        None => true,
    }
}

pub open spec fn params_lower(ps: Seq<SignatureParameter>) -> bool {
    forall|i: int| 0 <= i < ps.len() ==> binding_lowers(param_binding(#[trigger] ps[i]))
}

pub open spec fn return_type_lowers(t: Option<Colon<concrete::Expr>>) -> bool {
    match t {
        Some(c) => expr_lowers(c.1),
        None => true,
    }
}

/// A pattern lowers when it is a name, a constructor applied to plain
/// names, or a literal number, string or character.
pub open spec fn pattern_lowers(p: Pat) -> bool {
    match p.data {
        PatKind::Name(_) => true,
        PatKind::Constructor(c) => forall|i: int|
            0 <= i < c.args@.len() ==> param_binding(#[trigger] c.args@[i]).binding_type is None,
        PatKind::Literal(l) => l is U60 || l is String || l is Char,
        PatKind::Pair(_) => false,
        PatKind::List(_) => false,
    }
}

/// The name that a signature or a function declares.
pub open spec fn declared_name(tl: TopLevel) -> Option<Seq<char>> {
    match tl.data.data {
        TopLevelKind::Function(f) => Some(f.name.0.data.1@),
        TopLevelKind::Signature(s) => Some(name_text(s.name)),
        _ => None,
    }
}

/// Some signature or function of `book` declares `name`.
pub open spec fn declares(book: Book, name: Seq<char>) -> bool {
    exists|i: int| 0 <= i < book.entries@.len() && declared_name(#[trigger] book.entries@[i].1) == Some(name)
}

/// Whether a top-level declaration of `book` lowers with no error,
/// numbering aside.
pub open spec fn top_level_lowers(book: Book, tl: TopLevel) -> bool {
    match tl.data.data {
        TopLevelKind::Function(f) => {
            &&& params_lower(f.arguments@)
            &&& return_type_lowers(f.return_typ)
            &&& expr_lowers(f.value.1)
        },
        TopLevelKind::Commmand(c) => forall|i: int|
            0 <= i < c.arguments@.len() ==> expr_lowers(#[trigger] c.arguments@[i]),
        TopLevelKind::Signature(s) => {
            &&& params_lower(s.parameters@)
            &&& return_type_lowers(s.return_type)
            &&& match s.value {
                Some(block) => block.1@.len() == 1 && expr_lowers(block.1@[0].value),
                None => true,
            }
        },
        TopLevelKind::Record(r) => {
            &&& params_lower(r.params@)
            &&& params_lower(r.indices@)
            &&& forall|i: int| 0 <= i < r.fields@.len() ==> binding_lowers(#[trigger] r.fields@[i])
        },
        TopLevelKind::Type(t) => {
            &&& params_lower(t.params@)
            &&& params_lower(t.indices@)
            &&& forall|i: int|
                0 <= i < t.constructors@.len() ==> params_lower(
                    (#[trigger] t.constructors@[i]).arguments@,
                ) && t.constructors@[i].typ is None
        },
        TopLevelKind::Rule(r) => {
            &&& declares(book, r.name.0.data.1@)
            &&& forall|i: int| 0 <= i < r.patterns@.len() ==> pattern_lowers(#[trigger] r.patterns@[i])
            &&& expr_lowers(r.value.1)
        },
    }
}

/// Which core entry each kind of declaration becomes: a function or a
/// signature a function with one argument per parameter (a signature
/// without a body gives one without a body), a command a command with the
/// same number of arguments, a record a type with its parameters and
/// indices and a single constructor, a type a type with the same
/// constructors, and a rule a rule with one pattern per pattern.
pub open spec fn entry_matches(tl: TopLevel, r: desugared::Entry) -> bool {
    match tl.data.data {
        TopLevelKind::Function(f) => r matches desugared::Entry::Function { name, args, body, .. }
            && name.name@ == f.name.0.data.1@ && args@.len() == f.arguments@.len() && body is Some,
        TopLevelKind::Commmand(c) => r matches desugared::Entry::Command { name, args } && name.name@
            == c.name.0.data.1@ && args@.len() == c.arguments@.len(),
        TopLevelKind::Signature(s) => r matches desugared::Entry::Function { name, args, body, .. }
            && name.name@ == name_text(s.name) && args@.len() == s.parameters@.len() && (s.value is None
            ==> body is None),
        TopLevelKind::Record(rec) => r matches desugared::Entry::Type { name, params, constructors }
            && name.name@ == rec.name.0.data.1@ && params@.len() == rec.params@.len()
            + rec.indices@.len() && constructors@.len() == 1,
        TopLevelKind::Type(t) => r matches desugared::Entry::Type { name, params, constructors }
            && name.name@ == t.name.0.data.1@ && params@.len() == t.params@.len() + t.indices@.len()
            && constructors@.len() == t.constructors@.len(),
        TopLevelKind::Rule(rule) => r matches desugared::Entry::Rule(d) && d.name.name@
            == rule.name.0.data.1@ && d.patterns@.len() == rule.patterns@.len(),
    }
}

/// The sizes of the bindings of some parameters, added up.
pub open spec fn params_size(ps: Seq<SignatureParameter>) -> nat
    decreases ps.len(),
{
    if ps.len() == 0 {
        0
    } else {
        binding_size(param_binding(ps[0])) + params_size(ps.subrange(1, ps.len() as int))
    }
}

/// The sizes of some expressions, added up.
pub open spec fn exprs_size(s: Seq<concrete::Expr>) -> nat
    decreases s.len(),
{
    if s.len() == 0 {
        0
    } else {
        expr_size(s[0]) + exprs_size(s.subrange(1, s.len() as int))
    }
}

/// The sizes of some bindings, added up.
pub open spec fn bindings_size(s: Seq<TypeBinding>) -> nat
    decreases s.len(),
{
    if s.len() == 0 {
        0
    } else {
        binding_size(s[0]) + bindings_size(s.subrange(1, s.len() as int))
    }
}

/// The sizes of the parameters of some constructors, added up.
pub open spec fn constructors_size(s: Seq<concrete::Constructor>) -> nat
    decreases s.len(),
{
    if s.len() == 0 {
        0
    } else {
        params_size(s[0].arguments@) + constructors_size(s.subrange(1, s.len() as int))
    }
}

/// The size of a return type: one for the hole that stands for a missing
/// one, or the size of the type written.
pub open spec fn return_size(t: Option<Colon<concrete::Expr>>) -> nat {
    match t {
        Some(c) => expr_size(c.1),
        None => 1,
    }
}

/// The size of a declaration: what lowering it may spend, twice over in
/// hole numbers and once in fresh names.
pub open spec fn top_size(tl: TopLevel) -> nat {
    match tl.data.data {
        TopLevelKind::Function(f) => params_size(f.arguments@) + return_size(f.return_typ)
            + expr_size(f.value.1),
        TopLevelKind::Commmand(c) => exprs_size(c.arguments@),
        TopLevelKind::Signature(s) => params_size(s.parameters@) + return_size(s.return_type) + (
        match s.value {
            Some(b) => if b.1@.len() == 1 {
                expr_size(b.1@[0].value)
            } else {
                0
            },
            None => 0,
        }),
        TopLevelKind::Record(r) => params_size(r.params@) + params_size(r.indices@) + bindings_size(
            r.fields@,
        ),
        TopLevelKind::Type(t) => params_size(t.params@) + params_size(t.indices@) + constructors_size(
            t.constructors@,
        ),
        TopLevelKind::Rule(r) => expr_size(r.value.1),
    }
}

/// The sizes of the declarations of a book, added up.
pub open spec fn book_size(s: Seq<(String, TopLevel)>) -> nat
    decreases s.len(),
{
    if s.len() == 0 {
        0
    } else {
        top_size(s[0].1) + book_size(s.subrange(1, s.len() as int))
    }
}

/// Some declaration of `book` does not lower.
pub open spec fn some_fails(book: Book) -> bool {
    exists|i: int| 0 <= i < book.entries@.len() && !top_level_lowers(book, #[trigger] book.entries@[i].1)
}

/// The keys of the entries of a core book, in order.
pub open spec fn core_names(b: desugared::Book) -> Seq<Seq<char>> {
    b.entries@.map_values(|e: (String, desugared::Entry)| e.0@)
}

impl<'a> DesugarState<'a> {
    fn argument(&mut self, p: &SignatureParameter, span: Span) -> (r: desugared::Argument)
        requires
            old(self).wf(),
        ensures
            lowering(final(self), old(self), binding_lowers(param_binding(*p))),
            spent_within(final(self), old(self), binding_size(param_binding(*p)) as int),
    {
        let (b, erased) = match p {
            SignatureParameter::Exclude(b) => (b, true),
            SignatureParameter::Include(b) => (b, false),
            SignatureParameter::Both(b) => (b, false),
        };
        let (tb, hidden) = match b {
            ParameterBinding::Implicit(a) => (&a.1, true),
            ParameterBinding::Explicit(p) => (&p.1, false),
        };
        let typ = self.binding_type(tb, span);
        desugared::Argument { name: ident_of_name(&tb.name), typ, erased, hidden }
    }

    fn arguments(&mut self, ps: &Vec<SignatureParameter>, span: Span) -> (r: Vec<desugared::Argument>)
        requires
            old(self).wf(),
        ensures
            lowering(final(self), old(self), params_lower(ps@)),
            r@.len() == ps@.len(),
            spent_within(final(self), old(self), params_size(ps@) as int),
    {
        let ghost st0 = *self;
        let mut out: Vec<desugared::Argument> = Vec::new();
        let mut i: usize = 0;
        proof {
            assert(ps@.subrange(0, ps@.len() as int) =~= ps@);
        }
        while i < ps.len()
            invariant
                i <= ps@.len(),
                out@.len() == i,
                self.wf(),
                self.follows(&st0),
                st0 == *old(self),
                !reported(self, &st0) ==> forall|j: int|
                    0 <= j < i ==> binding_lowers(param_binding(#[trigger] ps@[j])),
                reported(self, &st0) ==> !params_lower(ps@) || exhausted(self),
                spent_within(
                    self,
                    &st0,
                    params_size(ps@) - params_size(ps@.subrange(i as int, ps@.len() as int)),
                ),
            decreases ps@.len() - i,
        {
            proof {
                let n = ps@.len() as int;
                assert(ps@.subrange(i as int, n).subrange(1, n - i) =~= ps@.subrange(i + 1, n));
            }
            let a = self.argument(&ps[i], span);
            out.push(a);
            i = i + 1;
        }
        proof {
            assert(ps@.subrange(ps@.len() as int, ps@.len() as int).len() == 0);
        }
        out
    }

    fn return_type(&mut self, t: &Option<Colon<concrete::Expr>>, span: Span) -> (r: Box<
        desugared::Expr,
    >)
        requires
            old(self).wf(),
        ensures
            lowering(final(self), old(self), return_type_lowers(*t)),
            spent_within(final(self), old(self), return_size(*t) as int),
    {
        match t {
            Some(c) => self.desugar_expr(&c.1),
            None => self.gen_hole_expr(span),
        }
    }

    fn pattern(&mut self, p: &Pat) -> (r: desugared::Pat)
        requires
            old(self).wf(),
        ensures
            lowering(final(self), old(self), pattern_lowers(*p)),
            final(self).holes == old(self).holes,
            final(self).name_count == old(self).name_count,
    {
        match &p.data {
            PatKind::Name(n) => desugared::Pat::Var(ident_of_name(n)),
            PatKind::Constructor(c) => {
                let ghost st0 = *self;
                let mut args: Vec<desugared::Pat> = Vec::new();
                let mut i: usize = 0;
                while i < c.args.len()
                    invariant
                        i <= c.args@.len(),
                        p.data == PatKind::Constructor(*c),
                        self.wf(),
                        self.follows(&st0),
                        st0 == *old(self),
                        !reported(self, &st0) ==> forall|j: int|
                            0 <= j < i ==> param_binding(#[trigger] c.args@[j]).binding_type is None,
                        reported(self, &st0) ==> !pattern_lowers(*p) || exhausted(self),
                        self.holes == st0.holes,
                        self.name_count == st0.name_count,
                    decreases c.args@.len() - i,
                {
                    let ghost cj = c.args@[i as int];
                    let tb = match &c.args[i] {
                        SignatureParameter::Exclude(b) => b,
                        SignatureParameter::Include(b) => b,
                        SignatureParameter::Both(b) => b,
                    };
                    let tb = match tb {
                        ParameterBinding::Implicit(a) => &a.1,
                        ParameterBinding::Explicit(q) => &q.1,
                    };
                    match &tb.binding_type {
                        None => args.push(desugared::Pat::Var(ident_of_name(&tb.name))),
                        Some(_) => {
                            self.send_err(PassError::UnsupportedSyntax(p.span));
                            args.push(desugared::Pat::Invalid);
                        },
                    }
                    i = i + 1;
                }
                desugared::Pat::Ctr(desugared::Ident { name: c.name.0.data.1.clone(), span: c.name.0.span }, args)
            },
            PatKind::Literal(l) => match l {
                Literal::U60(t) => desugared::Pat::U60(t.1),
                Literal::String(t) => desugared::Pat::Str(t.1.clone()),
                Literal::Char(t) => desugared::Pat::Char(t.1),
                _ => {
                    self.send_err(PassError::UnsupportedSyntax(p.span));
                    desugared::Pat::Invalid
                },
            },
            _ => {
                self.send_err(PassError::UnsupportedSyntax(p.span));
                desugared::Pat::Invalid
            },
        }
    }

    /// Whether some signature or function of the program declares `name`.
    fn find_declaration(&self, name: &String) -> (r: bool)
        ensures
            r == declares(*self.old_book, name@),
    {
        let book = self.old_book;
        let mut i: usize = 0;
        while i < book.entries.len()
            invariant
                i <= book.entries@.len(),
                book == self.old_book,
                forall|j: int| 0 <= j < i ==> declared_name(#[trigger] book.entries@[j].1) != Some(name@),
            decreases book.entries@.len() - i,
        {
            let ghost ej = book.entries@[i as int].1;
            let found = match &book.entries[i].1.data.data {
                TopLevelKind::Function(f) => f.name.0.data.1 == *name,
                TopLevelKind::Signature(s) => match &s.name {
                    Name::Ident(x) => x.0.data.1 == *name,
                    Name::QualifiedIdent(x) => x.0.data.1 == *name,
                },
                _ => false,
            };
            if found {
                return true;
            }
            i = i + 1;
        }
        false
    }

    /// Lowers one top-level declaration into a core entry.
    fn lower_top_level(&mut self, tl: &TopLevel) -> (r: desugared::Entry)
        requires
            old(self).wf(),
        ensures
            lowering(final(self), old(self), top_level_lowers(*old(self).old_book, *tl)),
            entry_matches(*tl, r),
            spent_within(final(self), old(self), top_size(*tl) as int),
    {
        let span = tl.data.span;
        match &tl.data.data {
            TopLevelKind::Function(f) => {
                let args = self.arguments(&f.arguments, span);
                let typ = self.return_type(&f.return_typ, span);
                let body = self.desugar_expr(&f.value.1);
                desugared::Entry::Function { name: ident_of(&f.name), args, typ, body: Some(body) }
            },
            TopLevelKind::Commmand(c) => {
                let ghost st0 = *self;
                let mut args: Vec<desugared::Expr> = Vec::new();
                let mut i: usize = 0;
                proof {
                    assert(c.arguments@.subrange(0, c.arguments@.len() as int) =~= c.arguments@);
                }
                while i < c.arguments.len()
                    invariant
                        i <= c.arguments@.len(),
                        args@.len() == i,
                        tl.data.data == TopLevelKind::Commmand(*c),
                        self.wf(),
                        self.follows(&st0),
                        st0 == *old(self),
                        !reported(self, &st0) ==> forall|j: int|
                            0 <= j < i ==> expr_lowers(#[trigger] c.arguments@[j]),
                        reported(self, &st0) ==> !top_level_lowers(*st0.old_book, *tl)
                            || exhausted(self),
                        spent_within(
                            self,
                            &st0,
                            exprs_size(c.arguments@) - exprs_size(
                                c.arguments@.subrange(i as int, c.arguments@.len() as int),
                            ),
                        ),
                    decreases c.arguments@.len() - i,
                {
                    proof {
                        let n = c.arguments@.len() as int;
                        assert(c.arguments@.subrange(i as int, n).subrange(1, n - i)
                            =~= c.arguments@.subrange(i + 1, n));
                    }
                    let ghost ci = c.arguments@[i as int];
                    let ghost before = *self;
                    let v = self.desugar_expr(&c.arguments[i]);
                    proof {
                        if !expr_lowers(ci) {
                            let cc = tl.data.data->Commmand_0;
                            assert(cc.arguments@[i as int] == ci);
                            assert(!top_level_lowers(*st0.old_book, *tl));
                        }
                        if reported(self, &before) {
                            assert(!expr_lowers(ci) || exhausted(self));
                        }
                        if reported(&before, &st0) {
                            assert(!top_level_lowers(*st0.old_book, *tl) || exhausted(&before));
                        }
                    }
                    args.push(*v);
                    i = i + 1;
                }
                proof {
                    assert(c.arguments@.subrange(c.arguments@.len() as int, c.arguments@.len() as int).len()
                        == 0);
                }
                desugared::Entry::Command { name: ident_of(&c.name), args }
            },
            TopLevelKind::Signature(s) => {
                let args = self.arguments(&s.parameters, span);
                let typ = self.return_type(&s.return_type, span);
                let body = match &s.value {
                    None => None,
                    Some(block) => {
                        if block.1.len() == 1 {
                            Some(self.desugar_expr(&block.1[0].value))
                        } else {
                            self.send_err(PassError::UnsupportedSyntax(span));
                            None
                        }
                    },
                };
                desugared::Entry::Function { name: ident_of_name(&s.name), args, typ, body }
            },
            TopLevelKind::Record(rec) => {
                let mut params = self.arguments(&rec.params, span);
                let mut indices = self.arguments(&rec.indices, span);
                params.append(&mut indices);
                let ghost st0 = *self;
                let mut fields: Vec<desugared::Argument> = Vec::new();
                let mut i: usize = 0;
                proof {
                    assert(rec.fields@.subrange(0, rec.fields@.len() as int) =~= rec.fields@);
                }
                while i < rec.fields.len()
                    invariant
                        i <= rec.fields@.len(),
                        self.wf(),
                        self.follows(&st0),
                        !reported(self, &st0) ==> forall|j: int|
                            0 <= j < i ==> binding_lowers(#[trigger] rec.fields@[j]),
                        reported(self, &st0) ==> !(forall|j: int|
                            0 <= j < rec.fields@.len() ==> binding_lowers(#[trigger] rec.fields@[j]))
                            || exhausted(self),
                        spent_within(
                            self,
                            &st0,
                            bindings_size(rec.fields@) - bindings_size(
                                rec.fields@.subrange(i as int, rec.fields@.len() as int),
                            ),
                        ),
                    decreases rec.fields@.len() - i,
                {
                    proof {
                        let n = rec.fields@.len() as int;
                        assert(rec.fields@.subrange(i as int, n).subrange(1, n - i)
                            =~= rec.fields@.subrange(i + 1, n));
                    }
                    let tb = &rec.fields[i];
                    let typ = self.binding_type(tb, span);
                    fields.push(desugared::Argument { name: ident_of_name(&tb.name), typ, erased: false, hidden: false });
                    i = i + 1;
                }
                proof {
                    assert(rec.fields@.subrange(rec.fields@.len() as int, rec.fields@.len() as int).len()
                        == 0);
                }
                let mut ctor_name = rec.name.0.data.1.clone();
                ctor_name.append(".new");
                let mut constructors = Vec::new();
                constructors.push(desugared::Constructor {
                    name: desugared::Ident { name: ctor_name, span: rec.name.0.span },
                    args: fields,
                });
                desugared::Entry::Type {
                    name: desugared::Ident { name: rec.name.0.data.1.clone(), span: rec.name.0.span },
                    params,
                    constructors,
                }
            },
            TopLevelKind::Type(t) => {
                let mut params = self.arguments(&t.params, span);
                let mut indices = self.arguments(&t.indices, span);
                params.append(&mut indices);
                let ghost st0 = *self;
                let mut constructors: Vec<desugared::Constructor> = Vec::new();
                let mut i: usize = 0;
                proof {
                    assert(t.constructors@.subrange(0, t.constructors@.len() as int) =~= t.constructors@);
                }
                while i < t.constructors.len()
                    invariant
                        i <= t.constructors@.len(),
                        constructors@.len() == i,
                        self.wf(),
                        self.follows(&st0),
                        !reported(self, &st0) ==> forall|j: int|
                            0 <= j < i ==> params_lower((#[trigger] t.constructors@[j]).arguments@)
                                && t.constructors@[j].typ is None,
                        reported(self, &st0) ==> !(forall|j: int|
                            0 <= j < t.constructors@.len() ==> params_lower(
                                (#[trigger] t.constructors@[j]).arguments@,
                            ) && t.constructors@[j].typ is None) || exhausted(self),
                        spent_within(
                            self,
                            &st0,
                            constructors_size(t.constructors@) - constructors_size(
                                t.constructors@.subrange(i as int, t.constructors@.len() as int),
                            ),
                        ),
                    decreases t.constructors@.len() - i,
                {
                    proof {
                        let n = t.constructors@.len() as int;
                        assert(t.constructors@.subrange(i as int, n).subrange(1, n - i)
                            =~= t.constructors@.subrange(i + 1, n));
                    }
                    let ctor = &t.constructors[i];
                    let args = self.arguments(&ctor.arguments, span);
                    if ctor.typ.is_some() {
                        self.send_err(PassError::UnsupportedSyntax(span));
                    }
                    constructors.push(desugared::Constructor { name: ident_of(&ctor.name), args });
                    i = i + 1;
                }
                proof {
                    assert(t.constructors@.subrange(
                        t.constructors@.len() as int,
                        t.constructors@.len() as int,
                    ).len() == 0);
                }
                desugared::Entry::Type {
                    name: desugared::Ident { name: t.name.0.data.1.clone(), span: t.name.0.span },
                    params,
                    constructors,
                }
            },
            TopLevelKind::Rule(rule) => {
                let ghost st0 = *self;
                if !self.find_declaration(&rule.name.0.data.1) {
                    self.send_err(PassError::RuleWithoutSignature(rule.name.0.data.1.clone(), span));
                }
                let ghost st1 = *self;
                let mut patterns: Vec<desugared::Pat> = Vec::new();
                let mut i: usize = 0;
                while i < rule.patterns.len()
                    invariant
                        i <= rule.patterns@.len(),
                        patterns@.len() == i,
                        self.wf(),
                        self.follows(&st1),
                        !reported(self, &st1) ==> forall|j: int|
                            0 <= j < i ==> pattern_lowers(#[trigger] rule.patterns@[j]),
                        reported(self, &st1) ==> !(forall|j: int|
                            0 <= j < rule.patterns@.len() ==> pattern_lowers(#[trigger] rule.patterns@[j]))
                            || exhausted(self),
                        self.holes == st1.holes,
                        self.name_count == st1.name_count,
                    decreases rule.patterns@.len() - i,
                {
                    let pat = self.pattern(&rule.patterns[i]);
                    patterns.push(pat);
                    i = i + 1;
                }
                let body = self.desugar_expr(&rule.value.1);
                desugared::Entry::Rule(desugared::Rule { name: ident_of(&rule.name), patterns, body })
            },
        }
    }

    /// Lowers one declaration, stored under `key`, and adds what comes out
    /// to the core book.
    fn desugar_top_level(&mut self, key: &String, tl: &TopLevel)
        requires
            old(self).wf(),
        ensures
            final(self).wf(),
            final(self).old_book == old(self).old_book,
            old(self).sent@.is_prefix_of(final(self).sent@),
            old(self).holes <= final(self).holes,
            old(self).name_count <= final(self).name_count,
            core_names(final(self).new_book) == core_names(old(self).new_book).push(key@),
            final(self).new_book.entries@.len() == old(self).new_book.entries@.len() + 1,
            forall|k: int|
                0 <= k < old(self).new_book.entries@.len() ==> final(self).new_book.entries@[k]
                    == old(self).new_book.entries@[k],
            entry_matches(*tl, final(self).new_book.entries@.last().1),
            final(self).holes <= old(self).holes + 2 * top_size(*tl),
            final(self).name_count <= old(self).name_count + top_size(*tl),
            !top_level_lowers(*old(self).old_book, *tl) ==> reported(final(self), old(self)),
            reported(final(self), old(self)) ==> !top_level_lowers(*old(self).old_book, *tl)
                || exhausted(final(self)),
    {
        let entry = self.lower_top_level(tl);
        let ghost before = self.new_book.entries@;
        self.new_book.entries.push((key.clone(), entry));
        proof {
            assert(core_names(self.new_book) =~= core_names(old(self).new_book).push(key@));
        }
    }

    /// Lowers every declaration of `book`, in order, whatever fails. Each
    /// one gets an entry in the core book; each failure is reported, and
    /// the pass is then marked as failed.
    pub fn desugar_book(&mut self, book: &concrete::Book)
        requires
            old(self).wf(),
            old(self).old_book == book,
        ensures
            final(self).wf(),
            final(self).old_book == old(self).old_book,
            old(self).sent@.is_prefix_of(final(self).sent@),
            core_names(final(self).new_book) == core_names(old(self).new_book) + book.names(),
            forall|i: int|
                0 <= i < book.entries@.len() ==> entry_matches(
                    #[trigger] book.entries@[i].1,
                    final(self).new_book.entries@[old(self).new_book.entries@.len() + i].1,
                ),
            some_fails(*book) ==> final(self).failed && reported(final(self), old(self)),
            reported(final(self), old(self)) ==> some_fails(*book) || exhausted(final(self)),
            final(self).holes <= old(self).holes + 2 * book_size(book.entries@),
            final(self).name_count <= old(self).name_count + book_size(book.entries@),
    {
        let ghost st0 = *self;
        proof {
            assert(book.entries@.subrange(0, book.entries@.len() as int) =~= book.entries@);
        }
        let mut i: usize = 0;
        while i < book.entries.len()
            invariant
                i <= book.entries@.len(),
                self.wf(),
                self.old_book == book,
                st0 == *old(self),
                st0.sent@.is_prefix_of(self.sent@),
                st0.holes <= self.holes,
                st0.name_count <= self.name_count,
                core_names(self.new_book) == core_names(st0.new_book) + book.names().take(i as int),
                self.new_book.entries@.len() == st0.new_book.entries@.len() + i,
                forall|j: int|
                    0 <= j < st0.new_book.entries@.len() ==> self.new_book.entries@[j]
                        == st0.new_book.entries@[j],
                forall|j: int|
                    0 <= j < i ==> entry_matches(
                        #[trigger] book.entries@[j].1,
                        self.new_book.entries@[st0.new_book.entries@.len() + j].1,
                    ),
                !reported(self, &st0) ==> forall|j: int|
                    0 <= j < i ==> top_level_lowers(*book, #[trigger] book.entries@[j].1),
                reported(self, &st0) ==> some_fails(*book) || exhausted(self),
                spent_within(
                    self,
                    &st0,
                    book_size(book.entries@) - book_size(
                        book.entries@.subrange(i as int, book.entries@.len() as int),
                    ),
                ),
            decreases book.entries@.len() - i,
        {
            proof {
                let n = book.entries@.len() as int;
                assert(book.entries@.subrange(i as int, n).subrange(1, n - i) =~= book.entries@.subrange(
                    i + 1,
                    n,
                ));
            }
            let ghost before = *self;
            let entry = &book.entries[i];
            self.desugar_top_level(&entry.0, &entry.1);
            proof {
                assert forall|j: int|
                    0 <= j < i + 1 implies entry_matches(
                    #[trigger] book.entries@[j].1,
                    self.new_book.entries@[st0.new_book.entries@.len() + j].1,
                ) by {
                    if j < i {
                        assert(self.new_book.entries@[st0.new_book.entries@.len() + j]
                            == before.new_book.entries@[st0.new_book.entries@.len() + j]);
                    }
                }
                assert forall|j: int|
                    0 <= j < st0.new_book.entries@.len() implies self.new_book.entries@[j]
                    == st0.new_book.entries@[j] by {
                    assert(self.new_book.entries@[j] == before.new_book.entries@[j]);
                }
                assert(book.names().take(i + 1) =~= book.names().take(i as int).push(entry.0@));
                if !top_level_lowers(*book, book.entries@[i as int].1) {
                    assert(some_fails(*book));
                }
            }
            i = i + 1;
        }
        proof {
            assert(book.names().take(book.entries@.len() as int) =~= book.names());
            assert(book.entries@.subrange(book.entries@.len() as int, book.entries@.len() as int).len()
                == 0);
        }
    }

    /// The core book, when no error was reported.
    pub fn finish(self) -> (r: Option<desugared::Book>)
        requires
            self.wf(),
        ensures
            r is None <==> self.failed,
            r matches Some(b) ==> b == self.new_book,
    {
        if self.failed {
            None
        } else {
            Some(self.new_book)
        }
    }
}

/// Lowers a whole program. The errors go to `errors` as they are found;
/// the core book comes back only when there were none. Every declaration
/// is lowered, whether or not an earlier one failed. The book comes back
/// when every declaration lowers, unless the program is so large that the
/// hole numbers or the fresh names could run out.
pub fn desugar_book(errors: Sender<PassError>, book: &concrete::Book) -> (r: Option<desugared::Book>)
    ensures
        some_fails(*book) ==> r is None,
        r matches Some(b) ==> core_names(b) == book.names() && !some_fails(*book),
        r matches Some(b) ==> forall|i: int|
            0 <= i < book.entries@.len() ==> entry_matches(
                #[trigger] book.entries@[i].1,
                b.entries@[i].1,
            ),
        !some_fails(*book) && 2 * book_size(book.entries@) < u64::MAX ==> r is Some,
{
    let mut state = DesugarState::new(errors, book);
    state.desugar_book(book);
    proof {
        assert(core_names(state.new_book) =~= book.names());
    }
    state.finish()
}

} // verus!
