//! Source positions, spans and the zero-information tokens that the
//! concrete syntax tree keeps to stay lossless.

use vstd::prelude::*;

verus! {

/// A position in a source file: a line and a column, both counted from zero.
#[derive(Debug, Clone, Copy, PartialEq, Eq, Structural, Default)]
pub struct Point {
    pub row: usize,
    pub column: usize,
}

impl Point {
    /// `self` comes no later than `other` (lines first, then columns).
    pub open spec fn le(self, other: Point) -> bool {
        self.row < other.row || (self.row == other.row && self.column <= other.column)
    }

    pub fn new(row: usize, column: usize) -> (r: Point)
        ensures
            r.row == row,
            r.column == column,
    {
        Point { row, column }
    }

    /// Whether `self` comes no later than `other`.
    pub fn precedes(&self, other: &Point) -> (r: bool)
        ensures
            r == self.le(*other),
    {
        self.row < other.row || (self.row == other.row && self.column <= other.column)
    }
}

/// The earlier of two points.
pub open spec fn min_point(a: Point, b: Point) -> Point {
    if a.le(b) { a } else { b }
}

/// The later of two points.
pub open spec fn max_point(a: Point, b: Point) -> Point {
    if a.le(b) { b } else { a }
}

/// A half-open source range, from its first position to the one after it.
#[derive(Debug, Clone, Copy, PartialEq, Eq, Structural, Default)]
pub struct Span(pub Point, pub Point);

impl Span {
    /// The smallest range that encloses both `self` and `other`.
    pub open spec fn spec_mix(self, other: Span) -> Span {
        Span(min_point(self.0, other.0), max_point(self.1, other.1))
    }

    /// `self` lies inside `outer`.
    pub open spec fn within(self, outer: Span) -> bool {
        outer.0.le(self.0) && self.1.le(outer.1)
    }

    pub fn new(start: Point, end: Point) -> (r: Span)
        ensures
            r == Span(start, end),
    {
        Span(start, end)
    }

    pub fn mix(&self, other: &Span) -> (r: Span)
        ensures
            r == self.spec_mix(*other),
    {
        let start = if self.0.precedes(&other.0) { self.0 } else { other.0 };
        let end = if self.1.precedes(&other.1) { other.1 } else { self.1 };
        Span(start, end)
    }
}

/// Mixing two spans gives a span that encloses each of them.
pub proof fn lemma_mix_encloses(a: Span, b: Span)
    ensures
        a.within(a.spec_mix(b)),
        b.within(a.spec_mix(b)),
{
}

/// A token kept in the tree only to remember where a punctuation mark or a
/// keyword stood.
#[derive(Debug, Clone, Copy, PartialEq, Eq, Structural, Default)]
pub struct Token {
    pub span: Span,
}

pub type Hash = Token;
pub type Minus = Token;
pub type Plus = Token;
pub type Semi = Token;
pub type RightArrow = Token;
pub type Tilde = Token;
pub type FatArrow = Token;
pub type ColonColon = Token;
pub type Let = Token;
pub type Type = Token;
pub type Help = Token;
pub type With = Token;
pub type Ask = Token;
pub type Return = Token;
pub type Sign = Token;
pub type Specialize = Token;
pub type In = Token;
pub type Match = Token;
pub type Open = Token;
pub type Do = Token;
pub type Dot = Token;

#[derive(Debug, Clone, PartialEq)]
pub enum Either<A, B> {
    Left(A),
    Right(B),
}

/// A payload between `(` and `)`.
#[derive(Debug, Clone, PartialEq)]
pub struct Paren<T>(pub Token, pub T, pub Token);

/// A payload between `[` and `]`.
#[derive(Debug, Clone, PartialEq)]
pub struct Bracket<T>(pub Token, pub T, pub Token);

/// A payload between `{` and `}`.
#[derive(Debug, Clone, PartialEq)]
pub struct Brace<T>(pub Token, pub T, pub Token);

/// A payload between `<` and `>`.
#[derive(Debug, Clone, PartialEq)]
pub struct AngleBracket<T>(pub Token, pub T, pub Token);

/// A payload after an `=` sign.
#[derive(Debug, Clone, PartialEq)]
pub struct Equal<T>(pub Token, pub T);

/// A payload after a `:` sign.
#[derive(Debug, Clone, PartialEq)]
pub struct Colon<T>(pub Token, pub T);

/// A payload read from a single token.
#[derive(Debug, Clone, PartialEq)]
pub struct Tokenized<T>(pub Token, pub T);

/// A located value: a payload and the span it was read from.
#[derive(Debug, Clone, PartialEq)]
pub struct Item<T> {
    pub data: T,
    pub span: Span,
}

#[derive(Debug, Clone, PartialEq)]
pub struct Ident(pub Item<Tokenized<String>>);

#[derive(Debug, Clone, PartialEq)]
pub struct QualifiedIdent(pub Item<Tokenized<String>>);

#[derive(Debug, Clone, PartialEq)]
pub enum Name {
    Ident(Ident),
    QualifiedIdent(QualifiedIdent),
}

impl<T> Paren<T> {
    pub open spec fn spec_span(&self) -> Span {
        self.0.span.spec_mix(self.2.span)
    }

    /// From the open parenthesis to the close one.
    pub fn span(&self) -> (r: Span)
        ensures
            r == self.spec_span(),
    {
        self.0.span.mix(&self.2.span)
    }
}

impl<T> Bracket<T> {
    pub open spec fn spec_span(&self) -> Span {
        self.0.span.spec_mix(self.2.span)
    }

    /// From the open bracket to the close one.
    pub fn span(&self) -> (r: Span)
        ensures
            r == self.spec_span(),
    {
        self.0.span.mix(&self.2.span)
    }
}

impl<T> Brace<T> {
    pub open spec fn spec_span(&self) -> Span {
        self.0.span.spec_mix(self.2.span)
    }

    /// From the open brace to the close one.
    pub fn span(&self) -> (r: Span)
        ensures
            r == self.spec_span(),
    {
        self.0.span.mix(&self.2.span)
    }
}

impl<T> AngleBracket<T> {
    pub open spec fn spec_span(&self) -> Span {
        self.0.span.spec_mix(self.2.span)
    }

    /// From the open angle bracket to the close one.
    pub fn span(&self) -> (r: Span)
        ensures
            r == self.spec_span(),
    {
        self.0.span.mix(&self.2.span)
    }
}

impl<T> Tokenized<T> {
    /// The span of the token the payload was read from.
    pub fn span(&self) -> (r: Span)
        ensures
            r == self.0.span,
    {
        self.0.span
    }
}

impl<T> Item<T> {
    pub fn new(span: Span, data: T) -> (r: Item<T>)
        ensures
            r.span == span,
            r.data == data,
    {
        Item { data, span }
    }

    /// Applies `fun` to the payload and keeps the span.
    pub fn map<U, F: FnOnce(T) -> U>(self, fun: F) -> (r: Item<U>)
        requires
            fun.requires((self.data,)),
        ensures
            r.span == self.span,
            fun.ensures((self.data,), r.data),
    {
        Item { data: fun(self.data), span: self.span }
    }
}

impl<T> From<Tokenized<T>> for Item<T> {
    fn from(val: Tokenized<T>) -> (r: Item<T>) {
        let span = val.span();
        Item::new(span, val.1)
    }
}

impl<T> vstd::std_specs::convert::FromSpecImpl<Tokenized<T>> for Item<T> {
    open spec fn obeys_from_spec() -> bool {
        true
    }

    open spec fn from_spec(v: Tokenized<T>) -> Item<T> {
        Item { data: v.1, span: v.0.span }
    }
}

/// A parenthesised payload that lies between its two parentheses lies
/// inside the span of the whole: the span starts no later than the payload
/// and ends no earlier.
pub proof fn lemma_paren_span_encloses<T>(p: Paren<T>, payload: Span)
    requires
        p.0.span.0.le(payload.0),
        payload.1.le(p.2.span.1),
    ensures
        payload.within(p.spec_span()),
{
}

/// The same for a payload between brackets.
pub proof fn lemma_bracket_span_encloses<T>(b: Bracket<T>, payload: Span)
    requires
        b.0.span.0.le(payload.0),
        payload.1.le(b.2.span.1),
    ensures
        payload.within(b.spec_span()),
{
}

/// The same for a payload between braces.
pub proof fn lemma_brace_span_encloses<T>(b: Brace<T>, payload: Span)
    requires
        b.0.span.0.le(payload.0),
        payload.1.le(b.2.span.1),
    ensures
        payload.within(b.spec_span()),
{
}

/// The same for a payload between angle brackets.
pub proof fn lemma_angle_bracket_span_encloses<T>(b: AngleBracket<T>, payload: Span)
    requires
        b.0.span.0.le(payload.0),
        payload.1.le(b.2.span.1),
    ensures
        payload.within(b.spec_span()),
{
}

} // verus!
