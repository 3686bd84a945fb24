//! The tokens that the lexer produces, the errors it reports, and the
//! ranges of source it attaches to both.

use vstd::prelude::*;

verus! {

/// A half-open range of source, counted in characters from the start of
/// the input.
#[derive(Debug, Clone, Copy, PartialEq, Eq, Structural)]
pub struct Range {
    pub start: usize,
    pub end: usize,
}

/// What went wrong while scanning a token.
#[derive(Debug, Clone, Copy, PartialEq, Eq, Structural)]
pub enum ErrorKind {
    /// A character that starts no token.
    UnexpectedChar(char),
    /// A string literal whose closing quote never comes.
    UnfinishedString,
    /// A block comment that is never closed.
    UnfinishedComment,
    /// A number literal that does not fit in 64 bits.
    NumberTooLarge,
}

/// A lexical error and the source it covers.
#[derive(Debug, Clone, Copy, PartialEq, Eq, Structural)]
pub struct SyntaxError {
    pub kind: ErrorKind,
    pub range: Range,
}

#[derive(Debug, PartialEq)]
pub enum Token {
    Id(String),
    Num(u64),
    Str(String),
    Comment(String),
    Ask,
    Do,
    If,
    Else,
    Match,
    Let,
    Open,
    LPar,
    RPar,
    LBracket,
    RBracket,
    LBrace,
    RBrace,
    Eq,
    EqEq,
    FatArrow,
    Greater,
    GreaterGreater,
    GreaterEq,
    Less,
    LessLess,
    LessEq,
    Slash,
    Colon,
    Semi,
    Dollar,
    Comma,
    Plus,
    Minus,
    Star,
    Percent,
    Ampersand,
    Bar,
    Hat,
    Eof,
    Error(Box<SyntaxError>),
}

/// A token as a mathematical value: text as sequences of characters, and an
/// error by its kind (its range is the token's own).
pub enum TokenV {
    Id(Seq<char>),
    Num(u64),
    Str(Seq<char>),
    Comment(Seq<char>),
    Ask,
    Do,
    If,
    Else,
    Match,
    Let,
    Open,
    LPar,
    RPar,
    LBracket,
    RBracket,
    LBrace,
    RBrace,
    Eq,
    EqEq,
    FatArrow,
    Greater,
    GreaterGreater,
    GreaterEq,
    Less,
    LessLess,
    LessEq,
    Slash,
    Colon,
    Semi,
    Dollar,
    Comma,
    Plus,
    Minus,
    Star,
    Percent,
    Ampersand,
    Bar,
    Hat,
    Eof,
    Error(ErrorKind),
}

impl View for Token {
    type V = TokenV;

    open spec fn view(&self) -> TokenV {
        match self {
            Token::Id(s) => TokenV::Id(s@),
            Token::Num(n) => TokenV::Num(*n),
            Token::Str(s) => TokenV::Str(s@),
            Token::Comment(s) => TokenV::Comment(s@),
            Token::Ask => TokenV::Ask,
            Token::Do => TokenV::Do,
            Token::If => TokenV::If,
            Token::Else => TokenV::Else,
            Token::Match => TokenV::Match,
            Token::Let => TokenV::Let,
            Token::Open => TokenV::Open,
            Token::LPar => TokenV::LPar,
            Token::RPar => TokenV::RPar,
            Token::LBracket => TokenV::LBracket,
            Token::RBracket => TokenV::RBracket,
            Token::LBrace => TokenV::LBrace,
            Token::RBrace => TokenV::RBrace,
            Token::Eq => TokenV::Eq,
            Token::EqEq => TokenV::EqEq,
            Token::FatArrow => TokenV::FatArrow,
            Token::Greater => TokenV::Greater,
            Token::GreaterGreater => TokenV::GreaterGreater,
            Token::GreaterEq => TokenV::GreaterEq,
            Token::Less => TokenV::Less,
            Token::LessLess => TokenV::LessLess,
            Token::LessEq => TokenV::LessEq,
            Token::Slash => TokenV::Slash,
            Token::Colon => TokenV::Colon,
            Token::Semi => TokenV::Semi,
            Token::Dollar => TokenV::Dollar,
            Token::Comma => TokenV::Comma,
            Token::Plus => TokenV::Plus,
            Token::Minus => TokenV::Minus,
            Token::Star => TokenV::Star,
            Token::Percent => TokenV::Percent,
            Token::Ampersand => TokenV::Ampersand,
            Token::Bar => TokenV::Bar,
            Token::Hat => TokenV::Hat,
            Token::Eof => TokenV::Eof,
            Token::Error(e) => TokenV::Error(e.kind),
        }
    }
}

impl Token {
    /// The range carried by an error token, if this is one.
    pub open spec fn error_range(&self) -> Option<Range> {
        match self {
            Token::Error(e) => Some(e.range),
            _ => None,
        }
    }

    pub fn is_eof(&self) -> (r: bool)
        ensures
            r == (self@ is Eof),
    {
        match self {
            Token::Eof => true,
            _ => false,
        }
    }
}

} // verus!
