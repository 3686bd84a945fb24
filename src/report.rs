//! The characters and layout that the diagnostics renderer draws with.

use vstd::prelude::*;

verus! {

/// The characters that frame a diagnostic.
#[derive(Debug, Clone, Copy, PartialEq, Eq, Structural)]
pub struct Chars {
    pub vbar: char,
    pub hbar: char,
    pub dbar: char,
    pub trline: char,
    pub bxline: char,
    pub brline: char,
    pub ylline: char,
}

impl Chars {
    /// Box-drawing characters.
    pub fn unicode() -> (r: Chars)
        ensures
            r == Chars::unicode_spec(),
    {
        Chars {
            vbar: '│',
            hbar: '─',
            dbar: '┆',
            trline: '└',
            bxline: '┬',
            brline: '┌',
            ylline: '├',
        }
    }

    /// Plain ASCII stand-ins for the box-drawing characters.
    pub fn ascii() -> (r: Chars)
        ensures
            r == Chars::ascii_spec(),
    {
        Chars {
            vbar: '|',
            hbar: '-',
            dbar: ':',
            trline: '\\',
            bxline: 'v',
            brline: '/',
            ylline: '-',
        }
    }
}

/// How diagnostics are drawn: with which characters, and how far indented.
#[derive(Debug, Clone, Copy, PartialEq, Eq, Structural)]
pub struct RenderConfig {
    pub chars: Chars,
    pub indent: usize,
}

impl RenderConfig {
    pub fn unicode(indent: usize) -> (r: RenderConfig)
        ensures
            r.chars == Chars::unicode_spec(),
            r.indent == indent,
    {
        RenderConfig { chars: Chars::unicode(), indent }
    }

    pub fn ascii(indent: usize) -> (r: RenderConfig)
        ensures
            r.chars == Chars::ascii_spec(),
            r.indent == indent,
    {
        RenderConfig { chars: Chars::ascii(), indent }
    }
}

impl Chars {
    pub open spec fn unicode_spec() -> Chars {
        Chars {
            vbar: '│',
            hbar: '─',
            dbar: '┆',
            trline: '└',
            bxline: '┬',
            brline: '┌',
            ylline: '├',
        }
    }

    pub open spec fn ascii_spec() -> Chars {
        Chars {
            vbar: '|',
            hbar: '-',
            dbar: ':',
            trline: '\\',
            bxline: 'v',
            brline: '/',
            ylline: '-',
        }
    }
}

} // verus!
