//! The hand-written scanner. It reads the source one token at a time and
//! infers statement ends from line breaks when the parser asks for them.
//!
//! The scanner is described by `lex`, a function of the text that is left
//! and of the number of statement ends the parser still expects. Positions
//! in that description are relative to the start of the text that is left.

use vstd::prelude::*;
use vstd::std_specs::iter::IteratorSpec;
use vstd::string::group_string_axioms;

use crate::tokens::{ErrorKind, Range, SyntaxError, Token, TokenV};

verus! {

/// Whether std classifies a non-ASCII character as alphabetic.
pub uninterp spec fn alphabetic(c: char) -> bool;

/// Whether std classifies a non-ASCII character as alphanumeric.
pub uninterp spec fn alphanumeric(c: char) -> bool;

pub open spec fn is_ascii_char(c: char) -> bool {
    (c as u32) < 128
}

pub open spec fn is_ascii_letter(c: char) -> bool {
    ('a' <= c && c <= 'z') || ('A' <= c && c <= 'Z')
}

pub open spec fn is_digit(c: char) -> bool {
    '0' <= c && c <= '9'
}

/// Blanks that never make a token.
pub open spec fn is_blank(c: char) -> bool {
    c == ' ' || c == '\r' || c == '\t'
}

pub open spec fn is_line_break(c: char) -> bool {
    c == '\n' || c == '\r'
}

pub open spec fn is_alphabetic_char(c: char) -> bool {
    if is_ascii_char(c) {
        is_ascii_letter(c)
    } else {
        alphabetic(c)
    }
}

pub open spec fn is_alphanumeric_char(c: char) -> bool {
    if is_ascii_char(c) {
        is_ascii_letter(c) || is_digit(c)
    } else {
        alphanumeric(c)
    }
}

/// A character that may continue an identifier.
pub open spec fn is_id_char(c: char) -> bool {
    is_alphanumeric_char(c) || c == '_' || c == '$' || c == '.'
}

/// A character that may start an identifier.
pub open spec fn is_id_start(c: char) -> bool {
    is_alphabetic_char(c) || c == '_'
}

/// The classes of characters that the scanner reads runs of.
#[derive(Debug, Clone, Copy, PartialEq, Eq, Structural)]
pub enum CharClass {
    Blank,
    LineBreak,
    NewlineOnly,
    Digit,
    IdChar,
    NotNewline,
}

impl CharClass {
    pub open spec fn holds(self, c: char) -> bool {
        match self {
            CharClass::Blank => is_blank(c),
            CharClass::LineBreak => is_line_break(c),
            CharClass::NewlineOnly => c == '\n',
            CharClass::Digit => is_digit(c),
            CharClass::IdChar => is_id_char(c),
            CharClass::NotNewline => c != '\n',
        }
    }

    pub fn test(self, c: char) -> (r: bool)
        ensures
            r == self.holds(c),
    {
        match self {
            CharClass::Blank => is_whitespace(c),
            CharClass::LineBreak => c == '\n' || c == '\r',
            CharClass::NewlineOnly => c == '\n',
            CharClass::Digit => is_digit_exec(c),
            CharClass::IdChar => is_valid_id(c),
            CharClass::NotNewline => c != '\n',
        }
    }
}

/// How many characters at the front of `s` are in class `k`.
pub open spec fn run(s: Seq<char>, k: CharClass) -> nat
    decreases s.len(),
{
    if s.len() > 0 && k.holds(s[0]) {
        1 + run(s.drop_first(), k)
    } else {
        0
    }
}

/// The keyword that `s` spells, or an identifier holding `s`.
pub open spec fn keyword_token(s: Seq<char>) -> TokenV {
    if s == seq!['a', 's', 'k'] {
        TokenV::Ask
    } else if s == seq!['d', 'o'] {
        TokenV::Do
    } else if s == seq!['i', 'f'] {
        TokenV::If
    } else if s == seq!['e', 'l', 's', 'e'] {
        TokenV::Else
    } else if s == seq!['m', 'a', 't', 'c', 'h'] {
        TokenV::Match
    } else if s == seq!['l', 'e', 't'] {
        TokenV::Let
    } else if s == seq!['o', 'p', 'e', 'n'] {
        TokenV::Open
    } else {
        TokenV::Id(s)
    }
}

/// The token of a character that makes a token by itself.
pub open spec fn single_char_token(c: char) -> Option<TokenV> {
    if c == '(' {
        Some(TokenV::LPar)
    } else if c == ')' {
        Some(TokenV::RPar)
    } else if c == '[' {
        Some(TokenV::LBracket)
    } else if c == ']' {
        Some(TokenV::RBracket)
    } else if c == '{' {
        Some(TokenV::LBrace)
    } else if c == '}' {
        Some(TokenV::RBrace)
    } else if c == '=' {
        Some(TokenV::Eq)
    } else if c == '>' {
        Some(TokenV::Greater)
    } else if c == '<' {
        Some(TokenV::Less)
    } else if c == '/' {
        Some(TokenV::Slash)
    } else if c == ':' {
        Some(TokenV::Colon)
    } else if c == ';' {
        Some(TokenV::Semi)
    } else if c == '$' {
        Some(TokenV::Dollar)
    } else if c == ',' {
        Some(TokenV::Comma)
    } else if c == '+' {
        Some(TokenV::Plus)
    } else if c == '-' {
        Some(TokenV::Minus)
    } else if c == '*' {
        Some(TokenV::Star)
    } else if c == '%' {
        Some(TokenV::Percent)
    } else if c == '&' {
        Some(TokenV::Ampersand)
    } else if c == '|' {
        Some(TokenV::Bar)
    } else if c == '^' {
        Some(TokenV::Hat)
    } else {
        None
    }
}

/// The operator that `c` followed by `d` spells, if any.
pub open spec fn two_char_token(c: char, d: char) -> Option<TokenV> {
    if c == '=' && d == '>' {
        Some(TokenV::FatArrow)
    } else if c == '=' && d == '=' {
        Some(TokenV::EqEq)
    } else if c == '>' && d == '>' {
        Some(TokenV::GreaterGreater)
    } else if c == '>' && d == '=' {
        Some(TokenV::GreaterEq)
    } else if c == '<' && d == '<' {
        Some(TokenV::LessLess)
    } else if c == '<' && d == '=' {
        Some(TokenV::LessEq)
    } else {
        None
    }
}

/// The value of a run of decimal digits.
pub open spec fn digits_value(s: Seq<char>) -> nat
    decreases s.len(),
{
    if s.len() == 0 {
        0
    } else {
        digits_value(s.drop_last()) * 10 + ((s.last() as u32) - ('0' as u32)) as nat
    }
}

/// The character that a backslash followed by `c` stands for in a string.
pub open spec fn escaped(c: char) -> char {
    if c == 'n' {
        '\n'
    } else if c == 't' {
        '\t'
    } else if c == 'r' {
        '\r'
    } else if c == '0' {
        '\0'
    } else {
        c
    }
}

/// The body of a string literal that starts at the front of `s` (just
/// after the opening quote): its characters once escapes are read, and how
/// many characters it takes, closing quote included. `None` when the string
/// is never closed.
pub open spec fn string_body(s: Seq<char>) -> Option<(Seq<char>, nat)>
    decreases s.len(),
{
    if s.len() == 0 {
        None
    } else if s[0] == '"' {
        Some((Seq::empty(), 1))
    } else if s[0] == '\\' {
        if s.len() < 2 {
            None
        } else {
            match string_body(s.skip(2)) {
                Some((v, n)) => Some((seq![escaped(s[1])] + v, n + 2)),
                None => None,
            }
        }
    } else {
        match string_body(s.drop_first()) {
            Some((v, n)) => Some((seq![s[0]] + v, n + 1)),
            None => None,
        }
    }
}

/// How many characters it takes to close `depth` nested block comments
/// from the front of `s`; `None` when they are not all closed.
pub open spec fn block_comment(s: Seq<char>, depth: nat) -> Option<nat>
    decreases s.len(),
{
    if depth == 0 {
        Some(0)
    } else if s.len() < 2 {
        None
    } else if s[0] == '*' && s[1] == '/' {
        match block_comment(s.skip(2), (depth - 1) as nat) {
            Some(n) => Some(n + 2),
            None => None,
        }
    } else if s[0] == '/' && s[1] == '*' {
        match block_comment(s.skip(2), depth + 1) {
            Some(n) => Some(n + 2),
            None => None,
        }
    } else {
        match block_comment(s.drop_first(), depth) {
            Some(n) => Some(n + 1),
            None => None,
        }
    }
}

/// One token read from the front of the text that is left: the token, where
/// it starts, how many characters were consumed (the token ends there), and
/// how many statement ends are still expected afterwards.
pub struct Lexed {
    pub token: TokenV,
    pub start: nat,
    pub used: nat,
    pub semis: nat,
}

/// Whether the character at the front is skipped before a token: a blank,
/// or a line break when no statement end is expected.
pub open spec fn skipped(c: char, semis: nat) -> bool {
    is_blank(c) || (c == '\n' && semis == 0)
}

/// The token that starts at the very front of `rest`, whose first character
/// is not skipped.
pub open spec fn lex_here(rest: Seq<char>, semis: nat) -> Lexed
    recommends
        rest.len() > 0,
{
    let c = rest[0];
    if c == '\n' {
        Lexed {
            token: TokenV::Semi,
            start: 0,
            used: run(rest, CharClass::LineBreak),
            semis: (semis - 1) as nat,
        }
    } else if is_digit(c) {
        let k = run(rest, CharClass::Digit);
        let v = digits_value(rest.take(k as int));
        Lexed {
            token: if v <= u64::MAX {
                TokenV::Num(v as u64)
            } else {
                TokenV::Error(ErrorKind::NumberTooLarge)
            },
            start: 0,
            used: k,
            semis,
        }
    } else if is_id_start(c) {
        let k = 1 + run(rest.drop_first(), CharClass::IdChar);
        Lexed { token: keyword_token(rest.take(k as int)), start: 0, used: k, semis }
    } else if c == '/' && rest.len() > 1 && rest[1] == '/' {
        let k = run(rest.skip(2), CharClass::NotNewline);
        Lexed {
            token: TokenV::Comment(rest.subrange(2, 2 + k as int)),
            start: 0,
            used: 2 + k,
            semis,
        }
    } else if c == '/' && rest.len() > 1 && rest[1] == '*' {
        match block_comment(rest.skip(2), 1) {
            Some(n) => Lexed {
                token: TokenV::Comment(rest.subrange(2, n as int)),
                start: 0,
                used: n + 2,
                semis,
            },
            None => Lexed {
                token: TokenV::Error(ErrorKind::UnfinishedComment),
                start: 0,
                used: rest.len(),
                semis,
            },
        }
    } else if rest.len() > 1 && two_char_token(c, rest[1]) is Some {
        Lexed { token: two_char_token(c, rest[1])->0, start: 0, used: 2, semis }
    } else if single_char_token(c) is Some {
        Lexed { token: single_char_token(c)->0, start: 0, used: 1, semis }
    } else if c == '"' {
        match string_body(rest.drop_first()) {
            Some((v, n)) => Lexed { token: TokenV::Str(v), start: 0, used: n + 1, semis },
            None => Lexed {
                token: TokenV::Error(ErrorKind::UnfinishedString),
                start: 0,
                used: rest.len(),
                semis,
            },
        }
    } else {
        Lexed { token: TokenV::Error(ErrorKind::UnexpectedChar(c)), start: 0, used: 1, semis }
    }
}

/// The next token of `rest`, blanks and unneeded line breaks skipped.
pub open spec fn lex(rest: Seq<char>, semis: nat) -> Lexed
    decreases rest.len(),
{
    if rest.len() == 0 {
        Lexed { token: TokenV::Eof, start: 0, used: 0, semis }
    } else if skipped(rest[0], semis) {
        let l = lex(rest.drop_first(), semis);
        Lexed { token: l.token, start: l.start + 1, used: l.used + 1, semis: l.semis }
    } else {
        lex_here(rest, semis)
    }
}

/// A token read past any errors, with the errors met on the way as
/// (kind, start, end) relative to the text that was left.
pub struct LexedPastErrors {
    pub token: TokenV,
    pub start: nat,
    pub used: nat,
    pub semis: nat,
    pub errors: Seq<(ErrorKind, nat, nat)>,
}

/// Moves relative error ranges `k` characters later.
pub open spec fn shift_errors(errors: Seq<(ErrorKind, nat, nat)>, k: nat) -> Seq<
    (ErrorKind, nat, nat),
> {
    errors.map_values(|e: (ErrorKind, nat, nat)| (e.0, e.1 + k, e.2 + k))
}

/// The next token of `rest` that is not an error, and the errors before it.
pub open spec fn lex_past_errors(rest: Seq<char>, semis: nat) -> LexedPastErrors
    decreases rest.len(),
{
    let l = lex(rest, semis);
    if l.token is Error && 0 < l.used <= rest.len() {
        let n = lex_past_errors(rest.skip(l.used as int), l.semis);
        LexedPastErrors {
            token: n.token,
            start: l.used + n.start,
            used: l.used + n.used,
            semis: n.semis,
            errors: seq![(l.token->Error_0, l.start, l.used)] + shift_errors(n.errors, l.used),
        }
    } else {
        LexedPastErrors { token: l.token, start: l.start, used: l.used, semis: l.semis, errors: seq![] }
    }
}

/// Relies on char::is_alphabetic: whether the character has Unicode's
/// Alphabetic property, which depends on the character alone.
#[verifier::external_body]
fn std_is_alphabetic(c: char) -> (r: bool)
    ensures
        r == alphabetic(c),
{
    c.is_alphabetic()
}

/// Relies on char::is_alphanumeric: whether the character is alphabetic or
/// numeric in Unicode's sense, which depends on the character alone.
#[verifier::external_body]
fn std_is_alphanumeric(c: char) -> (r: bool)
    ensures
        r == alphanumeric(c),
{
    c.is_alphanumeric()
}

/// Relies on String::push: appends one character at the end.
#[verifier::external_body]
pub(crate) fn push_char(s: &mut String, c: char)
    ensures
        final(s)@ == old(s)@.push(c),
{
    s.push(c)
}

fn is_ascii_letter_exec(c: char) -> (r: bool)
    ensures
        r == is_ascii_letter(c),
{
    ('a' <= c && c <= 'z') || ('A' <= c && c <= 'Z')
}

fn is_digit_exec(c: char) -> (r: bool)
    ensures
        r == is_digit(c),
{
    '0' <= c && c <= '9'
}

/// A blank: a space, a carriage return or a tab.
pub fn is_whitespace(chr: char) -> (r: bool)
    ensures
        r == is_blank(chr),
{
    chr == ' ' || chr == '\r' || chr == '\t'
}

/// A character that may continue an identifier: alphanumeric, `_`, `$` or `.`.
pub fn is_valid_id(chr: char) -> (r: bool)
    ensures
        r == is_id_char(chr),
{
    let alnum = if (chr as u32) < 128 {
        is_ascii_letter_exec(chr) || is_digit_exec(chr)
    } else {
        std_is_alphanumeric(chr)
    };
    alnum || chr == '_' || chr == '$' || chr == '.'
}

/// A character that may start an identifier: alphabetic or `_`.
pub fn is_valid_id_start(chr: char) -> (r: bool)
    ensures
        r == is_id_start(chr),
{
    let alpha = if (chr as u32) < 128 {
        is_ascii_letter_exec(chr)
    } else {
        std_is_alphabetic(chr)
    };
    alpha || chr == '_'
}

/// Reading one character of a run.
pub proof fn lemma_run_step(s: Seq<char>, i: int, k: CharClass)
    requires
        0 <= i <= s.len(),
    ensures
        i < s.len() && k.holds(s[i]) ==> run(s.skip(i), k) == 1 + run(s.skip(i + 1), k),
        !(i < s.len() && k.holds(s[i])) ==> run(s.skip(i), k) == 0,
{
    if i < s.len() {
        assert(s.skip(i).drop_first() =~= s.skip(i + 1));
    }
}

/// The end of the run of class `k` that starts at `from`.
fn run_end(chars: &Vec<char>, from: usize, k: CharClass) -> (end: usize)
    requires
        from <= chars.len(),
    ensures
        from <= end <= chars.len(),
        end - from == run(chars@.skip(from as int), k),
        forall|j: int| from <= j < end ==> k.holds(chars@[j]),
{
    let mut i = from;
    while i < chars.len() && k.test(chars[i])
        invariant
            from <= i <= chars.len(),
            run(chars@.skip(from as int), k) == (i - from) + run(chars@.skip(i as int), k),
            forall|j: int| from <= j < i ==> k.holds(chars@[j]),
        decreases chars.len() - i,
    {
        proof {
            lemma_run_step(chars@, i as int, k);
        }
        i = i + 1;
    }
    proof {
        lemma_run_step(chars@, i as int, k);
    }
    i
}

/// The characters `chars[from..to]` as a string.
fn collect(chars: &Vec<char>, from: usize, to: usize) -> (r: String)
    requires
        from <= to <= chars.len(),
    ensures
        r@ == chars@.subrange(from as int, to as int),
{
    let mut out = String::new();
    let mut i = from;
    while i < to
        invariant
            from <= i <= to <= chars.len(),
            out@ == chars@.subrange(from as int, i as int),
        decreases to - i,
    {
        push_char(&mut out, chars[i]);
        assert(chars@.subrange(from as int, i + 1) =~= chars@.subrange(from as int, i as int).push(chars@[i as int]));
        i = i + 1;
    }
    out
}

/// Adds `k` to a count that may be missing.
pub open spec fn add_opt(o: Option<nat>, k: nat) -> Option<nat> {
    match o {
        Some(n) => Some(n + k),
        None => None,
    }
}

/// Puts `a` before a string body that may be missing, and counts `k` more
/// characters.
pub open spec fn prepend_body(a: Seq<char>, k: nat, o: Option<(Seq<char>, nat)>) -> Option<
    (Seq<char>, nat),
> {
    match o {
        Some((v, n)) => Some((a + v, n + k)),
        None => None,
    }
}

fn error_token(kind: ErrorKind, start: usize, end: usize) -> (r: Token)
    ensures
        r@ == TokenV::Error(kind),
        r.error_range() == Some(Range { start, end }),
{
    Token::Error(Box::new(SyntaxError { kind, range: Range { start, end } }))
}

/// Scans a run of digits that starts at `start`.
fn scan_number(chars: &Vec<char>, start: usize) -> (r: (Token, usize))
    requires
        start < chars.len(),
        is_digit(chars@[start as int]),
    ensures
        start < r.1 <= chars.len(),
        ({
            let k = run(chars@.skip(start as int), CharClass::Digit);
            let v = digits_value(chars@.skip(start as int).take(k as int));
            &&& r.1 == start + k
            &&& v <= u64::MAX ==> r.0@ == TokenV::Num(v as u64)
            &&& v > u64::MAX ==> r.0@ == TokenV::Error(ErrorKind::NumberTooLarge)
                && r.0.error_range() == Some(Range { start, end: r.1 })
            &&& v <= u64::MAX ==> r.0.error_range() is None
        }),
{
    let end = run_end(chars, start, CharClass::Digit);
    proof {
        lemma_run_step(chars@, start as int, CharClass::Digit);
    }
    let mut i = start;
    let mut acc: u64 = 0;
    let mut over = false;
    while i < end
        invariant
            start <= i <= end <= chars.len(),
            forall|j: int| start <= j < end ==> is_digit(chars@[j]),
            !over ==> acc == digits_value(chars@.subrange(start as int, i as int)),
            over ==> digits_value(chars@.subrange(start as int, i as int)) > u64::MAX,
        decreases end - i,
    {
        let c = chars[i];
        let d = ((c as u32) - ('0' as u32)) as u64;
        proof {
            let t = chars@.subrange(start as int, i + 1);
            assert(t.drop_last() =~= chars@.subrange(start as int, i as int));
            assert(t.last() == c);
        }
        if !over {
            match acc.checked_mul(10) {
                Some(m) => match m.checked_add(d) {
                    Some(v) => {
                        acc = v;
                    },
                    None => {
                        over = true;
                    },
                },
                None => {
                    over = true;
                },
            }
        }
        i = i + 1;
    }
    proof {
        assert(chars@.skip(start as int).take((end - start) as int) =~= chars@.subrange(
            start as int,
            end as int,
        ));
    }
    if over {
        (error_token(ErrorKind::NumberTooLarge, start, end), end)
    } else {
        (Token::Num(acc), end)
    }
}

/// Reading one step of a block comment.
proof fn lemma_block_comment_step(s: Seq<char>, i: int, depth: nat)
    requires
        0 <= i,
        i + 1 < s.len(),
        depth > 0,
    ensures
        s[i] == '*' && s[i + 1] == '/' ==> block_comment(s.skip(i), depth) == add_opt(
            block_comment(s.skip(i + 2), (depth - 1) as nat),
            2,
        ),
        !(s[i] == '*' && s[i + 1] == '/') && s[i] == '/' && s[i + 1] == '*' ==> block_comment(
            s.skip(i),
            depth,
        ) == add_opt(block_comment(s.skip(i + 2), depth + 1), 2),
        !(s[i] == '*' && s[i + 1] == '/') && !(s[i] == '/' && s[i + 1] == '*') ==> block_comment(
            s.skip(i),
            depth,
        ) == add_opt(block_comment(s.skip(i + 1), depth), 1),
{
    assert(s.skip(i).skip(2) =~= s.skip(i + 2));
    assert(s.skip(i).drop_first() =~= s.skip(i + 1));
}

/// Scans a block comment whose `/*` is at `start`.
fn scan_block_comment(chars: &Vec<char>, start: usize) -> (r: (Token, usize))
    requires
        start + 1 < chars.len(),
    ensures
        start < r.1 <= chars.len(),
        ({
            let s = chars@;
            match block_comment(s.skip(start + 2), 1) {
                Some(n) => r.0@ == TokenV::Comment(s.skip(start as int).subrange(2, n as int))
                    && r.1 == start + n + 2 && r.0.error_range() is None,
                None => r.0@ == TokenV::Error(ErrorKind::UnfinishedComment) && r.1
                    == chars.len() && r.0.error_range() == Some(Range { start, end: r.1 }),
            }
        }),
{
    let ghost s = chars@;
    let mut i = start + 2;
    let mut depth: usize = 1;
    while depth > 0 && i < chars.len() - 1
        invariant
            start + 2 <= i <= chars.len(),
            depth <= i,
            depth == 0 ==> i >= start + 4,
            s == chars@,
            block_comment(s.skip(start + 2), 1) == add_opt(
                block_comment(s.skip(i as int), depth as nat),
                (i - start - 2) as nat,
            ),
        decreases chars.len() - i,
    {
        proof {
            lemma_block_comment_step(s, i as int, depth as nat);
        }
        if chars[i] == '*' && chars[i + 1] == '/' {
            depth = depth - 1;
            i = i + 2;
        } else if chars[i] == '/' && chars[i + 1] == '*' {
            depth = depth + 1;
            i = i + 2;
        } else {
            i = i + 1;
        }
    }
    if depth == 0 {
        proof {
            assert(s.skip(start as int).subrange(2, (i - start - 2) as int) =~= s.subrange(
                start + 2,
                i - 2,
            ));
        }
        (Token::Comment(collect(chars, start + 2, i - 2)), i)
    } else {
        (error_token(ErrorKind::UnfinishedComment, start, chars.len()), chars.len())
    }
}

fn escaped_exec(c: char) -> (r: char)
    ensures
        r == escaped(c),
{
    if c == 'n' {
        '\n'
    } else if c == 't' {
        '\t'
    } else if c == 'r' {
        '\r'
    } else if c == '0' {
        '\0'
    } else {
        c
    }
}

/// Reading one step of a string body.
proof fn lemma_string_body_step(s: Seq<char>, i: int, a: Seq<char>, k: nat)
    requires
        0 <= i < s.len(),
        s[i] != '"',
    ensures
        s[i] == '\\' && i + 1 < s.len() ==> prepend_body(a, k, string_body(s.skip(i)))
            == prepend_body(a.push(escaped(s[i + 1])), k + 2, string_body(s.skip(i + 2))),
        s[i] == '\\' && i + 1 >= s.len() ==> string_body(s.skip(i)) is None,
        s[i] != '\\' ==> prepend_body(a, k, string_body(s.skip(i))) == prepend_body(
            a.push(s[i]),
            k + 1,
            string_body(s.skip(i + 1)),
        ),
{
    if s[i] == '\\' && i + 1 < s.len() {
        assert(s.skip(i).skip(2) =~= s.skip(i + 2));
        match string_body(s.skip(i + 2)) {
            Some((v, n)) => {
                assert(a + (seq![escaped(s[i + 1])] + v) =~= a.push(escaped(s[i + 1])) + v);
            },
            None => {},
        }
    }
    if s[i] != '\\' {
        assert(s.skip(i).drop_first() =~= s.skip(i + 1));
        match string_body(s.skip(i + 1)) {
            Some((v, n)) => {
                assert(a + (seq![s[i]] + v) =~= a.push(s[i]) + v);
            },
            None => {},
        }
    }
}

/// Scans a string literal whose opening quote is at `start`.
fn scan_string(chars: &Vec<char>, start: usize) -> (r: (Token, usize))
    requires
        start < chars.len(),
    ensures
        start < r.1 <= chars.len(),
        match string_body(chars@.skip(start + 1)) {
            Some((v, n)) => r.0@ == TokenV::Str(v) && r.1 == start + 1 + n
                && r.0.error_range() is None,
            None => r.0@ == TokenV::Error(ErrorKind::UnfinishedString) && r.1 == chars.len()
                && r.0.error_range() == Some(Range { start, end: r.1 }),
        },
{
    let ghost s = chars@;
    let mut out = String::new();
    let mut i = start + 1;
    loop
        invariant
            start + 1 <= i <= chars.len(),
            s == chars@,
            string_body(s.skip(start + 1)) == prepend_body(
                out@,
                (i - start - 1) as nat,
                string_body(s.skip(i as int)),
            ),
        decreases chars.len() - i,
    {
        if i >= chars.len() {
            return (error_token(ErrorKind::UnfinishedString, start, chars.len()), chars.len());
        }
        let c = chars[i];
        if c == '"' {
            proof {
                assert(out@ + Seq::<char>::empty() =~= out@);
            }
            return (Token::Str(out), i + 1);
        }
        proof {
            lemma_string_body_step(s, i as int, out@, (i - start - 1) as nat);
        }
        if c == '\\' {
            if i + 1 >= chars.len() {
                return (error_token(ErrorKind::UnfinishedString, start, chars.len()), chars.len());
            }
            push_char(&mut out, escaped_exec(chars[i + 1]));
            i = i + 2;
        } else {
            push_char(&mut out, c);
            i = i + 1;
        }
    }
}

/// The keyword spelled by `chars[from..to]`, or an identifier.
fn keyword_of(chars: &Vec<char>, from: usize, to: usize) -> (r: Token)
    requires
        from <= to <= chars.len(),
    ensures
        r@ == keyword_token(chars@.subrange(from as int, to as int)),
        r.error_range() is None,
{
    let ghost w = chars@.subrange(from as int, to as int);
    let n = to - from;
    let c0 = if n > 0 { chars[from] } else { ' ' };
    let c1 = if n > 1 { chars[from + 1] } else { ' ' };
    let c2 = if n > 2 { chars[from + 2] } else { ' ' };
    let c3 = if n > 3 { chars[from + 3] } else { ' ' };
    let c4 = if n > 4 { chars[from + 4] } else { ' ' };
    proof {
        assert(w.len() == n);
        assert(n > 0 ==> w[0] == c0);
        assert(n > 1 ==> w[1] == c1);
        assert(n > 2 ==> w[2] == c2);
        assert(n > 3 ==> w[3] == c3);
        assert(n > 4 ==> w[4] == c4);
    }
    if n == 3 && c0 == 'a' && c1 == 's' && c2 == 'k' {
        proof {
            assert(w =~= seq!['a', 's', 'k']);
        }
        Token::Ask
    } else if n == 2 && c0 == 'd' && c1 == 'o' {
        proof {
            assert(w =~= seq!['d', 'o']);
        }
        Token::Do
    } else if n == 2 && c0 == 'i' && c1 == 'f' {
        proof {
            assert(w =~= seq!['i', 'f']);
        }
        Token::If
    } else if n == 4 && c0 == 'e' && c1 == 'l' && c2 == 's' && c3 == 'e' {
        proof {
            assert(w =~= seq!['e', 'l', 's', 'e']);
        }
        Token::Else
    } else if n == 5 && c0 == 'm' && c1 == 'a' && c2 == 't' && c3 == 'c' && c4 == 'h' {
        proof {
            assert(w =~= seq!['m', 'a', 't', 'c', 'h']);
        }
        Token::Match
    } else if n == 3 && c0 == 'l' && c1 == 'e' && c2 == 't' {
        proof {
            assert(w =~= seq!['l', 'e', 't']);
        }
        Token::Let
    } else if n == 4 && c0 == 'o' && c1 == 'p' && c2 == 'e' && c3 == 'n' {
        proof {
            assert(w =~= seq!['o', 'p', 'e', 'n']);
        }
        Token::Open
    } else {
        proof {
            assert(w != seq!['a', 's', 'k']) by {
                if w == seq!['a', 's', 'k'] {
                    assert(w[0] == 'a' && w[1] == 's' && w[2] == 'k');
                }
            }
            assert(w != seq!['d', 'o']) by {
                if w == seq!['d', 'o'] {
                    assert(w[0] == 'd' && w[1] == 'o');
                }
            }
            assert(w != seq!['i', 'f']) by {
                if w == seq!['i', 'f'] {
                    assert(w[0] == 'i' && w[1] == 'f');
                }
            }
            assert(w != seq!['e', 'l', 's', 'e']) by {
                if w == seq!['e', 'l', 's', 'e'] {
                    assert(w[0] == 'e' && w[1] == 'l' && w[2] == 's' && w[3] == 'e');
                }
            }
            assert(w != seq!['m', 'a', 't', 'c', 'h']) by {
                if w == seq!['m', 'a', 't', 'c', 'h'] {
                    assert(w[0] == 'm' && w[1] == 'a' && w[2] == 't' && w[3] == 'c' && w[4]
                        == 'h');
                }
            }
            assert(w != seq!['l', 'e', 't']) by {
                if w == seq!['l', 'e', 't'] {
                    assert(w[0] == 'l' && w[1] == 'e' && w[2] == 't');
                }
            }
            assert(w != seq!['o', 'p', 'e', 'n']) by {
                if w == seq!['o', 'p', 'e', 'n'] {
                    assert(w[0] == 'o' && w[1] == 'p' && w[2] == 'e' && w[3] == 'n');
                }
            }
        }
        Token::Id(collect(chars, from, to))
    }
}

fn single_char_exec(c: char) -> (r: Option<Token>)
    ensures
        r is None <==> single_char_token(c) is None,
        r matches Some(t) ==> single_char_token(c) == Some(t@) && t.error_range() is None,
{
    match c {
        '(' => Some(Token::LPar),
        ')' => Some(Token::RPar),
        '[' => Some(Token::LBracket),
        ']' => Some(Token::RBracket),
        '{' => Some(Token::LBrace),
        '}' => Some(Token::RBrace),
        '=' => Some(Token::Eq),
        '>' => Some(Token::Greater),
        '<' => Some(Token::Less),
        '/' => Some(Token::Slash),
        ':' => Some(Token::Colon),
        ';' => Some(Token::Semi),
        '$' => Some(Token::Dollar),
        ',' => Some(Token::Comma),
        '+' => Some(Token::Plus),
        '-' => Some(Token::Minus),
        '*' => Some(Token::Star),
        '%' => Some(Token::Percent),
        '&' => Some(Token::Ampersand),
        '|' => Some(Token::Bar),
        '^' => Some(Token::Hat),
        _ => None,
    }
}

fn two_char_exec(c: char, d: char) -> (r: Option<Token>)
    ensures
        r is None <==> two_char_token(c, d) is None,
        r matches Some(t) ==> two_char_token(c, d) == Some(t@) && t.error_range() is None,
{
    if c == '=' && d == '>' {
        Some(Token::FatArrow)
    } else if c == '=' && d == '=' {
        Some(Token::EqEq)
    } else if c == '>' && d == '>' {
        Some(Token::GreaterGreater)
    } else if c == '>' && d == '=' {
        Some(Token::GreaterEq)
    } else if c == '<' && d == '<' {
        Some(Token::LessLess)
    } else if c == '<' && d == '=' {
        Some(Token::LessEq)
    } else {
        None
    }
}

/// The characters of `s`, in order.
pub(crate) fn chars_of(s: &str) -> (r: Vec<char>)
    ensures
        r@ == s@,
{
    broadcast use group_string_axioms;

    let mut it = s.chars();
    let mut out: Vec<char> = Vec::new();
    loop
        invariant
            out@ + it.remaining() == s@,
            it.decrease() is Some,
        decreases it.decrease()->0,
    {
        let ghost prev = it;
        match it.next() {
            Some(c) => {
                out.push(c);
            },
            None => {
                proof {
                    assert(prev.remaining().len() == 0);
                    assert(out@ + it.remaining() =~= out@);
                }
                return out;
            },
        }
    }
}

/// `l` moved `k` characters later.
pub open spec fn bump(l: Lexed, k: nat) -> Lexed {
    Lexed { token: l.token, start: l.start + k, used: l.used + k, semis: l.semis }
}

/// A token read at `pos` as the exec scanner hands it back, against the
/// described step `l`: the same token, its range, where reading stops and
/// how many statement ends stay expected.
pub open spec fn reads_as(l: Lexed, pos: int, r: (Token, Range), end: int, semis: int) -> bool {
    &&& r.0@ == l.token
    &&& r.1.start == pos + l.start
    &&& r.1.end == pos + l.used
    &&& end == pos + l.used
    &&& semis == l.semis
    &&& r.0@ is Error ==> r.0.error_range() == Some(r.1)
}

/// Skipping one character before a token.
proof fn lemma_lex_skip(s: Seq<char>, i: int, semis: nat)
    requires
        0 <= i < s.len(),
        skipped(s[i], semis),
    ensures
        lex(s.skip(i), semis) == bump(lex(s.skip(i + 1), semis), 1),
{
    assert(s.skip(i).drop_first() =~= s.skip(i + 1));
}

/// An error at relative position `e` of text that starts at `pos`.
pub open spec fn abs_error(e: (ErrorKind, nat, nat), pos: int) -> SyntaxError {
    SyntaxError { kind: e.0, range: Range { start: (pos + e.1) as usize, end: (pos + e.2) as usize } }
}

/// `after` is `before` followed by the errors `errors` of text that starts
/// at `pos`.
pub open spec fn records_errors(
    before: Seq<Box<SyntaxError>>,
    after: Seq<Box<SyntaxError>>,
    errors: Seq<(ErrorKind, nat, nat)>,
    pos: int,
) -> bool {
    &&& after.len() == before.len() + errors.len()
    &&& forall|j: int| 0 <= j < before.len() ==> after[j] == before[j]
    &&& forall|j: int| 0 <= j < errors.len() ==> *after[before.len() + j] == abs_error(errors[j], pos)
}

proof fn lemma_shift_errors_append(a: Seq<(ErrorKind, nat, nat)>, b: Seq<(ErrorKind, nat, nat)>, k: nat)
    ensures
        shift_errors(a + b, k) == shift_errors(a, k) + shift_errors(b, k),
{
    assert(shift_errors(a + b, k) =~= shift_errors(a, k) + shift_errors(b, k));
}

proof fn lemma_shift_errors_twice(a: Seq<(ErrorKind, nat, nat)>, j: nat, k: nat)
    ensures
        shift_errors(shift_errors(a, j), k) == shift_errors(a, j + k),
{
    assert(shift_errors(shift_errors(a, j), k) =~= shift_errors(a, j + k));
}

/// The tokens of `rest` up to and including the end of input, each with
/// its start and end relative to `rest`; errors are left out.
pub open spec fn token_stream(rest: Seq<char>, semis: nat) -> Seq<(TokenV, nat, nat)>
    decreases rest.len(),
{
    let n = lex_past_errors(rest, semis);
    if n.token is Eof || !(0 < n.used <= rest.len()) {
        seq![(n.token, n.start, n.used)]
    } else {
        seq![(n.token, n.start, n.used)] + token_stream(rest.skip(n.used as int), n.semis).map_values(
            |t: (TokenV, nat, nat)| (t.0, t.1 + n.used, t.2 + n.used),
        )
    }
}

/// The errors met while reading all of `rest`, relative to `rest`.
pub open spec fn stream_errors(rest: Seq<char>, semis: nat) -> Seq<(ErrorKind, nat, nat)>
    decreases rest.len(),
{
    let n = lex_past_errors(rest, semis);
    if n.token is Eof || !(0 < n.used <= rest.len()) {
        n.errors
    } else {
        n.errors + shift_errors(stream_errors(rest.skip(n.used as int), n.semis), n.used)
    }
}

/// The scanner's state: the source as characters, the position of the next
/// character to read, and how many statement ends the parser expects.
pub struct Lexer {
    pub chars: Vec<char>,
    pub pos: usize,
    pub semis: u64,
}

impl Lexer {
    pub open spec fn wf(&self) -> bool {
        self.pos <= self.chars.len()
    }

    /// The text that is left to read.
    pub open spec fn rest(&self) -> Seq<char> {
        self.chars@.skip(self.pos as int)
    }

    pub fn new(input: &str) -> (r: Lexer)
        ensures
            r.wf(),
            r.chars@ == input@,
            r.pos == 0,
            r.semis == 0,
    {
        Lexer { chars: chars_of(input), pos: 0, semis: 0 }
    }

    /// Consumes one character and hands back `token` with its range.
    pub fn single_token(&mut self, token: Token) -> (r: (Token, Range))
        requires
            old(self).wf(),
        ensures
            final(self).wf(),
            final(self).chars@ == old(self).chars@,
            final(self).semis == old(self).semis,
            final(self).pos == if old(self).pos < old(self).chars.len() {
                old(self).pos + 1
            } else {
                old(self).pos as int
            },
            r.0 == token,
            r.1 == (Range { start: old(self).pos, end: final(self).pos }),
    {
        let start = self.pos;
        if self.pos < self.chars.len() {
            self.pos = self.pos + 1;
        }
        (token, Range { start, end: self.pos })
    }

    /// Skips blanks, then a run of line feeds; tells whether there was one.
    pub fn is_breakline(&mut self) -> (r: bool)
        requires
            old(self).wf(),
        ensures
            final(self).wf(),
            final(self).chars@ == old(self).chars@,
            final(self).semis == old(self).semis,
            ({
                let k1 = run(old(self).rest(), CharClass::Blank);
                let k2 = run(old(self).rest().skip(k1 as int), CharClass::NewlineOnly);
                &&& final(self).pos == old(self).pos + k1 + k2
                &&& r == (k2 > 0)
            }),
    {
        let a = run_end(&self.chars, self.pos, CharClass::Blank);
        let b = run_end(&self.chars, a, CharClass::NewlineOnly);
        proof {
            assert(self.chars@.skip(self.pos as int).skip(a - self.pos) =~= self.chars@.skip(
                a as int,
            ));
        }
        self.pos = b;
        b > a
    }

    /// The keyword that `str` spells, or an identifier holding it.
    pub fn to_keyword(str: &str) -> (r: Token)
        ensures
            r@ == keyword_token(str@),
    {
        let cs = chars_of(str);
        proof {
            assert(cs@.subrange(0, cs@.len() as int) =~= cs@);
        }
        keyword_of(&cs, 0, cs.len())
    }

    /// Reads the token that starts at the current character, which is not
    /// skipped.
    fn lex_here_exec(&mut self) -> (r: (Token, Range))
        requires
            old(self).wf(),
            old(self).pos < old(self).chars.len(),
            !skipped(old(self).chars@[old(self).pos as int], old(self).semis as nat),
        ensures
            final(self).wf(),
            final(self).chars@ == old(self).chars@,
            final(self).pos > old(self).pos,
            reads_as(
                lex_here(old(self).rest(), old(self).semis as nat),
                old(self).pos as int,
                r,
                final(self).pos as int,
                final(self).semis as int,
            ),
    {
        let start = self.pos;
        let len = self.chars.len();
        let ghost s = self.chars@;
        let ghost rest = s.skip(start as int);
        let c = self.chars[start];
        proof {
            assert(rest[0] == c);
            assert(rest.len() == len - start);
            if start + 1 < len {
                assert(rest[1] == s[start + 1]);
            }
        }
        if c == '\n' {
            let end = run_end(&self.chars, start, CharClass::LineBreak);
            proof {
                lemma_run_step(s, start as int, CharClass::LineBreak);
            }
            self.pos = end;
            self.semis = self.semis - 1;
            (Token::Semi, Range { start, end })
        } else if is_digit_exec(c) {
            let (token, end) = scan_number(&self.chars, start);
            proof {
                lemma_run_step(s, start as int, CharClass::Digit);
            }
            self.pos = end;
            (token, Range { start, end })
        } else if is_valid_id_start(c) {
            let end = run_end(&self.chars, start + 1, CharClass::IdChar);
            proof {
                assert(rest.drop_first() =~= s.skip(start + 1));
                assert(rest.take((end - start) as int) =~= s.subrange(start as int, end as int));
            }
            let token = keyword_of(&self.chars, start, end);
            self.pos = end;
            (token, Range { start, end })
        } else if c == '/' && start + 1 < len && self.chars[start + 1] == '/' {
            let end = run_end(&self.chars, start + 2, CharClass::NotNewline);
            proof {
                assert(rest.skip(2) =~= s.skip(start + 2));
                assert(rest.subrange(2, (end - start) as int) =~= s.subrange(
                    start + 2,
                    end as int,
                ));
            }
            let text = collect(&self.chars, start + 2, end);
            self.pos = end;
            (Token::Comment(text), Range { start, end })
        } else if c == '/' && start + 1 < len && self.chars[start + 1] == '*' {
            let (token, end) = scan_block_comment(&self.chars, start);
            proof {
                assert(rest.skip(2) =~= s.skip(start + 2));
            }
            self.pos = end;
            (token, Range { start, end })
        } else {
            let two = if start + 1 < len {
                two_char_exec(c, self.chars[start + 1])
            } else {
                None
            };
            match two {
                Some(token) => {
                    self.pos = start + 2;
                    (token, Range { start, end: start + 2 })
                },
                None => match single_char_exec(c) {
                    Some(token) => {
                        self.pos = start + 1;
                        (token, Range { start, end: start + 1 })
                    },
                    None => {
                        if c == '"' {
                            let (token, end) = scan_string(&self.chars, start);
                            proof {
                                assert(rest.drop_first() =~= s.skip(start + 1));
                            }
                            self.pos = end;
                            (token, Range { start, end })
                        } else {
                            self.pos = start + 1;
                            (
                                error_token(ErrorKind::UnexpectedChar(c), start, start + 1),
                                Range { start, end: start + 1 },
                            )
                        }
                    },
                },
            }
        }
    }

    /// Reads the next token: blanks, and line breaks when no statement end
    /// is expected, are skipped first. At the end of the input the token is
    /// `Eof` and nothing is consumed.
    pub fn lex_token(&mut self) -> (r: (Token, Range))
        requires
            old(self).wf(),
        ensures
            final(self).wf(),
            final(self).chars@ == old(self).chars@,
            reads_as(
                lex(old(self).rest(), old(self).semis as nat),
                old(self).pos as int,
                r,
                final(self).pos as int,
                final(self).semis as int,
            ),
            final(self).pos > old(self).pos || r.0@ is Eof,
    {
        let ghost s = self.chars@;
        let ghost p0 = self.pos as int;
        let ghost sm = self.semis as nat;
        while self.pos < self.chars.len() && (is_whitespace(self.chars[self.pos]) || (
        self.chars[self.pos] == '\n' && self.semis == 0))
            invariant
                self.wf(),
                self.chars@ == s,
                self.semis == sm,
                p0 <= self.pos,
                lex(s.skip(p0), sm) == bump(lex(s.skip(self.pos as int), sm), (self.pos - p0) as nat),
            decreases self.chars.len() - self.pos,
        {
            proof {
                lemma_lex_skip(s, self.pos as int, sm);
            }
            self.pos = self.pos + 1;
        }
        if self.pos == self.chars.len() {
            proof {
                assert(s.skip(self.pos as int).len() == 0);
            }
            (Token::Eof, Range { start: self.pos, end: self.pos })
        } else {
            let ghost p1 = self.pos as int;
            let r = self.lex_here_exec();
            proof {
                assert(s.skip(p1).len() > 0 && s.skip(p1)[0] == s[p1]);
            }
            r
        }
    }

    /// Reads the next token that is not an error. Each error met on the way
    /// is appended to `vec`, and reading goes on after it.
    pub fn get_next_no_error(&mut self, vec: &mut Vec<Box<SyntaxError>>) -> (r: (Token, Range))
        requires
            old(self).wf(),
        ensures
            final(self).wf(),
            final(self).chars@ == old(self).chars@,
            ({
                let n = lex_past_errors(old(self).rest(), old(self).semis as nat);
                &&& r.0@ == n.token
                &&& r.1.start == old(self).pos + n.start
                &&& r.1.end == old(self).pos + n.used
                &&& final(self).pos == old(self).pos + n.used
                &&& final(self).semis == n.semis
                &&& records_errors(old(vec)@, final(vec)@, n.errors, old(self).pos as int)
            }),
            !(r.0@ is Error),
            final(self).pos > old(self).pos || r.0@ is Eof,
    {
        let ghost s = self.chars@;
        let ghost p0 = self.pos as int;
        let ghost sm0 = self.semis as nat;
        let ghost v0 = vec@;
        let ghost mut errs: Seq<(ErrorKind, nat, nat)> = seq![];
        proof {
            assert(shift_errors(lex_past_errors(s.skip(p0), sm0).errors, 0) =~= lex_past_errors(
                s.skip(p0),
                sm0,
            ).errors);
        }
        loop
            invariant
                self.wf(),
                self.chars@ == s,
                s == old(self).chars@,
                p0 == old(self).pos,
                sm0 == old(self).semis,
                v0 == old(vec)@,
                p0 <= self.pos,
                ({
                    let n0 = lex_past_errors(s.skip(p0), sm0);
                    let n = lex_past_errors(s.skip(self.pos as int), self.semis as nat);
                    let k = (self.pos - p0) as nat;
                    &&& n0.token == n.token
                    &&& n0.start == k + n.start
                    &&& n0.used == k + n.used
                    &&& n0.semis == n.semis
                    &&& n0.errors == errs + shift_errors(n.errors, k)
                }),
                records_errors(v0, vec@, errs, p0),
            decreases self.chars.len() - self.pos,
        {
            let ghost p = self.pos as int;
            let ghost sm = self.semis as nat;
            let ghost v1 = vec@;
            let (token, span) = self.lex_token();
            let ghost l = lex(s.skip(p), sm);
            let ghost k = (p - p0) as nat;
            match token {
                Token::Error(x) => {
                    proof {
                        let rest2 = s.skip(p).skip(l.used as int);
                        assert(rest2 =~= s.skip(self.pos as int));
                        let n = lex_past_errors(rest2, l.semis);
                        let e = (l.token->Error_0, l.start, l.used);
                        lemma_shift_errors_append(seq![e], shift_errors(n.errors, l.used), k);
                        lemma_shift_errors_twice(n.errors, l.used, k);
                        let e2 = (l.token->Error_0, k + l.start, k + l.used);
                        assert(shift_errors(seq![e], k) =~= seq![e2]);
                        assert(errs + (seq![e2] + shift_errors(n.errors, l.used + k)) =~= errs.push(
                            e2,
                        ) + shift_errors(n.errors, l.used + k));
                        errs = errs.push(e2);
                    }
                    vec.push(x);
                    proof {
                        assert(*vec@[v1.len() as int] == abs_error(errs[errs.len() - 1], p0));
                    }
                },
                _ => {
                    proof {
                        assert(shift_errors(Seq::<(ErrorKind, nat, nat)>::empty(), k) =~= seq![]);
                        assert(errs + Seq::<(ErrorKind, nat, nat)>::empty() =~= errs);
                    }
                    return (token, span);
                },
            }
        }
    }

    /// Reads all of `input`: its tokens in order, the last one and only
    /// that one `Eof`, and the errors met on the way.
    pub fn tokenize(input: &str) -> (r: (Vec<(Token, Range)>, Vec<Box<SyntaxError>>))
        ensures
            ({
                let ts = token_stream(input@, 0);
                &&& r.0@.len() == ts.len()
                &&& forall|i: int|
                    0 <= i < ts.len() ==> (#[trigger] r.0@[i]).0@ == ts[i].0 && r.0@[i].1.start
                        == ts[i].1 && r.0@[i].1.end == ts[i].2
            }),
            records_errors(Seq::empty(), r.1@, stream_errors(input@, 0), 0),
            r.0@.len() > 0,
            r.0@.last().0@ is Eof,
            forall|i: int| 0 <= i < r.0@.len() - 1 ==> !((#[trigger] r.0@[i]).0@ is Eof),
    {
        let mut lexer = Lexer::new(input);
        let ghost s = input@;
        let mut tokens: Vec<(Token, Range)> = Vec::new();
        let mut errors: Vec<Box<SyntaxError>> = Vec::new();
        proof {
            assert(s.skip(0) =~= s);
        }
        loop
            invariant
                lexer.wf(),
                lexer.chars@ == s,
                s == input@,
                ({
                    let ts0 = token_stream(s, 0);
                    let ts = token_stream(lexer.rest(), lexer.semis as nat);
                    let k = lexer.pos as nat;
                    &&& ts0.len() == tokens@.len() + ts.len()
                    &&& forall|i: int|
                        0 <= i < tokens@.len() ==> (#[trigger] tokens@[i]).0@ == ts0[i].0
                            && tokens@[i].1.start == ts0[i].1 && tokens@[i].1.end == ts0[i].2
                    &&& forall|i: int|
                        0 <= i < ts.len() ==> ts0[tokens@.len() + i].0 == (#[trigger] ts[i]).0
                            && ts0[tokens@.len() + i].1 == ts[i].1 + k && ts0[tokens@.len() + i].2
                            == ts[i].2 + k
                }),
                forall|i: int| 0 <= i < tokens@.len() ==> !((#[trigger] tokens@[i]).0@ is Eof),
                ({
                    let es0 = stream_errors(s, 0);
                    let es = stream_errors(lexer.rest(), lexer.semis as nat);
                    &&& es0.len() == errors@.len() + es.len()
                    &&& forall|j: int| 0 <= j < errors@.len() ==> *(#[trigger] errors@[j]) == abs_error(es0[j], 0)
                    &&& forall|j: int|
                        0 <= j < es.len() ==> es0[errors@.len() + j] == (
                            (#[trigger] es[j]).0,
                            (es[j].1 + lexer.pos) as nat,
                            (es[j].2 + lexer.pos) as nat,
                        )
                }),
            decreases lexer.chars@.len() - lexer.pos,
        {
            let ghost p = lexer.pos as nat;
            let ghost sm = lexer.semis as nat;
            let ghost e0 = errors@;
            let ghost t0 = tokens@;
            let (token, range) = lexer.get_next_no_error(&mut errors);
            let ghost n = lex_past_errors(s.skip(p as int), sm);
            let done = token.is_eof();
            let ghost rest = s.skip(p as int);
            let ghost ts0 = token_stream(s, 0);
            let ghost es0 = stream_errors(s, 0);
            let ghost ts = token_stream(rest, sm);
            let ghost es = stream_errors(rest, sm);
            tokens.push((token, range));
            proof {
                assert(ts[0] == (n.token, n.start, n.used));
                assert(ts0[t0.len() as int] == (ts[0].0, ts[0].1 + p, ts[0].2 + p));
                assert forall|j: int| 0 <= j < n.errors.len() implies es0[e0.len() + j] == (
                    n.errors[j].0,
                    (n.errors[j].1 + p) as nat,
                    (n.errors[j].2 + p) as nat,
                ) by {
                    assert(es[j] == n.errors[j]);
                    assert(es0[e0.len() + j] == (es[j].0, (es[j].1 + p) as nat, (es[j].2 + p) as nat));
                }
                assert forall|j: int| 0 <= j < errors@.len() implies *(#[trigger] errors@[j])
                    == abs_error(es0[j], 0) by {
                    if j >= e0.len() {
                        assert(*errors@[e0.len() + (j - e0.len())] == abs_error(
                            n.errors[j - e0.len()],
                            p as int,
                        ));
                    }
                }
                assert forall|i: int| 0 <= i < tokens@.len() implies (#[trigger] tokens@[i]).0@
                    == ts0[i].0 && tokens@[i].1.start == ts0[i].1 && tokens@[i].1.end
                    == ts0[i].2 by {
                    if i < t0.len() {
                        assert(tokens@[i] == t0[i]);
                    }
                }
            }
            if done {
                proof {
                    assert(ts.len() == 1);
                    assert(es == n.errors);
                }
                return (tokens, errors);
            }
            proof {
                let rest2 = s.skip(lexer.pos as int);
                assert(rest.skip(n.used as int) =~= rest2);
                let ts2 = token_stream(rest2, n.semis);
                let es2 = stream_errors(rest2, n.semis);
                assert(ts == seq![(n.token, n.start, n.used)] + ts2.map_values(
                    |t: (TokenV, nat, nat)| (t.0, t.1 + n.used, t.2 + n.used),
                ));
                assert(es == n.errors + shift_errors(es2, n.used));
                assert forall|i: int| 0 <= i < ts2.len() implies ts0[tokens@.len() + i].0 == (
                #[trigger] ts2[i]).0 && ts0[tokens@.len() + i].1 == ts2[i].1 + lexer.pos
                    && ts0[tokens@.len() + i].2 == ts2[i].2 + lexer.pos by {
                    assert(ts[i + 1] == (ts2[i].0, ts2[i].1 + n.used, ts2[i].2 + n.used));
                    assert(ts0[t0.len() + (i + 1)] == (ts[i + 1].0, ts[i + 1].1 + p, ts[i + 1].2 + p));
                }
                assert forall|j: int| 0 <= j < es2.len() implies es0[errors@.len() + j] == (
                    (#[trigger] es2[j]).0,
                    (es2[j].1 + lexer.pos) as nat,
                    (es2[j].2 + lexer.pos) as nat,
                ) by {
                    let jj = n.errors.len() + j;
                    assert(es[jj] == (es2[j].0, es2[j].1 + n.used, es2[j].2 + n.used));
                    assert(es0[e0.len() + jj] == (es[jj].0, (es[jj].1 + p) as nat, (es[jj].2 + p) as nat));
                }
                assert forall|i: int| 0 <= i < tokens@.len() implies !((#[trigger] tokens@[i]).0@ is Eof) by {
                    if i < t0.len() {
                        assert(tokens@[i] == t0[i]);
                    }
                }
            }
        }
    }
}

/// `d` after `c` makes a longer token than `c` alone: a two-character
/// operator, or the start of a comment.
pub open spec fn extends(c: char, d: char) -> bool {
    two_char_token(c, d) is Some || (c == '/' && (d == '/' || d == '*'))
}

/// A character that starts no token at all.
pub open spec fn starts_no_token(c: char) -> bool {
    &&& !is_blank(c)
    &&& c != '\n'
    &&& !is_digit(c)
    &&& !is_id_start(c)
    &&& single_char_token(c) is None
    &&& c != '"'
}

/// A character that is an operator by itself, and is not followed by a
/// character that would extend it, is read as that one-character token.
pub proof fn lemma_single_char_operator(rest: Seq<char>, semis: nat)
    requires
        rest.len() > 0,
        single_char_token(rest[0]) is Some,
        !(rest.len() > 1 && extends(rest[0], rest[1])),
    ensures
        lex(rest, semis) == (Lexed {
            token: single_char_token(rest[0])->0,
            start: 0,
            used: 1,
            semis,
        }),
{
    let c = rest[0];
    assert(is_ascii_char(c));
    assert(!is_id_start(c));
    assert(!is_digit(c));
}

/// A character that starts no token is reported and skipped: the text with
/// it reads as the text without it, one character later, and with one more
/// error, for that character, in front.
pub proof fn lemma_unexpected_char_skipped(c: char, rest: Seq<char>, semis: nat)
    requires
        starts_no_token(c),
    ensures
        ({
            let with = lex_past_errors(seq![c] + rest, semis);
            let without = lex_past_errors(rest, semis);
            &&& with.token == without.token
            &&& with.start == without.start + 1
            &&& with.used == without.used + 1
            &&& with.semis == without.semis
            &&& with.errors == seq![(ErrorKind::UnexpectedChar(c), 0nat, 1nat)] + shift_errors(
                without.errors,
                1,
            )
        }),
{
    let t = seq![c] + rest;
    assert(t[0] == c);
    assert(t.skip(1) =~= rest);
}

proof fn lemma_run_le(s: Seq<char>, k: CharClass)
    ensures
        run(s, k) <= s.len(),
    decreases s.len(),
{
    if s.len() > 0 && k.holds(s[0]) {
        lemma_run_le(s.drop_first(), k);
    }
}

proof fn lemma_string_body_le(s: Seq<char>)
    ensures
        string_body(s) matches Some((v, n)) ==> 1 <= n <= s.len(),
    decreases s.len(),
{
    if s.len() > 0 && s[0] != '"' {
        if s[0] == '\\' {
            if s.len() >= 2 {
                lemma_string_body_le(s.skip(2));
            }
        } else {
            lemma_string_body_le(s.drop_first());
        }
    }
}

proof fn lemma_block_comment_le(s: Seq<char>, depth: nat)
    ensures
        block_comment(s, depth) matches Some(n) ==> n <= s.len(),
    decreases s.len(),
{
    if depth > 0 && s.len() >= 2 {
        if s[0] == '*' && s[1] == '/' {
            lemma_block_comment_le(s.skip(2), (depth - 1) as nat);
        } else if s[0] == '/' && s[1] == '*' {
            lemma_block_comment_le(s.skip(2), depth + 1);
        } else {
            lemma_block_comment_le(s.drop_first(), depth);
        }
    }
}

/// A token never reads past the end of the text, and an error always
/// consumes at least one character: the scanner never stalls on bad input.
pub proof fn lemma_lex_progress(rest: Seq<char>, semis: nat)
    ensures
        lex(rest, semis).start <= lex(rest, semis).used <= rest.len(),
        lex(rest, semis).token is Error ==> lex(rest, semis).start < lex(rest, semis).used,
    decreases rest.len(),
{
    if rest.len() > 0 {
        if skipped(rest[0], semis) {
            lemma_lex_progress(rest.drop_first(), semis);
        } else {
            let c = rest[0];
            lemma_run_le(rest, CharClass::LineBreak);
            lemma_run_le(rest, CharClass::Digit);
            lemma_run_le(rest.drop_first(), CharClass::IdChar);
            lemma_run_le(rest.skip(2), CharClass::NotNewline);
            lemma_block_comment_le(rest.skip(2), 1);
            lemma_string_body_le(rest.drop_first());
            if c == '\n' {
                assert(rest.drop_first().len() < rest.len());
            }
        }
    }
}

/// `n` moved `k` characters later, its errors too.
pub open spec fn bump_past(n: LexedPastErrors, k: nat) -> LexedPastErrors {
    LexedPastErrors {
        token: n.token,
        start: n.start + k,
        used: n.used + k,
        semis: n.semis,
        errors: shift_errors(n.errors, k),
    }
}

pub open spec fn all_blank(w: Seq<char>) -> bool {
    forall|i: int| 0 <= i < w.len() ==> is_blank(#[trigger] w[i])
}

/// Blanks in front of a token only move it later.
pub proof fn lemma_lex_after_blanks(w: Seq<char>, t: Seq<char>, semis: nat)
    requires
        all_blank(w),
    ensures
        lex(w + t, semis) == bump(lex(t, semis), w.len()),
    decreases w.len(),
{
    if w.len() == 0 {
        assert(w + t =~= t);
    } else {
        assert((w + t)[0] == w[0]);
        assert((w + t).drop_first() =~= w.drop_first() + t);
        lemma_lex_after_blanks(w.drop_first(), t, semis);
    }
}

/// Blanks in front of the text only move the next good token, and the
/// errors before it, later.
pub proof fn lemma_lex_past_errors_after_blanks(w: Seq<char>, t: Seq<char>, semis: nat)
    requires
        all_blank(w),
    ensures
        lex_past_errors(w + t, semis) == bump_past(lex_past_errors(t, semis), w.len()),
{
    lemma_lex_after_blanks(w, t, semis);
    lemma_lex_progress(t, semis);
    let lt = lex(t, semis);
    let n = lex_past_errors(t, semis);
    if lt.token is Error {
        assert((w + t).skip((lt.used + w.len()) as int) =~= t.skip(lt.used as int));
        let rest_n = lex_past_errors(t.skip(lt.used as int), lt.semis);
        let e = (lt.token->Error_0, lt.start, lt.used);
        lemma_shift_errors_append(seq![e], shift_errors(rest_n.errors, lt.used), w.len());
        lemma_shift_errors_twice(rest_n.errors, lt.used, w.len());
        assert(shift_errors(seq![e], w.len()) =~= seq![
            (lt.token->Error_0, lt.start + w.len(), lt.used + w.len()),
        ]);
    } else {
        assert(shift_errors(Seq::<(ErrorKind, nat, nat)>::empty(), w.len()) =~= seq![]);
    }
}

/// A character that starts no token, alone or after blanks, is reported
/// and skipped: the text with it reads as the text without it, one
/// character later, and with one more error, for that character, in front.
pub proof fn lemma_unexpected_char_after_blanks(w: Seq<char>, c: char, t: Seq<char>, semis: nat)
    requires
        all_blank(w),
        starts_no_token(c),
    ensures
        ({
            let with = lex_past_errors(w + seq![c] + t, semis);
            let without = lex_past_errors(w + t, semis);
            &&& with.token == without.token
            &&& with.start == without.start + 1
            &&& with.used == without.used + 1
            &&& with.semis == without.semis
            &&& with.errors == seq![(ErrorKind::UnexpectedChar(c), w.len(), w.len() + 1)]
                + shift_errors(without.errors, 1)
        }),
{
    assert(w + seq![c] + t =~= w + (seq![c] + t));
    lemma_lex_past_errors_after_blanks(w, seq![c] + t, semis);
    lemma_lex_past_errors_after_blanks(w, t, semis);
    lemma_unexpected_char_skipped(c, t, semis);
    let n = lex_past_errors(t, semis);
    let e = (ErrorKind::UnexpectedChar(c), 0nat, 1nat);
    lemma_shift_errors_append(seq![e], shift_errors(n.errors, 1), w.len());
    lemma_shift_errors_twice(n.errors, 1, w.len());
    lemma_shift_errors_twice(n.errors, w.len(), 1);
    assert(shift_errors(seq![e], w.len()) =~= seq![
        (ErrorKind::UnexpectedChar(c), w.len(), w.len() + 1),
    ]);
}

} // verus!
