use kind_frontend::lexer::{is_valid_id, is_valid_id_start, is_whitespace, Lexer};
use kind_frontend::tokens::{ErrorKind, Range, SyntaxError, Token};

fn tokens_of(input: &str) -> Vec<Token> {
    let (tokens, _) = Lexer::tokenize(input);
    tokens.into_iter().map(|(t, _)| t).collect()
}

fn id(s: &str) -> Token {
    Token::Id(s.to_string())
}

#[test]
fn ask_reads_as_keyword_then_eof() {
    let mut lexer = Lexer::new("ask");
    let mut errors: Vec<Box<SyntaxError>> = Vec::new();
    let (token, range) = lexer.get_next_no_error(&mut errors);
    assert_eq!(token, Token::Ask);
    assert_eq!(range, Range { start: 0, end: 3 });
    let (token, range) = lexer.get_next_no_error(&mut errors);
    assert_eq!(token, Token::Eof);
    assert_eq!(range, Range { start: 3, end: 3 });
    assert!(errors.is_empty());
}

#[test]
fn identifier_is_one_token() {
    let (tokens, errors) = Lexer::tokenize("fooBar123");
    assert_eq!(tokens.len(), 2);
    assert_eq!(tokens[0], (id("fooBar123"), Range { start: 0, end: 9 }));
    assert_eq!(tokens[1].0, Token::Eof);
    assert!(errors.is_empty());
}

#[test]
fn fat_arrow_is_one_token() {
    let (tokens, errors) = Lexer::tokenize("=>");
    assert_eq!(tokens, vec![(Token::FatArrow, Range { start: 0, end: 2 }), (Token::Eof, Range { start: 2, end: 2 })]);
    assert!(errors.is_empty());
}

#[test]
fn single_char_operators_alone() {
    assert_eq!(tokens_of("="), vec![Token::Eq, Token::Eof]);
    assert_eq!(tokens_of(">"), vec![Token::Greater, Token::Eof]);
    assert_eq!(tokens_of("<"), vec![Token::Less, Token::Eof]);
    assert_eq!(tokens_of("/"), vec![Token::Slash, Token::Eof]);
    assert_eq!(tokens_of("= x"), vec![Token::Eq, id("x"), Token::Eof]);
    assert_eq!(tokens_of("=x"), vec![Token::Eq, id("x"), Token::Eof]);
    assert_eq!(tokens_of("<("), vec![Token::Less, Token::LPar, Token::Eof]);
    assert_eq!(
        tokens_of("()[]{}:;$,+-*%&|^"),
        vec![
            Token::LPar,
            Token::RPar,
            Token::LBracket,
            Token::RBracket,
            Token::LBrace,
            Token::RBrace,
            Token::Colon,
            Token::Semi,
            Token::Dollar,
            Token::Comma,
            Token::Plus,
            Token::Minus,
            Token::Star,
            Token::Percent,
            Token::Ampersand,
            Token::Bar,
            Token::Hat,
            Token::Eof,
        ]
    );
}

#[test]
fn two_char_operators() {
    assert_eq!(
        tokens_of("== >= >> <= << =>"),
        vec![
            Token::EqEq,
            Token::GreaterEq,
            Token::GreaterGreater,
            Token::LessEq,
            Token::LessLess,
            Token::FatArrow,
            Token::Eof,
        ]
    );
}

#[test]
fn keywords_and_identifiers() {
    assert_eq!(Lexer::to_keyword("ask"), Token::Ask);
    assert_eq!(Lexer::to_keyword("do"), Token::Do);
    assert_eq!(Lexer::to_keyword("if"), Token::If);
    assert_eq!(Lexer::to_keyword("else"), Token::Else);
    assert_eq!(Lexer::to_keyword("match"), Token::Match);
    assert_eq!(Lexer::to_keyword("let"), Token::Let);
    assert_eq!(Lexer::to_keyword("open"), Token::Open);
    assert_eq!(Lexer::to_keyword("asked"), id("asked"));
    assert_eq!(Lexer::to_keyword("Let"), id("Let"));
    assert_eq!(Lexer::to_keyword("matc"), id("matc"));
    assert_eq!(Lexer::to_keyword(""), id(""));
    assert_eq!(tokens_of("let x.y$z _w"), vec![Token::Let, id("x.y$z"), id("_w"), Token::Eof]);
}

#[test]
fn unexpected_char_is_reported_and_skipped() {
    let (with, errors) = Lexer::tokenize("a # b");
    let (without, none) = Lexer::tokenize("a  b");
    let with: Vec<Token> = with.into_iter().map(|(t, _)| t).collect();
    let without: Vec<Token> = without.into_iter().map(|(t, _)| t).collect();
    assert_eq!(with, without);
    assert!(none.is_empty());
    assert_eq!(errors.len(), 1);
    assert_eq!(*errors[0], SyntaxError { kind: ErrorKind::UnexpectedChar('#'), range: Range { start: 2, end: 3 } });
}

#[test]
fn unexpected_char_between_tokens() {
    let (tokens, errors) = Lexer::tokenize("a#b");
    assert_eq!(tokens, vec![
        (id("a"), Range { start: 0, end: 1 }),
        (id("b"), Range { start: 2, end: 3 }),
        (Token::Eof, Range { start: 3, end: 3 }),
    ]);
    assert_eq!(errors.len(), 1);
    assert_eq!(errors[0].kind, ErrorKind::UnexpectedChar('#'));
}

#[test]
fn several_bad_chars_all_reported() {
    let mut lexer = Lexer::new("#@ x");
    let mut errors: Vec<Box<SyntaxError>> = Vec::new();
    let (token, range) = lexer.get_next_no_error(&mut errors);
    assert_eq!(token, id("x"));
    assert_eq!(range, Range { start: 3, end: 4 });
    assert_eq!(errors.len(), 2);
    assert_eq!(errors[0].range, Range { start: 0, end: 1 });
    assert_eq!(errors[1].kind, ErrorKind::UnexpectedChar('@'));
}

#[test]
fn line_breaks_end_statements_only_when_expected() {
    assert_eq!(tokens_of("a\n\nb"), vec![id("a"), id("b"), Token::Eof]);
    let mut lexer = Lexer::new("a\n\r\nb\nc");
    lexer.semis = 1;
    let mut errors = Vec::new();
    assert_eq!(lexer.get_next_no_error(&mut errors).0, id("a"));
    let (token, range) = lexer.get_next_no_error(&mut errors);
    assert_eq!(token, Token::Semi);
    assert_eq!(range, Range { start: 1, end: 4 });
    assert_eq!(lexer.semis, 0);
    assert_eq!(lexer.get_next_no_error(&mut errors).0, id("b"));
    assert_eq!(lexer.get_next_no_error(&mut errors).0, id("c"));
}

#[test]
fn numbers() {
    assert_eq!(tokens_of("0 42 18446744073709551615"), vec![
        Token::Num(0),
        Token::Num(42),
        Token::Num(u64::MAX),
        Token::Eof,
    ]);
    let (tokens, errors) = Lexer::tokenize("18446744073709551616 7");
    assert_eq!(tokens[0].0, Token::Num(7));
    assert_eq!(errors.len(), 1);
    assert_eq!(*errors[0], SyntaxError { kind: ErrorKind::NumberTooLarge, range: Range { start: 0, end: 20 } });
}

#[test]
fn strings() {
    assert_eq!(tokens_of("\"hi\""), vec![Token::Str("hi".to_string()), Token::Eof]);
    assert_eq!(tokens_of("\"a\\nb\\t\\\"c\\\\\""), vec![Token::Str("a\nb\t\"c\\".to_string()), Token::Eof]);
    let (tokens, errors) = Lexer::tokenize("x \"open");
    assert_eq!(tokens.len(), 2);
    assert_eq!(tokens[1].0, Token::Eof);
    assert_eq!(*errors[0], SyntaxError { kind: ErrorKind::UnfinishedString, range: Range { start: 2, end: 7 } });
}

#[test]
fn comments() {
    assert_eq!(tokens_of("// hello\nx"), vec![Token::Comment(" hello".to_string()), id("x"), Token::Eof]);
    assert_eq!(
        tokens_of("/* a /* b */ c */x"),
        vec![Token::Comment(" a /* b */ c ".to_string()), id("x"), Token::Eof]
    );
    let (tokens, errors) = Lexer::tokenize("/* never closed");
    assert_eq!(tokens.len(), 1);
    assert_eq!(*errors[0], SyntaxError { kind: ErrorKind::UnfinishedComment, range: Range { start: 0, end: 15 } });
}

#[test]
fn empty_input_is_only_eof() {
    let (tokens, errors) = Lexer::tokenize("");
    assert_eq!(tokens, vec![(Token::Eof, Range { start: 0, end: 0 })]);
    assert!(errors.is_empty());
    let (tokens, _) = Lexer::tokenize(" \t\r ");
    assert_eq!(tokens, vec![(Token::Eof, Range { start: 4, end: 4 })]);
}

#[test]
fn character_classes() {
    assert!(is_whitespace(' ') && is_whitespace('\t') && is_whitespace('\r'));
    assert!(!is_whitespace('\n') && !is_whitespace('a'));
    assert!(is_valid_id_start('a') && is_valid_id_start('Z') && is_valid_id_start('_'));
    assert!(is_valid_id_start('é') && is_valid_id_start('λ'));
    assert!(!is_valid_id_start('1') && !is_valid_id_start('$') && !is_valid_id_start('٣'));
    assert!(is_valid_id('1') && is_valid_id('$') && is_valid_id('.') && is_valid_id('٣'));
    assert!(!is_valid_id('-') && !is_valid_id('→'));
    assert_eq!(tokens_of("λx"), vec![id("λx"), Token::Eof]);
}

#[test]
fn breakline_detection() {
    let mut lexer = Lexer::new("  \n\nx");
    assert!(lexer.is_breakline());
    assert_eq!(lexer.pos, 4);
    let mut lexer = Lexer::new("  x");
    assert!(!lexer.is_breakline());
    assert_eq!(lexer.pos, 2);
}

#[test]
fn single_token_consumes_one_char() {
    let mut lexer = Lexer::new("()");
    let (token, range) = lexer.single_token(Token::LPar);
    assert_eq!(token, Token::LPar);
    assert_eq!(range, Range { start: 0, end: 1 });
    assert_eq!(lexer.pos, 1);
}
