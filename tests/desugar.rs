use std::sync::mpsc::channel;

use kind_frontend::concrete::{
    AppExpr, Binding, Book, ExprKind, Function, LambdaExpr, Literal, NamedBinding,
    ParameterBinding, PiExpr, PiParameter, Rule, Signature, SignatureParameter, TopLevel,
    TopLevelKind, TypeBinding, TypeExpr,
};
use kind_frontend::concrete::Expr;
use kind_frontend::desugar::{desugar_book, DesugarState, PassError};
use kind_frontend::desugared;
use kind_frontend::lexemes::{Brace, Equal, Ident, Item, Name, Paren, Point, Span, Token, Tokenized};

fn s() -> Span {
    Span::new(Point::new(0, 0), Point::new(0, 1))
}

fn tok() -> Token {
    Token { span: s() }
}

fn ident(n: &str) -> Ident {
    Ident(Item::new(s(), Tokenized(tok(), n.to_string())))
}

fn name(n: &str) -> Name {
    Name::Ident(ident(n))
}

fn local(n: &str) -> Expr {
    Expr::local(s(), name(n))
}

fn typ() -> Expr {
    Item::new(s(), ExprKind::Type(Box::new(TypeExpr::Type(tok()))))
}

fn error() -> Expr {
    Item::new(s(), ExprKind::Error)
}

fn untyped_param(n: &str) -> SignatureParameter {
    SignatureParameter::Include(ParameterBinding::Explicit(Paren(
        tok(),
        TypeBinding { name: name(n), binding_type: None },
        tok(),
    )))
}

fn function(n: &str, params: Vec<SignatureParameter>, body: Expr) -> TopLevel {
    TopLevel {
        attributes: vec![],
        data: Item::new(s(), TopLevelKind::Function(Function {
            name: ident(n),
            arguments: params,
            return_typ: None,
            value: Brace(tok(), body, tok()),
        })),
    }
}

fn arrow(from: Expr, to: Expr) -> Expr {
    Item::new(s(), ExprKind::Pi(Box::new(PiExpr {
        tilde: tok(),
        param: PiParameter::Expr(Box::new(from)),
        arrow: tok(),
        body: Box::new(to),
    })))
}

fn book_of(items: Vec<(&str, TopLevel)>) -> Book {
    let mut book = Book::new();
    for (k, v) in items {
        assert!(book.insert(k.to_string(), v).is_ok());
    }
    book
}

fn hole_of(e: &desugared::Expr) -> u64 {
    match e.data {
        desugared::ExprKind::Hole(h) => h,
        _ => panic!("not a hole"),
    }
}

#[test]
fn holes_are_numbered_in_order_across_declarations() {
    let book = book_of(vec![
        ("F", function("F", vec![untyped_param("a"), untyped_param("b")], local("a"))),
        ("G", function("G", vec![untyped_param("c")], local("c"))),
    ]);
    let (tx, rx) = channel();
    let core = desugar_book(tx, &book).expect("no errors");
    assert!(rx.try_recv().is_err());
    let mut holes = Vec::new();
    for (_, entry) in &core.entries {
        match entry {
            desugared::Entry::Function { args, typ, .. } => {
                for a in args {
                    holes.push(hole_of(&a.typ));
                }
                holes.push(hole_of(typ));
            },
            _ => panic!("expected a function"),
        }
    }
    assert_eq!(holes, vec![0, 1, 2, 3, 4]);
}

#[test]
fn fresh_names_follow_the_scheme() {
    let body = arrow(typ(), arrow(typ(), typ()));
    let book = book_of(vec![("F", function("F", vec![], body))]);
    let (tx, _rx) = channel();
    let core = desugar_book(tx, &book).expect("no errors");
    let body = match &core.entries[0].1 {
        desugared::Entry::Function { body: Some(b), .. } => b,
        _ => panic!("expected a function with a body"),
    };
    let (outer, inner) = match &body.data {
        desugared::ExprKind::All { param, body, .. } => (param, body),
        _ => panic!("expected a function type"),
    };
    assert_eq!(outer.name, "_x1");
    match &inner.data {
        desugared::ExprKind::All { param, .. } => assert_eq!(param.name, "_x2"),
        _ => panic!("expected a function type"),
    }
}

#[test]
fn one_failing_declaration_fails_the_pass_but_all_are_visited() {
    let book = book_of(vec![
        ("A", function("A", vec![], local("a"))),
        ("B", function("B", vec![], error())),
        ("C", function("C", vec![], typ())),
    ]);
    let (tx, rx) = channel();
    assert!(desugar_book(tx, &book).is_none());
    let errors: Vec<PassError> = rx.try_iter().collect();
    assert_eq!(errors, vec![PassError::InvalidSyntax(s())]);

    let (tx, rx) = channel();
    let mut state = DesugarState::new(tx, &book);
    state.desugar_book(&book);
    assert!(state.failed);
    let keys: Vec<&str> = state.new_book.entries.iter().map(|(k, _)| k.as_str()).collect();
    assert_eq!(keys, vec!["A", "B", "C"]);
    assert_eq!(rx.try_iter().count(), 1);
    assert!(state.finish().is_none());
}

#[test]
fn every_failure_is_reported() {
    let book = book_of(vec![
        ("A", function("A", vec![], error())),
        ("B", function("B", vec![], local("b"))),
        ("C", function("C", vec![], error())),
    ]);
    let (tx, rx) = channel();
    assert!(desugar_book(tx, &book).is_none());
    assert_eq!(rx.try_iter().count(), 2);
}

#[test]
fn rule_needs_a_declaration() {
    let rule = |n: &str| TopLevel {
        attributes: vec![],
        data: Item::new(s(), TopLevelKind::Rule(Rule {
            name: ident(n),
            patterns: vec![],
            value: Equal(tok(), typ()),
        })),
    };
    let sig = TopLevel {
        attributes: vec![],
        data: Item::new(s(), TopLevelKind::Signature(Signature {
            name: name("Zero"),
            parameters: vec![],
            return_type: None,
            value: None,
        })),
    };
    let book = book_of(vec![("Zero", sig), ("Zero#rule", rule("Zero"))]);
    let (tx, _rx) = channel();
    assert!(desugar_book(tx, &book).is_some());

    let book = book_of(vec![("One#rule", rule("One"))]);
    let (tx, rx) = channel();
    assert!(desugar_book(tx, &book).is_none());
    assert_eq!(rx.try_iter().collect::<Vec<_>>(), vec![PassError::RuleWithoutSignature("One".to_string(), s())]);
}

#[test]
fn lambda_needs_a_name_and_applications_keep_erasure() {
    let lam = |param: PiParameter| Item::new(s(), ExprKind::Lambda(Box::new(LambdaExpr {
        tilde: None,
        param,
        arrow: tok(),
        body: Box::new(local("x")),
    })));
    let good = lam(PiParameter::Expr(Box::new(local("x"))));
    let bad = lam(PiParameter::Expr(Box::new(typ())));
    let app = Item::new(s(), ExprKind::App(Box::new(AppExpr {
        fun: Box::new(good),
        arg: vec![
            Binding { tilde: Some(tok()), value: NamedBinding::Expr(Box::new(typ())) },
            Binding {
                tilde: None,
                value: NamedBinding::Expr(Box::new(Item::new(
                    s(),
                    ExprKind::Literal(Box::new(Literal::U60(Tokenized(tok(), 7)))),
                ))),
            },
        ],
    })));
    let book = book_of(vec![("F", function("F", vec![], app))]);
    let (tx, _rx) = channel();
    let core = desugar_book(tx, &book).expect("no errors");
    match &core.entries[0].1 {
        desugared::Entry::Function { body: Some(b), .. } => match &b.data {
            desugared::ExprKind::App(f, args) => {
                assert!(matches!(f.data, desugared::ExprKind::Lambda { .. }));
                assert_eq!(args.len(), 2);
                assert!(args[0].erased);
                assert!(!args[1].erased);
                assert_eq!(args[1].value.data, desugared::ExprKind::U60(7));
            },
            _ => panic!("expected an application"),
        },
        _ => panic!("expected a function"),
    }

    let book = book_of(vec![("F", function("F", vec![], bad))]);
    let (tx, rx) = channel();
    assert!(desugar_book(tx, &book).is_none());
    assert_eq!(rx.try_iter().collect::<Vec<_>>(), vec![PassError::ExpectedName(s())]);
}

#[test]
fn pass_still_reports_when_the_receiver_is_gone() {
    let book = book_of(vec![("A", function("A", vec![], error()))]);
    let (tx, rx) = channel();
    drop(rx);
    assert!(desugar_book(tx, &book).is_none());
}

#[test]
fn literals_are_carried_into_the_core_tree() {
    let nat = Item::new(
        s(),
        ExprKind::Literal(Box::new(Literal::Nat(Tokenized(tok(), num_bigint::BigUint::from(123456789u64) * 1000u32)))),
    );
    let text = Item::new(s(), ExprKind::Literal(Box::new(Literal::String(Tokenized(tok(), "hi".to_string())))));
    let book = book_of(vec![("N", function("N", vec![], nat)), ("S", function("S", vec![], text))]);
    let (tx, _rx) = channel();
    let core = desugar_book(tx, &book).expect("no errors");
    match &core.entries[0].1 {
        desugared::Entry::Function { body: Some(b), .. } => {
            assert_eq!(b.data, desugared::ExprKind::Nat(num_bigint::BigUint::from(123456789000u64)))
        },
        _ => panic!("expected a function"),
    }
    match &core.entries[1].1 {
        desugared::Entry::Function { body: Some(b), .. } => {
            assert_eq!(b.data, desugared::ExprKind::Str("hi".to_string()))
        },
        _ => panic!("expected a function"),
    }
}

#[test]
fn block_of_several_statements_is_not_lowered() {
    use_block_with(2, true);
    use_block_with(1, false);
}

fn use_block_with(n: usize, fails: bool) {
    let stmts = (0..n).map(|_| kind_frontend::concrete::Stmt { value: typ(), semi: None }).collect();
    let sig = TopLevel {
        attributes: vec![],
        data: Item::new(s(), TopLevelKind::Signature(Signature {
            name: name("Main"),
            parameters: vec![],
            return_type: None,
            value: Some(Brace(tok(), stmts, tok())),
        })),
    };
    let book = book_of(vec![("Main", sig)]);
    let (tx, rx) = channel();
    let result = desugar_book(tx, &book);
    assert_eq!(result.is_none(), fails);
    let errors: Vec<PassError> = rx.try_iter().collect();
    if fails {
        assert_eq!(errors, vec![PassError::UnsupportedSyntax(s())]);
    } else {
        assert!(errors.is_empty());
    }
}
