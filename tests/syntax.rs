use kind_frontend::concrete::{
    Book, Command, Expr, ExprKind, ParameterBinding, SignatureParameter, TopLevel, TopLevelKind,
    TypeBinding,
};
use kind_frontend::report::{Chars, RenderConfig};
use kind_frontend::lexemes::{Bracket, Ident, Item, Name, Paren, Point, Span, Token, Tokenized};

fn sp(r0: usize, c0: usize, r1: usize, c1: usize) -> Span {
    Span::new(Point::new(r0, c0), Point::new(r1, c1))
}

fn name(s: &str, span: Span) -> Name {
    Name::Ident(Ident(Item::new(span, Tokenized(Token { span }, s.to_string()))))
}

#[test]
fn mix_encloses_both_spans() {
    let a = sp(1, 4, 1, 9);
    let b = sp(0, 7, 1, 2);
    let m = a.mix(&b);
    assert_eq!(m, sp(0, 7, 1, 9));
    assert_eq!(b.mix(&a), m);
    assert_eq!(a.mix(&a), a);
}

#[test]
fn paren_span_encloses_payload() {
    let open = Token { span: sp(2, 0, 2, 1) };
    let close = Token { span: sp(2, 10, 2, 11) };
    let payload = sp(2, 1, 2, 10);
    let p = Paren(open, payload, close);
    let s = p.span();
    assert_eq!(s, sp(2, 0, 2, 11));
    assert!(s.0.precedes(&payload.0));
    assert!(payload.1.precedes(&s.1));
    let b = Bracket(Token { span: sp(0, 0, 0, 1) }, (), Token { span: sp(3, 0, 3, 1) });
    assert_eq!(b.span(), sp(0, 0, 3, 1));
}

#[test]
fn points_are_ordered_by_line_then_column() {
    assert!(Point::new(0, 9).precedes(&Point::new(1, 0)));
    assert!(Point::new(1, 2).precedes(&Point::new(1, 2)));
    assert!(!Point::new(1, 3).precedes(&Point::new(1, 2)));
}

#[test]
fn item_map_keeps_span() {
    let item = Item::new(sp(0, 0, 0, 3), 21u64);
    let doubled = item.map(|x| x * 2);
    assert_eq!(doubled.data, 42);
    assert_eq!(doubled.span, sp(0, 0, 0, 3));
}

#[test]
fn item_from_tokenized() {
    let t = Tokenized(Token { span: sp(4, 1, 4, 5) }, "name".to_string());
    let item: Item<String> = Item::from(t);
    assert_eq!(item.span, sp(4, 1, 4, 5));
    assert_eq!(item.data, "name");
}

#[test]
fn expression_builders() {
    let s = sp(0, 0, 0, 1);
    let c = Expr::constructor(s, name("Nat", s));
    assert_eq!(c.span, s);
    assert!(matches!(c.data, ExprKind::Constructor(_)));
    let l = Expr::local(s, name("x", s));
    assert!(matches!(l.data, ExprKind::Local(_)));
}

fn command(n: &str) -> TopLevel {
    let s = sp(0, 0, 0, 1);
    TopLevel {
        attributes: vec![],
        data: Item::new(s, TopLevelKind::Commmand(Command {
            at: Token { span: s },
            name: Ident(Item::new(s, Tokenized(Token { span: s }, n.to_string()))),
            arguments: vec![],
        })),
    }
}

#[test]
fn book_refuses_a_name_twice() {
    let mut book = Book::new();
    assert!(book.insert("A".to_string(), command("eval")).is_ok());
    assert!(book.insert("B".to_string(), command("eval")).is_ok());
    let again = book.insert("A".to_string(), command("other"));
    assert!(again.is_err());
    assert_eq!(book.entries.len(), 2);
    assert_eq!(book.find(&"B".to_string()), Some(1));
    assert_eq!(book.find(&"C".to_string()), None);
}

#[test]
fn erasure_markers() {
    let s = sp(0, 0, 0, 1);
    let binding = || ParameterBinding::Explicit(Paren(Token { span: s }, TypeBinding { name: name("x", s), binding_type: None }, Token { span: s }));
    assert!(matches!(SignatureParameter::with_modifier(Some("-"), binding()), SignatureParameter::Exclude(_)));
    assert!(matches!(SignatureParameter::with_modifier(Some("+"), binding()), SignatureParameter::Include(_)));
    assert!(matches!(SignatureParameter::with_modifier(Some("-+"), binding()), SignatureParameter::Both(_)));
    assert!(matches!(SignatureParameter::with_modifier(Some("+-"), binding()), SignatureParameter::Both(_)));
    assert!(matches!(SignatureParameter::with_modifier(Some("--"), binding()), SignatureParameter::Include(_)));
    assert!(matches!(SignatureParameter::with_modifier(None, binding()), SignatureParameter::Include(_)));
}

#[test]
fn render_configs() {
    let u = RenderConfig::unicode(2);
    assert_eq!(u.indent, 2);
    assert_eq!(u.chars, Chars::unicode());
    assert_eq!(u.chars.vbar, '│');
    assert_eq!(u.chars.ylline, '├');
    let a = RenderConfig::ascii(4);
    assert_eq!(a.indent, 4);
    assert_eq!(a.chars.vbar, '|');
    assert_eq!(a.chars.trline, '\\');
    assert_eq!(a.chars.bxline, 'v');
}
