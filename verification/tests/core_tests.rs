use lib::diag::DiagKind;
use lib::driver::Driver;
use lib::lexer::Lexer;
use lib::lexer_diag::{LexerDiag, LexerDiagCtx, LexerDiagDataCtx, LexerDiagErrorKind, LexerDiagKind};
use lib::source::{Source, SourceId, SourceNode, SourceRegistry, SourceTree};
use lib::span::{Position, Span};
use lib::symbol::{Symbol, SymbolInterner};
use lib::token::{Token, TokenKind};
use lib::util::{digit_value, is_ascii_digit, list_enumeration};

fn src(path: &str, text: &str) -> Source {
    Source { identifier: (SourceId::Invalid(), path.to_string()), data: text.to_string() }
}

#[test]
fn source_id_validity() {
    assert!(!SourceId::Invalid().is_valid());
    assert!(!SourceId::default().is_valid());
    assert_eq!(SourceId::from(3u16), SourceId(3));
    assert_eq!(SourceId(3).data(), 3);
    assert_eq!(SourceId(3).unwrap(), 3);
    assert!(!src("a", "").is_registered());
}

#[test]
fn registry_registers_consecutive_ids() {
    let mut registry = SourceRegistry::new(src("main.hyc", "root"));
    let (root_id, root) = registry.root();
    assert_eq!(root_id, SourceId(0));
    assert_eq!(root.data, "root");
    assert!(root.is_registered());
    let id = registry.register(src("other.hyc", "second"));
    assert_eq!(id, SourceId(1));
    assert_eq!(registry.get(id).data, "second");
    assert_eq!(registry.get(id).identifier.0, SourceId(1));
    assert_eq!(registry.get(id).identifier.1, "other.hyc");
    assert_eq!(registry.sources(), vec![SourceId(0), SourceId(1)]);
    registry.get_mut(id).data.push_str("!");
    assert_eq!(registry.get(id).data, "second!");
    let driver = Driver { registry };
    assert_eq!(driver.registry.sources().len(), 2);
}

#[test]
fn source_tree_root_gets_first_id() {
    let tree = SourceTree::new(src("main.hyc", "text"));
    assert_eq!(tree.root.source.identifier.0, SourceId(0));
    assert_eq!(tree.root.source.data, "text");
    let node = SourceNode::new(src("n", "x"));
    assert_eq!(node.source.data, "x");
}

#[test]
fn span_arithmetic() {
    let a = Span::new(4, 3, SourceId(0));
    let b = Span::new(10, 2, SourceId(0));
    let m = a.merge(&b);
    assert_eq!((m.offset, m.len, m.src_id), (4, 8, SourceId(0)));
    let m2 = b.merge(&a);
    assert_eq!((m2.offset, m2.len), (4, 8));
    assert!(m.offset <= a.offset && m.offset <= b.offset && m.end() >= a.end() && m.end() >= b.end());
    assert_eq!(a.end(), 7);
    let e = a.extend(2);
    assert_eq!((e.offset, e.len), (4, 5));
    let d = Span::dummy(SourceId(2));
    assert_eq!((d.offset, d.len, d.src_id), (0, 1, SourceId(2)));
    let z = Span::default();
    assert_eq!((z.offset, z.len, z.src_id), (0, 0, SourceId(u16::MAX)));
    let f: Span = (1u32, 2u16, 3u16).into();
    assert_eq!((f.offset, f.len, f.src_id), (1, 2, SourceId(3)));
    let g: Span = (1u32, 2u16, SourceId(4)).into();
    assert_eq!((g.offset, g.len, g.src_id), (1, 2, SourceId(4)));
}

#[test]
fn span_positions() {
    let source = src("p", "ab\ncd\nef");
    let (start, end) = Span::new(3, 1, SourceId(0)).to_position_range(&source);
    assert_eq!(start, Position { line: 2, column: 1 });
    assert_eq!(end, Position { line: 2, column: 2 });
    let (s0, _) = Span::new(0, 0, SourceId(0)).to_position_range(&source);
    assert_eq!(s0, Position { line: 1, column: 1 });
    let (s1, _) = Span::new(2, 1, SourceId(0)).to_position_range(&source);
    assert_eq!(s1, Position { line: 1, column: 3 });
    let (s2, s3) = Span::new(8, 1, SourceId(0)).to_position_range(&source);
    assert_eq!(s2, Position { line: 3, column: 3 });
    assert_eq!(s3, Position { line: 3, column: 2 });
    // A line ended by "\r\n" counts without its carriage return.
    let crlf = src("q", "ab\r\ncd");
    let (c0, _) = Span::new(4, 1, SourceId(0)).to_position_range(&crlf);
    assert_eq!(c0, Position { line: 2, column: 2 });
    assert_eq!(Position::default(), Position { line: 0, column: 0 });
}

#[test]
fn interner_gives_stable_symbols() {
    let mut interner = SymbolInterner::new();
    let a = interner.intern("alpha");
    let b = interner.intern("beta");
    let a2 = interner.intern("alpha");
    assert_eq!(a, Symbol(0));
    assert_eq!(b, Symbol(1));
    assert_eq!(a2, a);
    assert_eq!(interner.get(b), "beta");
    assert_eq!(interner.get(a), "alpha");
    assert_eq!(Symbol::Invalid(), Symbol(usize::MAX));
    assert_eq!(Symbol(5).unwrap(), 5);
}

#[test]
fn numeric_digits() {
    assert!(is_ascii_digit(b'1', 2));
    assert!(!is_ascii_digit(b'2', 2));
    assert!(is_ascii_digit(b'9', 10));
    assert!(!is_ascii_digit(b'a', 10));
    assert!(is_ascii_digit(b'f', 16));
    assert!(is_ascii_digit(b'F', 16));
    assert!(!is_ascii_digit(b'g', 16));
    // The radix-8 check accepts every byte.
    assert!(is_ascii_digit(b'9', 8));
    assert!(is_ascii_digit(b'z', 8));
    assert!(!is_ascii_digit(b'0', 3));
    assert_eq!(digit_value(b'7', 8), 7);
    assert_eq!(digit_value(b'9', 10), 9);
    assert_eq!(digit_value(b'f', 16), 15);
    assert_eq!(digit_value(b'B', 16), 11);
    assert_eq!(digit_value(b'z', 16), 10);
    assert_eq!(digit_value(b'5', 3), 0);
}

#[test]
fn digit_values_stay_below_radix() {
    for base in [2u32, 10, 16] {
        for c in 0u8..=255 {
            if is_ascii_digit(c, base) {
                assert!((digit_value(c, base) as u32) < base);
            }
        }
    }
}

#[test]
fn english_enumerations() {
    let one = vec!["a".to_string()];
    let three = vec!["a".to_string(), "b".to_string(), "c".to_string()];
    let two = vec!["x".to_string(), "y".to_string()];
    let none: Vec<String> = Vec::new();
    assert_eq!(list_enumeration(&one), "a");
    assert_eq!(list_enumeration(&three), "a, b, and c");
    assert_eq!(list_enumeration(&two), "x, and y");
    assert_eq!(list_enumeration(&none), "");
}

#[test]
fn token_basics() {
    let t = Token::new(TokenKind::Plus, Span::new(6, 5, SourceId(0)));
    assert_eq!(t.len(), 5);
    let text = "hello world".to_string();
    assert_eq!(t.view(&text), "world");
    let inv = Token::Invalid(Span::new(1, 1, SourceId(0)));
    assert_eq!(inv.kind, TokenKind::Invalid);
    assert_eq!(TokenKind::default(), TokenKind::Invalid);
    assert_eq!(TokenKind::Plus.to_text(), "+");
    assert_eq!(TokenKind::ColonColon.to_text(), "::");
    assert_eq!(TokenKind::Int { base: 16 }.to_text(), "int");
    assert_eq!(TokenKind::Eof.to_text(), "EOF");
    assert_eq!(TokenKind::LessLess.to_text(), "Unknown");
}

#[test]
fn lexer_diag_ctx_collects_in_order() {
    let mut ctx = LexerDiagCtx::new();
    assert!(!ctx.error_occurred());
    ctx.add(LexerDiag { kind: LexerDiagKind::Warning, span: Span::new(0, 1, SourceId(0)) });
    assert!(!ctx.error_occurred());
    ctx.error(Span::new(2, 1, SourceId(0)), LexerDiagErrorKind::UnterminatedCharSeq);
    assert!(ctx.error_occurred());
    assert_eq!(ctx.data().len(), 2);
    assert!(ctx.data()[0].is_warning());
    assert_eq!(ctx.data()[0].error_code(), None);
    assert!(ctx.data()[1].is_error());
    assert_eq!(ctx.data()[1].error_code(), Some(203));
    let info = LexerDiag { kind: LexerDiagKind::Info, span: Span::new(0, 1, SourceId(0)) };
    assert!(info.is_info());
    let registry = SourceRegistry::new(src("m", ""));
    let data_ctx = LexerDiagDataCtx::new(&registry);
    assert_eq!(data_ctx.registry.sources().len(), 1);
}

#[test]
fn positions_and_decimals_as_text() {
    assert_eq!(Position { line: 12, column: 7 }.to_text(), "12:7");
    assert_eq!(Position { line: 0, column: 4294967295 }.to_text(), "0:4294967295");
    assert_eq!(lib::util::decimal(0), "0");
    assert_eq!(lib::util::decimal(1203), "1203");
}

#[test]
fn lexer_diagnostics_render_messages() {
    let mut registry = SourceRegistry::new(src("main.hyc", "0b12 $ 'ab' (x 0zq \"u"));
    let text = src("other.hyc", "0x ;");
    let other = registry.register(text);
    let root = registry.get(SourceId(0));
    let mut lexer = Lexer::new(root);
    let _ = lexer.tokenize();
    let mut out = Vec::new();
    lexer.dctx.emit(&mut out, LexerDiagDataCtx::new(&registry));
    let messages: Vec<(DiagKind, String)> = out.iter().map(|d| (d.kind, d.message.clone())).collect();
    assert_eq!(
        messages,
        vec![
            (DiagKind::Error(200), "invalid numeric digit `2` for numeric literals with base `2`".to_string()),
            (DiagKind::Error(206), "unknown character `$`.".to_string()),
            (DiagKind::Error(204), "character sequences within `'` expect `1` characters, received `2`.".to_string()),
            (DiagKind::Error(201), "invalid numeric literal prefix `0zq`.".to_string()),
            (DiagKind::Error(203), "unterminated character sequence.".to_string()),
            (DiagKind::Error(205), "missing closing `)` for `(`.".to_string()),
        ]
    );
    let other_src = registry.get(other);
    let mut lexer2 = Lexer::new(other_src);
    let _ = lexer2.tokenize();
    let mut out2 = Vec::new();
    lexer2.dctx.emit(&mut out2, LexerDiagDataCtx::new(&registry));
    assert_eq!(out2.len(), 1);
    assert_eq!(out2[0].message, "dangling umeric literal prefix `0x `.");
    assert_eq!(out2[0].span.src_id, SourceId(1));
    let warning = LexerDiag { kind: LexerDiagKind::Warning, span: Span::new(0, 1, SourceId(0)) };
    let mut data_ctx = LexerDiagDataCtx::new(&registry);
    let d = warning.emit(&mut data_ctx);
    assert_eq!((d.kind, d.message.as_str()), (DiagKind::Warning, ""));
}
