use lib::lexer::Lexer;
use lib::lexer_diag::{LexerDiagErrorKind, LexerDiagKind};
use lib::source::{Source, SourceId};
use lib::token::{Token, TokenGraph, TokenIdentKind, TokenKind};

fn source(text: &str) -> Source {
    Source { identifier: (SourceId(0), "main.hyc".to_string()), data: text.to_string() }
}

/// The kinds and (offset, len) of the top-level graphs; a collection is shown
/// by its first token's kind.
fn shape(graphs: &[TokenGraph]) -> Vec<(TokenKind, u32, u16)> {
    graphs
        .iter()
        .map(|g| match g {
            TokenGraph::Node(t) => (t.kind, t.span.offset, t.span.len),
            TokenGraph::Collection { data, .. } => match &data[0] {
                TokenGraph::Node(t) => (t.kind, t.span.offset, t.span.len),
                _ => panic!("collection without opener"),
            },
        })
        .collect()
}

fn errors(lexer: &Lexer) -> Vec<(LexerDiagErrorKind, u32, u16)> {
    lexer
        .dctx
        .data()
        .iter()
        .map(|d| match d.kind {
            LexerDiagKind::Error(k) => (k, d.span.offset, d.span.len),
            _ => panic!("not an error"),
        })
        .collect()
}

#[test]
fn tokenize_let_statement() {
    let src = source("let x = 1");
    let mut lexer = Lexer::new(&src);
    let stream = lexer.tokenize();
    assert_eq!(
        shape(&stream.data),
        vec![
            (TokenKind::Ident(TokenIdentKind::Let), 0, 3),
            (TokenKind::Ident(TokenIdentKind::Normal), 4, 1),
            (TokenKind::Eq, 6, 1),
            (TokenKind::Int { base: 10 }, 8, 1),
            (TokenKind::Eof, 9, 1),
        ]
    );
    assert!(!lexer.dctx.error_occurred());
}

#[test]
fn tokenize_reserved_words_and_macros() {
    let src = source("pub petal struct fn true false @mac _id");
    let mut lexer = Lexer::new(&src);
    let stream = lexer.tokenize();
    let kinds: Vec<TokenKind> = shape(&stream.data).into_iter().map(|s| s.0).collect();
    assert_eq!(
        kinds,
        vec![
            TokenKind::Ident(TokenIdentKind::Pub),
            TokenKind::Ident(TokenIdentKind::Petal),
            TokenKind::Ident(TokenIdentKind::Struct),
            TokenKind::Ident(TokenIdentKind::Fn),
            TokenKind::Bool,
            TokenKind::Bool,
            TokenKind::MacroIdent,
            TokenKind::Ident(TokenIdentKind::Normal),
            TokenKind::Eof,
        ]
    );
}

#[test]
fn tokenize_numbers_with_prefixes() {
    let src = source("0x1F 0b101 0o17 1.5 007");
    let mut lexer = Lexer::new(&src);
    let stream = lexer.tokenize();
    assert_eq!(
        shape(&stream.data),
        vec![
            (TokenKind::Int { base: 16 }, 0, 4),
            (TokenKind::Int { base: 2 }, 5, 5),
            (TokenKind::Int { base: 8 }, 11, 4),
            (TokenKind::Float { base: 10 }, 16, 3),
            (TokenKind::Int { base: 10 }, 20, 3),
            (TokenKind::Eof, 23, 1),
        ]
    );
    assert!(lexer.dctx.data().is_empty());
}

#[test]
fn invalid_digit_is_reported_at_its_byte() {
    let src = source("0b102");
    let mut lexer = Lexer::new(&src);
    let stream = lexer.tokenize();
    assert_eq!(shape(&stream.data)[0], (TokenKind::Int { base: 2 }, 0, 5));
    assert_eq!(
        errors(&lexer),
        vec![(LexerDiagErrorKind::InvalidNumericLiteralDigit { digit: b'2', base: 2 }, 4, 1)]
    );
}

#[test]
fn octal_digit_check_accepts_every_byte() {
    let src = source("0o19");
    let mut lexer = Lexer::new(&src);
    let stream = lexer.tokenize();
    assert_eq!(shape(&stream.data)[0], (TokenKind::Int { base: 8 }, 0, 4));
    assert!(lexer.dctx.data().is_empty());
}

#[test]
fn invalid_prefix_gives_no_token() {
    let src = source("0z1");
    let mut lexer = Lexer::new(&src);
    let stream = lexer.tokenize();
    assert_eq!(
        errors(&lexer),
        vec![(LexerDiagErrorKind::InvalidNumericLiteralPrefix, 0, 2)]
    );
    assert_eq!(
        shape(&stream.data),
        vec![(TokenKind::Ident(TokenIdentKind::Normal), 1, 2), (TokenKind::Eof, 3, 1)]
    );
}

#[test]
fn dangling_prefix_is_reported() {
    let src = source("0x ");
    let mut lexer = Lexer::new(&src);
    let stream = lexer.tokenize();
    assert_eq!(shape(&stream.data)[0], (TokenKind::Int { base: 16 }, 0, 2));
    assert_eq!(
        errors(&lexer),
        vec![(LexerDiagErrorKind::DanglingNumericLiteralPrefix, 0, 2)]
    );
}

#[test]
fn negative_zero_number() {
    let src = source("-05 -1");
    let mut lexer = Lexer::new(&src);
    let stream = lexer.tokenize();
    assert_eq!(
        shape(&stream.data),
        vec![
            (TokenKind::Int { base: 10 }, 0, 3),
            (TokenKind::Minus, 4, 1),
            (TokenKind::Int { base: 10 }, 5, 1),
            (TokenKind::Eof, 6, 1),
        ]
    );
}

#[test]
fn char_and_string_sequences() {
    let src = source("'a' \"hi\\\"\" 'ab'");
    let mut lexer = Lexer::new(&src);
    let stream = lexer.tokenize();
    assert_eq!(
        shape(&stream.data),
        vec![
            (TokenKind::Char { terminated: true }, 0, 3),
            (TokenKind::String { terminated: true }, 4, 6),
            (TokenKind::Char { terminated: true }, 11, 4),
            (TokenKind::Eof, 15, 1),
        ]
    );
    assert_eq!(
        errors(&lexer),
        vec![(LexerDiagErrorKind::InvalidCharSeq { enclosing: b'\'', len: (1, 2) }, 11, 4)]
    );
}

#[test]
fn unterminated_string_gives_no_token() {
    let src = source("\"abc");
    let mut lexer = Lexer::new(&src);
    let stream = lexer.tokenize();
    assert_eq!(shape(&stream.data), vec![(TokenKind::Eof, 4, 1)]);
    assert_eq!(errors(&lexer), vec![(LexerDiagErrorKind::UnterminatedCharSeq, 0, 4)]);
}

#[test]
fn read_char_seq_directly() {
    let src = source("'x'");
    let mut lexer = Lexer::new(&src);
    let t: Token = lexer.read_char_seq().unwrap();
    assert_eq!(t.kind, TokenKind::Char { terminated: true });
    assert_eq!((t.span.offset, t.span.len), (0, 3));
    assert!(lexer.read_char_seq().is_none());
}

#[test]
fn delimited_collection_nests_its_tokens() {
    let src = source("(a[1])");
    let mut lexer = Lexer::new(&src);
    let stream = lexer.tokenize();
    assert_eq!(stream.data.len(), 2);
    match &stream.data[0] {
        TokenGraph::Collection { data, eof } => {
            assert!(!eof);
            assert_eq!(
                shape(data),
                vec![
                    (TokenKind::LeftParen, 0, 1),
                    (TokenKind::Ident(TokenIdentKind::Normal), 1, 1),
                    (TokenKind::LeftBracket, 2, 1),
                    (TokenKind::RightParen, 5, 1),
                ]
            );
            match &data[2] {
                TokenGraph::Collection { data: inner, eof } => {
                    assert!(!eof);
                    assert_eq!(
                        shape(inner),
                        vec![
                            (TokenKind::LeftBracket, 2, 1),
                            (TokenKind::Int { base: 10 }, 3, 1),
                            (TokenKind::RightBracket, 4, 1),
                        ]
                    );
                }
                _ => panic!("expected a nested collection"),
            }
        }
        _ => panic!("expected a collection"),
    }
}

#[test]
fn unclosed_collection_is_reported_at_opener() {
    let src = source("{a");
    let mut lexer = Lexer::new(&src);
    let stream = lexer.tokenize();
    match &stream.data[0] {
        TokenGraph::Collection { data, eof } => {
            assert!(*eof);
            assert_eq!(data.len(), 2);
        }
        _ => panic!("expected a collection"),
    }
    assert_eq!(
        errors(&lexer),
        vec![(LexerDiagErrorKind::UnclosedDelimeterCollection { op: b'{', cl: b'}' }, 0, 1)]
    );
}

#[test]
fn operators_of_two_bytes() {
    let src = source("+= -> :: && || == != <= << <- ++ ^^ ~ >");
    let mut lexer = Lexer::new(&src);
    let stream = lexer.tokenize();
    let kinds: Vec<(TokenKind, u16)> = shape(&stream.data).into_iter().map(|s| (s.0, s.2)).collect();
    assert_eq!(
        kinds,
        vec![
            (TokenKind::PlusEq, 2),
            (TokenKind::MinusGreater, 2),
            (TokenKind::ColonColon, 2),
            (TokenKind::AmpersandAmpersand, 2),
            (TokenKind::PipePipe, 2),
            (TokenKind::EqEq, 2),
            (TokenKind::BangEq, 2),
            (TokenKind::LessEq, 2),
            (TokenKind::LessLess, 2),
            (TokenKind::LessMinus, 2),
            (TokenKind::PlusPlus, 2),
            (TokenKind::CaretCaret, 2),
            (TokenKind::Tilde, 1),
            (TokenKind::Greater, 1),
            (TokenKind::Eof, 1),
        ]
    );
}

#[test]
fn unknown_byte_gives_invalid_token() {
    let src = source("$");
    let mut lexer = Lexer::new(&src);
    let stream = lexer.tokenize();
    assert_eq!(shape(&stream.data), vec![(TokenKind::Invalid, 0, 1), (TokenKind::Eof, 1, 1)]);
    assert_eq!(errors(&lexer), vec![(LexerDiagErrorKind::UnknownChar { c: b'$' }, 0, 1)]);
    assert_eq!(lexer.dctx.data()[0].error_code(), Some(206));
    assert!(lexer.dctx.error_occurred());
}

#[test]
fn comment_runs_to_line_end_and_trim_drops_last_graph() {
    let src = source("a // note\nb");
    let mut lexer = Lexer::new(&src);
    let stream = lexer.tokenize();
    // The trailing trim looks at the next-to-last graph: here the line feed,
    // so the last graph (`b`) is dropped.
    assert_eq!(
        shape(&stream.data),
        vec![
            (TokenKind::Ident(TokenIdentKind::Normal), 0, 1),
            (TokenKind::LnFeed, 9, 1),
            (TokenKind::Eof, 11, 1),
        ]
    );
}

#[test]
fn trailing_line_feeds_are_trimmed_to_one() {
    let src = source("a\n\n\n");
    let mut lexer = Lexer::new(&src);
    let stream = lexer.tokenize();
    assert_eq!(
        shape(&stream.data),
        vec![
            (TokenKind::Ident(TokenIdentKind::Normal), 0, 1),
            (TokenKind::LnFeed, 1, 1),
            (TokenKind::Eof, 4, 1),
        ]
    );
}

#[test]
fn lexer_primitives() {
    let src = source("ab");
    let mut lexer = Lexer::new(&src);
    assert_eq!(lexer.peek(), Some(b'a'));
    assert_eq!(lexer.peekn(1), Some(b'b'));
    assert_eq!(lexer.peekn(2), None);
    assert_eq!(lexer.current(), Some(b'a'));
    assert!(!lexer.expect(b'x'));
    assert!(lexer.expect(b'a'));
    assert_eq!(lexer.current(), Some(b'a'));
    assert_eq!(lexer.next(), Some(b'b'));
    assert!(lexer.eof());
    assert_eq!(lexer.next(), None);
    assert_eq!(lexer.current(), Some(b'b'));
}

#[test]
fn lexer_reports_only_errors_and_ends_with_eof() {
    let src = source("x = 0b2 'ab' $ (\"u");
    let mut lexer = Lexer::new(&src);
    let stream = lexer.tokenize();
    assert!(lexer.dctx.data().iter().all(|d| d.is_error() && !d.is_info() && !d.is_warning()));
    match stream.data.last() {
        Some(TokenGraph::Node(t)) => {
            assert_eq!(t.kind, TokenKind::Eof);
            assert!(t.span.offset as usize >= src.data.len());
        }
        _ => panic!("stream must end with the end-of-file token"),
    }
}

#[test]
fn tokenize_graph_gives_eof_past_the_end() {
    let src = source("");
    let mut lexer = Lexer::new(&src);
    match lexer.tokenize_graph() {
        Some(TokenGraph::Node(t)) => assert_eq!((t.kind, t.span.offset, t.span.len), (TokenKind::Eof, 0, 1)),
        _ => panic!("expected the end-of-file token"),
    }
}

#[test]
fn tokenize_collection_stops_at_closing_byte() {
    let src = source("a) b");
    let mut lexer = Lexer::new(&src);
    let graph = lexer.tokenize_collection(b')', Vec::new());
    match graph {
        TokenGraph::Collection { data, eof } => {
            assert!(!eof);
            assert_eq!(
                shape(&data),
                vec![(TokenKind::Ident(TokenIdentKind::Normal), 0, 1), (TokenKind::RightParen, 1, 1)]
            );
        }
        _ => panic!("expected a collection"),
    }
    assert_eq!(lexer.peek(), Some(b' '));
}

#[test]
fn tokenize_delimeter_collection_reports_unclosed() {
    let src = source("x");
    let mut lexer = Lexer::new(&src);
    let opener = Token::new(TokenKind::LeftBracket, lib::span::Span::new(7, 1, SourceId(0)));
    let graph = lexer.tokenize_delimeter_collection((b'[', b']'), vec![TokenGraph::Node(opener)]);
    match graph {
        TokenGraph::Collection { data, eof } => {
            assert!(eof);
            assert_eq!(data.len(), 2);
        }
        _ => panic!("expected a collection"),
    }
    assert_eq!(
        errors(&lexer),
        vec![(LexerDiagErrorKind::UnclosedDelimeterCollection { op: b'[', cl: b']' }, 7, 1)]
    );
}

fn start_of(g: &TokenGraph) -> u32 {
    match g {
        TokenGraph::Node(t) => t.span.offset,
        TokenGraph::Collection { data, .. } => start_of(&data[0]),
    }
}

#[test]
fn graphs_come_in_source_order() {
    let src = source("fn f(a, b) {\n  1 + 2\n}\nlet y = [3]");
    let mut lexer = Lexer::new(&src);
    let stream = lexer.tokenize();
    let starts: Vec<u32> = stream.data.iter().map(start_of).collect();
    for w in starts.windows(2) {
        assert!(w[0] < w[1]);
    }
    assert!(!lexer.dctx.error_occurred());
}

#[test]
fn plain_texts_lex_to_the_end() {
    for text in ["", "x", "a = b - 1", "(1 2) [3] {4}", "'c' \"s\" // done", "7 -3 0x10 1"] {
        let src = source(text);
        let mut lexer = Lexer::new(&src);
        let stream = lexer.tokenize();
        match stream.data.last() {
            Some(TokenGraph::Node(t)) => assert_eq!(t.kind, TokenKind::Eof),
            _ => panic!("stream must end with the end-of-file token"),
        }
    }
}
