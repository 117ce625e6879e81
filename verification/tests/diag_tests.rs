use lib::diag::{Diag, DiagKind};
use lib::hir::{DefAccessibility, DefId, DefKind, DefSpace, DefinitionTable, HirId};
use lib::parser::{ParserDiagCtxState, ParserDiagDataCtx};
use lib::parser_diag::{
    ParserDiag, ParserDiagCtx, ParserDiagErrorKind, ParserDiagKind, UnexpectedTokenExpectation,
};
use lib::resolve::SymbolKind;
use lib::resolve_diag::{
    ResolverDiag, ResolverDiagCtx, ResolverDiagDataCtx, ResolverDiagErrorKind, ResolverDiagKind,
};
use lib::scope::ScopeCtx;
use lib::source::{Source, SourceId, SourceRegistry};
use lib::span::Span;
use lib::symbol::SymbolInterner;
use lib::token::{Token, TokenIdentKind, TokenKind};
use lib::ty::IntTy;
use lib::ty_ctx::TyCtx;

fn registry(text: &str) -> SourceRegistry {
    SourceRegistry::new(Source {
        identifier: (SourceId::Invalid(), "main.hyc".to_string()),
        data: text.to_string(),
    })
}

fn same(a: Span, b: Span) -> bool {
    a.offset == b.offset && a.len == b.len && a.src_id == b.src_id
}

fn x_token() -> Token {
    Token::new(TokenKind::Ident(TokenIdentKind::Normal), Span::new(4, 1, SourceId(0)))
}

fn render(reg: &SourceRegistry, d: &ParserDiag) -> Diag {
    let mut ctx = ParserDiagDataCtx::new(reg);
    d.emit(&mut ctx)
}

#[test]
fn expectations_render_as_text() {
    assert_eq!(UnexpectedTokenExpectation::Arbitrary("a type").to_string(), "a type");
    assert_eq!(UnexpectedTokenExpectation::TokenKind(TokenKind::ColonColon).to_string(), "::");
    assert_eq!(UnexpectedTokenExpectation::TokenKind(TokenKind::Eof).to_string(), "EOF");
}

#[test]
fn parser_unexpected_token_messages() {
    let reg = registry("let x = 5");
    let plain = render(&reg, &ParserDiag::unexpected_token(x_token()));
    assert_eq!(plain.kind, DiagKind::Error(300));
    assert!(same(plain.span, x_token().span));
    assert_eq!(plain.message, "unexpected `x`.");
    assert!(plain.extra.is_none());
    assert!(plain.notes.is_empty());
    let kind = render(&reg, &ParserDiag::unexpected_token_expected_token(x_token(), TokenKind::SemiColon));
    assert_eq!(kind.message, "unexpected `x`, expected `;`.");
    let arb = render(&reg, &ParserDiag::unexpected_token_expected_arbitrary(x_token(), "an expression"));
    assert_eq!(arb.message, "unexpected `x`, expected `an expression`.");
}

#[test]
fn parser_error_messages_and_codes() {
    let reg = registry("let x = 5");
    let span = Span::new(0, 3, SourceId(0));
    let cases: Vec<(ParserDiagErrorKind, u16, &str)> = vec![
        (
            ParserDiagErrorKind::InvalidVarDecl { ident: x_token(), depth: 0 },
            301,
            "invalid top-level variable declaration for `x`.",
        ),
        (
            ParserDiagErrorKind::InvalidVarDecl { ident: x_token(), depth: 2 },
            301,
            "invalid variable declaration for `x`.",
        ),
        (
            ParserDiagErrorKind::UnrecognizedPetalFile {
                path: vec!["outer".to_string(), "inner".to_string()],
            },
            302,
            "cannot find corresponding petal file for petal `outer::inner`.",
        ),
        (
            ParserDiagErrorKind::IllegalLocalNonInlinePetalDeclaration,
            303,
            "cannot declare non-inline petals locally within local blocks.",
        ),
        (
            ParserDiagErrorKind::InvalidStructFieldCount(70),
            304,
            "structs cannot have more than `64` fields, found `70`.",
        ),
        (
            ParserDiagErrorKind::UnsupportedItem { item_kind: "struct", context: "type extension" },
            305,
            "`struct`s are unsupported within `type extension`s.",
        ),
    ];
    for (kind, code, message) in cases {
        let d = render(&reg, &ParserDiag::error(span, kind));
        assert_eq!(d.kind, DiagKind::Error(code));
        assert!(same(d.span, span));
        assert_eq!(d.message, message);
    }
    let info = ParserDiag { kind: ParserDiagKind::Info, span };
    assert!(info.is_info() && !info.is_error() && !info.is_warning());
    let rendered = render(&reg, &info);
    assert_eq!(rendered.kind, DiagKind::Info);
    assert_eq!(rendered.message, "");
    let warning = render(&reg, &ParserDiag { kind: ParserDiagKind::Warning, span });
    assert_eq!(warning.kind, DiagKind::Warning);
}

#[test]
fn parser_in_disarray_drops_errors_until_sync() {
    let span = Span::new(0, 1, SourceId(0));
    let mut ctx = ParserDiagCtx::new();
    assert!(ctx.is(ParserDiagCtxState::Synchronized));
    assert!(!ctx.error_occurred());
    ctx.error(span, ParserDiagErrorKind::IllegalLocalNonInlinePetalDeclaration);
    assert!(ctx.is_in_disarray());
    assert!(ctx.error_occurred());
    ctx.error(span, ParserDiagErrorKind::InvalidStructFieldCount(65));
    ctx.add(ParserDiag { kind: ParserDiagKind::Warning, span });
    assert_eq!(ctx.data().len(), 2);
    assert!(ctx.data()[1].is_warning());
    ctx.sync();
    assert!(!ctx.is_in_disarray());
    ctx.error(span, ParserDiagErrorKind::InvalidStructFieldCount(65));
    assert_eq!(ctx.data().len(), 3);
    assert!(ctx.is_in_disarray());
    let reg = registry("abc");
    let mut out = Vec::new();
    ctx.emit(&mut out, ParserDiagDataCtx::new(&reg));
    assert_eq!(out.len(), 3);
    assert_eq!(out[0].kind, DiagKind::Error(303));
    assert_eq!(out[1].kind, DiagKind::Warning);
    assert_eq!(out[2].message, "structs cannot have more than `64` fields, found `65`.");
}

#[test]
fn parser_warnings_keep_the_state() {
    let span = Span::new(0, 1, SourceId(0));
    let mut ctx = ParserDiagCtx::new();
    ctx.add(ParserDiag { kind: ParserDiagKind::Info, span });
    assert!(!ctx.is_in_disarray());
    assert!(!ctx.error_occurred());
    assert_eq!(ctx.data().len(), 1);
}

struct World {
    interner: SymbolInterner,
    definitions: DefinitionTable,
    tctx: TyCtx,
    scopes: ScopeCtx,
}

fn world() -> World {
    let mut interner = SymbolInterner::new();
    let foo = interner.intern("foo");
    let garden = interner.intern("garden");
    let definitions = DefinitionTable {
        names: vec![foo, garden],
        spans: vec![Span::new(10, 3, SourceId(0)), Span::new(20, 6, SourceId(0))],
        kinds: vec![DefKind::Var, DefKind::Adt],
        hir_ids: vec![HirId(0), HirId(1)],
        petals: vec![None; 2],
        accessibilities: vec![DefAccessibility::Priv; 2],
        builtins: vec![],
    };
    World { interner, definitions, tctx: TyCtx::new(), scopes: ScopeCtx::new() }
}

#[test]
fn resolver_error_messages() {
    let mut w = world();
    let i32_ty = w.tctx.make_int_ty(IntTy::Fixed(32, true));
    let foo = w.definitions.names[0];
    let bar = w.interner.intern("bar");
    let span = Span::new(1, 2, SourceId(0));
    let mut ctx = ResolverDiagDataCtx::new(&mut w.tctx, &w.interner, &w.definitions, &w.scopes);

    let dup = ResolverDiag::error(span, ResolverDiagErrorKind::Duplication { ident: foo, earlier_def: DefId(0) })
        .emit(&mut ctx);
    assert_eq!(dup.kind, DiagKind::Error(400));
    assert!(same(dup.span, span));
    assert_eq!(dup.message, "definition with the identifier `foo` already exists");
    assert_eq!(dup.extra.as_deref(), Some("redefinition of `foo`"));
    assert_eq!(dup.notes.len(), 1);
    assert!(same(dup.notes[0].span, Span::new(10, 3, SourceId(0))));
    assert_eq!(dup.notes[0].message, "earlier definition of `foo`");

    let sym = ResolverDiag::error(span, ResolverDiagErrorKind::UnrecognizedSymbol(bar, None)).emit(&mut ctx);
    assert_eq!(sym.kind, DiagKind::Error(401));
    assert_eq!(sym.message, "cannot resolved unrecognized symbol `bar`");
    assert_eq!(sym.extra.as_deref(), Some("could not find in this scope"));
    let ty_sym = ResolverDiag::error(span, ResolverDiagErrorKind::UnrecognizedSymbol(bar, Some(DefSpace::Type)))
        .emit(&mut ctx);
    assert_eq!(ty_sym.message, "cannot resolved unrecognized type `bar`");

    let member = ResolverDiag::error(span, ResolverDiagErrorKind::UnrecognizedMember { name: bar, ty_id: i32_ty })
        .emit(&mut ctx);
    assert_eq!(member.kind, DiagKind::Error(402));
    assert_eq!(member.message, "unrecognized associated item `bar` from `i32`");
    assert_eq!(member.extra.as_deref(), Some("no associated item from `i32`"));
    assert!(member.notes.is_empty());

    let petal = ResolverDiag::error(span, ResolverDiagErrorKind::IllegalPetalTyUsage(DefId(1))).emit(&mut ctx);
    assert_eq!(petal.kind, DiagKind::Error(403));
    assert_eq!(petal.message, "cannot use petal `garden` as a type");
    assert!(petal.extra.is_none());

    let infer = ResolverDiag::error(span, ResolverDiagErrorKind::InvalidInference).emit(&mut ctx);
    assert_eq!(infer.kind, DiagKind::Error(404));
    assert_eq!(infer.message, "cannot infer type in this ctx");
    assert_eq!(infer.extra.as_deref(), Some("requires known type"));

    let hidden = ResolverDiag::error(span, ResolverDiagErrorKind::Inaccessible(bar, Some(SymbolKind::AssocItem)))
        .emit(&mut ctx);
    assert_eq!(hidden.kind, DiagKind::Error(405));
    assert_eq!(hidden.message, "associated item `bar` is inaccessible in this context");
    assert_eq!(hidden.extra.as_deref(), Some("cannot be accessed from this petal"));
    let bare = ResolverDiag::error(span, ResolverDiagErrorKind::Inaccessible(bar, None)).emit(&mut ctx);
    assert_eq!(bare.message, "`bar` is inaccessible in this context");

    let arity = ResolverDiag::error(span, ResolverDiagErrorKind::GenericArgumentArityMismatch((2 << 8) | 5))
        .emit(&mut ctx);
    assert_eq!(arity.kind, DiagKind::Error(406));
    assert_eq!(arity.message, "generic argument arity mismatch");
    assert_eq!(arity.extra.as_deref(), Some("expected at most `2` but received `5`"));
}

#[test]
fn resolver_context_gathers_and_emits_in_order() {
    let mut w = world();
    let bool_ty = w.tctx.make_bool_ty();
    let bar = w.interner.intern("bar");
    let span = Span::new(0, 1, SourceId(0));
    let mut dctx = ResolverDiagCtx::new();
    assert!(!dctx.error_occurred());
    dctx.add(ResolverDiag { kind: ResolverDiagKind::Warning, span });
    assert!(!dctx.error_occurred());
    dctx.error(span, ResolverDiagErrorKind::UnrecognizedMember { name: bar, ty_id: bool_ty });
    dctx.error(span, ResolverDiagErrorKind::InvalidInference);
    assert!(dctx.error_occurred());
    assert_eq!(dctx.data().len(), 3);
    assert!(dctx.data()[0].is_warning());
    let mut ctx = ResolverDiagDataCtx::new(&mut w.tctx, &w.interner, &w.definitions, &w.scopes);
    let mut out = Vec::new();
    dctx.emit(&mut out, &mut ctx);
    assert_eq!(out.len(), 3);
    assert_eq!(out[0].kind, DiagKind::Warning);
    assert_eq!(out[0].message, "");
    assert!(out[0].extra.is_none());
    assert_eq!(out[1].message, "unrecognized associated item `bar` from `bool`");
    assert_eq!(out[2].kind, DiagKind::Error(404));
}

#[test]
fn resolution_error_messages() {
    let mut w = world();
    let u8_ty = w.tctx.make_int_ty(IntTy::Fixed(8, false));
    let bar = w.interner.intern("bar");
    let garden = w.definitions.names[1];
    let span = Span::new(1, 2, SourceId(0));
    let mut ctx = ResolverDiagDataCtx::new(&mut w.tctx, &w.interner, &w.definitions, &w.scopes);
    let d = lib::resolution_diag::ResolverDiag::error(span, lib::resolution_diag::ResolverDiagErrorKind::UnrecognizedSymbol(bar, Some(DefSpace::Value))).emit(&mut ctx);
    assert_eq!(d.kind, DiagKind::Error(450));
    assert_eq!(d.message, "cannot resolve unrecognized value `bar`.");
    assert!(d.extra.is_none());
    let d = lib::resolution_diag::ResolverDiag::error(span, lib::resolution_diag::ResolverDiagErrorKind::UnrecognizedMember { name: bar, ty_id: u8_ty }).emit(&mut ctx);
    assert_eq!(d.kind, DiagKind::Error(451));
    assert_eq!(d.message, "cannot recognize associated item `bar` from type `u8`.");
    let d = lib::resolution_diag::ResolverDiag::error(span, lib::resolution_diag::ResolverDiagErrorKind::InvalidPetalResolution(garden, DefId(1))).emit(&mut ctx);
    assert_eq!(d.kind, DiagKind::Error(452));
    assert_eq!(d.message, "cannot resolve petal `garden` as type.");
    assert_eq!(d.notes.len(), 1);
    assert!(same(d.notes[0].span, Span::new(20, 6, SourceId(0))));
    assert_eq!(d.notes[0].message, "`garden` is defined as a petal here.");
    let d = lib::resolution_diag::ResolverDiag::error(span, lib::resolution_diag::ResolverDiagErrorKind::InvalidInference).emit(&mut ctx);
    assert_eq!(d.message, "cannot infer type in this context.");
    let d = lib::resolution_diag::ResolverDiag::error(span, lib::resolution_diag::ResolverDiagErrorKind::InaccessibleSymbol(bar)).emit(&mut ctx);
    assert_eq!(d.kind, DiagKind::Error(454));
    assert_eq!(d.message, "symbol `bar` is inaccessible in this context.");
    let d = lib::resolution_diag::ResolverDiag::error(span, lib::resolution_diag::ResolverDiagErrorKind::GenericArgumentArityMismatch((1 << 8) | 3)).emit(&mut ctx);
    assert_eq!(d.kind, DiagKind::Error(455));
    assert_eq!(d.message, "expected at most `1` generic argument, received `3` generic arguments.");
    let mut dctx = lib::resolution_diag::ResolverDiagCtx::new();
    assert!(!dctx.error_occurred());
    dctx.error(span, lib::resolution_diag::ResolverDiagErrorKind::InvalidInference);
    assert!(dctx.error_occurred());
    assert_eq!(dctx.data().len(), 1);
}

#[test]
fn lexer_conditions_can_be_tested() {
    assert!(lib::lexical::is_plain_text(b"let x = 12"));
    assert!(!lib::lexical::is_plain_text(b"let x = 0"));
    assert!(!lib::lexical::is_plain_text(b"a -0 b"));
    assert!(lib::lexical::is_plain_text(b""));
    let reg = registry("0x ;");
    let (_, root) = reg.root();
    let mut lexer = lib::lexer::Lexer::new(root);
    let _ = lexer.tokenize();
    assert!(lexer.dctx.emittable(&reg));
    let far = lib::lexer_diag::LexerDiag {
        kind: lib::lexer_diag::LexerDiagKind::Error(lib::lexer_diag::LexerDiagErrorKind::InvalidNumericLiteralPrefix),
        span: Span::new(3, 4, SourceId(0)),
    };
    assert!(!lib::lexer_diag::is_message_writable(&far, "0x ;"));
    let split = lib::lexer_diag::LexerDiag {
        kind: lib::lexer_diag::LexerDiagKind::Error(lib::lexer_diag::LexerDiagErrorKind::DanglingNumericLiteralPrefix),
        span: Span::new(0, 0, SourceId(0)),
    };
    assert!(!lib::lexer_diag::is_message_writable(&split, "é"));
    assert!(lib::lexer_diag::is_message_writable(&split, "ab"));
}
