use vstd::prelude::*;

use crate::config::{HYC_PATH_SEP_TOK_KIND, HYC_STRUCT_FIELD_LIMIT};
use crate::diag::{Diag, DiagKind};
use crate::parser::{ParserDiagCtxState, ParserDiagDataCtx};
use crate::span::Span;
use crate::token::{spec_kind_text, Token, TokenKind};
use crate::ty_fmt::{join, join_into, texts};
use crate::util::{push_decimal, spec_decimal};
use vstd::string::StringExecFns;
use vstd::utf8::{decode_utf8, encode_utf8, encode_utf8_decode_utf8, is_char_boundary};

verus! {

/// What the parser expected where it met an unexpected token.
#[derive(Debug, Clone, Copy)]
pub enum UnexpectedTokenExpectation {
    /// A description of what was expected.
    Arbitrary(&'static str),
    /// A token of this kind.
    TokenKind(TokenKind),
}

/// The text of an expectation: the description, or the name of the kind.
pub open spec fn expectation_text(e: UnexpectedTokenExpectation) -> Seq<char> {
    match e {
        UnexpectedTokenExpectation::Arbitrary(s) => s@,
        UnexpectedTokenExpectation::TokenKind(k) => spec_kind_text(k),
    }
}

impl UnexpectedTokenExpectation {
    /// The text of the expectation: see [`expectation_text`].
    pub fn to_string(&self) -> (res: String)
        ensures
            res@ == expectation_text(*self),
    {
        let mut s = String::new();
        match self {
            UnexpectedTokenExpectation::Arbitrary(t) => s.append(t),
            UnexpectedTokenExpectation::TokenKind(k) => s.append(k.to_text()),
        }
        s
    }
}

/// The errors that the parser reports.
#[derive(Debug, Clone)]
pub enum ParserDiagErrorKind {
    UnexpectedToken { token: Token, expected: Option<UnexpectedTokenExpectation> },
    /// A variable declaration that lacks what it needs; `depth` 0 is the top level.
    InvalidVarDecl { ident: Token, depth: usize },
    /// No file holds the petal whose path has the segments `path`.
    UnrecognizedPetalFile { path: Vec<String> },
    IllegalLocalNonInlinePetalDeclaration,
    /// A struct with this many fields, more than allowed.
    InvalidStructFieldCount(u8),
    /// An item of the kind named `item_kind` where it may not stand, inside
    /// the construct named `context`.
    UnsupportedItem { item_kind: &'static str, context: &'static str },
}

/// The severity of a parser diagnostic; errors carry their kind.
#[derive(Debug, Clone)]
pub enum ParserDiagKind {
    Info,
    Warning,
    Error(ParserDiagErrorKind),
}

/// A diagnostic of the parser: what, and where.
#[derive(Debug, Clone)]
pub struct ParserDiag {
    pub kind: ParserDiagKind,
    pub span: Span,
}

/// The error codes of parser errors start here.
pub const PARSER_ERROR_CODE_OFFSET: u16 = 300;

/// The position of an error kind in the declaration of [`ParserDiagErrorKind`].
pub open spec fn parser_error_index(kind: ParserDiagErrorKind) -> u16 {
    match kind {
        ParserDiagErrorKind::UnexpectedToken { .. } => 0,
        ParserDiagErrorKind::InvalidVarDecl { .. } => 1,
        ParserDiagErrorKind::UnrecognizedPetalFile { .. } => 2,
        ParserDiagErrorKind::IllegalLocalNonInlinePetalDeclaration => 3,
        ParserDiagErrorKind::InvalidStructFieldCount(..) => 4,
        ParserDiagErrorKind::UnsupportedItem { .. } => 5,
    }
}

/// The severity that a parser diagnostic of kind `kind` is reported with.
pub open spec fn parser_emitted_kind(kind: ParserDiagKind) -> DiagKind {
    match kind {
        ParserDiagKind::Info => DiagKind::Info,
        ParserDiagKind::Warning => DiagKind::Warning,
        ParserDiagKind::Error(k) => DiagKind::Error(
            (parser_error_index(k) + PARSER_ERROR_CODE_OFFSET) as u16,
        ),
    }
}

/// The text of the source, given as UTF-8 bytes `text`, that token `t` covers.
pub open spec fn token_text(t: Token, text: Seq<u8>) -> Seq<char> {
    decode_utf8(text.subrange(t.span.offset as int, t.span.offset + t.span.len))
}

/// Token `t` covers whole characters of the text `text`.
pub open spec fn token_in_text(t: Token, text: Seq<u8>) -> bool {
    let a = t.span.offset as int;
    &&& t.span.offset + t.span.len <= text.len()
    &&& is_char_boundary(text, a)
    &&& is_char_boundary(text.subrange(a, text.len() as int), t.span.len as int)
}

/// The message of parser diagnostic `d` about the text `text` of its source.
pub open spec fn parser_message(d: ParserDiag, text: Seq<u8>) -> Seq<char> {
    match d.kind {
        ParserDiagKind::Error(k) => match k {
            ParserDiagErrorKind::UnexpectedToken { token, expected } => "unexpected `"@
                + token_text(token, text) + "`"@ + match expected {
                Some(e) => ", expected `"@ + expectation_text(e) + "`"@,
                None => Seq::empty(),
            } + "."@,
            ParserDiagErrorKind::InvalidVarDecl { ident, depth } => "invalid "@ + (if depth == 0 {
                "top-level "@
            } else {
                Seq::empty()
            }) + "variable declaration for `"@ + token_text(ident, text) + "`."@,
            ParserDiagErrorKind::UnrecognizedPetalFile { path } =>
                "cannot find corresponding petal file for petal `"@ + join(
                texts(path@),
                spec_kind_text(HYC_PATH_SEP_TOK_KIND),
            ) + "`."@,
            ParserDiagErrorKind::IllegalLocalNonInlinePetalDeclaration =>
                "cannot declare non-inline petals locally within local blocks."@,
            ParserDiagErrorKind::InvalidStructFieldCount(n) => "structs cannot have more than `"@
                + spec_decimal(HYC_STRUCT_FIELD_LIMIT as nat) + "` fields, found `"@ + spec_decimal(
                n as nat,
            ) + "`."@,
            ParserDiagErrorKind::UnsupportedItem { item_kind, context } => "`"@ + item_kind@
                + "`s are unsupported within `"@ + context@ + "`s."@,
        },
        _ => Seq::empty(),
    }
}

/// Whether the message of `d` can be written for the text `text`: the tokens
/// it quotes cover whole characters of the text.
pub open spec fn parser_message_writable(d: ParserDiag, text: Seq<u8>) -> bool {
    match d.kind {
        ParserDiagKind::Error(ParserDiagErrorKind::UnexpectedToken { token, .. }) => token_in_text(
            token,
            text,
        ),
        ParserDiagKind::Error(ParserDiagErrorKind::InvalidVarDecl { ident, .. }) => token_in_text(
            ident,
            text,
        ),
        _ => true,
    }
}

/// The diagnostic `d` can be rendered with the sources of `ctx`: its source
/// is registered, and the tokens it quotes lie in that source's text.
pub open spec fn parser_renderable(d: ParserDiag, ctx: ParserDiagDataCtx) -> bool {
    &&& d.span.src_id.spec_is_valid()
    &&& (d.span.src_id.0 as int) < ctx.registry.spec_sources().len()
    &&& parser_message_writable(
        d,
        encode_utf8(ctx.registry.spec_sources()[d.span.src_id.0 as int].data@),
    )
}

/// The message of `d` about the text of its source in `ctx`.
pub open spec fn parser_rendered(d: ParserDiag, ctx: ParserDiagDataCtx) -> Seq<char> {
    parser_message(d, encode_utf8(ctx.registry.spec_sources()[d.span.src_id.0 as int].data@))
}

/// Appends the text of `source` that `t` covers.
fn append_token(s: &mut String, t: Token, source: &String)
    requires
        token_in_text(t, encode_utf8(source@)),
    ensures
        final(s)@ == old(s)@ + token_text(t, encode_utf8(source@)),
{
    let v = t.view(source);
    proof {
        encode_utf8_decode_utf8(v@);
    }
    s.append(v);
}

impl ParserDiag {
    /// The error `kind` at `span`.
    pub fn error(span: Span, kind: ParserDiagErrorKind) -> (res: Self)
        ensures
            res.span == span,
            res.kind == ParserDiagKind::Error(kind),
    {
        ParserDiag { span, kind: ParserDiagKind::Error(kind) }
    }

    /// `token` was not expected, at its span.
    pub fn unexpected_token(token: Token) -> (res: Self)
        ensures
            res.span == token.span,
            res.kind == ParserDiagKind::Error(
                ParserDiagErrorKind::UnexpectedToken { token, expected: None },
            ),
    {
        Self::error(token.span, ParserDiagErrorKind::UnexpectedToken { token, expected: None })
    }

    /// `token` was not expected where what `expected` describes was.
    pub fn unexpected_token_expected_arbitrary(token: Token, expected: &'static str) -> (res: Self)
        ensures
            res.span == token.span,
            res.kind == ParserDiagKind::Error(
                ParserDiagErrorKind::UnexpectedToken {
                    token,
                    expected: Some(UnexpectedTokenExpectation::Arbitrary(expected)),
                },
            ),
    {
        Self::error(
            token.span,
            ParserDiagErrorKind::UnexpectedToken {
                token,
                expected: Some(UnexpectedTokenExpectation::Arbitrary(expected)),
            },
        )
    }

    /// `token` was not expected where a token of kind `expected` was.
    pub fn unexpected_token_expected_token(token: Token, expected: TokenKind) -> (res: Self)
        ensures
            res.span == token.span,
            res.kind == ParserDiagKind::Error(
                ParserDiagErrorKind::UnexpectedToken {
                    token,
                    expected: Some(UnexpectedTokenExpectation::TokenKind(expected)),
                },
            ),
    {
        Self::error(
            token.span,
            ParserDiagErrorKind::UnexpectedToken {
                token,
                expected: Some(UnexpectedTokenExpectation::TokenKind(expected)),
            },
        )
    }

    pub fn is_info(&self) -> (res: bool)
        ensures
            res == (self.kind is Info),
    {
        matches!(self.kind, ParserDiagKind::Info)
    }

    pub fn is_warning(&self) -> (res: bool)
        ensures
            res == (self.kind is Warning),
    {
        matches!(self.kind, ParserDiagKind::Warning)
    }

    pub fn is_error(&self) -> (res: bool)
        ensures
            res == (self.kind is Error),
    {
        matches!(self.kind, ParserDiagKind::Error(_))
    }

    /// The diagnostic ready to be reported: its severity (an error with its
    /// code), its span, and its message about the text of its source.
    pub fn emit(&self, ctx: &mut ParserDiagDataCtx) -> (res: Diag)
        requires
            old(ctx).registry.wf(),
            parser_renderable(*self, *old(ctx)),
        ensures
            *final(ctx) == *old(ctx),
            res.span == self.span,
            res.kind == parser_emitted_kind(self.kind),
            res.message@ == parser_rendered(*self, *old(ctx)),
            res.extra is None,
            res.notes@.len() == 0,
    {
        let source = ctx.registry.get(self.span.src_id);
        let ghost text = encode_utf8(source.data@);
        let mut message = String::new();
        let kind = match &self.kind {
            ParserDiagKind::Info => DiagKind::Info,
            ParserDiagKind::Warning => DiagKind::Warning,
            ParserDiagKind::Error(k) => {
                let idx: u16 = match k {
                    ParserDiagErrorKind::UnexpectedToken { token, expected } => {
                        message.append("unexpected `");
                        append_token(&mut message, *token, &source.data);
                        message.append("`");
                        match expected {
                            Some(e) => {
                                message.append(", expected `");
                                let t = e.to_string();
                                message.append(t.as_str());
                                message.append("`");
                            },
                            None => {},
                        }
                        message.append(".");
                        0
                    },
                    ParserDiagErrorKind::InvalidVarDecl { ident, depth } => {
                        message.append("invalid ");
                        if *depth == 0 {
                            message.append("top-level ");
                        }
                        message.append("variable declaration for `");
                        append_token(&mut message, *ident, &source.data);
                        message.append("`.");
                        1
                    },
                    ParserDiagErrorKind::UnrecognizedPetalFile { path } => {
                        message.append("cannot find corresponding petal file for petal `");
                        join_into(&mut message, path, HYC_PATH_SEP_TOK_KIND.to_text());
                        message.append("`.");
                        2
                    },
                    ParserDiagErrorKind::IllegalLocalNonInlinePetalDeclaration => {
                        message.append(
                            "cannot declare non-inline petals locally within local blocks.",
                        );
                        3
                    },
                    ParserDiagErrorKind::InvalidStructFieldCount(n) => {
                        message.append("structs cannot have more than `");
                        push_decimal(&mut message, HYC_STRUCT_FIELD_LIMIT as u64);
                        message.append("` fields, found `");
                        push_decimal(&mut message, *n as u64);
                        message.append("`.");
                        4
                    },
                    ParserDiagErrorKind::UnsupportedItem { item_kind, context } => {
                        message.append("`");
                        message.append(item_kind);
                        message.append("`s are unsupported within `");
                        message.append(context);
                        message.append("`s.");
                        5
                    },
                };
                DiagKind::Error(idx + PARSER_ERROR_CODE_OFFSET)
            },
        };
        assert(message@ =~= parser_message(*self, text));
        Diag::new(kind, self.span, message)
    }
}

/// The diagnostics that a parser has gathered, in the order they were found,
/// and whether the parser is in step with the text: after an error it is in
/// disarray, and further errors are dropped until it synchronizes again.
#[derive(Debug)]
pub struct ParserDiagCtx {
    data: Vec<ParserDiag>,
    state: ParserDiagCtxState,
    errored: bool,
}

impl ParserDiagCtx {
    /// The diagnostics gathered so far.
    pub closed spec fn spec_data(&self) -> Seq<ParserDiag> {
        self.data@
    }

    /// Whether the parser is in step with the text.
    pub closed spec fn spec_state(&self) -> ParserDiagCtxState {
        self.state
    }

    /// Whether an error has been gathered.
    pub closed spec fn spec_errored(&self) -> bool {
        self.errored
    }

    /// The error flag tells whether an error was gathered, and the parser is
    /// in disarray only after one.
    pub open spec fn wf(&self) -> bool {
        &&& self.spec_errored() == (exists|i: int|
            0 <= i < self.spec_data().len() && (#[trigger] self.spec_data()[i]).kind is Error)
        &&& self.spec_state() == ParserDiagCtxState::Disarray ==> self.spec_errored()
    }

    /// No diagnostics yet, in step with the text.
    pub fn new() -> (res: Self)
        ensures
            res.wf(),
            res.spec_data().len() == 0,
            res.spec_state() == ParserDiagCtxState::Synchronized,
            !res.spec_errored(),
    {
        ParserDiagCtx { data: Vec::new(), state: ParserDiagCtxState::Synchronized, errored: false }
    }

    /// The parser is in step with the text again.
    pub fn sync(&mut self)
        requires
            old(self).wf(),
        ensures
            final(self).wf(),
            final(self).spec_data() == old(self).spec_data(),
            final(self).spec_errored() == old(self).spec_errored(),
            final(self).spec_state() == ParserDiagCtxState::Synchronized,
    {
        self.state = ParserDiagCtxState::Synchronized;
    }

    /// Whether the parser is in `state`.
    pub fn is(&self, state: ParserDiagCtxState) -> (res: bool)
        ensures
            res == (self.spec_state() == state),
    {
        match (self.state, state) {
            (ParserDiagCtxState::Synchronized, ParserDiagCtxState::Synchronized) => true,
            (ParserDiagCtxState::Disarray, ParserDiagCtxState::Disarray) => true,
            _ => false,
        }
    }

    /// Whether the parser is out of step with the text.
    pub fn is_in_disarray(&self) -> (res: bool)
        ensures
            res == (self.spec_state() == ParserDiagCtxState::Disarray),
    {
        self.is(ParserDiagCtxState::Disarray)
    }

    /// Gathers `diag`. An error met in disarray is dropped; any other error
    /// is kept and puts the parser in disarray; infos and warnings are kept.
    pub fn add(&mut self, diag: ParserDiag)
        requires
            old(self).wf(),
        ensures
            final(self).wf(),
            if diag.kind is Error && old(self).spec_state() == ParserDiagCtxState::Disarray {
                &&& final(self).spec_data() == old(self).spec_data()
                &&& final(self).spec_state() == old(self).spec_state()
                &&& final(self).spec_errored() == old(self).spec_errored()
            } else if diag.kind is Error {
                &&& final(self).spec_data() == old(self).spec_data().push(diag)
                &&& final(self).spec_state() == ParserDiagCtxState::Disarray
                &&& final(self).spec_errored()
            } else {
                &&& final(self).spec_data() == old(self).spec_data().push(diag)
                &&& final(self).spec_state() == old(self).spec_state()
                &&& final(self).spec_errored() == old(self).spec_errored()
            },
    {
        let is_err = diag.is_error();
        if is_err {
            if self.is(ParserDiagCtxState::Disarray) {
                return;
            }
            self.state = ParserDiagCtxState::Disarray;
            self.errored = true;
        }
        let ghost before = self.data@;
        self.data.push(diag);
        proof {
            assert(self.spec_data()[before.len() as int] == diag);
            assert forall|i: int| 0 <= i < before.len() implies #[trigger] self.spec_data()[i]
                == before[i] by {}
            if !is_err {
                if self.errored {
                    let w = choose|i: int| 0 <= i < before.len() && before[i].kind is Error;
                    assert(self.spec_data()[w] == before[w]);
                }
                assert forall|i: int|
                    0 <= i < self.spec_data().len() && (#[trigger] self.spec_data()[i]).kind is Error implies 0
                    <= i < before.len() && before[i].kind is Error by {
                    assert(self.spec_data()[i] == before[i] || i == before.len());
                }
            }
        }
    }

    /// Gathers the error `kind` at `span`, as [`ParserDiagCtx::add`] does.
    pub fn error(&mut self, span: Span, kind: ParserDiagErrorKind)
        requires
            old(self).wf(),
        ensures
            final(self).wf(),
            if old(self).spec_state() == ParserDiagCtxState::Disarray {
                &&& final(self).spec_data() == old(self).spec_data()
                &&& final(self).spec_state() == ParserDiagCtxState::Disarray
                &&& final(self).spec_errored() == old(self).spec_errored()
            } else {
                &&& final(self).spec_data() == old(self).spec_data().push(
                    ParserDiag { span, kind: ParserDiagKind::Error(kind) },
                )
                &&& final(self).spec_state() == ParserDiagCtxState::Disarray
                &&& final(self).spec_errored()
            },
    {
        self.add(ParserDiag { span, kind: ParserDiagKind::Error(kind) });
    }

    /// The diagnostics gathered so far.
    pub fn data(&self) -> (res: &[ParserDiag])
        ensures
            res@ == self.spec_data(),
    {
        self.data.as_slice()
    }

    /// Whether an error has been gathered.
    pub fn error_occurred(&self) -> (res: bool)
        ensures
            res == self.spec_errored(),
    {
        self.errored
    }

    /// Emits every diagnostic, in order, into `out`.
    pub fn emit(&self, out: &mut Vec<Diag>, ctx: ParserDiagDataCtx)
        requires
            ctx.registry.wf(),
            forall|i: int|
                0 <= i < self.spec_data().len() ==> parser_renderable(
                    #[trigger] self.spec_data()[i],
                    ctx,
                ),
        ensures
            final(out)@.len() == old(out)@.len() + self.spec_data().len(),
            forall|i: int|
                #![trigger final(out)@[i]]
                0 <= i < old(out)@.len() ==> final(out)@[i] == old(out)@[i],
            forall|i: int|
                #![trigger self.spec_data()[i]]
                0 <= i < self.spec_data().len() ==> {
                    let d = self.spec_data()[i];
                    let e = final(out)@[old(out)@.len() + i];
                    &&& e.span == d.span
                    &&& e.kind == parser_emitted_kind(d.kind)
                    &&& e.message@ == parser_rendered(d, ctx)
                },
    {
        let mut data_ctx = ctx;
        let mut i: usize = 0;
        while i < self.data.len()
            invariant
                data_ctx == ctx,
                ctx.registry.wf(),
                i <= self.data@.len(),
                out@.len() == old(out)@.len() + i,
                forall|j: int| #![trigger out@[j]] 0 <= j < old(out)@.len() ==> out@[j] == old(out)@[j],
                forall|j: int|
                    0 <= j < self.spec_data().len() ==> parser_renderable(
                        #[trigger] self.spec_data()[j],
                        ctx,
                    ),
                forall|j: int|
                    #![trigger self.spec_data()[j]]
                    0 <= j < i ==> {
                        let d = self.spec_data()[j];
                        let e = out@[old(out)@.len() + j];
                        &&& e.span == d.span
                        &&& e.kind == parser_emitted_kind(d.kind)
                        &&& e.message@ == parser_rendered(d, ctx)
                    },
            decreases self.data@.len() - i,
        {
            let ghost d = self.spec_data()[i as int];
            let diag = self.data[i].emit(&mut data_ctx);
            out.push(diag);
            i = i + 1;
        }
    }
}

} // verus!
