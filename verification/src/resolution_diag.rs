use vstd::prelude::*;

use crate::diag::{opt_text, Diag, DiagKind};
use crate::hir::{DefId, DefSpace};
use crate::resolve_diag::{formattable, space_text, ty_text, valid_symbol, ResolverDiagDataCtx};
use crate::span::Span;
use crate::symbol::Symbol;
use crate::ty::TyId;
use crate::ty_state::TyState;
use crate::util::{push_decimal, spec_decimal};
use vstd::string::StringExecFns;

verus! {

/// The errors that the identifier and type resolution passes report.
#[derive(Debug, Clone, Copy)]
pub enum ResolverDiagErrorKind {
    /// No symbol of this name, in this namespace if one is given.
    UnrecognizedSymbol(Symbol, Option<DefSpace>),
    /// The type `ty_id` has no associated item `name`.
    UnrecognizedMember { name: Symbol, ty_id: TyId },
    /// The petal `name`, defined by the definition given, used as a type.
    InvalidPetalResolution(Symbol, DefId),
    InvalidInference,
    /// A symbol that may not be reached from here.
    InaccessibleSymbol(Symbol),
    /// The expected count of generic arguments in the high byte, the count
    /// received in the low byte.
    GenericArgumentArityMismatch(u16),
}

/// The severity of a diagnostic of resolution; errors carry their kind.
#[derive(Debug, Clone, Copy)]
pub enum ResolverDiagKind {
    Note,
    Warning,
    Error(ResolverDiagErrorKind),
}

/// A diagnostic of resolution: what, and where.
#[derive(Debug, Clone, Copy)]
pub struct ResolverDiag {
    pub kind: ResolverDiagKind,
    pub span: Span,
}

/// The error codes of resolution errors start here.
pub const RESOLUTION_ERROR_CODE_OFFSET: u16 = 450;

/// The position of an error kind in the declaration of [`ResolverDiagErrorKind`].
pub open spec fn resolution_error_index(kind: ResolverDiagErrorKind) -> u16 {
    match kind {
        ResolverDiagErrorKind::UnrecognizedSymbol(..) => 0,
        ResolverDiagErrorKind::UnrecognizedMember { .. } => 1,
        ResolverDiagErrorKind::InvalidPetalResolution(..) => 2,
        ResolverDiagErrorKind::InvalidInference => 3,
        ResolverDiagErrorKind::InaccessibleSymbol(..) => 4,
        ResolverDiagErrorKind::GenericArgumentArityMismatch(..) => 5,
    }
}

/// The severity that a diagnostic of kind `kind` is reported with; a note is
/// reported as an info.
pub open spec fn resolution_emitted_kind(kind: ResolverDiagKind) -> DiagKind {
    match kind {
        ResolverDiagKind::Note => DiagKind::Info,
        ResolverDiagKind::Warning => DiagKind::Warning,
        ResolverDiagKind::Error(k) => DiagKind::Error(
            (resolution_error_index(k) + RESOLUTION_ERROR_CODE_OFFSET) as u16,
        ),
    }
}

/// `""` for one, `"s"` for any other count.
pub open spec fn plural(n: u8) -> Seq<char> {
    if n == 1 {
        Seq::empty()
    } else {
        "s"@
    }
}

/// The message of diagnostic `d`, with types formatted from state `s`.
pub open spec fn resolution_message(
    d: ResolverDiag,
    s: TyState,
    names: Seq<Symbol>,
    strings: Seq<Seq<char>>,
) -> Seq<char> {
    match d.kind {
        ResolverDiagKind::Error(k) => match k {
            ResolverDiagErrorKind::UnrecognizedSymbol(name, space) => "cannot resolve unrecognized "@
                + space_text(space) + " `"@ + strings[name.0 as int] + "`."@,
            ResolverDiagErrorKind::UnrecognizedMember { name, ty_id } =>
                "cannot recognize associated item `"@ + strings[name.0 as int] + "` from type `"@
                + ty_text(s, ty_id, names, strings).1 + "`."@,
            ResolverDiagErrorKind::InvalidPetalResolution(name, _) => "cannot resolve petal `"@
                + strings[name.0 as int] + "` as type."@,
            ResolverDiagErrorKind::InvalidInference => "cannot infer type in this context."@,
            ResolverDiagErrorKind::InaccessibleSymbol(symbol) => "symbol `"@ + strings[symbol.0 as int]
                + "` is inaccessible in this context."@,
            ResolverDiagErrorKind::GenericArgumentArityMismatch(data) => {
                let expected = (data / 256) as u8;
                let received = (data % 256) as u8;
                "expected at most `"@ + spec_decimal(expected as nat) + "` generic argument"@
                    + plural(expected) + ", received `"@ + spec_decimal(received as nat)
                    + "` generic argument"@ + plural(received) + "."@
            },
        },
        _ => Seq::empty(),
    }
}

/// The state of the type context after rendering `d` from state `s`: only an
/// unrecognized member formats a type.
pub open spec fn resolution_next_state(
    d: ResolverDiag,
    s: TyState,
    names: Seq<Symbol>,
    strings: Seq<Seq<char>>,
) -> TyState {
    match d.kind {
        ResolverDiagKind::Error(ResolverDiagErrorKind::UnrecognizedMember { ty_id, .. }) => ty_text(
            s,
            ty_id,
            names,
            strings,
        ).0,
        _ => s,
    }
}

/// Diagnostic `d` can be rendered from state `s`: the symbols it names stand
/// for strings, the definition it points at is known, and the type it
/// formats can be formatted.
pub open spec fn resolution_renderable(
    d: ResolverDiag,
    s: TyState,
    names: Seq<Symbol>,
    spans: Seq<Span>,
    strings: Seq<Seq<char>>,
) -> bool {
    match d.kind {
        ResolverDiagKind::Error(k) => match k {
            ResolverDiagErrorKind::UnrecognizedSymbol(name, _) => valid_symbol(strings, name),
            ResolverDiagErrorKind::UnrecognizedMember { name, ty_id } => valid_symbol(strings, name)
                && formattable(s, ty_id, names, strings),
            ResolverDiagErrorKind::InvalidPetalResolution(name, def_id) => valid_symbol(strings, name)
                && (def_id.0 as int) < spans.len(),
            ResolverDiagErrorKind::InaccessibleSymbol(symbol) => valid_symbol(strings, symbol),
            _ => true,
        },
        _ => true,
    }
}

/// Whether `e` is the rendering of `d` from state `s`: an invalid petal
/// resolution carries a note at the petal's definition, nothing else does.
pub open spec fn resolution_rendered_as(
    e: Diag,
    d: ResolverDiag,
    s: TyState,
    names: Seq<Symbol>,
    spans: Seq<Span>,
    strings: Seq<Seq<char>>,
) -> bool {
    &&& e.span == d.span
    &&& e.kind == resolution_emitted_kind(d.kind)
    &&& e.message@ == resolution_message(d, s, names, strings)
    &&& opt_text(e.extra) is None
    &&& match d.kind {
        ResolverDiagKind::Error(ResolverDiagErrorKind::InvalidPetalResolution(name, def_id)) => {
            &&& e.notes@.len() == 1
            &&& e.notes@[0].span == spans[def_id.0 as int]
            &&& e.notes@[0].message@ == "`"@ + strings[name.0 as int] + "` is defined as a petal here."@
        },
        _ => e.notes@.len() == 0,
    }
}

/// Appends `" generic argument"` and its plural ending for `n`.
fn append_args_word(s: &mut String, n: u8)
    ensures
        final(s)@ == old(s)@ + "` generic argument"@ + plural(n),
{
    s.append("` generic argument");
    if n != 1 {
        s.append("s");
    }
}

impl ResolverDiag {
    /// The error `kind` at `span`.
    pub fn error(span: Span, kind: ResolverDiagErrorKind) -> (res: Self)
        ensures
            res.span == span,
            res.kind == ResolverDiagKind::Error(kind),
    {
        ResolverDiag { span, kind: ResolverDiagKind::Error(kind) }
    }

    pub fn is_error(&self) -> (res: bool)
        ensures
            res == (self.kind is Error),
    {
        matches!(self.kind, ResolverDiagKind::Error(_))
    }

    /// The diagnostic ready to be reported: its severity (an error with its
    /// code), its span and its message; an invalid petal resolution gets a
    /// note at the petal's definition. Only an unrecognized member formats a
    /// type, which changes the type context as resolving does.
    pub fn emit(&self, ctx: &mut ResolverDiagDataCtx) -> (res: Diag)
        requires
            old(ctx).fmt.tctx.wf(),
            resolution_renderable(
                *self,
                old(ctx).spec_state(),
                old(ctx).spec_names(),
                old(ctx).spec_spans(),
                old(ctx).spec_strings(),
            ),
        ensures
            final(ctx).fmt.tctx.wf(),
            final(ctx).fmt.tctx.same_tables(old(ctx).fmt.tctx),
            final(ctx).fmt.definitions == old(ctx).fmt.definitions,
            final(ctx).fmt.interner == old(ctx).fmt.interner,
            final(ctx).scope_ctx == old(ctx).scope_ctx,
            final(ctx).spec_state() == resolution_next_state(
                *self,
                old(ctx).spec_state(),
                old(ctx).spec_names(),
                old(ctx).spec_strings(),
            ),
            resolution_rendered_as(
                res,
                *self,
                old(ctx).spec_state(),
                old(ctx).spec_names(),
                old(ctx).spec_spans(),
                old(ctx).spec_strings(),
            ),
    {
        let ghost s0 = ctx.spec_state();
        let ghost names = ctx.spec_names();
        let ghost strings = ctx.spec_strings();
        let interner = ctx.fmt.interner;
        let definitions = ctx.fmt.definitions;
        let mut message = String::new();
        let kind = match self.kind {
            ResolverDiagKind::Note => DiagKind::Info,
            ResolverDiagKind::Warning => DiagKind::Warning,
            ResolverDiagKind::Error(k) => {
                let idx: u16 = match k {
                    ResolverDiagErrorKind::UnrecognizedSymbol(name, space) => {
                        message.append("cannot resolve unrecognized ");
                        match space {
                            Some(sp) => message.append(sp.text()),
                            None => message.append("symbol"),
                        }
                        message.append(" `");
                        message.append(interner.get(name));
                        message.append("`.");
                        0
                    },
                    ResolverDiagErrorKind::UnrecognizedMember { name, ty_id } => {
                        let s_ty = ctx.fmt.fmt_id(ty_id);
                        message.append("cannot recognize associated item `");
                        message.append(interner.get(name));
                        message.append("` from type `");
                        message.append(s_ty.as_str());
                        message.append("`.");
                        1
                    },
                    ResolverDiagErrorKind::InvalidPetalResolution(name, _) => {
                        message.append("cannot resolve petal `");
                        message.append(interner.get(name));
                        message.append("` as type.");
                        2
                    },
                    ResolverDiagErrorKind::InvalidInference => {
                        message.append("cannot infer type in this context.");
                        3
                    },
                    ResolverDiagErrorKind::InaccessibleSymbol(symbol) => {
                        message.append("symbol `");
                        message.append(interner.get(symbol));
                        message.append("` is inaccessible in this context.");
                        4
                    },
                    ResolverDiagErrorKind::GenericArgumentArityMismatch(data) => {
                        let expected: u8 = #[verifier::truncate] ((data >> 8u16) as u8);
                        let received: u8 = #[verifier::truncate] ((data & 0xffu16) as u8);
                        assert(expected == (data / 256) as u8 && received == (data % 256) as u8)
                            by (bit_vector)
                            requires
                                expected == (data >> 8u16) as u8,
                                received == (data & 0xffu16) as u8,
                        ;
                        message.append("expected at most `");
                        push_decimal(&mut message, expected as u64);
                        append_args_word(&mut message, expected);
                        message.append(", received `");
                        push_decimal(&mut message, received as u64);
                        append_args_word(&mut message, received);
                        message.append(".");
                        5
                    },
                };
                DiagKind::Error(idx + RESOLUTION_ERROR_CODE_OFFSET)
            },
        };
        let mut diag = Diag::new(kind, self.span, message);
        match self.kind {
            ResolverDiagKind::Error(ResolverDiagErrorKind::InvalidPetalResolution(name, def_id)) => {
                let mut m = String::new();
                m.append("`");
                m.append(interner.get(name));
                m.append("` is defined as a petal here.");
                diag.note(definitions.span_of(def_id), m);
            },
            _ => {},
        }
        proof {
            assert(diag.message@ =~= resolution_message(*self, s0, names, strings));
        }
        diag
    }
}

/// The diagnostics that resolution has gathered, in the order they were
/// found.
#[derive(Debug)]
pub struct ResolverDiagCtx {
    data: Vec<ResolverDiag>,
    errored: bool,
}

impl ResolverDiagCtx {
    /// The diagnostics gathered so far.
    pub closed spec fn spec_data(&self) -> Seq<ResolverDiag> {
        self.data@
    }

    /// Whether an error has been added.
    pub closed spec fn spec_errored(&self) -> bool {
        self.errored
    }

    pub fn new() -> (res: Self)
        ensures
            res.spec_data().len() == 0,
            !res.spec_errored(),
    {
        ResolverDiagCtx { data: Vec::new(), errored: false }
    }

    /// Adds `diag`; an error sets the error flag.
    pub fn add(&mut self, diag: ResolverDiag)
        ensures
            final(self).spec_data() == old(self).spec_data().push(diag),
            final(self).spec_errored() == (old(self).spec_errored() || diag.kind is Error),
    {
        if diag.is_error() {
            self.errored = true;
        }
        self.data.push(diag);
    }

    /// Adds the error `kind` at `span`.
    pub fn error(&mut self, span: Span, kind: ResolverDiagErrorKind)
        ensures
            final(self).spec_data() == old(self).spec_data().push(
                ResolverDiag { kind: ResolverDiagKind::Error(kind), span },
            ),
            final(self).spec_errored(),
    {
        self.add(ResolverDiag { span, kind: ResolverDiagKind::Error(kind) })
    }

    /// The diagnostics gathered so far.
    pub fn data(&self) -> (res: &[ResolverDiag])
        ensures
            res@ == self.spec_data(),
    {
        self.data.as_slice()
    }

    /// Whether an error has been added.
    pub fn error_occurred(&self) -> (res: bool)
        ensures
            res == self.spec_errored(),
    {
        self.errored
    }
}

} // verus!
