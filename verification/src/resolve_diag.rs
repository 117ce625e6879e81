use vstd::prelude::*;

use crate::diag::{opt_text, Diag, DiagKind};
use crate::hir::{DefId, DefSpace, DefinitionTable};
use crate::resolve::SymbolKind;
use crate::scope::ScopeCtx;
use crate::span::Span;
use crate::symbol::{Symbol, SymbolInterner};
use crate::ty::TyId;
use crate::ty_ctx::TyCtx;
use crate::ty_fmt::{def_name, fmt_spec, named, TyFormatter};
use crate::ty_state::TyState;
use crate::util::{push_decimal, spec_decimal};
use vstd::string::StringExecFns;

verus! {

/// What rendering resolver diagnostics reads: a type formatter (which holds
/// the type context, the definitions and the interner) and the scopes.
pub struct ResolverDiagDataCtx<'c> {
    pub fmt: TyFormatter<'c>,
    pub scope_ctx: &'c ScopeCtx,
}

impl<'c> ResolverDiagDataCtx<'c> {
    pub fn new(
        tctx: &'c mut TyCtx,
        interner: &'c SymbolInterner,
        definitions: &'c DefinitionTable,
        scope_ctx: &'c ScopeCtx,
    ) -> (res: Self)
        ensures
            *res.fmt.tctx == *old(tctx),
            *final(res.fmt.tctx) == *final(tctx),
            res.fmt.definitions == definitions,
            res.fmt.interner == interner,
            res.scope_ctx == scope_ctx,
    {
        ResolverDiagDataCtx { fmt: TyFormatter::new(tctx, definitions, interner), scope_ctx }
    }

    /// The state of the type context.
    pub open spec fn spec_state(&self) -> TyState {
        self.fmt.tctx.state()
    }

    /// The names of the definitions.
    pub open spec fn spec_names(&self) -> Seq<Symbol> {
        self.fmt.definitions.names@
    }

    /// Where the definitions are defined.
    pub open spec fn spec_spans(&self) -> Seq<Span> {
        self.fmt.definitions.spans@
    }

    /// The strings of the interner.
    pub open spec fn spec_strings(&self) -> Seq<Seq<char>> {
        self.fmt.interner.spec_strings()
    }
}

/// The errors that name resolution reports.
#[derive(Debug, Clone, Copy)]
pub enum ResolverDiagErrorKind {
    /// `ident` is defined again; `earlier_def` is its first definition.
    Duplication { ident: Symbol, earlier_def: DefId },
    /// No symbol of this name, in this namespace if one is given.
    UnrecognizedSymbol(Symbol, Option<DefSpace>),
    /// The type `ty_id` has no associated item `name`.
    UnrecognizedMember { name: Symbol, ty_id: TyId },
    /// A petal used as a type.
    IllegalPetalTyUsage(DefId),
    InvalidInference,
    /// A symbol that may not be reached from here, of this kind if one is given.
    Inaccessible(Symbol, Option<SymbolKind>),
    /// The expected count of generic arguments in the high byte, the count
    /// received in the low byte.
    GenericArgumentArityMismatch(u16),
}

/// The severity of a resolver diagnostic; errors carry their kind.
#[derive(Debug, Clone, Copy)]
pub enum ResolverDiagKind {
    Info,
    Warning,
    Error(ResolverDiagErrorKind),
}

/// A diagnostic of name resolution: what, and where.
#[derive(Debug, Clone, Copy)]
pub struct ResolverDiag {
    pub kind: ResolverDiagKind,
    pub span: Span,
}

/// The error codes of resolver errors start here.
pub const RESOLVER_ERROR_CODE_OFFSET: u16 = 400;

/// The position of an error kind in the declaration of [`ResolverDiagErrorKind`].
pub open spec fn resolver_error_index(kind: ResolverDiagErrorKind) -> u16 {
    match kind {
        ResolverDiagErrorKind::Duplication { .. } => 0,
        ResolverDiagErrorKind::UnrecognizedSymbol(..) => 1,
        ResolverDiagErrorKind::UnrecognizedMember { .. } => 2,
        ResolverDiagErrorKind::IllegalPetalTyUsage(..) => 3,
        ResolverDiagErrorKind::InvalidInference => 4,
        ResolverDiagErrorKind::Inaccessible(..) => 5,
        ResolverDiagErrorKind::GenericArgumentArityMismatch(..) => 6,
    }
}

/// The severity that a resolver diagnostic of kind `kind` is reported with.
pub open spec fn resolver_emitted_kind(kind: ResolverDiagKind) -> DiagKind {
    match kind {
        ResolverDiagKind::Info => DiagKind::Info,
        ResolverDiagKind::Warning => DiagKind::Warning,
        ResolverDiagKind::Error(k) => DiagKind::Error(
            (resolver_error_index(k) + RESOLVER_ERROR_CODE_OFFSET) as u16,
        ),
    }
}

/// Type `t` can be formatted from state `s`.
pub open spec fn formattable(s: TyState, t: TyId, names: Seq<Symbol>, strings: Seq<Seq<char>>) -> bool {
    exists|fuel: nat| fmt_spec(s, t, names, strings, fuel) is Some
}

/// The state after formatting type `t` from state `s`, and its text.
pub open spec fn ty_text(s: TyState, t: TyId, names: Seq<Symbol>, strings: Seq<Seq<char>>) -> (
    TyState,
    Seq<char>,
) {
    fmt_spec(s, t, names, strings, choose|fuel: nat| fmt_spec(s, t, names, strings, fuel) is Some).unwrap()
}

/// `s` stands for a string of `strings`.
pub open spec fn valid_symbol(strings: Seq<Seq<char>>, s: Symbol) -> bool {
    s.0 != usize::MAX && (s.0 as int) < strings.len()
}

/// The word that names an optional namespace in messages.
pub open spec fn space_text(space: Option<DefSpace>) -> Seq<char> {
    match space {
        None => "symbol"@,
        Some(DefSpace::Type) => "type"@,
        Some(DefSpace::Value) => "value"@,
    }
}

/// The words, followed by a space, that name an optional symbol kind.
pub open spec fn kind_prefix(kind: Option<SymbolKind>) -> Seq<char> {
    match kind {
        None => Seq::empty(),
        Some(SymbolKind::Item) => "item"@ + " "@,
        Some(SymbolKind::AssocItem) => "associated item"@ + " "@,
        Some(SymbolKind::Field) => "field"@ + " "@,
    }
}

/// The message of resolver diagnostic `d`, with types formatted from state
/// `s`.
pub open spec fn resolver_message(
    d: ResolverDiag,
    s: TyState,
    names: Seq<Symbol>,
    strings: Seq<Seq<char>>,
) -> Seq<char> {
    match d.kind {
        ResolverDiagKind::Error(k) => match k {
            ResolverDiagErrorKind::Duplication { ident, .. } => "definition with the identifier `"@
                + strings[ident.0 as int] + "` already exists"@,
            ResolverDiagErrorKind::UnrecognizedSymbol(name, space) => "cannot resolved unrecognized "@
                + space_text(space) + " `"@ + strings[name.0 as int] + "`"@,
            ResolverDiagErrorKind::UnrecognizedMember { name, ty_id } => "unrecognized associated item `"@
                + strings[name.0 as int] + "` from `"@ + ty_text(s, ty_id, names, strings).1 + "`"@,
            ResolverDiagErrorKind::IllegalPetalTyUsage(def_id) => "cannot use petal `"@ + def_name(
                names,
                strings,
                def_id.0 as int,
            ) + "` as a type"@,
            ResolverDiagErrorKind::InvalidInference => "cannot infer type in this ctx"@,
            ResolverDiagErrorKind::Inaccessible(symbol, kind) => kind_prefix(kind) + "`"@
                + strings[symbol.0 as int] + "` is inaccessible in this context"@,
            ResolverDiagErrorKind::GenericArgumentArityMismatch(_) => "generic argument arity mismatch"@,
        },
        _ => Seq::empty(),
    }
}

/// The text shown at the span of resolver diagnostic `d`, if any.
pub open spec fn resolver_extra(
    d: ResolverDiag,
    s: TyState,
    names: Seq<Symbol>,
    strings: Seq<Seq<char>>,
) -> Option<Seq<char>> {
    match d.kind {
        ResolverDiagKind::Error(k) => match k {
            ResolverDiagErrorKind::Duplication { ident, .. } => Some(
                "redefinition of `"@ + strings[ident.0 as int] + "`"@,
            ),
            ResolverDiagErrorKind::UnrecognizedSymbol(..) => Some("could not find in this scope"@),
            ResolverDiagErrorKind::UnrecognizedMember { ty_id, .. } => Some(
                "no associated item from `"@ + ty_text(s, ty_id, names, strings).1 + "`"@,
            ),
            ResolverDiagErrorKind::IllegalPetalTyUsage(..) => None,
            ResolverDiagErrorKind::InvalidInference => Some("requires known type"@),
            ResolverDiagErrorKind::Inaccessible(..) => Some("cannot be accessed from this petal"@),
            ResolverDiagErrorKind::GenericArgumentArityMismatch(data) => Some(
                "expected at most `"@ + spec_decimal((data / 256) as nat) + "` but received `"@
                    + spec_decimal((data % 256) as nat) + "`"@,
            ),
        },
        _ => None,
    }
}

/// The state of the type context after rendering `d` from state `s`: only an
/// unrecognized member formats a type, which may shorten the chains of
/// bound variables.
pub open spec fn resolver_next_state(
    d: ResolverDiag,
    s: TyState,
    names: Seq<Symbol>,
    strings: Seq<Seq<char>>,
) -> TyState {
    match d.kind {
        ResolverDiagKind::Error(ResolverDiagErrorKind::UnrecognizedMember { ty_id, .. }) => ty_text(
            s,
            ty_id,
            names,
            strings,
        ).0,
        _ => s,
    }
}

/// Diagnostic `d` can be rendered from state `s`: the symbols it names stand
/// for strings, the definitions it names are known, and the type it formats
/// can be formatted.
pub open spec fn resolver_renderable(
    d: ResolverDiag,
    s: TyState,
    names: Seq<Symbol>,
    spans: Seq<Span>,
    strings: Seq<Seq<char>>,
) -> bool {
    match d.kind {
        ResolverDiagKind::Error(k) => match k {
            ResolverDiagErrorKind::Duplication { ident, earlier_def } => valid_symbol(strings, ident)
                && (earlier_def.0 as int) < spans.len(),
            ResolverDiagErrorKind::UnrecognizedSymbol(name, _) => valid_symbol(strings, name),
            ResolverDiagErrorKind::UnrecognizedMember { name, ty_id } => valid_symbol(strings, name)
                && formattable(s, ty_id, names, strings),
            ResolverDiagErrorKind::IllegalPetalTyUsage(def_id) => named(names, strings, def_id.0 as int),
            ResolverDiagErrorKind::Inaccessible(symbol, _) => valid_symbol(strings, symbol),
            _ => true,
        },
        _ => true,
    }
}

/// The note that diagnostic `d` carries, if any: a duplicate points at the
/// earlier definition.
pub open spec fn resolver_note(d: ResolverDiag, spans: Seq<Span>, strings: Seq<Seq<char>>) -> Option<
    (Span, Seq<char>),
> {
    match d.kind {
        ResolverDiagKind::Error(ResolverDiagErrorKind::Duplication { ident, earlier_def }) => Some(
            (spans[earlier_def.0 as int], "earlier definition of `"@ + strings[ident.0 as int] + "`"@),
        ),
        _ => None,
    }
}

/// Whether `e` is the rendering of `d` from state `s`.
pub open spec fn rendered_as(
    e: Diag,
    d: ResolverDiag,
    s: TyState,
    names: Seq<Symbol>,
    spans: Seq<Span>,
    strings: Seq<Seq<char>>,
) -> bool {
    &&& e.span == d.span
    &&& e.kind == resolver_emitted_kind(d.kind)
    &&& e.message@ == resolver_message(d, s, names, strings)
    &&& opt_text(e.extra) == resolver_extra(d, s, names, strings)
    &&& match resolver_note(d, spans, strings) {
        Some(n) => e.notes@.len() == 1 && e.notes@[0].span == n.0 && e.notes@[0].message@ == n.1,
        None => e.notes@.len() == 0,
    }
}

/// Appends the decimal digits of the byte `n`.
fn append_byte_decimal(s: &mut String, n: u8)
    ensures
        final(s)@ == old(s)@ + spec_decimal(n as nat),
{
    push_decimal(s, n as u64);
}

impl ResolverDiag {
    /// The error `kind` at `span`.
    pub fn error(span: Span, kind: ResolverDiagErrorKind) -> (res: Self)
        ensures
            res.span == span,
            res.kind == ResolverDiagKind::Error(kind),
    {
        ResolverDiag { span, kind: ResolverDiagKind::Error(kind) }
    }

    pub fn is_info(&self) -> (res: bool)
        ensures
            res == (self.kind is Info),
    {
        matches!(self.kind, ResolverDiagKind::Info)
    }

    pub fn is_warning(&self) -> (res: bool)
        ensures
            res == (self.kind is Warning),
    {
        matches!(self.kind, ResolverDiagKind::Warning)
    }

    pub fn is_error(&self) -> (res: bool)
        ensures
            res == (self.kind is Error),
    {
        matches!(self.kind, ResolverDiagKind::Error(_))
    }

    /// The diagnostic ready to be reported: its severity (an error with its
    /// code), its span, its message, the text shown at its span and, for a
    /// duplicate, a note at the earlier definition. Only an unrecognized
    /// member formats a type, which changes the type context as resolving
    /// does.
    pub fn emit(&self, ctx: &mut ResolverDiagDataCtx) -> (res: Diag)
        requires
            old(ctx).fmt.tctx.wf(),
            resolver_renderable(
                *self,
                old(ctx).spec_state(),
                old(ctx).spec_names(),
                old(ctx).spec_spans(),
                old(ctx).spec_strings(),
            ),
        ensures
            final(ctx).fmt.tctx.wf(),
            final(ctx).fmt.tctx.same_tables(old(ctx).fmt.tctx),
            final(ctx).fmt.definitions == old(ctx).fmt.definitions,
            final(ctx).fmt.interner == old(ctx).fmt.interner,
            final(ctx).scope_ctx == old(ctx).scope_ctx,
            final(ctx).spec_state() == resolver_next_state(
                *self,
                old(ctx).spec_state(),
                old(ctx).spec_names(),
                old(ctx).spec_strings(),
            ),
            rendered_as(
                res,
                *self,
                old(ctx).spec_state(),
                old(ctx).spec_names(),
                old(ctx).spec_spans(),
                old(ctx).spec_strings(),
            ),
    {
        let ghost s0 = ctx.spec_state();
        let ghost names = ctx.spec_names();
        let ghost strings = ctx.spec_strings();
        let interner: &SymbolInterner = ctx.fmt.interner;
        let definitions: &DefinitionTable = ctx.fmt.definitions;
        let mut message = String::new();
        let mut extra: Option<String> = None;
        let kind = match self.kind {
            ResolverDiagKind::Info => DiagKind::Info,
            ResolverDiagKind::Warning => DiagKind::Warning,
            ResolverDiagKind::Error(k) => {
                let idx: u16 = match k {
                    ResolverDiagErrorKind::Duplication { ident, .. } => {
                        let s_ident = interner.get(ident);
                        message.append("definition with the identifier `");
                        message.append(s_ident);
                        message.append("` already exists");
                        let mut e = String::new();
                        e.append("redefinition of `");
                        e.append(s_ident);
                        e.append("`");
                        extra = Some(e);
                        0
                    },
                    ResolverDiagErrorKind::UnrecognizedSymbol(name, space) => {
                        message.append("cannot resolved unrecognized ");
                        match space {
                            Some(sp) => message.append(sp.text()),
                            None => message.append("symbol"),
                        }
                        message.append(" `");
                        message.append(interner.get(name));
                        message.append("`");
                        let mut e = String::new();
                        e.append("could not find in this scope");
                        extra = Some(e);
                        1
                    },
                    ResolverDiagErrorKind::UnrecognizedMember { name, ty_id } => {
                        let s_ty = ctx.fmt.fmt_id(ty_id);
                        message.append("unrecognized associated item `");
                        message.append(interner.get(name));
                        message.append("` from `");
                        message.append(s_ty.as_str());
                        message.append("`");
                        let mut e = String::new();
                        e.append("no associated item from `");
                        e.append(s_ty.as_str());
                        e.append("`");
                        extra = Some(e);
                        2
                    },
                    ResolverDiagErrorKind::IllegalPetalTyUsage(def_id) => {
                        message.append("cannot use petal `");
                        message.append(interner.get(definitions.name_of(def_id)));
                        message.append("` as a type");
                        3
                    },
                    ResolverDiagErrorKind::InvalidInference => {
                        message.append("cannot infer type in this ctx");
                        let mut e = String::new();
                        e.append("requires known type");
                        extra = Some(e);
                        4
                    },
                    ResolverDiagErrorKind::Inaccessible(symbol, kind) => {
                        match kind {
                            Some(k) => {
                                message.append(k.text());
                                message.append(" ");
                            },
                            None => {},
                        }
                        message.append("`");
                        message.append(interner.get(symbol));
                        message.append("` is inaccessible in this context");
                        let mut e = String::new();
                        e.append("cannot be accessed from this petal");
                        extra = Some(e);
                        5
                    },
                    ResolverDiagErrorKind::GenericArgumentArityMismatch(data) => {
                        let expected: u8 = #[verifier::truncate] ((data >> 8u16) as u8);
                        let received: u8 = #[verifier::truncate] ((data & 0xffu16) as u8);
                        assert(expected == data / 256 && received == data % 256) by (bit_vector)
                            requires
                                expected == (data >> 8u16) as u8,
                                received == (data & 0xffu16) as u8,
                        ;
                        message.append("generic argument arity mismatch");
                        let mut e = String::new();
                        e.append("expected at most `");
                        append_byte_decimal(&mut e, expected);
                        e.append("` but received `");
                        append_byte_decimal(&mut e, received);
                        e.append("`");
                        extra = Some(e);
                        6
                    },
                };
                DiagKind::Error(idx + RESOLVER_ERROR_CODE_OFFSET)
            },
        };
        let mut diag = Diag::new_with_extra(kind, self.span, message, extra);
        match self.kind {
            ResolverDiagKind::Error(ResolverDiagErrorKind::Duplication { ident, earlier_def }) => {
                let mut m = String::new();
                m.append("earlier definition of `");
                m.append(interner.get(ident));
                m.append("`");
                diag.note(definitions.span_of(earlier_def), m);
            },
            _ => {},
        }
        proof {
            assert(diag.message@ =~= resolver_message(*self, s0, names, strings));
            assert(opt_text(diag.extra) =~= resolver_extra(*self, s0, names, strings));
        }
        diag
    }
}

/// The state of the type context after rendering `ds` in order from state `s`.
pub open spec fn resolver_states_after(
    ds: Seq<ResolverDiag>,
    s: TyState,
    names: Seq<Symbol>,
    strings: Seq<Seq<char>>,
) -> TyState
    decreases ds.len(),
{
    if ds.len() == 0 {
        s
    } else {
        resolver_next_state(
            ds.last(),
            resolver_states_after(ds.drop_last(), s, names, strings),
            names,
            strings,
        )
    }
}

/// The diagnostics that name resolution has gathered, in the order they were
/// found.
#[derive(Debug)]
pub struct ResolverDiagCtx {
    data: Vec<ResolverDiag>,
    errored: bool,
}

impl ResolverDiagCtx {
    /// The diagnostics gathered so far.
    pub closed spec fn spec_data(&self) -> Seq<ResolverDiag> {
        self.data@
    }

    /// Whether an error has been added.
    pub closed spec fn spec_errored(&self) -> bool {
        self.errored
    }

    /// No diagnostics yet.
    pub fn new() -> (res: Self)
        ensures
            res.spec_data().len() == 0,
            !res.spec_errored(),
    {
        ResolverDiagCtx { data: Vec::new(), errored: false }
    }

    /// Adds `diag`; an error sets the error flag.
    pub fn add(&mut self, diag: ResolverDiag)
        ensures
            final(self).spec_data() == old(self).spec_data().push(diag),
            final(self).spec_errored() == (old(self).spec_errored() || diag.kind is Error),
    {
        if diag.is_error() {
            self.errored = true;
        }
        self.data.push(diag);
    }

    /// Adds the error `kind` at `span`.
    pub fn error(&mut self, span: Span, kind: ResolverDiagErrorKind)
        ensures
            final(self).spec_data() == old(self).spec_data().push(
                ResolverDiag { kind: ResolverDiagKind::Error(kind), span },
            ),
            final(self).spec_errored(),
    {
        self.add(ResolverDiag { span, kind: ResolverDiagKind::Error(kind) })
    }

    /// The diagnostics gathered so far.
    pub fn data(&self) -> (res: &[ResolverDiag])
        ensures
            res@ == self.spec_data(),
    {
        self.data.as_slice()
    }

    /// Whether an error has been added.
    pub fn error_occurred(&self) -> (res: bool)
        ensures
            res == self.spec_errored(),
    {
        self.errored
    }

    /// Emits every diagnostic, in order, into `out`; each is rendered from the
    /// state of the type context that rendering the ones before it left.
    pub fn emit(&self, out: &mut Vec<Diag>, ctx: &mut ResolverDiagDataCtx)
        requires
            old(ctx).fmt.tctx.wf(),
            forall|i: int|
                0 <= i < self.spec_data().len() ==> resolver_renderable(
                    #[trigger] self.spec_data()[i],
                    resolver_states_after(
                        self.spec_data().take(i),
                        old(ctx).spec_state(),
                        old(ctx).spec_names(),
                        old(ctx).spec_strings(),
                    ),
                    old(ctx).spec_names(),
                    old(ctx).spec_spans(),
                    old(ctx).spec_strings(),
                ),
        ensures
            final(ctx).fmt.tctx.wf(),
            final(ctx).fmt.tctx.same_tables(old(ctx).fmt.tctx),
            final(ctx).fmt.definitions == old(ctx).fmt.definitions,
            final(ctx).fmt.interner == old(ctx).fmt.interner,
            final(ctx).scope_ctx == old(ctx).scope_ctx,
            final(ctx).spec_state() == resolver_states_after(
                self.spec_data(),
                old(ctx).spec_state(),
                old(ctx).spec_names(),
                old(ctx).spec_strings(),
            ),
            final(out)@.len() == old(out)@.len() + self.spec_data().len(),
            forall|i: int|
                #![trigger final(out)@[i]]
                0 <= i < old(out)@.len() ==> final(out)@[i] == old(out)@[i],
            forall|i: int|
                #![trigger self.spec_data()[i]]
                0 <= i < self.spec_data().len() ==> rendered_as(
                    final(out)@[old(out)@.len() + i],
                    self.spec_data()[i],
                    resolver_states_after(
                        self.spec_data().take(i),
                        old(ctx).spec_state(),
                        old(ctx).spec_names(),
                        old(ctx).spec_strings(),
                    ),
                    old(ctx).spec_names(),
                    old(ctx).spec_spans(),
                    old(ctx).spec_strings(),
                ),
    {
        let ghost s0 = ctx.spec_state();
        let ghost names = ctx.spec_names();
        let ghost spans = ctx.spec_spans();
        let ghost strings = ctx.spec_strings();
        let ghost ds = self.spec_data();
        let ghost t0 = *ctx.fmt.tctx;
        let mut i: usize = 0;
        while i < self.data.len()
            invariant
                ds == self.spec_data(),
                i <= ds.len(),
                ctx.fmt.tctx.wf(),
                ctx.fmt.tctx.same_tables(&t0),
                ctx.fmt.definitions == old(ctx).fmt.definitions,
                ctx.fmt.interner == old(ctx).fmt.interner,
                ctx.scope_ctx == old(ctx).scope_ctx,
                names == ctx.spec_names(),
                spans == ctx.spec_spans(),
                strings == ctx.spec_strings(),
                t0 == *old(ctx).fmt.tctx,
                s0 == old(ctx).spec_state(),
                ctx.spec_state() == resolver_states_after(ds.take(i as int), s0, names, strings),
                forall|j: int|
                    0 <= j < ds.len() ==> resolver_renderable(
                        #[trigger] ds[j],
                        resolver_states_after(ds.take(j), s0, names, strings),
                        names,
                        spans,
                        strings,
                    ),
                out@.len() == old(out)@.len() + i,
                forall|j: int| #![trigger out@[j]] 0 <= j < old(out)@.len() ==> out@[j] == old(out)@[j],
                forall|j: int|
                    #![trigger ds[j]]
                    0 <= j < i ==> rendered_as(
                        out@[old(out)@.len() + j],
                        ds[j],
                        resolver_states_after(ds.take(j), s0, names, strings),
                        names,
                        spans,
                        strings,
                    ),
            decreases ds.len() - i,
        {
            let ghost d = ds[i as int];
            let diag = self.data[i].emit(ctx);
            proof {
                assert(ds.take(i + 1).drop_last() =~= ds.take(i as int));
                assert(ds.take(i + 1).last() == d);
            }
            out.push(diag);
            i = i + 1;
        }
        proof {
            assert(ds.take(ds.len() as int) =~= ds);
        }
    }
}

} // verus!
