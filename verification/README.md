# hycc core, verified

The front end of a compiler for the Hyc language, written in Verus: the lexer, the
type context used by inference, and the small tables around them, each with
contracts that Verus proves.

## Layout

- `src/lexical.rs` — the lexical grammar as mathematical functions: byte
  classes, where each kind of token ends, the diagnostics each token reports,
  and what reading a token graph, a delimited collection or a whole text gives
  (`lex_graph`, `lex_coll`, `lex_from`), with the laws of lexing.
- `src/lexer.rs` — the lexer, proved to produce exactly those token graphs and
  diagnostics.
- `src/token.rs`, `src/lexer_diag.rs`, `src/diag.rs` — tokens and token graphs,
  lexer diagnostics and their rendering.
- `src/ty.rs`, `src/ty_state.rs`, `src/ty_ctx.rs`, `src/ty_fmt.rs` — types, the
  mathematical state of a type context (interning, union–find of type
  variables, resolution, unification, instantiation) with its laws, the type
  context itself, and the formatting of types. `src/ty_stable.rs` proves that
  resolving a resolution gives it back, that a type unifies with itself
  without binding a variable, that instantiating with no arguments resolves,
  and that resolving ends where no chain of parts and bindings loops.
- `src/extension.rs`, `src/intf.rs` — the tables of type extensions (with the
  lookup of an associated item through a type's extensions, then the blanket
  ones) and of interfaces.
- `src/parser_diag.rs`, `src/resolve_diag.rs`, `src/resolution_diag.rs` — the
  diagnostics of the parser (which drops errors while it is out of step with
  the text), of name collection and of identifier and type resolution, and
  their rendering.
- `src/collector.rs`, `src/petal.rs` — the collector's definitions: defining
  and binding names in the innermost scope, with duplicates reported; the
  definition of the types built into the language (`src/builtin.rs` lists
  them) and of the petal names `spathe` and `super`; variable declarations;
  and struct declarations, with their generic parameters collected in a scope
  of their own.
- `src/source.rs`, `src/span.rs`, `src/symbol.rs`, `src/scope.rs` — sources and
  their registry, spans and positions, the symbol interner, scopes.
- `src/parser.rs`, `src/resolve.rs`, `src/hir.rs`, `src/config.rs`, `src/unit.rs`,
  `src/driver.rs`, `src/text.rs`, `src/util.rs` — the parser's binding powers
  and small enums, definitions and bindings, settings, ids, terminal styles
  and numeric helpers.
- `tests/` — tests on concrete values.
- `app/` — reading source files from disk and lexing the root source.

## What is not here

The parser proper (expressions, items, paths, types, with recovery), the
collector's walk over function bodies and expressions, and identifier and type
resolution over the high-level IR are not part of this library: the syntax
tree and the high-level IR they walk are defined outside it.
