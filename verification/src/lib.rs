use vstd::prelude::*;

pub mod builtin;
pub mod collector;
pub mod config;
pub mod diag;
pub mod driver;
pub mod extension;
pub mod hir;
pub mod intf;
pub mod parser;
pub mod petal;
pub mod parser_diag;
pub mod resolution_diag;
pub mod resolve;
pub mod resolve_diag;
pub mod scope;
pub mod source;
pub mod span;
pub mod lexer;
pub mod lexer_diag;
pub mod lexical;
pub mod symbol;
pub mod text;
pub mod token;
pub mod ty;
pub mod ty_ctx;
pub mod ty_fmt;
pub mod ty_stable;
pub mod ty_state;
pub mod unit;
pub mod util;

verus! {

} // verus!
