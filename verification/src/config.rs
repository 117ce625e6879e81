use vstd::prelude::*;

use crate::token::TokenKind;

verus! {

/// The extension of source files.
pub const HYC_FILE_EXT: &'static str = "hyc";

/// The file that holds a petal declared by a directory.
pub const HYC_DIR_PETAL_FILE: &'static str = "petal.hyc";

/// The token that separates the segments of a path.
pub const HYC_PATH_SEP_TOK_KIND: TokenKind = TokenKind::ColonColon;

/// The most fields a struct may have.
pub const HYC_STRUCT_FIELD_LIMIT: usize = 64;

} // verus!
