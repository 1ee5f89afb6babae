//! Workspace-wide bound constants.
//!
//! Every refined collection and identifier in the crate is bounded by
//! one of these values.
use vstd::prelude::*;

verus! {

/// Maximum number of attributes in a single relation schema.
pub const MAX_SCHEMA_ATTRIBUTES: usize = 256;

/// Maximum length, in characters, of an attribute name.
pub const MAX_ATTRIBUTE_NAME_LEN: usize = 64;

/// Maximum length, in characters, of a table name.
pub const MAX_TABLE_NAME_LEN: usize = 64;

/// Maximum length, in characters, of a `LIKE` pattern (and of the
/// string forms that decimal, date-time and JSON literals are held in).
pub const MAX_PATTERN_LEN: usize = 1024;

/// Maximum number of steps in a path.
pub const MAX_PATH_STEPS: usize = 32;

/// Maximum positional index inside a path step.
pub const MAX_PATH_INDEX: usize = 65536;

/// Maximum number of literals in an `IN` list.
pub const MAX_IN_LIST: usize = 1024;

/// Maximum `OFFSET` value (`u64::MAX / 2`).
pub const MAX_OFFSET: u64 = 9223372036854775807;

/// Maximum `LIMIT` count (`u64::MAX / 2`).
pub const MAX_LIMIT_COUNT: u64 = 9223372036854775807;

/// Maximum number of rows carried inline in the AST.
pub const MAX_ROWS_IN_AST: usize = 16384;

/// Maximum number of elements of an array value.
pub const MAX_ARRAY_LEN: usize = 16384;

} // verus!
