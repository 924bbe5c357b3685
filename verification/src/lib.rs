//! A schema-driven, backtracking recursive-descent parsing library.
//!
//! A schema describes the shape of a value — an ordered record of fields, or a
//! tagged union of variants — together with per-field directives: literal
//! tokens, patterns, delimiting prefixes and suffixes, repetition with
//! separators, optionality with cascading, lookahead exclusions, and named
//! contextual markers. Interpreting a schema against a character cursor yields
//! a structured value, or fails with the cursor fully restored and the
//! expectation at the furthest position recorded for diagnostics.
//!
//! The parse functions carry their guarantees as contracts: a successful parse
//! only ever advances the cursor, and a located record's span covers exactly
//! the consumed input; a failed parse leaves the cursor untouched; marker
//! declarations are retracted on success and failure alike, while marker
//! overrides are restored on failure only and persist on success; a cascading
//! optional field defaults without consuming once an earlier optional field
//! has failed; and a union of literal-driven variants yields exactly the first
//! declared variant recognized at the cursor, whose token the display label
//! reproduces. For fields read by a literal or pattern directive — and for
//! whole records of such fields — the attempt's outcome, the values produced,
//! and the final cursor position are pinned exactly by a specification-level
//! reading of the directives.

pub mod attributes;
pub mod location;
pub mod markers;
pub mod pattern;
pub mod reader;
pub mod parse;
pub mod schema;
