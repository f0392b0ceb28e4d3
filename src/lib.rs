//! Finds the regions of a Rust source file that are marked `unsafe` (unsafe
//! blocks, functions, traits and impls) and answers whether a given line and
//! column falls inside one of them.
//!
//! - `span`: positions and inclusive spans.
//! - `visitor`: the syntax tree handed in by a parser, and the walk that
//!   collects its unsafe constructs.
//! - `locations`: the per-file index and the point query over it.
//! - `engine`: the cache of indexes keyed by path, analyzed on first use.
//! - `error`: error kinds and their status codes.
//! - `theorems`: what holds of the index and the cache across calls.
//! - `samples`: the safe functions of the bundled analysis targets.

mod engine;
mod error;
mod locations;
mod samples;
mod span;
mod theorems;
mod visitor;

pub use engine::{answer, CacheEntry, FindUnsafeRs};
pub use error::{
    errno_code, error_status, invalid_argument_status, status_of, Error, FileFailure, IoErrorKind, ERRNO_EINVAL, ERRNO_EIO,
    ERRNO_ENOLCK, PARSE_ERROR_STATUS,
};
pub use locations::{
    kinds_view, lemma_concat_assoc, lemma_concat_empty, matching, named_at, named_kind, spans_at, KindView,
    LocationsView, NamedSpan, UnsafeLocationKind, UnsafeLocations,
};
pub use samples::{bar, sanitize, sink, source, Foo, SOURCE_VALUE};
pub use span::{
    lemma_point_span, lemma_span_boundaries, position_le, position_le_exec, span_contains, LineColumn, SimpleSpan,
};
pub use theorems::{
    forest_nested, in_forest, in_tree, lemma_boundaries_reported, lemma_construct_reported, is_recorded, reported_kind, lemma_block_reported_iff,
    lemma_blocks_of_tree, lemma_cross_file_isolation, lemma_function_reported, lemma_functions_of_tree,
    lemma_lazy_analysis_is_cached, lemma_nested_block_in_function, lemma_reanalyze_overwrites, span_within,
    well_nested,
};
pub use visitor::{forest_locations, locations_of, node_locations, tree_locations, NodeKind, SyntaxNode, UnsafeVisitor};
