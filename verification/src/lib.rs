//! Extraction of a deterministic, deduplicated model of a library's
//! data-facing public interface from a symbol graph: a read-only collection of
//! kind-tagged items that reference each other by id.
//!
//! The core is a work-queue traversal engine that expands items into
//! root-to-item paths, inlines re-exports, prunes implementation noise and
//! breaks cycles, together with a normalizer that maps raw type references
//! into a portable type representation.  Output is a deterministically sorted
//! list of public items plus a list of missing-reference diagnostics.

pub mod graph;
pub mod intermediate_public_item;
pub mod item_processor;
pub mod parser;
pub mod public_api;
pub mod render;
pub mod rust_types;
pub mod text;
