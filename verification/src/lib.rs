//! Extracts and flattens raster artwork from a layered-drawing container:
//! a keyed object graph describing a tree of layers and groups, plus
//! per-layer raster data stored as compressed fixed-size square tiles.
//!
//! The crate decodes the graph into typed domain objects, reassembles each
//! layer's pixel buffer from its tiles, and composites the tree back-to-front
//! into one canvas. Container I/O, the raw property-list parser and the final
//! image encoder live outside this crate; callers hand in the decoded value
//! tree and the raw tile entries.

pub mod composite;
pub mod document;
pub mod error;
pub mod ns_archive;
pub mod parse;
pub mod raster;
pub mod tiles;
pub mod tiling;
