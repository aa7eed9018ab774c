//! A font corpus indexed as a flat sample space for training pipelines.
//!
//! Each sample is a (font, style instance, codepoint) triple addressed by one
//! global linear index. The library holds the verified core: the prefix-sum
//! index that translates between global indices and per-font coordinates, and
//! the outline vectorizer that turns glyph draw events into a fixed-stride
//! command/coordinate encoding. File discovery and the float-facing surface
//! live outside the library.

pub mod dataset;
pub mod entry;
pub mod index;
pub mod error;
pub mod fileext;
pub mod order;
pub mod pen;
