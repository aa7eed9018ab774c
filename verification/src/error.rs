//! Error taxonomy of the dataset: I/O, parse, lookup and draw failures.
//!
//! Errors carry the offending identifiers as structured fields; rendering
//! them as text is left to the unverified surface around the library.

use vstd::prelude::*;

verus! {

/// Why a lookup failed.
#[derive(Debug, Clone, PartialEq)]
pub enum LookupKind {
    /// The codepoint is absent from the named font's charmap.
    CodepointMissing { path: String, codepoint: u32 },
    /// The glyph for the codepoint is absent from the named font's
    /// outline table.
    GlyphMissing { path: String, codepoint: u32 },
    /// A named-instance index is out of range for the named font.
    InstanceOutOfRange { path: String, index: usize },
    /// A global sample index is at or past the total sample count.
    SampleOutOfRange { index: usize, total: usize },
    /// The corpus holds no fonts.
    EmptyCorpus,
    /// A font contributes samples but has no indexed codepoints.
    NoIndexedCodepoints { path: String, font: usize },
    /// A font index is out of range.
    FontOutOfRange { index: usize },
    /// A codepoint is absent from the global content vocabulary.
    ContentClassMissing { codepoint: u32 },
}

/// One error of the dataset.
#[derive(Debug, Clone, PartialEq)]
pub enum DatasetError {
    /// A file could not be opened or read.
    IoError { path: String },
    /// A font binary is malformed, or lacks the metrics table that holds
    /// its em-square scale.
    ParseError { path: String, missing_metrics: bool },
    /// A lookup failed; see [`LookupKind`].
    LookupError(LookupKind),
    /// Outline extraction failed inside the font parser.
    DrawError { codepoint: u32 },
}

/// Which step of parsing a font's metadata failed.
#[derive(Debug, Clone, Copy, PartialEq, Eq, Structural)]
pub enum ParseFailure {
    /// The bytes are not a parseable font binary.
    BadBinary,
    /// The font lacks the metrics table with its em-square scale.
    NoMetrics,
}

/// Which step of extracting a glyph outline failed.
#[derive(Debug, Clone, Copy, PartialEq, Eq, Structural)]
pub enum DrawFailure {
    /// The bytes are not a parseable font binary.
    BadBinary,
    /// The glyph id is absent from the outline table.
    MissingGlyph,
    /// The named-instance index is out of range.
    MissingInstance,
    /// The parser reported a drawing failure.
    Failed,
}

} // verus!
