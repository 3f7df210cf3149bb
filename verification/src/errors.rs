//! The engine's error taxonomy.
//!
//! Validation errors (`FileNotFound`, `UnsupportedFormat`, `InvalidUrl`,
//! `BinaryNotFound`) are reported before any process would be spawned.
//! Process errors carry the tool's own diagnostic text verbatim so the
//! caller can surface it unchanged.

use vstd::prelude::*;

verus! {

/// Everything that can go wrong while orchestrating the external tools.
#[derive(Debug, PartialEq, Eq)]
pub enum EngineError {
    /// The input file does not exist on disk.
    FileNotFound,
    /// The input file's extension is not one of the supported audio formats.
    UnsupportedFormat,
    /// The URL does not match a recognized media-site domain pattern.
    InvalidUrl,
    /// A bundled tool binary is missing from the application directory.
    BinaryNotFound,
    /// The tool process could not be launched; carries the OS error text.
    SpawnFailed(String),
    /// The tool ran and exited nonzero; carries its stderr verbatim.
    NonZeroExit(String),
    /// The tool's output could not be parsed.
    OutputParseFailed,
    /// The tool did not finish within the caller's deadline.
    Timeout,
}

} // verus!
