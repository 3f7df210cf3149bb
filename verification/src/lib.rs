//! Media orchestration engine.
//!
//! The engine plans and classifies the work of three bundled command-line
//! tools: a transcoder (format conversion and pitch shifting), a prober
//! (media metadata) and a downloader (remote audio extraction). Everything
//! here is pure decision logic: the caller performs the filesystem checks
//! and spawns the processes, and hands the observed outcomes back in as
//! plain values.

use vstd::prelude::*;

pub mod convert;
pub mod download;
pub mod errors;
pub mod paths;
pub mod pitch;
pub mod probe;
pub mod process;
pub mod resolve;
pub mod text;

verus! {

/// Forward-looking progress reporting for long conversions and downloads:
/// a reserved extension point that no producer fills yet. The percentage
/// is in whole percent.
pub struct ProcessingProgress {
    pub percentage: u32,
    pub status: String,
    pub current_file: Option<String>,
}

} // verus!
