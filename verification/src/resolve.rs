//! Bundled-binary resolution.
//!
//! Each tool must sit directly beside the running application executable,
//! under its platform-conventional file name. There is no fallback to a
//! system-wide lookup: a missing bundled binary is always an error.

use vstd::prelude::*;
use crate::errors::EngineError;
use crate::text::push_char;

verus! {

/// The tools the engine orchestrates.
#[derive(Clone, Copy, PartialEq, Eq, Structural, Debug)]
pub enum Tool {
    Transcoder,
    Prober,
    Downloader,
}

/// Platform family, which decides the executable suffix and the separator.
#[derive(Clone, Copy, PartialEq, Eq, Structural, Debug)]
pub enum Platform {
    Windows,
    Posix,
}

/// Base executable name of a tool.
pub open spec fn tool_base_name(t: Tool) -> Seq<char> {
    match t {
        Tool::Transcoder => "ffmpeg"@,
        Tool::Prober => "ffprobe"@,
        Tool::Downloader => "yt-dlp"@,
    }
}

/// Executable file name of a tool, with `.exe` on the Windows family.
pub open spec fn tool_file_name(t: Tool, p: Platform) -> Seq<char> {
    match p {
        Platform::Windows => tool_base_name(t) + ".exe"@,
        Platform::Posix => tool_base_name(t),
    }
}

/// The platform's path separator.
pub open spec fn sep_char(p: Platform) -> char {
    match p {
        Platform::Windows => '\\',
        Platform::Posix => '/',
    }
}

/// Where a bundled tool must sit: directly inside the directory of the
/// running executable.
pub open spec fn resolved_tool_path(exe_dir: Seq<char>, t: Tool, p: Platform) -> Seq<char> {
    exe_dir + seq![sep_char(p)] + tool_file_name(t, p)
}

/// Computes the path a bundled tool must have. The caller checks the
/// filesystem for it; existence is not this function's business.
pub fn resolve_tool_path(exe_dir: &str, tool: Tool, platform: Platform) -> (r: String)
    ensures
        r@ == resolved_tool_path(exe_dir@, tool, platform),
{
    let mut s = exe_dir.to_owned();
    match platform {
        Platform::Windows => push_char(&mut s, '\\'),
        Platform::Posix => push_char(&mut s, '/'),
    }
    match tool {
        Tool::Transcoder => s.append("ffmpeg"),
        Tool::Prober => s.append("ffprobe"),
        Tool::Downloader => s.append("yt-dlp"),
    }
    match platform {
        Platform::Windows => s.append(".exe"),
        Platform::Posix => (),
    }
    proof {
        assert(s@ =~= resolved_tool_path(exe_dir@, tool, platform));
    }
    s
}

/// Maps the caller's filesystem finding onto the resolver's answer: the
/// resolved path when the binary is there, `BinaryNotFound` otherwise.
pub fn check_tool_present(path: String, exists: bool) -> (r: Result<String, EngineError>)
    ensures
        exists ==> r == Ok::<String, EngineError>(path),
        !exists ==> r == Err::<String, EngineError>(EngineError::BinaryNotFound),
{
    if exists {
        Ok(path)
    } else {
        Err(EngineError::BinaryNotFound)
    }
}

/// What the presentation layer may ask before offering an action.
pub struct Capabilities {
    pub platform: String,
    pub arch: String,
    pub transcoder_available: bool,
    pub downloader_available: bool,
}

/// Bundles the diagnostics the caller gathered into one answer.
pub fn capabilities(
    platform: String,
    arch: String,
    transcoder_available: bool,
    downloader_available: bool,
) -> (c: Capabilities)
    ensures
        c.platform == platform,
        c.arch == arch,
        c.transcoder_available == transcoder_available,
        c.downloader_available == downloader_available,
{
    Capabilities { platform, arch, transcoder_available, downloader_available }
}

} // verus!
