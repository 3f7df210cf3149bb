//! Download orchestration.
//!
//! A URL is accepted on a coarse domain allowlist, the downloader is asked
//! for an audio-only extraction, and the produced file's path is recovered
//! from its stdout. The tool's zero exit status is trusted: when the path
//! cannot be resolved or enriched afterwards, the download still counts as
//! a success with an absent file descriptor.

use vstd::prelude::*;
use crate::errors::EngineError;
use crate::probe::AudioFile;
use crate::process::Invocation;
use crate::text::{contains_seq, str_contains, trim_spec, trim_bounds, trim_str};

verus! {

/// A URL the downloader is trusted with: it contains a recognized
/// media-site domain pattern. A coarse allowlist, not a playability check.
pub open spec fn recognized_url(u: Seq<char>) -> bool {
    contains_seq(u, "youtube.com"@) || contains_seq(u, "youtu.be"@)
}

/// Checks a URL against the allowlist.
pub fn is_recognized_url(url: &str) -> (b: bool)
    ensures
        b == recognized_url(url@),
{
    str_contains(url, "youtube.com") || str_contains(url, "youtu.be")
}

/// The output template handed to the downloader: title and extension
/// chosen by the tool, inside the requested directory.
pub open spec fn output_template(dir: Seq<char>) -> Seq<char> {
    dir + "/%(title)s.%(ext)s"@
}

/// The downloader argument list: audio-only extraction at best quality,
/// printing the final on-disk path once the file has been moved in place.
pub open spec fn download_args(url: Seq<char>, dir: Seq<char>) -> Seq<Seq<char>> {
    seq![
        "-x"@,
        "--audio-format"@,
        "mp3"@,
        "--audio-quality"@,
        "0"@,
        "--print"@,
        "after_move:filepath"@,
        "-o"@,
        output_template(dir),
        url,
    ]
}

/// Validates the URL and plans the downloader invocation; nothing is
/// spawned for an unrecognized URL. `downloader` is the caller's
/// filesystem finding, as in conversion planning.
pub fn plan_download(url: &str, output_dir: &str, downloader: Option<&String>) -> (r: Result<
    Invocation,
    EngineError,
>)
    ensures
        !recognized_url(url@) ==> r == Err::<Invocation, EngineError>(EngineError::InvalidUrl),
        recognized_url(url@) && downloader is None ==> r == Err::<Invocation, EngineError>(
            EngineError::BinaryNotFound,
        ),
        recognized_url(url@) && downloader is Some ==> {
            &&& r is Ok
            &&& r.unwrap().program == *downloader.unwrap()
            &&& r.unwrap().args_view() == download_args(url@, output_dir@)
        },
{
    if !is_recognized_url(url) {
        return Err(EngineError::InvalidUrl);
    }
    match downloader {
        None => Err(EngineError::BinaryNotFound),
        Some(p) => {
            let mut template = output_dir.to_owned();
            template.append("/%(title)s.%(ext)s");
            let mut args: Vec<String> = Vec::new();
            args.push(String::from_str("-x"));
            args.push(String::from_str("--audio-format"));
            args.push(String::from_str("mp3"));
            args.push(String::from_str("--audio-quality"));
            args.push(String::from_str("0"));
            args.push(String::from_str("--print"));
            args.push(String::from_str("after_move:filepath"));
            args.push(String::from_str("-o"));
            args.push(template);
            args.push(url.to_owned());
            let inv = Invocation { program: p.clone(), args };
            proof {
                assert(inv.args_view() =~= download_args(url@, output_dir@));
            }
            Ok(inv)
        },
    }
}

/// The last non-blank line of the downloader's stdout, trimmed: the
/// tool's report of where the file went. The downloader may emit progress
/// lines first; stdout that is all whitespace yields no candidate.
pub open spec fn candidate_path(stdout: Seq<char>) -> Option<Seq<char>> {
    let t = trim_spec(stdout);
    if t.len() == 0 {
        None
    } else {
        let line = match t.index_of_last('\n') {
            Some(k) => t.subrange(k + 1, t.len() as int),
            None => t,
        };
        let c = trim_spec(line);
        if c.len() == 0 {
            None
        } else {
            Some(c)
        }
    }
}

/// Recovers the candidate file path from the downloader's stdout.
pub fn candidate_path_from_stdout(stdout: &str) -> (r: Option<String>)
    ensures
        match r {
            Some(c) => candidate_path(stdout@) == Some(c@),
            None => candidate_path(stdout@) is None,
        },
{
    let ghost t = trim_spec(stdout@);
    proof {
        t.index_of_last_ensures('\n');
    }
    let (a, b) = trim_bounds(stdout);
    if a >= b {
        return None;
    }
    proof {
        assert(t =~= stdout@.subrange(a as int, b as int));
    }
    let mut k: usize = b;
    while k > a && stdout.get_char(k - 1) != '\n'
        invariant
            a <= k <= b <= stdout@.len(),
            forall|i: int| k <= i < b ==> stdout@[i] != '\n',
        decreases k,
    {
        k -= 1;
    }
    let start: usize = if k == a {
        proof {
            assert(forall|i: int| 0 <= i < t.len() ==> t[i] == stdout@[a + i]);
            assert(!t.contains('\n'));
        }
        a
    } else {
        proof {
            assert(t[k - 1 - a] == stdout@[k - 1]);
            assert(t.contains('\n'));
            let idx = t.index_of_last('\n').unwrap();
            assert(forall|i: int| k - a <= i < t.len() ==> t[i] == stdout@[a + i] && t[i] != '\n');
            assert(idx == k - 1 - a);
        }
        k
    };
    let line_str = stdout.substring_char(start, b);
    let c = trim_str(line_str);
    proof {
        let line = if t.index_of_last('\n') is Some {
            t.subrange(t.index_of_last('\n').unwrap() + 1, t.len() as int)
        } else {
            t
        };
        assert(line_str@ =~= line);
    }
    if c.as_str().is_empty() {
        None
    } else {
        Some(c)
    }
}

/// Outcome of a successful download: a message for the user and, when the
/// produced file could be resolved on disk, its descriptor.
pub struct DownloadResult {
    pub message: String,
    pub file: Option<AudioFile>,
}

/// The success message.
pub open spec fn download_message(url: Seq<char>) -> Seq<char> {
    "Successfully downloaded: "@ + url
}

/// Wraps up a download whose process exited zero. The exit status is
/// trusted: an unresolved path or a failed enrichment leaves `file`
/// absent and is still reported as success, never as an error.
pub fn download_result(url: &str, file: Option<AudioFile>) -> (r: DownloadResult)
    ensures
        r.message@ == download_message(url@),
        r.file == file,
{
    let mut m = String::from_str("Successfully downloaded: ");
    m.append(url);
    proof {
        assert(m@ =~= download_message(url@));
    }
    DownloadResult { message: m, file }
}

} // verus!
