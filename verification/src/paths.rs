//! File-name and extension logic on path strings.
//!
//! A path is handled as plain text: the final component starts after the
//! last separator, and the extension is what follows the last dot of that
//! component, provided the dot is not its first character.

use vstd::prelude::*;
use crate::text::{
    is_sep_char, lower_char, lower_seq, upper_char, upper_seq, lower_char_exec, upper_char_exec,
    push_char,
};

verus! {

/// Index where the final path component (the file name) starts.
pub open spec fn file_name_start(p: Seq<char>) -> int
    decreases p.len(),
{
    if p.len() == 0 {
        0
    } else if is_sep_char(p.last()) {
        p.len() as int
    } else {
        file_name_start(p.drop_last())
    }
}

/// The final path component.
pub open spec fn file_name_of(p: Seq<char>) -> Seq<char> {
    p.subrange(file_name_start(p), p.len() as int)
}

/// The extension of the file name, without its dot.
pub open spec fn extension_of(p: Seq<char>) -> Option<Seq<char>> {
    let name = file_name_of(p);
    match name.index_of_last('.') {
        Some(j) => if j > 0 {
            Some(name.subrange(j + 1, name.len() as int))
        } else {
            None
        },
        None => None,
    }
}

/// The fixed set of supported audio container extensions, case-insensitive.
pub open spec fn supported_audio_extension(p: Seq<char>) -> bool {
    match extension_of(p) {
        Some(e) => {
            let l = lower_seq(e);
            ||| l == seq!['m', 'p', '3']
            ||| l == seq!['w', 'a', 'v']
            ||| l == seq!['f', 'l', 'a', 'c']
            ||| l == seq!['m', '4', 'a']
            ||| l == seq!['a', 'a', 'c']
            ||| l == seq!['o', 'g', 'g']
        },
        None => false,
    }
}

/// The uppercased extension, reported as a probed file's format.
pub open spec fn format_of(p: Seq<char>) -> Option<Seq<char>> {
    match extension_of(p) {
        Some(e) => Some(upper_seq(e)),
        None => None,
    }
}

proof fn lemma_file_name_start(p: Seq<char>, i: int)
    requires
        0 <= i <= p.len(),
        forall|j: int| i <= j < p.len() ==> !is_sep_char(p[j]),
        i == 0 || is_sep_char(p[i - 1]),
    ensures
        file_name_start(p) == i,
    decreases p.len(),
{
    if p.len() != 0 && i != p.len() {
        lemma_file_name_start(p.drop_last(), i);
    }
}

fn is_sep_exec(c: char) -> (b: bool)
    ensures
        b == is_sep_char(c),
{
    c == '/' || c == '\\'
}

/// Finds where the file name starts.
fn find_name_start(s: &str) -> (r: usize)
    ensures
        r == file_name_start(s@),
        r <= s@.len(),
{
    let n = s.unicode_len();
    let mut i: usize = n;
    while i > 0 && !is_sep_exec(s.get_char(i - 1))
        invariant
            i <= n,
            n == s@.len(),
            forall|j: int| i <= j < n ==> !is_sep_char(s@[j]),
        decreases i,
    {
        i -= 1;
    }
    proof {
        lemma_file_name_start(s@, i as int);
    }
    i
}

/// Finds the absolute index where the extension starts, if there is one.
fn find_extension_start(s: &str) -> (r: Option<usize>)
    ensures
        match r {
            Some(j) => {
                &&& j <= s@.len()
                &&& extension_of(s@) == Some(s@.subrange(j as int, s@.len() as int))
            },
            None => extension_of(s@) is None,
        },
{
    let ghost name = file_name_of(s@);
    let ns = find_name_start(s);
    let n = s.unicode_len();
    let mut i: usize = n;
    while i > ns && s.get_char(i - 1) != '.'
        invariant
            ns <= i <= n,
            ns == file_name_start(s@),
            n == s@.len(),
            forall|j: int| i <= j < n ==> s@[j] != '.',
        decreases i,
    {
        i -= 1;
    }
    proof {
        name.index_of_last_ensures('.');
    }
    if i == ns {
        proof {
            assert(forall|k: int| 0 <= k < name.len() ==> name[k] == s@[ns + k]);
            assert(!name.contains('.'));
        }
        None
    } else {
        proof {
            let jrel = i - 1 - ns;
            assert(name[jrel] == s@[i - 1]);
            assert(name.contains('.'));
            assert(forall|k: int| jrel < k < name.len() ==> name[k] == s@[ns + k] && name[k] != '.');
            let idx = name.index_of_last('.').unwrap();
            assert(idx == jrel);
        }
        if i - 1 == ns {
            None
        } else {
            proof {
                assert(name.subrange(i - ns, name.len() as int) =~= s@.subrange(
                    i as int,
                    s@.len() as int,
                ));
            }
            Some(i)
        }
    }
}

/// Compares the lowercased tail of `s` (from `start`) against `lit`.
fn lower_matches(s: &str, start: usize, lit: &str) -> (b: bool)
    requires
        start <= s@.len(),
    ensures
        b == (lower_seq(s@.subrange(start as int, s@.len() as int)) == lit@),
{
    let ghost sub = s@.subrange(start as int, s@.len() as int);
    let n = s.unicode_len();
    let m = lit.unicode_len();
    if n - start != m {
        proof {
            assert(lower_seq(sub).len() != lit@.len());
        }
        return false;
    }
    let mut k: usize = 0;
    while k < m
        invariant
            k <= m,
            start + m == n,
            n == s@.len(),
            m == lit@.len(),
            sub == s@.subrange(start as int, s@.len() as int),
            forall|t: int| 0 <= t < k ==> lower_char(sub[t]) == lit@[t],
        decreases m - k,
    {
        if lower_char_exec(s.get_char(start + k)) != lit.get_char(k) {
            proof {
                assert(lower_seq(sub)[k as int] != lit@[k as int]);
            }
            return false;
        }
        k += 1;
    }
    proof {
        assert(lower_seq(sub) =~= lit@);
    }
    true
}

/// Case-insensitive membership of the path's extension in the supported set.
pub fn has_supported_extension(path: &str) -> (b: bool)
    ensures
        b == supported_audio_extension(path@),
{
    match find_extension_start(path) {
        None => false,
        Some(j) => {
            proof {
                reveal_strlit("mp3");
                reveal_strlit("wav");
                reveal_strlit("flac");
                reveal_strlit("m4a");
                reveal_strlit("aac");
                reveal_strlit("ogg");
                assert("mp3"@ =~= seq!['m', 'p', '3']);
                assert("wav"@ =~= seq!['w', 'a', 'v']);
                assert("flac"@ =~= seq!['f', 'l', 'a', 'c']);
                assert("m4a"@ =~= seq!['m', '4', 'a']);
                assert("aac"@ =~= seq!['a', 'a', 'c']);
                assert("ogg"@ =~= seq!['o', 'g', 'g']);
            }
            lower_matches(path, j, "mp3") || lower_matches(path, j, "wav") || lower_matches(
                path,
                j,
                "flac",
            ) || lower_matches(path, j, "m4a") || lower_matches(path, j, "aac") || lower_matches(
                path,
                j,
                "ogg",
            )
        },
    }
}

/// The file name shown to the user; a path without one reads "Unknown".
pub open spec fn display_name(p: Seq<char>) -> Seq<char> {
    if file_name_of(p).len() == 0 {
        "Unknown"@
    } else {
        file_name_of(p)
    }
}

/// Extracts the display name of a path.
pub fn file_display_name(path: &str) -> (r: String)
    ensures
        r@ == display_name(path@),
{
    let ns = find_name_start(path);
    let n = path.unicode_len();
    if ns < n {
        let sub = path.substring_char(ns, n);
        let s = sub.to_owned();
        proof {
            assert(s@ =~= display_name(path@));
        }
        s
    } else {
        proof {
            assert(file_name_of(path@).len() == 0);
        }
        String::from_str("Unknown")
    }
}

/// The uppercased extension as a fresh string, if the path has one.
pub fn format_of_path(path: &str) -> (r: Option<String>)
    ensures
        match r {
            Some(u) => format_of(path@) == Some(u@),
            None => format_of(path@) is None,
        },
{
    match find_extension_start(path) {
        None => None,
        Some(j) => {
            let n = path.unicode_len();
            let mut out = String::new();
            let mut i: usize = j;
            while i < n
                invariant
                    j <= i <= n,
                    n == path@.len(),
                    out@.len() == i - j,
                    forall|k: int| 0 <= k < i - j ==> out@[k] == upper_char(path@[j + k]),
                decreases n - i,
            {
                push_char(&mut out, upper_char_exec(path.get_char(i)));
                i += 1;
            }
            proof {
                assert(out@ =~= upper_seq(path@.subrange(j as int, n as int)));
            }
            Some(out)
        },
    }
}

} // verus!
