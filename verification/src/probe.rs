//! Metadata probing.
//!
//! The prober is asked for nothing but the container duration, in a
//! minimal machine-readable form: one plain decimal number. Its stdout is
//! parsed exactly; any failure along the way — the binary missing, a
//! nonzero exit, unparseable output — degrades to "duration unknown" and
//! never fails the surrounding operation.

use vstd::prelude::*;
use crate::errors::EngineError;
use crate::paths::{display_name, format_of, file_display_name, format_of_path};
use crate::process::{classify_outcome, Invocation, ProcessOutcome};
use crate::text::{
    all_digits, digits_val, is_digit_char, trim_spec, trim_bounds, is_digit_exec,
    parse_digits_range, lemma_digits_val_nonneg,
};

verus! {

/// A media duration in whole seconds and microseconds; the prober's
/// fraction is truncated beyond six digits.
#[derive(Clone, Copy, PartialEq, Eq, Structural, Debug)]
pub struct Duration {
    pub secs: u64,
    pub micros: u32,
}

impl Duration {
    /// Well-formed: the microsecond part never reaches a whole second.
    pub open spec fn wf(&self) -> bool {
        self.micros < 1000000
    }
}

/// Powers of ten.
pub open spec fn ten_pow(k: nat) -> int
    decreases k,
{
    if k == 0 {
        1
    } else {
        10 * ten_pow((k - 1) as nat)
    }
}

proof fn lemma_ten_pow_values()
    ensures
        ten_pow(0) == 1,
        ten_pow(1) == 10,
        ten_pow(2) == 100,
        ten_pow(3) == 1000,
        ten_pow(4) == 10000,
        ten_pow(5) == 100000,
        ten_pow(6) == 1000000,
{
    assert(ten_pow(0) == 1);
    assert(ten_pow(1) == 10);
    assert(ten_pow(2) == 100);
    assert(ten_pow(3) == 1000);
    assert(ten_pow(4) == 10000);
    assert(ten_pow(5) == 100000);
    assert(ten_pow(6) == 1000000);
}

/// A digit string's value is below ten to its length.
proof fn lemma_digits_val_upper(s: Seq<char>)
    requires
        all_digits(s),
    ensures
        digits_val(s) < ten_pow(s.len()),
    decreases s.len(),
{
    if s.len() > 0 {
        lemma_digits_val_upper(s.drop_last());
    }
}

proof fn lemma_ten_pow_adds(a: nat, b: nat)
    ensures
        ten_pow(a + b) == ten_pow(a) * ten_pow(b),
    decreases a,
{
    if a == 0 {
    } else {
        lemma_ten_pow_adds((a - 1) as nat, b);
        assert(ten_pow(a + b) == 10 * ten_pow((a + b - 1) as nat));
        assert(ten_pow(a) * ten_pow(b) == 10 * (ten_pow((a - 1) as nat) * ten_pow(b)))
            by (nonlinear_arith)
            requires
                ten_pow(a) == 10 * ten_pow((a - 1) as nat),
        ;
    }
}

fn ten_pow_exec(e: usize) -> (p: u64)
    requires
        e <= 6,
    ensures
        p == ten_pow(e as nat),
{
    proof {
        lemma_ten_pow_values();
    }
    match e {
        0 => 1,
        1 => 10,
        2 => 100,
        3 => 1000,
        4 => 10000,
        5 => 100000,
        _ => 1000000,
    }
}

/// Microseconds encoded by a decimal fraction: its first six digits,
/// padded with zeros on the right, further digits truncated.
pub open spec fn micros_of_frac(f: Seq<char>) -> int {
    if f.len() >= 6 {
        digits_val(f.subrange(0, 6))
    } else {
        digits_val(f) * ten_pow((6 - f.len()) as nat)
    }
}

/// The prober's stdout parsed as a duration: optional surrounding
/// whitespace around `digits [ '.' digits ]` with at least one digit, the
/// whole-second part within `u64`. Anything else is unparseable.
pub open spec fn spec_parse_duration(s: Seq<char>) -> Option<Duration> {
    let t = trim_spec(s);
    match t.index_of_first('.') {
        None => {
            if t.len() > 0 && all_digits(t) && digits_val(t) <= u64::MAX {
                Some(Duration { secs: digits_val(t) as u64, micros: 0 })
            } else {
                None
            }
        },
        Some(j) => {
            let ip = t.subrange(0, j);
            let fp = t.subrange(j + 1, t.len() as int);
            if ip.len() + fp.len() > 0 && all_digits(ip) && all_digits(fp) && digits_val(ip)
                <= u64::MAX {
                Some(Duration { secs: digits_val(ip) as u64, micros: micros_of_frac(fp) as u32 })
            } else {
                None
            }
        },
    }
}

/// Whatever parses is well-formed: the fraction encodes less than one
/// whole second of microseconds.
pub proof fn lemma_parse_duration_wf(s: Seq<char>)
    ensures
        spec_parse_duration(s) matches Some(d) ==> d.wf(),
{
    lemma_ten_pow_values();
    let t = trim_spec(s);
    match t.index_of_first('.') {
        None => {},
        Some(j) => {
            t.index_of_first_ensures('.');
            let fp = t.subrange(j + 1, t.len() as int);
            if all_digits(fp) {
                if fp.len() >= 6 {
                    assert(all_digits(fp.subrange(0, 6)));
                    lemma_digits_val_upper(fp.subrange(0, 6));
                    lemma_digits_val_nonneg(fp.subrange(0, 6));
                } else {
                    lemma_digits_val_upper(fp);
                    lemma_digits_val_nonneg(fp);
                    lemma_ten_pow_adds(fp.len(), (6 - fp.len()) as nat);
                    assert(ten_pow((6 - fp.len()) as nat) > 0) by {
                        lemma_ten_pow_positive((6 - fp.len()) as nat);
                    }
                    assert(digits_val(fp) * ten_pow((6 - fp.len()) as nat) < ten_pow(6))
                        by (nonlinear_arith)
                        requires
                            0 <= digits_val(fp) < ten_pow(fp.len()),
                            ten_pow((6 - fp.len()) as nat) > 0,
                            ten_pow(fp.len()) * ten_pow((6 - fp.len()) as nat) == ten_pow(6),
                    ;
                }
            }
        },
    }
}

proof fn lemma_ten_pow_positive(k: nat)
    ensures
        ten_pow(k) > 0,
    decreases k,
{
    if k > 0 {
        lemma_ten_pow_positive((k - 1) as nat);
    }
}

/// Checks that a whole range of the string is decimal digits.
fn all_digits_range(s: &str, start: usize, end: usize) -> (b: bool)
    requires
        start <= end <= s@.len(),
    ensures
        b == all_digits(s@.subrange(start as int, end as int)),
{
    let mut i: usize = start;
    while i < end
        invariant
            start <= i <= end <= s@.len(),
            forall|k: int| start <= k < i ==> is_digit_char(s@[k]),
        decreases end - i,
    {
        if !is_digit_exec(s.get_char(i)) {
            proof {
                assert(s@.subrange(start as int, end as int)[i - start] == s@[i as int]);
            }
            return false;
        }
        i += 1;
    }
    proof {
        assert forall|k: int| 0 <= k < end - start implies is_digit_char(
            s@.subrange(start as int, end as int)[k],
        ) by {
            assert(s@.subrange(start as int, end as int)[k] == s@[start + k]);
        }
    }
    true
}

/// Parses the prober's stdout, exactly as `spec_parse_duration` says.
pub fn parse_duration(s: &str) -> (r: Option<Duration>)
    ensures
        r == spec_parse_duration(s@),
        r matches Some(d) ==> d.wf(),
{
    let ghost t = trim_spec(s@);
    proof {
        t.index_of_first_ensures('.');
        lemma_parse_duration_wf(s@);
    }
    let (a, b) = trim_bounds(s);
    if a >= b {
        proof {
            assert(t.len() == 0);
        }
        return None;
    }
    proof {
        assert(t =~= s@.subrange(a as int, b as int));
    }
    let mut j: usize = a;
    while j < b && s.get_char(j) != '.'
        invariant
            a <= j <= b <= s@.len(),
            forall|k: int| a <= k < j ==> s@[k] != '.',
        decreases b - j,
    {
        j += 1;
    }
    if j == b {
        proof {
            assert(forall|k: int| 0 <= k < t.len() ==> t[k] == s@[a + k]);
            assert(!t.contains('.'));
        }
        if !all_digits_range(s, a, b) {
            return None;
        }
        match parse_digits_range(s, a, b) {
            Some(v) => Some(Duration { secs: v, micros: 0 }),
            None => None,
        }
    } else {
        let ghost jr = j - a;
        proof {
            assert(t[jr] == s@[j as int]);
            assert(t.contains('.'));
            let idx = t.index_of_first('.').unwrap();
            assert(forall|k: int| 0 <= k < jr ==> t[k] == s@[a + k] && t[k] != '.');
            assert(idx == jr);
        }
        let ghost ip = t.subrange(0, jr);
        let ghost fp = t.subrange(jr + 1, t.len() as int);
        proof {
            assert(ip =~= s@.subrange(a as int, j as int));
            assert(fp =~= s@.subrange(j + 1, b as int));
        }
        let ip_ok = all_digits_range(s, a, j);
        let fp_ok = all_digits_range(s, j + 1, b);
        if !ip_ok || !fp_ok {
            return None;
        }
        if a == j && j + 1 == b {
            return None;
        }
        match parse_digits_range(s, a, j) {
            None => None,
            Some(secs) => {
                let frac_len = b - (j + 1);
                let k = if frac_len >= 6 {
                    6
                } else {
                    frac_len
                };
                proof {
                    lemma_ten_pow_values();
                    lemma_digits_val_upper(s@.subrange(j + 1, j + 1 + k as int));
                    if (k as int) < 6 {
                        lemma_ten_pow_adds(k as nat, (6 - k) as nat);
                    }
                    lemma_digits_val_nonneg(s@.subrange(j + 1, j + 1 + k as int));
                    if k < 6 {
                        assert(digits_val(s@.subrange(j + 1, j + 1 + k as int)) * ten_pow(
                            (6 - k) as nat,
                        ) < ten_pow(6)) by (nonlinear_arith)
                            requires
                                0 <= digits_val(s@.subrange(j + 1, j + 1 + k as int)) < ten_pow(
                                    k as nat,
                                ),
                                ten_pow((6 - k) as nat) > 0,
                                ten_pow(k as nat) * ten_pow((6 - k) as nat) == ten_pow(6),
                        ;
                    }
                }
                match parse_digits_range(s, j + 1, j + 1 + k) {
                    None => {
                        proof {
                            assert(false);
                        }
                        None
                    },
                    Some(fv) => {
                        let mult = ten_pow_exec(6 - k);
                        let micros64 = fv * mult;
                        proof {
                            if k == 6 {
                                assert(fp.subrange(0, 6) =~= s@.subrange(j + 1, j + 7));
                            }
                        }
                        Some(Duration { secs, micros: micros64 as u32 })
                    },
                }
            },
        }
    }
}

/// The duration from a probe run, or why it could not be had: the
/// classified process failure, or `OutputParseFailed` for a zero exit
/// whose stdout is not a duration.
pub fn probe_duration(outcome: ProcessOutcome) -> (r: Result<Duration, EngineError>)
    ensures
        match outcome {
            ProcessOutcome::Exited { exit_zero: true, stdout, stderr } => match spec_parse_duration(
                stdout@,
            ) {
                Some(d) => r == Ok::<Duration, EngineError>(d),
                None => r == Err::<Duration, EngineError>(EngineError::OutputParseFailed),
            },
            ProcessOutcome::Exited { exit_zero: false, stdout, stderr } => r == Err::<
                Duration,
                EngineError,
            >(EngineError::NonZeroExit(stderr)),
            ProcessOutcome::SpawnFailed(m) => r == Err::<Duration, EngineError>(
                EngineError::SpawnFailed(m),
            ),
            ProcessOutcome::TimedOut => r == Err::<Duration, EngineError>(EngineError::Timeout),
        },
{
    match classify_outcome(outcome) {
        Err(e) => Err(e),
        Ok((stdout, _stderr)) => match parse_duration(stdout.as_str()) {
            Some(d) => Ok(d),
            None => Err(EngineError::OutputParseFailed),
        },
    }
}

/// A duration is known only when the prober exited zero and its stdout
/// parsed; every other outcome means "unknown", not an error.
pub open spec fn spec_duration_from_outcome(o: ProcessOutcome) -> Option<Duration> {
    match o {
        ProcessOutcome::Exited { exit_zero, stdout, stderr } => {
            if exit_zero {
                spec_parse_duration(stdout@)
            } else {
                None
            }
        },
        _ => None,
    }
}

/// Extracts the duration from a probe run's outcome.
pub fn duration_from_outcome(outcome: &ProcessOutcome) -> (r: Option<Duration>)
    ensures
        r == spec_duration_from_outcome(*outcome),
{
    match outcome {
        ProcessOutcome::Exited { exit_zero, stdout, stderr } => {
            if *exit_zero {
                parse_duration(stdout.as_str())
            } else {
                None
            }
        },
        _ => None,
    }
}

/// Descriptor of a media asset. `size` is always known for an existing
/// file; `duration` and `format` are best-effort enrichments whose absence
/// is not an error.
pub struct AudioFile {
    pub name: String,
    pub path: String,
    pub size: u64,
    pub duration: Option<Duration>,
    pub format: Option<String>,
}

/// An optional owned string carries exactly an optional view.
pub open spec fn option_string_is(o: Option<String>, v: Option<Seq<char>>) -> bool {
    match o {
        Some(s) => v is Some && s@ == v.unwrap(),
        None => v is None,
    }
}

/// The prober invocation: quiet, duration-only, plain output.
pub fn probe_invocation(prober_path: String, file_path: &str) -> (inv: Invocation)
    ensures
        inv.program == prober_path,
        inv.args_view() == seq![
            "-v"@,
            "quiet"@,
            "-show_entries"@,
            "format=duration"@,
            "-of"@,
            "csv=p=0"@,
            file_path@,
        ],
{
    let mut args: Vec<String> = Vec::new();
    args.push(String::from_str("-v"));
    args.push(String::from_str("quiet"));
    args.push(String::from_str("-show_entries"));
    args.push(String::from_str("format=duration"));
    args.push(String::from_str("-of"));
    args.push(String::from_str("csv=p=0"));
    args.push(file_path.to_owned());
    let inv = Invocation { program: prober_path, args };
    proof {
        assert(inv.args_view() =~= seq![
            "-v"@,
            "quiet"@,
            "-show_entries"@,
            "format=duration"@,
            "-of"@,
            "csv=p=0"@,
            file_path@,
        ]);
    }
    inv
}

/// Builds the descriptor of a file the caller found on disk (`exists`,
/// `size` are its filesystem findings; `probe_outcome` is the prober run,
/// absent when the prober could not even be started). Probing failure
/// leaves the duration absent; it never fails the operation.
pub fn build_audio_file(
    path: &str,
    exists: bool,
    size: u64,
    probe_outcome: Option<&ProcessOutcome>,
) -> (r: Result<AudioFile, EngineError>)
    ensures
        !exists ==> r == Err::<AudioFile, EngineError>(EngineError::FileNotFound),
        exists ==> {
            &&& r is Ok
            &&& r.unwrap().name@ == display_name(path@)
            &&& r.unwrap().path@ == path@
            &&& r.unwrap().size == size
            &&& r.unwrap().duration == (match probe_outcome {
                Some(o) => spec_duration_from_outcome(*o),
                None => None::<Duration>,
            })
            &&& option_string_is(r.unwrap().format, format_of(path@))
        },
{
    if !exists {
        return Err(EngineError::FileNotFound);
    }
    let name = file_display_name(path);
    let duration = match probe_outcome {
        Some(o) => duration_from_outcome(o),
        None => None,
    };
    let format = format_of_path(path);
    Ok(AudioFile { name, path: path.to_owned(), size, duration, format })
}

} // verus!
