//! Pitch-shift planning.
//!
//! A shift of `n` semitones on the equal-tempered scale multiplies the
//! sample rate by 2^(n/12). Floating point stays out of the engine: the
//! multiplier is an exact rational `num / den` in a fixed-point scale of
//! 2^20, built from a rounded table of the twelve within-octave factors
//! and exact powers of two for the octaves. The transcoder receives the
//! ratio inside its filter expression and evaluates it itself, so the
//! resulting transform shifts pitch and tempo together.

use vstd::prelude::*;
use vstd::arithmetic::power2::{
    pow2, lemma_pow2_pos, lemma_pow2_unfold, lemma_pow2_strictly_increases,
    lemma2_to64, lemma2_to64_rest,
};
use vstd::arithmetic::div_mod::{lemma_fundamental_div_mod, lemma_fundamental_div_mod_converse};
use crate::text::{dec_seq, u64_to_string};

verus! {

/// Fixed-point factor 2^(r/12) * 2^20, rounded to the nearest integer,
/// for one within-octave step `r` in `0..12`.
pub open spec fn semitone_factor(r: int) -> int {
    if r == 0 {
        0x100000
    } else if r == 1 {
        1110928
    } else if r == 2 {
        1176987
    } else if r == 3 {
        1246974
    } else if r == 4 {
        1321123
    } else if r == 5 {
        1399681
    } else if r == 6 {
        1482910
    } else if r == 7 {
        1571089
    } else if r == 8 {
        1664511
    } else if r == 9 {
        1763488
    } else if r == 10 {
        1868350
    } else {
        1979448
    }
}

/// Numerator of the resample multiplier for a shift of `n` semitones.
pub open spec fn pitch_num(n: int) -> int {
    if n / 12 >= 0 {
        semitone_factor(n % 12) * pow2((n / 12) as nat) as int
    } else {
        semitone_factor(n % 12)
    }
}

/// Denominator of the resample multiplier for a shift of `n` semitones.
pub open spec fn pitch_den(n: int) -> int {
    if n / 12 >= 0 {
        0x100000
    } else {
        0x100000 * pow2((-(n / 12)) as nat) as int
    }
}

/// A zero shift is exactly the identity multiplier: the ratio is one.
pub proof fn lemma_zero_shift_identity()
    ensures
        pitch_num(0) == pitch_den(0),
{
    lemma2_to64();
}

/// Both sides of the multiplier are positive.
pub proof fn lemma_pitch_positive(n: int)
    ensures
        pitch_num(n) >= 0x100000,
        pitch_den(n) >= 0x100000,
{
    lemma_pow2_pos((if n / 12 >= 0 { n / 12 } else { -(n / 12) }) as nat);
    let q = n / 12;
    if q >= 0 {
        assert(semitone_factor(n % 12) * pow2(q as nat) >= 0x100000) by (nonlinear_arith)
            requires
                semitone_factor(n % 12) >= 0x100000,
                pow2(q as nat) >= 1,
        ;
    } else {
        assert(0x100000 * pow2((-q) as nat) >= 0x100000) by (nonlinear_arith)
            requires
                pow2((-q) as nat) >= 1,
        ;
    }
}

/// One semitone up strictly raises the multiplier.
proof fn lemma_pitch_step(n: int)
    ensures
        pitch_num(n) * pitch_den(n + 1) < pitch_num(n + 1) * pitch_den(n),
{
    let q = n / 12;
    let r = n % 12;
    lemma_fundamental_div_mod(n, 12);
    if r < 11 {
        lemma_fundamental_div_mod_converse(n + 1, 12, q, r + 1);
    } else {
        lemma_fundamental_div_mod_converse(n + 1, 12, q + 1, 0);
    }
    let q2 = (n + 1) / 12;
    let r2 = (n + 1) % 12;
    let c = semitone_factor(r);
    let c2 = semitone_factor(r2);
    if r < 11 {
        // same octave: the table is strictly increasing
        if q >= 0 {
            let p = pow2(q as nat);
            lemma_pow2_pos(q as nat);
            assert((c * p) * 0x100000 < (c2 * p) * 0x100000) by (nonlinear_arith)
                requires
                    c < c2,
                    p >= 1,
            ;
            assert(pitch_num(n) * pitch_den(n + 1) < pitch_num(n + 1) * pitch_den(n));
        } else {
            let p = pow2((-q) as nat);
            lemma_pow2_pos((-q) as nat);
            assert(c * (0x100000 * p) < c2 * (0x100000 * p)) by (nonlinear_arith)
                requires
                    c < c2,
                    p >= 1,
            ;
            assert(pitch_num(n) * pitch_den(n + 1) < pitch_num(n + 1) * pitch_den(n));
        }
    } else {
        // octave boundary: twice the base factor exceeds the last table entry
        assert(c == 1979448 && c2 == 0x100000);
        if q >= 0 {
            let p = pow2(q as nat);
            lemma_pow2_pos(q as nat);
            lemma_pow2_unfold((q + 1) as nat);
            assert(pow2((q + 1) as nat) == 2 * p);
            assert((c * p) * 0x100000 < (c2 * (2 * p)) * 0x100000) by (nonlinear_arith)
                requires
                    c < 2 * c2,
                    p >= 1,
                    c2 == 0x100000,
            ;
            assert(pitch_num(n) * pitch_den(n + 1) < pitch_num(n + 1) * pitch_den(n));
        } else if q == -1 {
            lemma_pow2_unfold(1);
            lemma2_to64();
            assert(pitch_num(n) == c);
            assert(pitch_den(n) == 0x100000 * 2);
            assert(pitch_num(n + 1) == c2 * 1);
            assert(pitch_den(n + 1) == 0x100000);
            assert(pitch_num(n) * pitch_den(n + 1) < pitch_num(n + 1) * pitch_den(n));
        } else {
            let p = pow2((-q - 1) as nat);
            lemma_pow2_pos((-q - 1) as nat);
            lemma_pow2_unfold((-q) as nat);
            assert(pow2((-q) as nat) == 2 * p);
            assert(c * (0x100000 * p) < c2 * (0x100000 * (2 * p))) by (nonlinear_arith)
                requires
                    c < 2 * c2,
                    p >= 1,
                    c2 == 0x100000,
            ;
            assert(pitch_num(n) * pitch_den(n + 1) < pitch_num(n + 1) * pitch_den(n));
        }
    }
}

/// The resample multiplier is strictly increasing in the semitone shift:
/// for `n1 < n2` the two ratios compare as cross products.
pub proof fn lemma_pitch_multiplier_increases(n1: int, n2: int)
    requires
        n1 < n2,
    ensures
        pitch_num(n1) * pitch_den(n2) < pitch_num(n2) * pitch_den(n1),
    decreases n2 - n1,
{
    if n2 == n1 + 1 {
        lemma_pitch_step(n1);
    } else {
        lemma_pitch_multiplier_increases(n1, n2 - 1);
        lemma_pitch_step(n2 - 1);
        lemma_pitch_positive(n1);
        lemma_pitch_positive(n2 - 1);
        lemma_pitch_positive(n2);
        assert(pitch_num(n1) * pitch_den(n2) < pitch_num(n2) * pitch_den(n1)) by (nonlinear_arith)
            requires
                pitch_num(n1) * pitch_den(n2 - 1) < pitch_num(n2 - 1) * pitch_den(n1),
                pitch_num(n2 - 1) * pitch_den(n2) < pitch_num(n2) * pitch_den(n2 - 1),
                pitch_num(n1) > 0,
                pitch_den(n1) > 0,
                pitch_num(n2 - 1) > 0,
                pitch_den(n2 - 1) > 0,
                pitch_num(n2) > 0,
                pitch_den(n2) > 0,
        ;
    }
}

fn semitone_factor_exec(r: u64) -> (f: u64)
    requires
        r < 12,
    ensures
        f == semitone_factor(r as int),
{
    match r {
        0 => 0x100000,
        1 => 1110928,
        2 => 1176987,
        3 => 1246974,
        4 => 1321123,
        5 => 1399681,
        6 => 1482910,
        7 => 1571089,
        8 => 1664511,
        9 => 1763488,
        10 => 1868350,
        _ => 1979448,
    }
}

fn pow2_u64(e: u64) -> (p: u64)
    requires
        e <= 40,
    ensures
        p == pow2(e as nat),
        p >= 1,
        p <= 0x10000000000,
{
    proof {
        lemma2_to64();
    }
    let mut p: u64 = 1;
    let mut i: u64 = 0;
    while i < e
        invariant
            i <= e <= 40,
            p == pow2(i as nat),
        decreases e - i,
    {
        proof {
            lemma2_to64();
            lemma2_to64_rest();
            lemma_pow2_unfold((i + 1) as nat);
            if i + 1 < 40 {
                lemma_pow2_strictly_increases((i + 1) as nat, 40);
            }
        }
        p = p * 2;
        i += 1;
    }
    proof {
        lemma2_to64();
        lemma2_to64_rest();
        if (e as nat) < 40 {
            lemma_pow2_strictly_increases(e as nat, 40);
        }
    }
    p
}

/// The resample multiplier `2^(semitones/12)` as an exact rational
/// `(numerator, denominator)` in the fixed-point scale; equal parts mean
/// an identity multiplier.
pub fn pitch_multiplier(semitones: i32) -> (r: (u64, u64))
    requires
        -480 <= semitones <= 480,
    ensures
        r.0 == pitch_num(semitones as int),
        r.1 == pitch_den(semitones as int),
        semitones == 0 ==> r.0 == r.1,
{
    proof {
        lemma2_to64();
        lemma2_to64_rest();
    }
    let (neg, q_mag, rem): (bool, u64, u64) = if semitones >= 0 {
        let m = semitones as u64;
        let md = m / 12;
        let mr = m % 12;
        proof {
            lemma_fundamental_div_mod_converse(semitones as int, 12, md as int, mr as int);
        }
        (false, md, mr)
    } else {
        let m = (-semitones) as u64;
        let md = m / 12;
        let mr = m % 12;
        if mr == 0 {
            proof {
                lemma_fundamental_div_mod_converse(semitones as int, 12, -(md as int), 0);
            }
            (md > 0, md, 0)
        } else {
            proof {
                lemma_fundamental_div_mod_converse(
                    semitones as int,
                    12,
                    -(md as int) - 1,
                    12 - mr as int,
                );
            }
            (true, md + 1, 12 - mr)
        }
    };
    let c = semitone_factor_exec(rem);
    if !neg {
        let p = pow2_u64(q_mag);
        let num = c * p;
        proof {
            assert(c * p <= 1979448 * 0x10000000000) by (nonlinear_arith)
                requires
                    0 < c <= 1979448,
                    0 < p <= 0x10000000000,
            ;
        }
        (num, 0x100000)
    } else {
        let p = pow2_u64(q_mag);
        let den = 0x100000 * p;
        proof {
            assert(0x100000 * p <= 0x100000 * 0x10000000000) by (nonlinear_arith)
                requires
                    0 < p <= 0x10000000000,
            ;
        }
        (c, den)
    }
}

/// The transcoder filter expression: resample at the shifted rate, then
/// back at the base rate of 44100 Hz.
pub open spec fn filter_expr(n: int) -> Seq<char> {
    "asetrate=44100*"@ + dec_seq(pitch_num(n) as nat) + "/"@ + dec_seq(pitch_den(n) as nat)
        + ",aresample=44100"@
}

/// Builds the filter expression for a shift; a zero shift still yields a
/// well-formed identity filter, never an absent argument.
pub fn pitch_filter(semitones: i32) -> (f: String)
    requires
        -480 <= semitones <= 480,
    ensures
        f@ == filter_expr(semitones as int),
{
    let (num, den) = pitch_multiplier(semitones);
    proof {
        lemma_pitch_positive(semitones as int);
    }
    let mut f = String::from_str("asetrate=44100*");
    let ns = u64_to_string(num);
    f.append(ns.as_str());
    f.append("/");
    let ds = u64_to_string(den);
    f.append(ds.as_str());
    f.append(",aresample=44100");
    proof {
        assert(f@ =~= filter_expr(semitones as int));
    }
    f
}

/// Human-readable account of a shift.
pub open spec fn shift_description_spec(n: int) -> Seq<char> {
    if n > 0 {
        "raised by "@ + dec_seq(n as nat) + " semitones"@
    } else if n < 0 {
        "lowered by "@ + dec_seq((-n) as nat) + " semitones"@
    } else {
        "unchanged"@
    }
}

/// Describes a shift in words.
pub fn shift_description(semitones: i32) -> (d: String)
    requires
        -480 <= semitones <= 480,
    ensures
        d@ == shift_description_spec(semitones as int),
{
    if semitones > 0 {
        let mut d = String::from_str("raised by ");
        let ns = u64_to_string(semitones as u64);
        d.append(ns.as_str());
        d.append(" semitones");
        proof {
            assert(d@ =~= shift_description_spec(semitones as int));
        }
        d
    } else if semitones < 0 {
        let mut d = String::from_str("lowered by ");
        let ns = u64_to_string((-semitones) as u64);
        d.append(ns.as_str());
        d.append(" semitones");
        proof {
            assert(d@ =~= shift_description_spec(semitones as int));
        }
        d
    } else {
        String::from_str("unchanged")
    }
}

} // verus!
