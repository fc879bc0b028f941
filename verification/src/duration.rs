//! Durations held as whole microseconds, and the text forms they are
//! written in: a plain (possibly signed, possibly fractional) number of
//! seconds, or a composite of hours, minutes and seconds such as `1h2m3s`
//! or `0.5m10.5s`.
//!
//! Values are read at microsecond resolution: fraction digits beyond the
//! twelfth of any component are ignored, whole parts saturate once they can
//! no longer change the clamped result, and the final count saturates at
//! `u64::MAX` microseconds.

use vstd::prelude::*;

verus! {

/// A span of time held as whole microseconds.
#[derive(Debug, Clone, Copy, PartialEq, Eq, Structural)]
pub struct DurationMicros(pub u64);

/// Why a duration string was rejected.
#[derive(Debug, Clone, Copy, PartialEq, Eq, Structural)]
pub enum DurationParseError {
    /// The text matches neither a plain number nor the `h`/`m`/`s` form.
    Format,
    /// The `h`/`m`/`s` form summed to zero microseconds.
    NotPositive,
}

/// Whole parts of numeric components saturate here; any true value at or
/// above it already drives the microsecond total past `u64::MAX`.
pub const DIGIT_CAP: u64 = 100_000_000_000_000;

/// At most this many fraction digits of a component are read; the rest lie
/// below microsecond resolution.
pub const FRAC_DIGITS: usize = 12;

pub open spec fn is_digit(c: char) -> bool {
    48 <= c as u32 && c as u32 <= 57
}

pub open spec fn digit_val(c: char) -> nat
    recommends
        is_digit(c),
{
    (c as u32 - 48) as nat
}

/// First index at or after `i` that does not hold a digit.
pub open spec fn digits_end(s: Seq<char>, i: int) -> int
    recommends
        0 <= i <= s.len(),
    decreases s.len() - i when 0 <= i <= s.len()
{
    if i < s.len() && is_digit(s[i]) {
        digits_end(s, i + 1)
    } else {
        i
    }
}

pub proof fn lemma_digits_end(s: Seq<char>, i: int)
    requires
        0 <= i <= s.len(),
    ensures
        i <= digits_end(s, i) <= s.len(),
        forall|k: int| i <= k < digits_end(s, i) ==> is_digit(s[k]),
        digits_end(s, i) == s.len() || !is_digit(s[digits_end(s, i)]),
    decreases s.len() - i,
{
    if i < s.len() && is_digit(s[i]) {
        lemma_digits_end(s, i + 1);
    }
}

/// Value of the digit run `[i, j)` read left to right, saturating at
/// `DIGIT_CAP`.
pub open spec fn digits_val_sat(s: Seq<char>, i: int, j: int) -> nat
    recommends
        0 <= i <= j <= s.len(),
    decreases j - i when i <= j
{
    if i >= j {
        0
    } else {
        let prev = digits_val_sat(s, i, j - 1);
        let v = prev * 10 + digit_val(s[j - 1]);
        if v > DIGIT_CAP as nat {
            DIGIT_CAP as nat
        } else {
            v
        }
    }
}

/// Value of the digit run `[i, j)` read left to right, without saturation.
pub open spec fn digits_val(s: Seq<char>, i: int, j: int) -> nat
    recommends
        0 <= i <= j <= s.len(),
    decreases j - i when i <= j
{
    if i >= j {
        0
    } else {
        digits_val(s, i, j - 1) * 10 + digit_val(s[j - 1])
    }
}

pub open spec fn pow10(k: nat) -> nat
    decreases k,
{
    if k == 0 {
        1
    } else {
        10 * pow10((k - 1) as nat)
    }
}

pub proof fn lemma_digits_val_bound(s: Seq<char>, i: int, j: int)
    requires
        i <= j,
        forall|k: int| i <= k < j ==> is_digit(s[k]),
    ensures
        digits_val(s, i, j) < pow10((j - i) as nat),
    decreases j - i,
{
    if i < j {
        lemma_digits_val_bound(s, i, j - 1);
        assert(digit_val(s[j - 1]) <= 9);
        assert(pow10((j - i) as nat) == 10 * pow10((j - i - 1) as nat));
    }
}

fn scan_digits(s: &str, i: usize) -> (j: usize)
    requires
        i <= s@.len(),
    ensures
        j == digits_end(s@, i as int),
        i <= j <= s@.len(),
{
    let n = s.unicode_len();
    let mut j = i;
    loop
        invariant
            i <= j <= n,
            n == s@.len(),
            digits_end(s@, i as int) == digits_end(s@, j as int),
        ensures
            j == digits_end(s@, i as int),
            i <= j <= s@.len(),
        decreases n - j,
    {
        if j == n {
            break ;
        }
        let c = s.get_char(j);
        let v = c as u32;
        if !(48 <= v && v <= 57) {
            break ;
        }
        j = j + 1;
    }
    j
}

/// Read the digits of `[i, j)` as a whole number, saturating at
/// `DIGIT_CAP`.
fn digits_value_sat(s: &str, i: usize, j: usize) -> (v: u64)
    requires
        i <= j <= s@.len(),
        forall|k: int| i <= k < j ==> is_digit(s@[k]),
    ensures
        v as nat == digits_val_sat(s@, i as int, j as int),
        v <= DIGIT_CAP,
{
    let mut v: u64 = 0;
    let mut k = i;
    while k < j
        invariant
            i <= k <= j <= s@.len(),
            forall|q: int| i <= q < j ==> is_digit(s@[q]),
            v as nat == digits_val_sat(s@, i as int, k as int),
            v <= DIGIT_CAP,
        decreases j - k,
    {
        let c = s.get_char(k);
        let d: u64 = (c as u32 as u64) - 48;
        let next: u64 = v * 10 + d;
        v = if next > DIGIT_CAP {
            DIGIT_CAP
        } else {
            next
        };
        k = k + 1;
    }
    v
}

/// Read the digits of `[i, j)` as a whole number; the run must be short
/// enough not to overflow.
fn digits_value(s: &str, i: usize, j: usize) -> (v: u64)
    requires
        i <= j <= s@.len(),
        j - i <= FRAC_DIGITS,
        forall|k: int| i <= k < j ==> is_digit(s@[k]),
    ensures
        v as nat == digits_val(s@, i as int, j as int),
        v < pow10((j - i) as nat),
{
    proof {
        lemma_digits_val_bound(s@, i as int, j as int);
        lemma_pow10_le(((j - i) as nat), 12);
    }
    let mut v: u64 = 0;
    let mut k = i;
    while k < j
        invariant
            i <= k <= j <= s@.len(),
            j - i <= FRAC_DIGITS,
            forall|q: int| i <= q < j ==> is_digit(s@[q]),
            v as nat == digits_val(s@, i as int, k as int),
            v < pow10((k - i) as nat),
        decreases j - k,
    {
        proof {
            lemma_pow10_le(((k - i) as nat), 12);
            lemma_pow10_le((((k + 1) - i) as nat), 12);
        }
        let c = s.get_char(k);
        let d: u64 = (c as u32 as u64) - 48;
        v = v * 10 + d;
        k = k + 1;
        assert(pow10((k - i) as nat) == 10 * pow10((k - 1 - i) as nat));
    }
    v
}

pub proof fn lemma_pow10_pos(k: nat)
    ensures
        pow10(k) >= 1,
    decreases k,
{
    if k > 0 {
        lemma_pow10_pos((k - 1) as nat);
    }
}

pub proof fn lemma_pow10_mono(k: nat, m: nat)
    requires
        k <= m,
    ensures
        pow10(k) <= pow10(m),
    decreases m,
{
    if k < m {
        lemma_pow10_mono(k, (m - 1) as nat);
        lemma_pow10_pos((m - 1) as nat);
    }
}

pub proof fn lemma_pow10_le(k: nat, m: nat)
    requires
        k <= m,
        m <= 12,
    ensures
        pow10(k) <= pow10(m),
        pow10(m) <= 1_000_000_000_000,
{
    lemma_pow10_mono(k, m);
    lemma_pow10_mono(m, 12);
    assert(pow10(12) == 1_000_000_000_000) by {
        reveal_with_fuel(pow10, 13);
    }
}

fn pow10_u64(k: usize) -> (r: u64)
    requires
        k <= 12,
    ensures
        r as nat == pow10(k as nat),
        1 <= r <= 1_000_000_000_000,
{
    proof {
        lemma_pow10_le(k as nat, 12);
        lemma_pow10_pos(k as nat);
    }
    let mut r: u64 = 1;
    let mut t: usize = 0;
    while t < k
        invariant
            t <= k <= 12,
            r as nat == pow10(t as nat),
        decreases k - t,
    {
        proof {
            lemma_pow10_le(t as nat, 12);
        }
        r = r * 10;
        t = t + 1;
    }
    r
}

/// End of the decimal token `digits+ ('.' digits+)?` starting at `i`;
/// equals `digits_end` when no fraction follows, and `i` itself when no
/// digits stand there.
pub open spec fn dec_token_end(s: Seq<char>, i: int) -> int
    recommends
        0 <= i <= s.len(),
{
    let ij = digits_end(s, i);
    if ij > i && ij < s.len() && s[ij] == '.' && digits_end(s, ij + 1) > ij + 1 {
        digits_end(s, ij + 1)
    } else {
        ij
    }
}

/// Microseconds contributed by the fraction digits `[i, j)` of a component
/// whose whole unit spans `unit` microseconds, rounded to nearest (half
/// up).  Only the first `FRAC_DIGITS` digits are read.
pub open spec fn frac_us(s: Seq<char>, i: int, j: int, unit: nat) -> nat
    recommends
        0 <= i <= j <= s.len(),
{
    let k = if j - i > FRAC_DIGITS as int {
        FRAC_DIGITS as int
    } else {
        j - i
    };
    let den = pow10(k as nat);
    (digits_val(s, i, i + k) * unit + den / 2) / den
}

/// Microseconds of a decimal component with whole digits `[i, ij)` and
/// fraction digits `[fi, fj)`, where one whole unit spans `unit`
/// microseconds.
pub open spec fn component_us(s: Seq<char>, i: int, ij: int, fi: int, fj: int, unit: nat) -> nat {
    digits_val_sat(s, i, ij) * unit + frac_us(s, fi, fj, unit)
}

/// Microseconds of the decimal token starting at `i`.
pub open spec fn dec_us_at(s: Seq<char>, i: int, unit: nat) -> nat
    recommends
        0 <= i <= s.len(),
{
    let ij = digits_end(s, i);
    let e = dec_token_end(s, i);
    if e > ij {
        component_us(s, i, ij, ij + 1, e, unit)
    } else {
        component_us(s, i, ij, ij, ij, unit)
    }
}

/// One optional component of the `h`/`m`/`s` form: a decimal token
/// followed by `letter`.  Yields the position after the component and its
/// microseconds, or `(i, 0)` when the component is absent.
pub open spec fn hms_step(s: Seq<char>, i: int, letter: char, unit: nat) -> (int, nat)
    recommends
        0 <= i <= s.len(),
{
    let e = dec_token_end(s, i);
    if e > i && e < s.len() && s[e] == letter {
        (e + 1, dec_us_at(s, i, unit))
    } else {
        (i, 0)
    }
}

/// Microseconds of a whole `h`/`m`/`s` composite, or `None` when the text
/// does not have that shape.  Each component is optional, but the text
/// must be consumed whole; the all-absent case yields `Some(0)`.
pub open spec fn hms_us(s: Seq<char>) -> Option<nat> {
    let r1 = hms_step(s, 0, 'h', 3_600_000_000);
    let r2 = hms_step(s, r1.0, 'm', 60_000_000);
    let r3 = hms_step(s, r2.0, 's', 1_000_000);
    if r3.0 == s.len() {
        Some((r1.1 + r2.1 + r3.1) as nat)
    } else {
        None
    }
}

/// Microseconds of an unsigned plain number of seconds starting at `b` and
/// reaching the end of the text: `digits+ ('.' digits*)?` or `'.' digits+`.
pub open spec fn plain_body_us(s: Seq<char>, b: int) -> Option<nat>
    recommends
        0 <= b <= s.len(),
{
    let ij = digits_end(s, b);
    if ij > b {
        if ij == s.len() {
            Some(component_us(s, b, ij, ij, ij, 1_000_000))
        } else if s[ij] == '.' && digits_end(s, ij + 1) == s.len() {
            Some(component_us(s, b, ij, ij + 1, s.len() as int, 1_000_000))
        } else {
            None
        }
    } else {
        if b < s.len() && s[b] == '.' && s.len() > b + 1 && digits_end(s, b + 1) == s.len() {
            Some(component_us(s, b, b, b + 1, s.len() as int, 1_000_000))
        } else {
            None
        }
    }
}

/// Microseconds of a plain number of seconds, with an optional sign.  A
/// negative number reads as zero microseconds.
pub open spec fn plain_us(s: Seq<char>) -> Option<nat> {
    if s.len() > 0 && (s[0] == '+' || s[0] == '-') {
        match plain_body_us(s, 1) {
            Some(v) => Some(if s[0] == '-' {
                0
            } else {
                v
            }),
            None => None,
        }
    } else {
        plain_body_us(s, 0)
    }
}

/// Saturate a microsecond count at `u64::MAX`.
pub open spec fn clamp_us(v: nat) -> u64 {
    if v <= u64::MAX as nat {
        v as u64
    } else {
        u64::MAX
    }
}

/// What `parse_duration` returns: a plain number of seconds if the text
/// reads as one, else an `h`/`m`/`s` composite, which must be positive.
pub open spec fn spec_parse_duration(s: Seq<char>) -> Result<u64, DurationParseError> {
    match plain_us(s) {
        Some(v) => Ok(clamp_us(v)),
        None => match hms_us(s) {
            Some(v) => if v > 0 {
                Ok(clamp_us(v))
            } else {
                Err(DurationParseError::NotPositive)
            },
            None => Err(DurationParseError::Format),
        },
    }
}

fn dec_token_end_exec(s: &str, i: usize) -> (r: (usize, usize))
    requires
        i <= s@.len(),
    ensures
        r.0 == digits_end(s@, i as int),
        r.1 == dec_token_end(s@, i as int),
        i <= r.0 <= r.1 <= s@.len(),
{
    let ij = scan_digits(s, i);
    let n = s.unicode_len();
    if ij > i && ij < n {
        let c = s.get_char(ij);
        if c == '.' {
            let fj = scan_digits(s, ij + 1);
            if fj > ij + 1 {
                return (ij, fj);
            }
        }
    }
    (ij, ij)
}

/// Greatest microsecond count a single component can reach; used to bound
/// sums of components.
pub const COMPONENT_US_MAX: u128 = 1_000_000_000_000_000_000_000_000;

fn component_us_exec(s: &str, i: usize, ij: usize, fi: usize, fj: usize, unit: u64) -> (us: u128)
    requires
        i <= ij <= s@.len(),
        fi <= fj <= s@.len(),
        forall|k: int| i <= k < ij ==> is_digit(s@[k]),
        forall|k: int| fi <= k < fj ==> is_digit(s@[k]),
        1 <= unit <= 3_600_000_000,
    ensures
        us as nat == component_us(s@, i as int, ij as int, fi as int, fj as int, unit as nat),
        us < COMPONENT_US_MAX,
{
    let iv = digits_value_sat(s, i, ij);
    let flen = fj - fi;
    let k = if flen > FRAC_DIGITS {
        FRAC_DIGITS
    } else {
        flen
    };
    let fv = digits_value(s, fi, fi + k);
    let den = pow10_u64(k);
    proof {
        lemma_pow10_le(k as nat, 12);
        assert((fv as int) * (unit as int) <= 1_000_000_000_000int * 3_600_000_000int)
            by (nonlinear_arith)
            requires
                fv <= 1_000_000_000_000,
                0 <= fv,
                1 <= unit <= 3_600_000_000,
        ;
        assert((iv as int) * (unit as int) <= 100_000_000_000_000int * 3_600_000_000int)
            by (nonlinear_arith)
            requires
                iv <= 100_000_000_000_000,
                0 <= iv,
                1 <= unit <= 3_600_000_000,
        ;
    }
    let fus: u128 = ((fv as u128) * (unit as u128) + (den as u128) / 2) / (den as u128);
    let whole: u128 = (iv as u128) * (unit as u128);
    proof {
        assert(fus <= (fv as u128) * (unit as u128) + (den as u128) / 2);
    }
    whole + fus
}

fn hms_step_exec(s: &str, i: usize, letter: char, unit: u64) -> (r: (usize, u128))
    requires
        i <= s@.len(),
        1 <= unit <= 3_600_000_000,
    ensures
        ({
            let sp = hms_step(s@, i as int, letter, unit as nat);
            r.0 as int == sp.0 && r.1 as nat == sp.1
        }),
        i <= r.0 <= s@.len(),
        r.1 < COMPONENT_US_MAX,
{
    let (ij, e) = dec_token_end_exec(s, i);
    let n = s.unicode_len();
    if e > i && e < n {
        let c = s.get_char(e);
        if c == letter {
            proof {
                lemma_digits_end(s@, i as int);
            }
            let us = if e > ij {
                proof {
                    lemma_digits_end(s@, ij as int + 1);
                }
                component_us_exec(s, i, ij, ij + 1, e, unit)
            } else {
                component_us_exec(s, i, ij, ij, ij, unit)
            };
            return (e + 1, us);
        }
    }
    (i, 0)
}

fn parse_hms(s: &str) -> (r: Option<u128>)
    ensures
        match r {
            Some(v) => hms_us(s@) == Some(v as nat),
            None => hms_us(s@) is None,
        },
{
    let r1 = hms_step_exec(s, 0, 'h', 3_600_000_000);
    let r2 = hms_step_exec(s, r1.0, 'm', 60_000_000);
    let r3 = hms_step_exec(s, r2.0, 's', 1_000_000);
    let n = s.unicode_len();
    if r3.0 == n {
        Some(r1.1 + r2.1 + r3.1)
    } else {
        None
    }
}

fn parse_plain(s: &str) -> (r: Option<u128>)
    ensures
        match r {
            Some(v) => plain_us(s@) == Some(v as nat),
            None => plain_us(s@) is None,
        },
{
    let n = s.unicode_len();
    let mut b: usize = 0;
    let mut neg = false;
    if n > 0 {
        let c0 = s.get_char(0);
        if c0 == '+' {
            b = 1;
        } else if c0 == '-' {
            b = 1;
            neg = true;
        }
    }
    let ij = scan_digits(s, b);
    proof {
        lemma_digits_end(s@, b as int);
    }
    let body: Option<u128> = if ij > b {
        if ij == n {
            Some(component_us_exec(s, b, ij, ij, ij, 1_000_000))
        } else {
            let c = s.get_char(ij);
            if c == '.' {
                let fj = scan_digits(s, ij + 1);
                if fj == n {
                    proof {
                        lemma_digits_end(s@, ij as int + 1);
                    }
                    Some(component_us_exec(s, b, ij, ij + 1, n, 1_000_000))
                } else {
                    None
                }
            } else {
                None
            }
        }
    } else {
        if b < n {
            let c = s.get_char(b);
            if c == '.' && n > b + 1 {
                let fj = scan_digits(s, b + 1);
                if fj == n {
                    proof {
                        lemma_digits_end(s@, b as int + 1);
                    }
                    Some(component_us_exec(s, b, b, b + 1, n, 1_000_000))
                } else {
                    None
                }
            } else {
                None
            }
        } else {
            None
        }
    };
    match body {
        Some(v) => Some(
            if neg {
                0
            } else {
                v
            },
        ),
        None => None,
    }
}

/// Read a duration from text: either a plain number of seconds (an
/// optional sign, then digits with an optional fraction) or a composite of
/// `h`, `m` and `s` components such as `1h2m3s`, each a decimal with at
/// least one digit before any fraction.  A negative plain number reads as
/// zero; a composite must come to more than zero microseconds.
pub fn parse_duration(s: &str) -> (r: Result<DurationMicros, DurationParseError>)
    ensures
        ({
            match spec_parse_duration(s@) {
                Ok(v) => r == Ok::<DurationMicros, DurationParseError>(DurationMicros(v)),
                Err(e) => r == Err::<DurationMicros, DurationParseError>(e),
            }
        }),
{
    match parse_plain(s) {
        Some(v) => Ok(DurationMicros(clamp_us_exec(v))),
        None => match parse_hms(s) {
            Some(v) => if v > 0 {
                Ok(DurationMicros(clamp_us_exec(v)))
            } else {
                Err(DurationParseError::NotPositive)
            },
            None => Err(DurationParseError::Format),
        },
    }
}

fn clamp_us_exec(v: u128) -> (r: u64)
    ensures
        r == clamp_us(v as nat),
{
    if v > u64::MAX as u128 {
        u64::MAX
    } else {
        v as u64
    }
}

impl DurationMicros {
    /// The number of whole samples this span covers at `sample_rate`
    /// samples per second, rounded to nearest.
    pub fn to_samples(&self, sample_rate: u32) -> (r: u64)
        ensures
            r == crate::spec_samples_for(self.0 as nat, sample_rate as nat),
    {
        crate::micros_to_samples(self.0, sample_rate)
    }
}

} // verus!
