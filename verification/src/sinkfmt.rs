//! Output container selection by file extension.
//!
//! Two containers are recognized: the integer container (`wav`) and the
//! compressed container (`flac`), compared without regard to ASCII case.
//! The extension is the text after the last `.` of the file name,
//! provided that dot does not open the name; anything else falls back to
//! the integer container, unrecognized.

use vstd::prelude::*;

use crate::paths::after_last_slash;

verus! {

/// The two output containers.
#[derive(Debug, Clone, Copy, PartialEq, Eq, Structural)]
pub enum AudioFormat {
    Wav,
    Flac,
}

/// Whether `x` equals `y` up to ASCII case, where `y` is lowercase.
pub open spec fn char_ci_eq(x: char, y: char) -> bool {
    x == y || (65 <= x as u32 <= 90 && x as u32 + 32 == y as u32)
}

/// Whether `a` equals the lowercase text `b` up to ASCII case.
pub open spec fn seq_ci_eq(a: Seq<char>, b: Seq<char>) -> bool {
    a.len() == b.len() && forall|i: int| 0 <= i < a.len() ==> char_ci_eq(a[i], b[i])
}

/// Index just past the last `.` in `[from, i)`, or `from` when none
/// stands there.
pub open spec fn after_last_dot(s: Seq<char>, from: int, i: int) -> int
    recommends
        0 <= from <= i <= s.len(),
    decreases i - from when 0 <= from <= i
{
    if i <= from {
        from
    } else if s[i - 1] == '.' {
        i
    } else {
        after_last_dot(s, from, i - 1)
    }
}

/// The extension of the path text: the part of its file name after the
/// last `.`, where the file name is what follows the last `/` and a dot
/// that opens the file name does not count.  Empty when there is no such
/// dot.
pub open spec fn spec_extension(s: Seq<char>) -> Seq<char> {
    let a = after_last_slash(s, s.len() as int);
    let d = after_last_dot(s, a, s.len() as int);
    if d > a + 1 {
        s.subrange(d, s.len() as int)
    } else {
        Seq::empty()
    }
}

/// The format the path's extension names, and whether it was recognized:
/// `wav` and `flac` (in any ASCII case) are; everything else falls back
/// to the integer container.
pub open spec fn spec_detect_format(s: Seq<char>) -> (AudioFormat, bool) {
    let ext = spec_extension(s);
    if seq_ci_eq(ext, "wav"@) {
        (AudioFormat::Wav, true)
    } else if seq_ci_eq(ext, "flac"@) {
        (AudioFormat::Flac, true)
    } else {
        (AudioFormat::Wav, false)
    }
}

/// Whether the characters of `s` from `i` to its end equal the lowercase
/// text `lower` up to ASCII case.
fn range_ci_eq(s: &str, i: usize, lower: &str) -> (r: bool)
    requires
        i <= s@.len(),
    ensures
        r == seq_ci_eq(s@.subrange(i as int, s@.len() as int), lower@),
{
    let n = s.unicode_len();
    let m = lower.unicode_len();
    if n - i != m {
        return false;
    }
    let mut k: usize = 0;
    while k < m
        invariant
            k <= m,
            m == lower@.len(),
            i + m == n,
            n == s@.len(),
            forall|j: int| 0 <= j < k ==> char_ci_eq(s@[i + j], lower@[j]),
        ensures
            k == m || !char_ci_eq(s@[i + k], lower@[k as int]),
            forall|j: int| 0 <= j < k ==> char_ci_eq(s@[i + j], lower@[j]),
        decreases m - k,
    {
        let x = s.get_char(i + k);
        let y = lower.get_char(k);
        let xv = x as u32;
        let yv = y as u32;
        if !(xv == yv || (65 <= xv && xv <= 90 && xv + 32 == yv)) {
            break ;
        }
        k = k + 1;
    }
    if k == m {
        proof {
            assert(s@.subrange(i as int, n as int).len() == m);
            assert(forall|j: int|
                0 <= j < m ==> #[trigger] s@.subrange(i as int, n as int)[j] == s@[i + j]);
        }
        true
    } else {
        false
    }
}

/// Find where the extension of the path text starts, or the text's
/// length when it has none.
fn extension_start(s: &str) -> (d: usize)
    ensures
        ({
            let a = after_last_slash(s@, s@.len() as int);
            let dd = after_last_dot(s@, a, s@.len() as int);
            if dd > a + 1 {
                d == dd
            } else {
                d == s@.len()
            }
        }),
        d <= s@.len(),
{
    let n = s.unicode_len();
    let mut a = n;
    while a > 0
        invariant
            a <= n,
            n == s@.len(),
            after_last_slash(s@, n as int) == after_last_slash(s@, a as int),
        ensures
            a == after_last_slash(s@, n as int),
        decreases a,
    {
        let c = s.get_char(a - 1);
        if c == '/' {
            break ;
        }
        a = a - 1;
    }
    let mut d = n;
    while d > a
        invariant
            a <= d <= n,
            n == s@.len(),
            after_last_dot(s@, a as int, n as int) == after_last_dot(s@, a as int, d as int),
        ensures
            d == after_last_dot(s@, a as int, n as int),
        decreases d,
    {
        let c = s.get_char(d - 1);
        if c == '.' {
            break ;
        }
        d = d - 1;
    }
    if d - a > 1 {
        d
    } else {
        n
    }
}

/// Infer the output container from the path's extension.  Yields the
/// format and whether the extension was recognized; an unrecognized one
/// falls back to the integer container, and the caller may warn.
pub fn detect_format_from_ext(out: &str) -> (r: (AudioFormat, bool))
    ensures
        r == spec_detect_format(out@),
{
    let d = extension_start(out);
    proof {
        reveal_strlit("wav");
        reveal_strlit("flac");
        let a = after_last_slash(out@, out@.len() as int);
        crate::paths::lemma_after_last_slash_range(out@, out@.len() as int);
        lemma_after_last_dot_range(out@, a, out@.len() as int);
        if d == out@.len() && !(after_last_dot(out@, a, out@.len() as int) > a + 1) {
            // no extension: the empty subrange matches no recognized name
            assert(out@.subrange(d as int, out@.len() as int).len() == 0);
        }
    }
    if range_ci_eq(out, d, "wav") {
        (AudioFormat::Wav, true)
    } else if range_ci_eq(out, d, "flac") {
        (AudioFormat::Flac, true)
    } else {
        (AudioFormat::Wav, false)
    }
}

/// `after_last_dot` stays within `[from, i]`.
proof fn lemma_after_last_dot_range(s: Seq<char>, from: int, i: int)
    requires
        0 <= from <= i <= s.len(),
    ensures
        from <= after_last_dot(s, from, i) <= i,
    decreases i,
{
    if i > from && s[i - 1] != '.' {
        lemma_after_last_dot_range(s, from, i - 1);
    }
}

} // verus!
