//! Byte-level scanning primitives shared by the coordinate parsers:
//! character classes, run scanning, decimal-number recognition and
//! fixed-pattern matching, each with an exact specification.

use vstd::prelude::*;

verus! {

/// ASCII whitespace, including the newline.
pub open spec fn is_ws_byte(c: u8) -> bool {
    c == 32 || c == 9 || c == 10 || c == 13 || c == 11 || c == 12
}

/// An ASCII decimal digit.
pub open spec fn is_digit_byte(c: u8) -> bool {
    48 <= c <= 57
}

/// A hemisphere or direction letter: N, S, E or W.
pub open spec fn is_dir_byte(c: u8) -> bool {
    c == 78 || c == 83 || c == 69 || c == 87
}

/// The byte classes the scanners run over.
pub open spec fn byte_in_class(c: u8, class: int) -> bool {
    if class == 0 {
        is_ws_byte(c)
    } else if class == 1 {
        is_digit_byte(c)
    } else if class == 2 {
        is_digit_byte(c) || c == 46
    } else if class == 3 {
        is_digit_byte(c) || c == 46 || c == 45
    } else if class == 4 {
        c != 10
    } else if class == 5 {
        c == 32 || c == 9 || c == 13 || c == 11 || c == 12
    } else if class == 6 {
        c != 44
    } else {
        c != 58
    }
}

/// The end of the run of class bytes that starts at i.
pub open spec fn spec_scan_end(s: Seq<u8>, i: int, class: int) -> int
    decreases s.len() - i
        when 0 <= i <= s.len()
{
    if i < s.len() && byte_in_class(s[i], class) {
        spec_scan_end(s, i + 1, class)
    } else {
        i
    }
}

/// The run is a maximal stretch of class bytes.
pub proof fn lemma_scan_end_props(s: Seq<u8>, i: int, class: int)
    requires
        0 <= i <= s.len(),
    ensures
        i <= spec_scan_end(s, i, class) <= s.len(),
        forall|k: int| i <= k < spec_scan_end(s, i, class) ==> byte_in_class(#[trigger] s[k], class),
        spec_scan_end(s, i, class) == s.len()
            || !byte_in_class(s[spec_scan_end(s, i, class)], class),
    decreases s.len() - i,
{
    if i < s.len() && byte_in_class(s[i], class) {
        lemma_scan_end_props(s, i + 1, class);
    }
}

/// Whether a byte lies in one of the scanner's classes.
fn byte_in_class_exec(c: u8, class: usize) -> (r: bool)
    ensures
        r == byte_in_class(c, class as int),
{
    if class == 0 {
        c == 32 || c == 9 || c == 10 || c == 13 || c == 11 || c == 12
    } else if class == 1 {
        48 <= c && c <= 57
    } else if class == 2 {
        (48 <= c && c <= 57) || c == 46
    } else if class == 3 {
        (48 <= c && c <= 57) || c == 46 || c == 45
    } else if class == 4 {
        c != 10
    } else if class == 5 {
        c == 32 || c == 9 || c == 13 || c == 11 || c == 12
    } else if class == 6 {
        c != 44
    } else {
        c != 58
    }
}

/// Advances past the run of class bytes that starts at i.
pub fn scan_end(s: &Vec<u8>, i: usize, class: usize) -> (r: usize)
    requires
        i <= s@.len(),
    ensures
        r == spec_scan_end(s@, i as int, class as int),
        i <= r <= s@.len(),
{
    let n = s.len();
    let mut j = i;
    while j < n
        invariant
            i <= j <= n,
            n == s@.len(),
            spec_scan_end(s@, i as int, class as int) == spec_scan_end(s@, j as int, class as int),
        decreases n - j,
    {
        if !byte_in_class_exec(s[j], class) {
            return j;
        }
        j = j + 1;
    }
    j
}

/// The end of the trailing run of class bytes that stops at e,
/// scanning down but not past lo.
pub open spec fn spec_trim_end(s: Seq<u8>, e: int, lo: int, class: int) -> int
    decreases e
        when 0 <= lo <= e <= s.len()
{
    if e > lo && byte_in_class(s[e - 1], class) {
        spec_trim_end(s, e - 1, lo, class)
    } else {
        e
    }
}

/// Steps back over trailing class bytes, not past lo.
pub fn trim_end(s: &Vec<u8>, e: usize, lo: usize, class: usize) -> (r: usize)
    requires
        lo <= e,
        e <= s@.len(),
    ensures
        r == spec_trim_end(s@, e as int, lo as int, class as int),
        lo <= r <= e,
{
    let mut j = e;
    while j > lo
        invariant
            lo <= j <= e <= s@.len(),
            spec_trim_end(s@, e as int, lo as int, class as int)
                == spec_trim_end(s@, j as int, lo as int, class as int),
        decreases j,
    {
        if !byte_in_class_exec(s[j - 1], class) {
            return j;
        }
        j = j - 1;
    }
    j
}

/// Powers of ten.
pub open spec fn pow10(k: nat) -> int
    decreases k,
{
    if k == 0 { 1 } else { 10 * pow10((k - 1) as nat) }
}

pub proof fn lemma_pow10_le(j: nat, k: nat)
    requires
        j <= k,
    ensures
        1 <= pow10(j) <= pow10(k),
    decreases k,
{
    if k > 0 {
        if j == k {
            lemma_pow10_le(0, (k - 1) as nat);
        } else {
            lemma_pow10_le(j, (k - 1) as nat);
        }
    }
}

pub proof fn lemma_pow10_15()
    ensures
        pow10(15) == 0x38d7ea4c68000,
        pow10(14) == 0x5af3107a4000,
{
    reveal_with_fuel(pow10, 17);
}

/// The number denoted by the digits in [i, j), most significant first.
pub open spec fn spec_digits_value(s: Seq<u8>, i: int, j: int) -> int
    decreases j - i,
{
    if j <= i {
        0
    } else {
        spec_digits_value(s, i, j - 1) * 10 + (s[j - 1] - 48)
    }
}

pub proof fn lemma_digits_value_bound(s: Seq<u8>, i: int, j: int)
    requires
        0 <= i <= j <= s.len(),
        forall|k: int| i <= k < j ==> is_digit_byte(#[trigger] s[k]),
    ensures
        0 <= spec_digits_value(s, i, j) < pow10((j - i) as nat),
    decreases j - i,
{
    if j > i {
        lemma_digits_value_bound(s, i, j - 1);
    }
}

/// Reads the value of the digit run [i, j); at most 15 digits.
pub fn digits_value_u64(s: &Vec<u8>, i: usize, j: usize) -> (r: u64)
    requires
        i <= j <= s@.len(),
        j - i <= 15,
        forall|k: int| i <= k < j ==> is_digit_byte(#[trigger] s@[k]),
    ensures
        r as int == spec_digits_value(s@, i as int, j as int),
        r < 0x38d7ea4c68000,
{
    proof {
        lemma_pow10_15();
    }
    let mut v: u64 = 0;
    let mut k = i;
    while k < j
        invariant
            i <= k <= j <= s@.len(),
            j - i <= 15,
            forall|t: int| i <= t < j ==> is_digit_byte(#[trigger] s@[t]),
            v as int == spec_digits_value(s@, i as int, k as int),
            pow10(15) == 0x38d7ea4c68000,
            pow10(14) == 0x5af3107a4000,
        decreases j - k,
    {
        proof {
            lemma_digits_value_bound(s@, i as int, k as int);
            lemma_pow10_le((k - i) as nat, 14);
        }
        let d = s[k] - 48;
        v = v * 10 + d as u64;
        k = k + 1;
    }
    proof {
        lemma_digits_value_bound(s@, i as int, j as int);
        lemma_pow10_le((j - i) as nat, 15);
    }
    v
}

/// Whether the fixed pattern occurs at position i.
pub open spec fn spec_match_at(s: Seq<u8>, i: int, pat: Seq<u8>) -> bool {
    0 <= i && i + pat.len() <= s.len() && s.subrange(i, i + pat.len()) == pat
}

/// Compares the bytes at position i against the pattern.
pub fn match_at(s: &Vec<u8>, i: usize, pat: &Vec<u8>) -> (r: bool)
    ensures
        r == spec_match_at(s@, i as int, pat@),
{
    let m = pat.len();
    let n = s.len();
    if i > n || m > n - i {
        proof {
            assert(!(i + pat@.len() <= s@.len()));
        }
        return false;
    }
    let mut k: usize = 0;
    while k < m
        invariant
            k <= m,
            m == pat@.len(),
            n == s@.len(),
            i + m <= n,
            forall|t: int| 0 <= t < k ==> s@[i + t] == pat@[t],
        decreases m - k,
    {
        if s[i + k] != pat[k] {
            proof {
                assert(s@.subrange(i as int, i + pat@.len())[k as int] == s@[i + k]);
                assert(s@.subrange(i as int, i + pat@.len()) != pat@);
            }
            return false;
        }
        k = k + 1;
    }
    proof {
        assert(s@.subrange(i as int, i + pat@.len()) =~= pat@);
    }
    true
}

/// Whether the pattern occurs anywhere in s.
pub open spec fn spec_contains(s: Seq<u8>, pat: Seq<u8>) -> bool {
    exists|p: int| spec_match_at(s, p, pat)
}

/// Searches for the pattern anywhere in s.
pub fn contains_bytes(s: &Vec<u8>, pat: &Vec<u8>) -> (r: bool)
    ensures
        r == spec_contains(s@, pat@),
{
    let n = s.len();
    let mut p: usize = 0;
    while p < n
        invariant
            p <= n,
            n == s@.len(),
            forall|q: int| 0 <= q < p ==> !spec_match_at(s@, q, pat@),
        decreases n - p,
    {
        if match_at(s, p, pat) {
            return true;
        }
        p = p + 1;
    }
    if match_at(s, n, pat) {
        return true;
    }
    proof {
        assert forall|q: int| !spec_match_at(s@, q, pat@) by {
            if 0 <= q < n {
            } else if q == n {
            } else {
                assert(q + pat@.len() > s@.len() || !(0 <= q));
            }
        }
    }
    false
}

/// A copy of the byte range [lo, hi).
pub fn sub_bytes(s: &Vec<u8>, lo: usize, hi: usize) -> (r: Vec<u8>)
    requires
        lo <= hi <= s@.len(),
    ensures
        r@ == s@.subrange(lo as int, hi as int),
{
    let mut out: Vec<u8> = Vec::new();
    let mut k = lo;
    while k < hi
        invariant
            lo <= k <= hi <= s@.len(),
            out@ =~= s@.subrange(lo as int, k as int),
        decreases hi - k,
    {
        out.push(s[k]);
        k = k + 1;
        proof {
            assert(out@ =~= s@.subrange(lo as int, k as int));
        }
    }
    proof {
        assert(out@ =~= s@.subrange(lo as int, hi as int));
    }
    out
}

} // verus!
