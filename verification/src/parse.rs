//! Parsing of coordinate text as the external metadata tool prints it:
//! degree-minute-second forms like `16 deg 38' 18.20" S`, decimal forms
//! like `16.6384 S`, and plain numbers. All values are exact integer
//! microdegrees; fractions are truncated at the sixth decimal place.
//!
//! The recognized number shapes are plain decimals (no exponents), with
//! at most fifteen digits in each part; coordinates beyond that, whose
//! magnitude could never be a valid geographic coordinate, are treated
//! as absent.

use vstd::prelude::*;
use crate::scan::{
    byte_in_class, digits_value_u64, is_digit_byte, is_dir_byte, lemma_pow10_15, lemma_pow10_le,
    lemma_scan_end_props, match_at, pow10, scan_end, spec_digits_value, spec_match_at,
    spec_scan_end, spec_trim_end, trim_end,
};

verus! {

/// Largest magnitude carried onward, the i64 range.
pub const MICRO_MAG_MAX: u128 = 0x7fff_ffff_ffff_ffff;

/// The bytes of `deg`.
pub open spec fn tag_deg() -> Seq<u8> {
    seq![100u8, 101u8, 103u8]
}

pub fn tag_deg_vec() -> (r: Vec<u8>)
    ensures
        r@ == tag_deg(),
{
    let r: Vec<u8> = vec![100u8, 101u8, 103u8];
    proof {
        assert(r@ =~= tag_deg());
    }
    r
}

/// Position of the first dot in [i, j), or j if there is none.
pub open spec fn spec_dot_pos(s: Seq<u8>, i: int, j: int) -> int
    decreases j - i
        when i <= j
{
    if i >= j {
        j
    } else if s[i] == 46 {
        i
    } else {
        spec_dot_pos(s, i + 1, j)
    }
}

/// Whether [i, j) is a plain decimal: digits with at most one dot, at
/// least one digit, and at most fifteen digits on either side.
pub open spec fn spec_decimal_ok(s: Seq<u8>, i: int, j: int) -> bool {
    let d = spec_dot_pos(s, i, j);
    &&& 0 <= i <= j <= s.len()
    &&& forall|k: int| i <= k < j && k != d ==> is_digit_byte(#[trigger] s[k])
    &&& d - i <= 15
    &&& j - d - 1 <= 15
    &&& j - i >= 1
    &&& !(j - i == 1 && d == i)
}

/// The integer part of the decimal.
pub open spec fn spec_decimal_int(s: Seq<u8>, i: int, j: int) -> int {
    spec_digits_value(s, i, spec_dot_pos(s, i, j))
}

/// The fraction numerator of the decimal.
pub open spec fn spec_decimal_num(s: Seq<u8>, i: int, j: int) -> int {
    let d = spec_dot_pos(s, i, j);
    if d < j { spec_digits_value(s, d + 1, j) } else { 0 }
}

/// The fraction denominator of the decimal, a power of ten.
pub open spec fn spec_decimal_den(s: Seq<u8>, i: int, j: int) -> int {
    let d = spec_dot_pos(s, i, j);
    if d < j { pow10((j - d - 1) as nat) } else { 1 }
}

/// Finds the first dot in [i, j).
fn find_dot(s: &Vec<u8>, i: usize, j: usize) -> (r: usize)
    requires
        i <= j <= s@.len(),
    ensures
        r == spec_dot_pos(s@, i as int, j as int),
        i <= r <= j,
{
    let mut k = i;
    while k < j
        invariant
            i <= k <= j <= s@.len(),
            spec_dot_pos(s@, i as int, j as int) == spec_dot_pos(s@, k as int, j as int),
        decreases j - k,
    {
        if s[k] == 46 {
            return k;
        }
        k = k + 1;
    }
    k
}

/// Recognizes the decimal in [i, j) and returns its integer part,
/// fraction numerator and fraction denominator.
pub fn parse_decimal(s: &Vec<u8>, i: usize, j: usize) -> (r: Option<(u64, u64, u64)>)
    requires
        i <= j <= s@.len(),
    ensures
        r is Some <==> spec_decimal_ok(s@, i as int, j as int),
        r is Some ==> {
            let (si, sn, sd) = r->0;
            &&& si as int == spec_decimal_int(s@, i as int, j as int)
            &&& sn as int == spec_decimal_num(s@, i as int, j as int)
            &&& sd as int == spec_decimal_den(s@, i as int, j as int)
            &&& si < 0x38d7ea4c68000
            &&& sn < 0x38d7ea4c68000
            &&& 1 <= sd <= 0x38d7ea4c68000
        },
{
    let d = find_dot(s, i, j);
    if j - i < 1 || (j - i == 1 && d == i) {
        return None;
    }
    if d - i > 15 {
        return None;
    }
    if d < j && j - d - 1 > 15 {
        return None;
    }
    let mut k = i;
    while k < j
        invariant
            i <= k <= j <= s@.len(),
            d == spec_dot_pos(s@, i as int, j as int),
            i <= d <= j,
            forall|t: int| i <= t < k && t != d ==> is_digit_byte(#[trigger] s@[t]),
        decreases j - k,
    {
        if k != d {
            let c = s[k];
            if c < 48 || c > 57 {
                return None;
            }
        }
        k = k + 1;
    }
    let si = digits_value_u64(s, i, d);
    let (sn, sd) = if d < j {
        let num = digits_value_u64(s, d + 1, j);
        let mut den: u64 = 1;
        let mut t: usize = 0;
        let w = j - d - 1;
        proof {
            lemma_pow10_15();
        }
        while t < w
            invariant
                t <= w <= 15,
                den as int == pow10(t as nat),
                pow10(15) == 0x38d7ea4c68000,
            decreases w - t,
        {
            proof {
                lemma_pow10_le(t as nat, 14);
                lemma_pow10_15();
            }
            den = den * 10;
            t = t + 1;
        }
        proof {
            lemma_pow10_le(w as nat, 15);
        }
        (num, den)
    } else {
        (0u64, 1u64)
    };
    Some((si, sn, sd))
}

/// Microdegrees of `deg + mn/60 + (si + sn/sd)/3600`, truncated.
pub open spec fn spec_dms_micro(deg: int, mn: int, si: int, sn: int, sd: int) -> int {
    deg * 1000000 + (mn * 1000000) / 60 + ((si * sd + sn) * 1000000) / (3600 * sd)
}

/// Microdegrees of `si + sn/sd`, truncated.
pub open spec fn spec_plain_micro(si: int, sn: int, sd: int) -> int {
    si * 1000000 + (sn * 1000000) / sd
}

pub fn dms_micro(deg: u64, mn: u64, si: u64, sn: u64, sd: u64) -> (r: u128)
    requires
        deg < 0x38d7ea4c68000,
        mn < 0x38d7ea4c68000,
        si < 0x38d7ea4c68000,
        sn < 0x38d7ea4c68000,
        1 <= sd <= 0x38d7ea4c68000,
    ensures
        r as int == spec_dms_micro(deg as int, mn as int, si as int, sn as int, sd as int),
{
    let t1: u128 = deg as u128 * 1000000;
    let t2: u128 = mn as u128 * 1000000 / 60;
    proof {
        assert((si as int) * (sd as int) <= 1000000000000000 * 1000000000000000)
            by (nonlinear_arith)
            requires si < 0x38d7ea4c68000u64, 1 <= sd <= 0x38d7ea4c68000u64;
    }
    let sec: u128 = si as u128 * sd as u128 + sn as u128;
    let t3: u128 = sec * 1000000 / (3600 * sd as u128);
    proof {
        assert((sec as int) * 1000000 / (3600 * (sd as int)) <= (sec as int) * 1000000)
            by (nonlinear_arith)
            requires sd >= 1, sec >= 0;
    }
    t1 + t2 + t3
}

fn plain_micro(si: u64, sn: u64, sd: u64) -> (r: u128)
    requires
        si < 0x38d7ea4c68000,
        sn < 0x38d7ea4c68000,
        1 <= sd <= 0x38d7ea4c68000,
    ensures
        r as int == spec_plain_micro(si as int, sn as int, sd as int),
{
    let t1: u128 = si as u128 * 1000000;
    let t2: u128 = sn as u128 * 1000000 / sd as u128;
    proof {
        assert((sn as int) * 1000000 / (sd as int) <= (sn as int) * 1000000)
            by (nonlinear_arith)
            requires sd >= 1, sn >= 0;
    }
    t1 + t2
}

/// The anchored degree-minute-second pattern at p: digits, optional
/// space, `deg`, digits, an apostrophe, a decimal, an optional closing
/// quote and an optional direction letter. `None`: no such shape here;
/// `Some(None)`: the shape is here but a number part is not acceptable;
/// `Some(Some(v))`: the value in microdegrees, negative for S and W.
pub open spec fn spec_try_dms_at(s: Seq<u8>, p: int) -> Option<Option<int>> {
    if !(0 <= p < s.len() && is_digit_byte(s[p])) {
        Option::None
    } else {
        let de = spec_scan_end(s, p, 1);
        let a = spec_scan_end(s, de, 0);
        if !spec_match_at(s, a, tag_deg()) {
            Option::None
        } else {
            let b = spec_scan_end(s, a + 3, 0);
            if !(b < s.len() && is_digit_byte(s[b])) {
                Option::None
            } else {
                let me = spec_scan_end(s, b, 1);
                if !(me < s.len() && s[me] == 39) {
                    Option::None
                } else {
                    let c = spec_scan_end(s, me + 1, 0);
                    let re = spec_scan_end(s, c, 2);
                    if re == c {
                        Option::None
                    } else {
                        let q = if re < s.len() && s[re] == 34 { re + 1 } else { re };
                        let w = spec_scan_end(s, q, 0);
                        let dir: Option<u8> = if w < s.len() && is_dir_byte(s[w]) {
                            Option::Some(s[w])
                        } else {
                            Option::None
                        };
                        if de - p > 15 || me - b > 15 || !spec_decimal_ok(s, c, re) {
                            Option::Some(Option::None)
                        } else {
                            let mag = spec_dms_micro(
                                spec_digits_value(s, p, de),
                                spec_digits_value(s, b, me),
                                spec_decimal_int(s, c, re),
                                spec_decimal_num(s, c, re),
                                spec_decimal_den(s, c, re),
                            );
                            if mag > MICRO_MAG_MAX as int {
                                Option::Some(Option::None)
                            } else if dir == Option::Some(83u8) || dir == Option::Some(87u8) {
                                Option::Some(Option::Some(-mag))
                            } else {
                                Option::Some(Option::Some(mag))
                            }
                        }
                    }
                }
            }
        }
    }
}

/// Tries the degree-minute-second pattern at p.
fn try_dms_at(s: &Vec<u8>, p: usize) -> (r: Option<Option<i64>>)
    requires
        p <= s@.len(),
    ensures
        match r {
            Option::None => spec_try_dms_at(s@, p as int) is None,
            Option::Some(Option::None) => spec_try_dms_at(s@, p as int) == Option::Some(Option::None::<int>),
            Option::Some(Option::Some(v)) => spec_try_dms_at(s@, p as int)
                == Option::Some(Option::Some(v as int)),
        },
{
    let n = s.len();
    if p >= n {
        return None;
    }
    let c0 = s[p];
    if c0 < 48 || c0 > 57 {
        return None;
    }
    let de = scan_end(s, p, 1);
    let a = scan_end(s, de, 0);
    let deg_tag = tag_deg_vec();
    if !match_at(s, a, &deg_tag) {
        return None;
    }
    let b = scan_end(s, a + 3, 0);
    if b >= n {
        return None;
    }
    let c1 = s[b];
    if c1 < 48 || c1 > 57 {
        return None;
    }
    let me = scan_end(s, b, 1);
    if me >= n || s[me] != 39 {
        return None;
    }
    let c = scan_end(s, me + 1, 0);
    let re = scan_end(s, c, 2);
    if re == c {
        return None;
    }
    let q = if re < n && s[re] == 34 { re + 1 } else { re };
    let w = scan_end(s, q, 0);
    let dir: Option<u8> = if w < n {
        let cw = s[w];
        if cw == 78 || cw == 83 || cw == 69 || cw == 87 { Some(cw) } else { None }
    } else {
        None
    };
    if de - p > 15 || me - b > 15 {
        return Some(None);
    }
    let dec = parse_decimal(s, c, re);
    match dec {
        Option::None => Some(None),
        Option::Some((si, sn, sd)) => {
            proof {
                lemma_scan_end_props(s@, p as int, 1);
                lemma_scan_end_props(s@, b as int, 1);
            }
            let deg = digits_value_u64(s, p, de);
            let mn = digits_value_u64(s, b, me);
            let mag = dms_micro(deg, mn, si, sn, sd);
            if mag > MICRO_MAG_MAX {
                return Some(None);
            }
            let m = mag as i64;
            let neg = match dir {
                Option::Some(d) => d == 83 || d == 87,
                Option::None => false,
            };
            if neg {
                Some(Some(-m))
            } else {
                Some(Some(m))
            }
        },
    }
}

/// The leftmost position at or after p where the degree-minute-second
/// pattern applies, with its outcome.
pub open spec fn spec_find_dms(s: Seq<u8>, p: int) -> Option<Option<int>>
    decreases s.len() - p
        when 0 <= p <= s.len()
{
    if p >= s.len() {
        Option::None
    } else {
        match spec_try_dms_at(s, p) {
            Option::Some(x) => Option::Some(x),
            Option::None => spec_find_dms(s, p + 1),
        }
    }
}

/// Searches the whole input for the degree-minute-second pattern.
fn find_dms(s: &Vec<u8>) -> (r: Option<Option<i64>>)
    ensures
        match r {
            Option::None => spec_find_dms(s@, 0) is None,
            Option::Some(Option::None) => spec_find_dms(s@, 0) == Option::Some(Option::None::<int>),
            Option::Some(Option::Some(v)) => spec_find_dms(s@, 0) == Option::Some(Option::Some(v as int)),
        },
{
    let n = s.len();
    let mut p: usize = 0;
    while p < n
        invariant
            p <= n,
            n == s@.len(),
            spec_find_dms(s@, 0) == spec_find_dms(s@, p as int),
        decreases n - p,
    {
        let r = try_dms_at(s, p);
        match r {
            Option::None => {},
            Option::Some(x) => {
                return Some(x);
            },
        }
        p = p + 1;
    }
    None
}

/// The anchored decimal-with-direction pattern at p: a run of digits,
/// dots and hyphens that parses as a signed decimal, optional spaces,
/// and a required direction letter. Outcomes as for the DMS pattern; S
/// and W flip the sign.
pub open spec fn spec_try_p2_at(s: Seq<u8>, p: int) -> Option<Option<int>> {
    if !(0 <= p < s.len() && byte_in_class(s[p], 3)) {
        Option::None
    } else {
        let re = spec_scan_end(s, p, 3);
        let w = spec_scan_end(s, re, 0);
        if !(w < s.len() && is_dir_byte(s[w])) {
            Option::None
        } else {
            let neg = s[p] == 45;
            let a = if neg { p + 1 } else { p };
            if !(a < re && spec_decimal_ok(s, a, re)) {
                Option::Some(Option::None)
            } else {
                let mag = spec_plain_micro(
                    spec_decimal_int(s, a, re),
                    spec_decimal_num(s, a, re),
                    spec_decimal_den(s, a, re),
                );
                if mag > MICRO_MAG_MAX as int {
                    Option::Some(Option::None)
                } else {
                    let v0 = if neg { -mag } else { mag };
                    let v = if s[w] == 83 || s[w] == 87 { -v0 } else { v0 };
                    Option::Some(Option::Some(v))
                }
            }
        }
    }
}

/// Tries the decimal-with-direction pattern at p.
fn try_p2_at(s: &Vec<u8>, p: usize) -> (r: Option<Option<i64>>)
    requires
        p <= s@.len(),
    ensures
        match r {
            Option::None => spec_try_p2_at(s@, p as int) is None,
            Option::Some(Option::None) => spec_try_p2_at(s@, p as int) == Option::Some(Option::None::<int>),
            Option::Some(Option::Some(v)) => spec_try_p2_at(s@, p as int)
                == Option::Some(Option::Some(v as int)),
        },
{
    let n = s.len();
    if p >= n {
        return None;
    }
    let c0 = s[p];
    if !((48 <= c0 && c0 <= 57) || c0 == 46 || c0 == 45) {
        return None;
    }
    let re = scan_end(s, p, 3);
    let w = scan_end(s, re, 0);
    if w >= n {
        return None;
    }
    let cw = s[w];
    if !(cw == 78 || cw == 83 || cw == 69 || cw == 87) {
        return None;
    }
    let neg = c0 == 45;
    let a = if neg { p + 1 } else { p };
    if a >= re {
        return Some(None);
    }
    let dec = parse_decimal(s, a, re);
    match dec {
        Option::None => Some(None),
        Option::Some((si, sn, sd)) => {
            let mag = plain_micro(si, sn, sd);
            if mag > MICRO_MAG_MAX {
                return Some(None);
            }
            let m = mag as i64;
            let v0 = if neg { -m } else { m };
            let v = if cw == 83 || cw == 87 { -v0 } else { v0 };
            Some(Some(v))
        },
    }
}

/// The leftmost position at or after p where the decimal-with-direction
/// pattern applies, with its outcome.
pub open spec fn spec_find_p2(s: Seq<u8>, p: int) -> Option<Option<int>>
    decreases s.len() - p
        when 0 <= p <= s.len()
{
    if p >= s.len() {
        Option::None
    } else {
        match spec_try_p2_at(s, p) {
            Option::Some(x) => Option::Some(x),
            Option::None => spec_find_p2(s, p + 1),
        }
    }
}

/// Searches the whole input for the decimal-with-direction pattern.
fn find_p2(s: &Vec<u8>) -> (r: Option<Option<i64>>)
    ensures
        match r {
            Option::None => spec_find_p2(s@, 0) is None,
            Option::Some(Option::None) => spec_find_p2(s@, 0) == Option::Some(Option::None::<int>),
            Option::Some(Option::Some(v)) => spec_find_p2(s@, 0) == Option::Some(Option::Some(v as int)),
        },
{
    let n = s.len();
    let mut p: usize = 0;
    while p < n
        invariant
            p <= n,
            n == s@.len(),
            spec_find_p2(s@, 0) == spec_find_p2(s@, p as int),
        decreases n - p,
    {
        let r = try_p2_at(s, p);
        match r {
            Option::None => {},
            Option::Some(x) => {
                return Some(x);
            },
        }
        p = p + 1;
    }
    None
}

/// The whole input, trimmed, read as one signed decimal number in
/// microdegrees.
pub open spec fn spec_parse_full_number(s: Seq<u8>) -> Option<int> {
    let a = spec_scan_end(s, 0, 0);
    let b = spec_trim_end(s, s.len() as int, a, 0);
    if a >= b {
        Option::None
    } else {
        let neg = s[a] == 45;
        let a2 = if s[a] == 45 || s[a] == 43 { a + 1 } else { a };
        if !spec_decimal_ok(s, a2, b) {
            Option::None
        } else {
            let mag = spec_plain_micro(
                spec_decimal_int(s, a2, b),
                spec_decimal_num(s, a2, b),
                spec_decimal_den(s, a2, b),
            );
            if mag > MICRO_MAG_MAX as int {
                Option::None
            } else if neg {
                Option::Some(-mag)
            } else {
                Option::Some(mag)
            }
        }
    }
}

/// Reads the whole input, trimmed, as one signed decimal number.
pub fn parse_full_number(s: &Vec<u8>) -> (r: Option<i64>)
    ensures
        match spec_parse_full_number(s@) {
            Option::Some(v) => r is Some && r->0 == v,
            Option::None => r is None,
        },
{
    let n = s.len();
    let a = scan_end(s, 0, 0);
    let b = trim_end(s, n, a, 0);
    if a >= b {
        return None;
    }
    let ca = s[a];
    let neg = ca == 45;
    let a2 = if ca == 45 || ca == 43 { a + 1 } else { a };
    let dec = parse_decimal(s, a2, b);
    match dec {
        Option::None => None,
        Option::Some((si, sn, sd)) => {
            let mag = plain_micro(si, sn, sd);
            if mag > MICRO_MAG_MAX {
                return None;
            }
            let m = mag as i64;
            if neg { Some(-m) } else { Some(m) }
        },
    }
}

/// A coordinate read from free text, in microdegrees: the first
/// degree-minute-second form if the text holds one, else the first
/// decimal with a direction letter, else the whole text as a plain
/// number; S and W make the value negative. A recognized form whose
/// numbers are unacceptable yields nothing at all.
pub open spec fn spec_parse_dms(s: Seq<u8>) -> Option<int> {
    match spec_find_dms(s, 0) {
        Option::Some(Option::Some(v)) => Option::Some(v),
        Option::Some(Option::None) => Option::None,
        Option::None => match spec_find_p2(s, 0) {
            Option::Some(Option::Some(v)) => Option::Some(v),
            Option::Some(Option::None) => Option::None,
            Option::None => spec_parse_full_number(s),
        },
    }
}

/// Reads a coordinate in degrees from free text and returns it in
/// microdegrees.
pub fn parse_dms_to_decimal(s: &Vec<u8>) -> (r: Option<i64>)
    ensures
        match spec_parse_dms(s@) {
            Option::Some(v) => r is Some && r->0 == v,
            Option::None => r is None,
        },
{
    let d = find_dms(s);
    match d {
        Option::Some(Option::Some(v)) => Some(v),
        Option::Some(Option::None) => None,
        Option::None => {
            let p2 = find_p2(s);
            match p2 {
                Option::Some(Option::Some(v)) => Some(v),
                Option::Some(Option::None) => None,
                Option::None => parse_full_number(s),
            }
        },
    }
}

} // verus!
