//! Reading coordinates out of the external metadata tool's textual
//! report. A combined `GPS Position` line is preferred; otherwise the
//! separate `GPS Latitude` / `GPS Longitude` lines are combined with
//! their `Ref` lines, whose hemisphere may be spelled out (`South`,
//! `West`) or abbreviated; without a `Ref` line, an explicit
//! hemisphere suffix on the coordinate line decides. Values are
//! integer microdegrees.

use vstd::prelude::*;
use crate::scan::{
    digits_value_u64, is_digit_byte, is_dir_byte, lemma_scan_end_props, match_at, scan_end,
    spec_digits_value, spec_match_at, spec_scan_end, spec_trim_end, spec_contains,
    contains_bytes, sub_bytes, trim_end,
};
use crate::parse::{
    MICRO_MAG_MAX, spec_decimal_ok, spec_decimal_int, spec_decimal_num, spec_decimal_den,
    spec_dms_micro, tag_deg, tag_deg_vec, parse_decimal, dms_micro,
};

verus! {

pub open spec fn tag_gps_position() -> Seq<u8> {
    seq![71u8, 80u8, 83u8, 32u8, 80u8, 111u8, 115u8, 105u8, 116u8, 105u8, 111u8, 110u8]
}

fn tag_gps_position_vec() -> (r: Vec<u8>)
    ensures
        r@ == tag_gps_position(),
{
    let r: Vec<u8> = vec![71u8, 80u8, 83u8, 32u8, 80u8, 111u8, 115u8, 105u8, 116u8, 105u8, 111u8, 110u8];
    proof { assert(r@ =~= tag_gps_position()); }
    r
}

pub open spec fn tag_gps_latitude_ref() -> Seq<u8> {
    seq![71u8, 80u8, 83u8, 32u8, 76u8, 97u8, 116u8, 105u8, 116u8, 117u8, 100u8, 101u8, 32u8, 82u8, 101u8, 102u8]
}

fn tag_gps_latitude_ref_vec() -> (r: Vec<u8>)
    ensures
        r@ == tag_gps_latitude_ref(),
{
    let r: Vec<u8> = vec![71u8, 80u8, 83u8, 32u8, 76u8, 97u8, 116u8, 105u8, 116u8, 117u8, 100u8, 101u8, 32u8, 82u8, 101u8, 102u8];
    proof { assert(r@ =~= tag_gps_latitude_ref()); }
    r
}

pub open spec fn tag_gps_latitude() -> Seq<u8> {
    seq![71u8, 80u8, 83u8, 32u8, 76u8, 97u8, 116u8, 105u8, 116u8, 117u8, 100u8, 101u8]
}

fn tag_gps_latitude_vec() -> (r: Vec<u8>)
    ensures
        r@ == tag_gps_latitude(),
{
    let r: Vec<u8> = vec![71u8, 80u8, 83u8, 32u8, 76u8, 97u8, 116u8, 105u8, 116u8, 117u8, 100u8, 101u8];
    proof { assert(r@ =~= tag_gps_latitude()); }
    r
}

pub open spec fn tag_gps_longitude_ref() -> Seq<u8> {
    seq![71u8, 80u8, 83u8, 32u8, 76u8, 111u8, 110u8, 103u8, 105u8, 116u8, 117u8, 100u8, 101u8, 32u8, 82u8, 101u8, 102u8]
}

fn tag_gps_longitude_ref_vec() -> (r: Vec<u8>)
    ensures
        r@ == tag_gps_longitude_ref(),
{
    let r: Vec<u8> = vec![71u8, 80u8, 83u8, 32u8, 76u8, 111u8, 110u8, 103u8, 105u8, 116u8, 117u8, 100u8, 101u8, 32u8, 82u8, 101u8, 102u8];
    proof { assert(r@ =~= tag_gps_longitude_ref()); }
    r
}

pub open spec fn tag_gps_longitude() -> Seq<u8> {
    seq![71u8, 80u8, 83u8, 32u8, 76u8, 111u8, 110u8, 103u8, 105u8, 116u8, 117u8, 100u8, 101u8]
}

fn tag_gps_longitude_vec() -> (r: Vec<u8>)
    ensures
        r@ == tag_gps_longitude(),
{
    let r: Vec<u8> = vec![71u8, 80u8, 83u8, 32u8, 76u8, 111u8, 110u8, 103u8, 105u8, 116u8, 117u8, 100u8, 101u8];
    proof { assert(r@ =~= tag_gps_longitude()); }
    r
}

pub open spec fn tag_south() -> Seq<u8> {
    seq![83u8, 111u8, 117u8, 116u8, 104u8]
}

fn tag_south_vec() -> (r: Vec<u8>)
    ensures
        r@ == tag_south(),
{
    let r: Vec<u8> = vec![83u8, 111u8, 117u8, 116u8, 104u8];
    proof { assert(r@ =~= tag_south()); }
    r
}

pub open spec fn tag_west() -> Seq<u8> {
    seq![87u8, 101u8, 115u8, 116u8]
}

fn tag_west_vec() -> (r: Vec<u8>)
    ensures
        r@ == tag_west(),
{
    let r: Vec<u8> = vec![87u8, 101u8, 115u8, 116u8];
    proof { assert(r@ =~= tag_west()); }
    r
}

/// The anchored degree-minute-second pattern with a required closing
/// quote at p; when `need_dir` also a required direction letter after
/// it. `Some(Some((m, d)))` gives the magnitude in microdegrees and
/// the direction byte, N when none follows the quote.
pub open spec fn spec_try_coord_at(s: Seq<u8>, p: int, need_dir: bool) -> Option<Option<(int, u8)>> {
    if !(0 <= p < s.len() && is_digit_byte(s[p])) {
        Option::None
    } else {
        let de = spec_scan_end(s, p, 1);
        let a = spec_scan_end(s, de, 0);
        if !spec_match_at(s, a, tag_deg()) {
            Option::None
        } else {
            let b = spec_scan_end(s, a + 3, 0);
            if !(b < s.len() && is_digit_byte(s[b])) {
                Option::None
            } else {
                let me = spec_scan_end(s, b, 1);
                if !(me < s.len() && s[me] == 39) {
                    Option::None
                } else {
                    let c = spec_scan_end(s, me + 1, 0);
                    let re = spec_scan_end(s, c, 2);
                    if re == c || !(re < s.len() && s[re] == 34) {
                        Option::None
                    } else {
                        let w = spec_scan_end(s, re + 1, 0);
                        let has_dir = w < s.len() && is_dir_byte(s[w]);
                        if need_dir && !has_dir {
                            Option::None
                        } else {
                            let d: u8 = if has_dir { s[w] } else { 78u8 };
                            if de - p > 15 || me - b > 15 || !spec_decimal_ok(s, c, re) {
                                Option::Some(Option::None)
                            } else {
                                let mag = spec_dms_micro(
                                    spec_digits_value(s, p, de),
                                    spec_digits_value(s, b, me),
                                    spec_decimal_int(s, c, re),
                                    spec_decimal_num(s, c, re),
                                    spec_decimal_den(s, c, re),
                                );
                                if mag > MICRO_MAG_MAX as int {
                                    Option::Some(Option::None)
                                } else {
                                    Option::Some(Option::Some((mag, d)))
                                }
                            }
                        }
                    }
                }
            }
        }
    }
}

/// Tries the quoted degree-minute-second pattern at p.
fn try_coord_at(s: &Vec<u8>, p: usize, need_dir: bool) -> (r: Option<Option<(i64, u8)>>)
    requires
        p <= s@.len(),
    ensures
        match r {
            Option::None => spec_try_coord_at(s@, p as int, need_dir) is None,
            Option::Some(Option::None) => spec_try_coord_at(s@, p as int, need_dir)
                == Option::Some(Option::None::<(int, u8)>),
            Option::Some(Option::Some((m, d))) => spec_try_coord_at(s@, p as int, need_dir)
                == Option::Some(Option::Some((m as int, d)))
                && m >= 0,
        },
{
    let n = s.len();
    if p >= n {
        return None;
    }
    let c0 = s[p];
    if c0 < 48 || c0 > 57 {
        return None;
    }
    let de = scan_end(s, p, 1);
    let a = scan_end(s, de, 0);
    let deg_tag = tag_deg_vec();
    if !match_at(s, a, &deg_tag) {
        return None;
    }
    let b = scan_end(s, a + 3, 0);
    if b >= n {
        return None;
    }
    let c1 = s[b];
    if c1 < 48 || c1 > 57 {
        return None;
    }
    let me = scan_end(s, b, 1);
    if me >= n || s[me] != 39 {
        return None;
    }
    let c = scan_end(s, me + 1, 0);
    let re = scan_end(s, c, 2);
    if re == c || re >= n || s[re] != 34 {
        return None;
    }
    let w = scan_end(s, re + 1, 0);
    let has_dir = if w < n {
        let cw = s[w];
        cw == 78 || cw == 83 || cw == 69 || cw == 87
    } else {
        false
    };
    if need_dir && !has_dir {
        return None;
    }
    let d: u8 = if has_dir { s[w] } else { 78u8 };
    if de - p > 15 || me - b > 15 {
        return Some(None);
    }
    let dec = parse_decimal(s, c, re);
    match dec {
        Option::None => Some(None),
        Option::Some((si, sn, sd)) => {
            proof {
                lemma_scan_end_props(s@, p as int, 1);
                lemma_scan_end_props(s@, b as int, 1);
            }
            let deg = digits_value_u64(s, p, de);
            let mn = digits_value_u64(s, b, me);
            let mag = dms_micro(deg, mn, si, sn, sd);
            if mag > MICRO_MAG_MAX {
                return Some(None);
            }
            Some(Some((mag as i64, d)))
        },
    }
}

/// The leftmost position at or after p where the quoted pattern
/// applies, with its outcome.
pub open spec fn spec_find_coord(s: Seq<u8>, p: int, need_dir: bool) -> Option<Option<(int, u8)>>
    decreases s.len() - p
        when 0 <= p <= s.len()
{
    if p >= s.len() {
        Option::None
    } else {
        match spec_try_coord_at(s, p, need_dir) {
            Option::Some(x) => Option::Some(x),
            Option::None => spec_find_coord(s, p + 1, need_dir),
        }
    }
}

/// Searches the whole input for the quoted pattern.
fn find_coord(s: &Vec<u8>, need_dir: bool) -> (r: Option<Option<(i64, u8)>>)
    ensures
        match r {
            Option::None => spec_find_coord(s@, 0, need_dir) is None,
            Option::Some(Option::None) => spec_find_coord(s@, 0, need_dir)
                == Option::Some(Option::None::<(int, u8)>),
            Option::Some(Option::Some((m, d))) => spec_find_coord(s@, 0, need_dir)
                == Option::Some(Option::Some((m as int, d)))
                && m >= 0,
        },
{
    let n = s.len();
    let mut p: usize = 0;
    while p < n
        invariant
            p <= n,
            n == s@.len(),
            spec_find_coord(s@, 0, need_dir) == spec_find_coord(s@, p as int, need_dir),
        decreases n - p,
    {
        let r = try_coord_at(s, p, need_dir);
        match r {
            Option::None => {},
            Option::Some(x) => {
                return Some(x);
            },
        }
        p = p + 1;
    }
    None
}

/// The magnitude of the first quoted coordinate in the text, with the
/// direction letter after it, N when none follows.
pub open spec fn spec_coord_val(v: Seq<u8>) -> Option<(int, u8)> {
    match spec_find_coord(v, 0, false) {
        Option::Some(Option::Some((m, d))) => Option::Some((m, d)),
        _ => Option::None,
    }
}

/// A combined position: the text before the first comma and the text
/// between the first and second comma each hold a quoted coordinate
/// with a direction letter; S negates the first, W the second.
pub open spec fn spec_parse_position(v: Seq<u8>) -> Option<(int, int)> {
    let c1 = spec_scan_end(v, 0, 6);
    if c1 >= v.len() {
        Option::None
    } else {
        let c2 = spec_scan_end(v, c1 + 1, 6);
        let part1 = v.subrange(0, c1);
        let part2 = v.subrange(c1 + 1, c2);
        match spec_find_coord(part1, 0, true) {
            Option::Some(Option::Some((m1, d1))) => match spec_find_coord(part2, 0, true) {
                Option::Some(Option::Some((m2, d2))) => {
                    let lat = if d1 == 83 { -m1 } else { m1 };
                    let lon = if d2 == 87 { -m2 } else { m2 };
                    Option::Some((lat, lon))
                },
                _ => Option::None,
            },
            _ => Option::None,
        }
    }
}

/// Reads a combined `lat, lon` position string; microdegrees.
pub fn parse_position_string(v: &Vec<u8>) -> (r: Option<(i64, i64)>)
    ensures
        match spec_parse_position(v@) {
            Option::Some((a, b)) => r is Some && (r->0).0 == a && (r->0).1 == b,
            Option::None => r is None,
        },
{
    let n = v.len();
    let c1 = scan_end(v, 0, 6);
    if c1 >= n {
        return None;
    }
    let c2 = scan_end(v, c1 + 1, 6);
    let part1 = sub_bytes(v, 0, c1);
    let part2 = sub_bytes(v, c1 + 1, c2);
    let r1 = find_coord(&part1, true);
    match r1 {
        Option::Some(Option::Some((m1, d1))) => {
            let r2 = find_coord(&part2, true);
            match r2 {
                Option::Some(Option::Some((m2, d2))) => {
                    let lat = if d1 == 83 { -m1 } else { m1 };
                    let lon = if d2 == 87 { -m2 } else { m2 };
                    Some((lat, lon))
                },
                _ => None,
            }
        },
        _ => None,
    }
}

/// The value text of a tagged line: after the tag, optional spacing, a
/// colon, then the rest of the line trimmed.
pub open spec fn spec_line_value(s: Seq<u8>, after_tag: int, hi: int) -> Option<Seq<u8>> {
    let c = spec_scan_end(s, after_tag, 5);
    if c < hi && s[c] == 58 {
        let vlo = spec_scan_end(s, c + 1, 5);
        let vhi = spec_trim_end(s, hi, c + 1, 5);
        if vlo <= vhi {
            Option::Some(s.subrange(vlo, vhi))
        } else {
            Option::Some(Seq::empty())
        }
    } else {
        Option::None
    }
}

/// Extracts the value text of a tagged line.
pub fn line_value(s: &Vec<u8>, after_tag: usize, hi: usize) -> (r: Option<Vec<u8>>)
    requires
        after_tag <= s@.len(),
        hi <= s@.len(),
    ensures
        match r {
            Option::Some(v) => spec_line_value(s@, after_tag as int, hi as int) == Option::Some(v@),
            Option::None => spec_line_value(s@, after_tag as int, hi as int) is None,
        },
{
    let c = scan_end(s, after_tag, 5);
    if c < hi && s[c] == 58 {
        let vlo = scan_end(s, c + 1, 5);
        let vhi = trim_end(s, hi, c + 1, 5);
        if vlo <= vhi {
            Some(sub_bytes(s, vlo, vhi))
        } else {
            let empty: Vec<u8> = Vec::new();
            proof {
                assert(empty@ =~= Seq::<u8>::empty());
            }
            Some(empty)
        }
    } else {
        None
    }
}

pub open spec fn opt_bytes_view(o: Option<Vec<u8>>) -> Option<Seq<u8>> {
    match o {
        Option::Some(v) => Option::Some(v@),
        Option::None => Option::None,
    }
}

/// Combines the remembered latitude and longitude lines: both must
/// hold a quoted coordinate. A remembered reference line decides the
/// coordinate's sign — negative when it spells `South`/`West` or
/// equals `S`/`W` — and without one, the explicit hemisphere suffix
/// after the coordinate itself decides, `S` or `W` negating.
pub open spec fn spec_gps_combine(
    latv: Option<Seq<u8>>,
    lonv: Option<Seq<u8>>,
    latr: Option<Seq<u8>>,
    lonr: Option<Seq<u8>>,
) -> Option<(int, int)> {
    if latv is Some && lonv is Some {
        match (spec_coord_val(latv->0), spec_coord_val(lonv->0)) {
            (Option::Some((m1, d1)), Option::Some((m2, d2))) => {
                let lat = match latr {
                    Option::Some(lr) => if spec_contains(lr, tag_south()) || lr == seq![83u8] { -m1 } else { m1 },
                    Option::None => if d1 == 83 { -m1 } else { m1 },
                };
                let lon = match lonr {
                    Option::Some(or) => if spec_contains(or, tag_west()) || or == seq![87u8] { -m2 } else { m2 },
                    Option::None => if d2 == 87 { -m2 } else { m2 },
                };
                Option::Some((lat, lon))
            },
            _ => Option::None,
        }
    } else {
        Option::None
    }
}

/// One pass over the report's lines, carrying the remembered latitude,
/// longitude and reference values: a parsable `GPS Position` line wins
/// immediately; at the end the remembered lines are combined.
pub open spec fn spec_scan_gps_lines(
    s: Seq<u8>,
    i: int,
    latv: Option<Seq<u8>>,
    lonv: Option<Seq<u8>>,
    latr: Option<Seq<u8>>,
    lonr: Option<Seq<u8>>,
) -> Option<(int, int)>
    decreases s.len() - i
        when 0 <= i <= s.len()
{
    if i >= s.len() {
        spec_gps_combine(latv, lonv, latr, lonr)
    } else {
        let hi0 = spec_scan_end(s, i, 4);
        let hi = if hi0 < i { i } else { if hi0 > s.len() { s.len() as int } else { hi0 } };
        let a = spec_scan_end(s, i, 5);
        let next = if hi < s.len() { hi + 1 } else { s.len() as int };
        if spec_match_at(s, a, tag_gps_position()) {
            match spec_line_value(s, a + 12, hi) {
                Option::Some(v) => match spec_parse_position(v) {
                    Option::Some(r) => Option::Some(r),
                    Option::None => spec_scan_gps_lines(s, next, latv, lonv, latr, lonr),
                },
                Option::None => spec_scan_gps_lines(s, next, latv, lonv, latr, lonr),
            }
        } else if spec_match_at(s, a, tag_gps_latitude_ref()) {
            match spec_line_value(s, a + 16, hi) {
                Option::Some(v) => spec_scan_gps_lines(s, next, latv, lonv, Option::Some(v), lonr),
                Option::None => spec_scan_gps_lines(s, next, latv, lonv, latr, lonr),
            }
        } else if spec_match_at(s, a, tag_gps_longitude_ref()) {
            match spec_line_value(s, a + 17, hi) {
                Option::Some(v) => spec_scan_gps_lines(s, next, latv, lonv, latr, Option::Some(v)),
                Option::None => spec_scan_gps_lines(s, next, latv, lonv, latr, lonr),
            }
        } else if spec_match_at(s, a, tag_gps_latitude()) {
            match spec_line_value(s, a + 12, hi) {
                Option::Some(v) => spec_scan_gps_lines(s, next, Option::Some(v), lonv, latr, lonr),
                Option::None => spec_scan_gps_lines(s, next, latv, lonv, latr, lonr),
            }
        } else if spec_match_at(s, a, tag_gps_longitude()) {
            match spec_line_value(s, a + 13, hi) {
                Option::Some(v) => spec_scan_gps_lines(s, next, latv, Option::Some(v), latr, lonr),
                Option::None => spec_scan_gps_lines(s, next, latv, lonv, latr, lonr),
            }
        } else {
            spec_scan_gps_lines(s, next, latv, lonv, latr, lonr)
        }
    }
}

/// Reads a coordinate pair from the external tool's report, in
/// microdegrees.
pub fn get_gps_from_exiftool_string(s: &Vec<u8>) -> (r: Option<(i64, i64)>)
    ensures
        match spec_scan_gps_lines(s@, 0, Option::None, Option::None, Option::None, Option::None) {
            Option::Some((a, b)) => r is Some && (r->0).0 == a && (r->0).1 == b,
            Option::None => r is None,
        },
{
    let n = s.len();
    let mut latv: Option<Vec<u8>> = None;
    let mut lonv: Option<Vec<u8>> = None;
    let mut latr: Option<Vec<u8>> = None;
    let mut lonr: Option<Vec<u8>> = None;
    let t_pos = tag_gps_position_vec();
    let t_latr = tag_gps_latitude_ref_vec();
    let t_lonr = tag_gps_longitude_ref_vec();
    let t_lat = tag_gps_latitude_vec();
    let t_lon = tag_gps_longitude_vec();
    let mut i: usize = 0;
    while i < n
        invariant
            i <= n,
            n == s@.len(),
            t_pos@ == tag_gps_position(),
            t_latr@ == tag_gps_latitude_ref(),
            t_lonr@ == tag_gps_longitude_ref(),
            t_lat@ == tag_gps_latitude(),
            t_lon@ == tag_gps_longitude(),
            spec_scan_gps_lines(s@, 0, Option::None, Option::None, Option::None, Option::None)
                == spec_scan_gps_lines(
                    s@, i as int,
                    opt_bytes_view(latv), opt_bytes_view(lonv),
                    opt_bytes_view(latr), opt_bytes_view(lonr),
                ),
        decreases n - i,
    {
        let hi = scan_end(s, i, 4);
        let a = scan_end(s, i, 5);
        let next = if hi < n { hi + 1 } else { n };
        if match_at(s, a, &t_pos) {
            let v = line_value(s, a + 12, hi);
            match v {
                Option::Some(v) => {
                    let parsed = parse_position_string(&v);
                    match parsed {
                        Option::Some(p) => {
                            return Some(p);
                        },
                        Option::None => {},
                    }
                },
                Option::None => {},
            }
        } else if match_at(s, a, &t_latr) {
            let v = line_value(s, a + 16, hi);
            match v {
                Option::Some(v) => { latr = Some(v); },
                Option::None => {},
            }
        } else if match_at(s, a, &t_lonr) {
            let v = line_value(s, a + 17, hi);
            match v {
                Option::Some(v) => { lonr = Some(v); },
                Option::None => {},
            }
        } else if match_at(s, a, &t_lat) {
            let v = line_value(s, a + 12, hi);
            match v {
                Option::Some(v) => { latv = Some(v); },
                Option::None => {},
            }
        } else if match_at(s, a, &t_lon) {
            let v = line_value(s, a + 13, hi);
            match v {
                Option::Some(v) => { lonv = Some(v); },
                Option::None => {},
            }
        }
        i = next;
    }
    let (la, d1, lo, d2) = match (&latv, &lonv) {
        (Option::Some(lv), Option::Some(ov)) => {
            let r1 = find_coord(lv, false);
            let r2 = find_coord(ov, false);
            match (r1, r2) {
                (Option::Some(Option::Some((m1, d1))), Option::Some(Option::Some((m2, d2)))) => (m1, d1, m2, d2),
                _ => {
                    return None;
                },
            }
        },
        _ => {
            return None;
        },
    };
    let t_south = tag_south_vec();
    let t_west = tag_west_vec();
    let lat_neg = match &latr {
        Option::Some(lr) => {
            let c = contains_bytes(lr, &t_south);
            let single = lr.len() == 1 && lr[0] == 83;
            proof {
                if lr@.len() == 1 && lr@[0] == 83 {
                    assert(lr@ =~= seq![83u8]);
                }
                if lr@ == seq![83u8] {
                    assert(lr@.len() == 1 && lr@[0] == 83);
                }
            }
            c || single
        },
        Option::None => d1 == 83,
    };
    let lon_neg = match &lonr {
        Option::Some(or) => {
            let c = contains_bytes(or, &t_west);
            let single = or.len() == 1 && or[0] == 87;
            proof {
                if or@.len() == 1 && or@[0] == 87 {
                    assert(or@ =~= seq![87u8]);
                }
                if or@ == seq![87u8] {
                    assert(or@.len() == 1 && or@[0] == 87);
                }
            }
            c || single
        },
        Option::None => d2 == 87,
    };
    let lat = if lat_neg { -la } else { la };
    let lon = if lon_neg { -lo } else { lo };
    Some((lat, lon))
}

/// The bytes of `GPS Img Direction`.
pub open spec fn tag_gps_img_direction() -> Seq<u8> {
    seq![71u8, 80u8, 83u8, 32u8, 73u8, 109u8, 103u8, 32u8, 68u8, 105u8, 114u8, 101u8, 99u8, 116u8, 105u8, 111u8, 110u8]
}

fn tag_gps_img_direction_vec() -> (r: Vec<u8>)
    ensures
        r@ == tag_gps_img_direction(),
{
    let r: Vec<u8> = vec![71u8, 80u8, 83u8, 32u8, 73u8, 109u8, 103u8, 32u8, 68u8, 105u8, 114u8, 101u8, 99u8, 116u8, 105u8, 111u8, 110u8];
    proof { assert(r@ =~= tag_gps_img_direction()); }
    r
}

/// The value of the first `GPS Img Direction` line.
pub open spec fn spec_scan_direction_lines(s: Seq<u8>, i: int) -> Option<Seq<u8>>
    decreases s.len() - i
        when 0 <= i <= s.len()
{
    if i >= s.len() {
        Option::None
    } else {
        let hi0 = spec_scan_end(s, i, 4);
        let hi = if hi0 < i { i } else { if hi0 > s.len() { s.len() as int } else { hi0 } };
        let a = spec_scan_end(s, i, 5);
        let next = if hi < s.len() { hi + 1 } else { s.len() as int };
        if spec_match_at(s, a, tag_gps_img_direction()) {
            match spec_line_value(s, a + 17, hi) {
                Option::Some(v) => Option::Some(v),
                Option::None => spec_scan_direction_lines(s, next),
            }
        } else {
            spec_scan_direction_lines(s, next)
        }
    }
}

/// Finds the value of the first `GPS Img Direction` line.
pub fn scan_direction_lines(s: &Vec<u8>) -> (r: Option<Vec<u8>>)
    ensures
        match r {
            Option::Some(v) => spec_scan_direction_lines(s@, 0) == Option::Some(v@),
            Option::None => spec_scan_direction_lines(s@, 0) is None,
        },
{
    let n = s.len();
    let t_dir = tag_gps_img_direction_vec();
    let mut i: usize = 0;
    while i < n
        invariant
            i <= n,
            n == s@.len(),
            t_dir@ == tag_gps_img_direction(),
            spec_scan_direction_lines(s@, 0) == spec_scan_direction_lines(s@, i as int),
        decreases n - i,
    {
        let hi = scan_end(s, i, 4);
        let a = scan_end(s, i, 5);
        let next = if hi < n { hi + 1 } else { n };
        if match_at(s, a, &t_dir) {
            let v = line_value(s, a + 17, hi);
            match v {
                Option::Some(v) => {
                    return Some(v);
                },
                Option::None => {},
            }
        }
        i = next;
    }
    None
}

} // verus!
