//! Geographic locations and the great-circle (Haversine) distance.
//!
//! Coordinates are carried as integer microdegrees (1e-6 degree), so the
//! whole computation is exact integer arithmetic: angles are converted to
//! Q60 fixed-point radians and the Haversine formula is evaluated with a
//! truncated Taylor sine, an integer square root and an arcsine series.
//! Distances are returned in millimeters.

use vstd::prelude::*;

verus! {

/// 2^60, the unit of the Q60 fixed-point scale.
pub const ONE_Q60: u128 = 0x1000_0000_0000_0000;

/// 2^59, one half on the Q60 scale.
pub const HALF_Q60: u128 = 0x800_0000_0000_0000;

/// 2^62, the largest factor `q_mul` accepts.
pub const Q60_CAP: u128 = 0x4000_0000_0000_0000;

/// 2^120, the largest argument `isqrt_u128` accepts.
pub const ONE_SQ_Q60: u128 = 0x1000000_0000_0000_0000_0000_0000_0000;

/// Q60 radians per microdegree: round(pi / 180e6 * 2^60).
pub const RAD_PER_UDEG_Q60: u128 = 20122276272;

/// pi/2 on the Q60 scale, defined as 90e6 microdegrees exactly.
pub const HALF_PI_Q60: u128 = 1811004864480000000;

/// pi on the Q60 scale, defined as 180e6 microdegrees exactly.
pub const PI_Q60: u128 = 3622009728960000000;

/// Upper bound for arguments of the arcsine series: ceil(sqrt(1/2) * 2^60).
pub const ASIN_XMAX_Q60: u128 = 815238614083298889;

/// Earth radius in millimeters (6,371,000 m).
pub const EARTH_RADIUS_MM: u128 = 6371000000;

/// Largest valid latitude, in microdegrees (90 degrees).
pub const MAX_LAT_UDEG: i64 = 90000000;

/// Largest valid longitude, in microdegrees (180 degrees).
pub const MAX_LON_UDEG: i64 = 180000000;

/// A geographic location in integer microdegrees.
#[derive(Clone, Copy, PartialEq, Eq, Structural, Debug)]
pub struct Location {
    /// Latitude in microdegrees, positive north.
    pub latitude: i64,
    /// Longitude in microdegrees, positive east.
    pub longitude: i64,
}

impl Location {
    /// Both coordinates lie in the valid geographic range.
    pub open spec fn wf(self) -> bool {
        &&& -MAX_LAT_UDEG <= self.latitude <= MAX_LAT_UDEG
        &&& -MAX_LON_UDEG <= self.longitude <= MAX_LON_UDEG
    }

    /// Builds a location after checking the geographic range.
    pub fn checked(latitude: i64, longitude: i64) -> (r: Option<Location>)
        ensures
            r is Some <==> (-MAX_LAT_UDEG <= latitude <= MAX_LAT_UDEG
                && -MAX_LON_UDEG <= longitude <= MAX_LON_UDEG),
            r is Some ==> r->0 == (Location { latitude, longitude })
                && r->0.wf(),
    {
        if -MAX_LAT_UDEG <= latitude && latitude <= MAX_LAT_UDEG
            && -MAX_LON_UDEG <= longitude && longitude <= MAX_LON_UDEG {
            Some(Location { latitude, longitude })
        } else {
            None
        }
    }
}

pub open spec fn abs_int(a: int) -> int {
    if a < 0 { -a } else { a }
}

/// Q60 fixed-point product: (a * b) / 2^60, rounded toward zero.
pub open spec fn q_mul_s(a: int, b: int) -> int {
    (a * b) / (ONE_Q60 as int)
}

/// Fixed-point multiply with the bounds its callers need.
fn q_mul(a: u128, b: u128) -> (r: u128)
    requires
        a <= Q60_CAP,
        b <= Q60_CAP,
    ensures
        r as int == q_mul_s(a as int, b as int),
        a <= ONE_Q60 ==> r <= b,
        b <= ONE_Q60 ==> r <= a,
        a <= 2 * ONE_Q60 ==> r <= 2 * b,
        b <= 2 * ONE_Q60 ==> r <= 2 * a,
        a <= 4 * ONE_Q60 ==> r <= 4 * b,
        b <= 4 * ONE_Q60 ==> r <= 4 * a,
{
    proof {
        assert((a as int) * (b as int) <= 21267647932558653966460912964485513216) by (nonlinear_arith)
            requires a <= 0x4000_0000_0000_0000u128, b <= 0x4000_0000_0000_0000u128;
        assert(a <= 0x1000_0000_0000_0000u128
            ==> (a as int) * (b as int) / 0x1000_0000_0000_0000 <= b) by (nonlinear_arith);
        assert(b <= 0x1000_0000_0000_0000u128
            ==> (a as int) * (b as int) / 0x1000_0000_0000_0000 <= a) by (nonlinear_arith);
        assert(a <= 0x2000_0000_0000_0000u128
            ==> (a as int) * (b as int) / 0x1000_0000_0000_0000 <= 2 * b) by (nonlinear_arith);
        assert(b <= 0x2000_0000_0000_0000u128
            ==> (a as int) * (b as int) / 0x1000_0000_0000_0000 <= 2 * a) by (nonlinear_arith);
        assert(a <= 0x4000_0000_0000_0000u128
            ==> (a as int) * (b as int) / 0x1000_0000_0000_0000 <= 4 * b) by (nonlinear_arith);
        assert(b <= 0x4000_0000_0000_0000u128
            ==> (a as int) * (b as int) / 0x1000_0000_0000_0000 <= 4 * a) by (nonlinear_arith);
    }
    (a * b) / ONE_Q60
}

/// Taylor sine on [0, pi/2], Q60 in and out, clamped to [0, 1].
pub open spec fn spec_sin_q60(x: int) -> int {
    let x2 = q_mul_s(x, x);
    let t3 = q_mul_s(x, x2) / 6;
    let t5 = q_mul_s(t3, x2) / 20;
    let t7 = q_mul_s(t5, x2) / 42;
    let t9 = q_mul_s(t7, x2) / 72;
    let t11 = q_mul_s(t9, x2) / 110;
    let t13 = q_mul_s(t11, x2) / 156;
    let t15 = q_mul_s(t13, x2) / 210;
    let s = x - t3 + t5 - t7 + t9 - t11 + t13 - t15;
    if s < 0 { 0 } else if s > ONE_Q60 as int { ONE_Q60 as int } else { s }
}

fn sin_q60(x: u128) -> (r: u128)
    requires
        x <= HALF_PI_Q60,
    ensures
        r as int == spec_sin_q60(x as int),
        r <= ONE_Q60,
{
    let x2 = q_mul(x, x);
    let t3 = q_mul(x, x2) / 6;
    let t5 = q_mul(t3, x2) / 20;
    let t7 = q_mul(t5, x2) / 42;
    let t9 = q_mul(t7, x2) / 72;
    let t11 = q_mul(t9, x2) / 110;
    let t13 = q_mul(t11, x2) / 156;
    let t15 = q_mul(t13, x2) / 210;
    let s: i128 = x as i128 - t3 as i128 + t5 as i128 - t7 as i128
        + t9 as i128 - t11 as i128 + t13 as i128 - t15 as i128;
    if s < 0 {
        0
    } else if s > ONE_Q60 as i128 {
        ONE_Q60
    } else {
        s as u128
    }
}

/// Cosine on [0, pi/2] via the complement angle.
pub open spec fn spec_cos_q60(x: int) -> int {
    spec_sin_q60(HALF_PI_Q60 as int - x)
}

fn cos_q60(x: u128) -> (r: u128)
    requires
        x <= HALF_PI_Q60,
    ensures
        r as int == spec_cos_q60(x as int),
        r <= ONE_Q60,
{
    sin_q60(HALF_PI_Q60 - x)
}

/// Sine on [0, pi], reflecting arguments past pi/2.
pub open spec fn spec_sin_pi_q60(x: int) -> int {
    if x > HALF_PI_Q60 as int {
        spec_sin_q60(PI_Q60 as int - x)
    } else {
        spec_sin_q60(x)
    }
}

fn sin_pi_q60(x: u128) -> (r: u128)
    requires
        x <= PI_Q60,
    ensures
        r as int == spec_sin_pi_q60(x as int),
        r <= ONE_Q60,
{
    if x > HALF_PI_Q60 {
        sin_q60(PI_Q60 - x)
    } else {
        sin_q60(x)
    }
}

/// The integer square root, defined by counting up.
pub open spec fn spec_isqrt(v: nat) -> nat
    decreases v,
{
    if v == 0 {
        0
    } else {
        let p = spec_isqrt((v - 1) as nat);
        if (p + 1) * (p + 1) <= v { (p + 1) as nat } else { p }
    }
}

proof fn lemma_isqrt_props(v: nat)
    ensures
        spec_isqrt(v) * spec_isqrt(v) <= v,
        v < (spec_isqrt(v) + 1) * (spec_isqrt(v) + 1),
    decreases v,
{
    if v == 0 {
        assert(spec_isqrt(0) == 0);
        assert(v < (spec_isqrt(v) + 1) * (spec_isqrt(v) + 1)) by (nonlinear_arith)
            requires v == 0, spec_isqrt(v) == 0;
    } else {
        lemma_isqrt_props((v - 1) as nat);
        let p = spec_isqrt((v - 1) as nat);
        assert(p * p <= v - 1);
        assert(v - 1 < (p + 1) * (p + 1));
        if (p + 1) * (p + 1) <= v {
            assert(spec_isqrt(v) == (p + 1) as nat);
            assert(v < ((p + 1) + 1) * ((p + 1) + 1)) by (nonlinear_arith)
                requires v <= (p + 1) * (p + 1), p >= 0;
            assert((spec_isqrt(v) + 1) * (spec_isqrt(v) + 1) == ((p + 1) + 1) * ((p + 1) + 1))
                by (nonlinear_arith)
                requires spec_isqrt(v) == p + 1;
            assert(v < (spec_isqrt(v) + 1) * (spec_isqrt(v) + 1));
        } else {
            assert(spec_isqrt(v) == p);
            assert((spec_isqrt(v) + 1) * (spec_isqrt(v) + 1) == (p + 1) * (p + 1))
                by (nonlinear_arith)
                requires spec_isqrt(v) == p;
            assert(v < (spec_isqrt(v) + 1) * (spec_isqrt(v) + 1));
        }
    }
}

proof fn lemma_isqrt_unique(v: nat, r: nat)
    requires
        r * r <= v,
        v < (r + 1) * (r + 1),
    ensures
        r == spec_isqrt(v),
{
    lemma_isqrt_props(v);
    let q = spec_isqrt(v);
    assert(r == q) by (nonlinear_arith)
        requires
            r * r <= v,
            v < (r + 1) * (r + 1),
            q * q <= v,
            v < (q + 1) * (q + 1);
}

fn isqrt_u128(v: u128) -> (r: u128)
    requires
        v <= ONE_SQ_Q60,
    ensures
        r as nat == spec_isqrt(v as nat),
        r * r <= v,
        v < (r + 1) * (r + 1),
        r <= ONE_Q60,
{
    let mut lo: u128 = 0;
    let mut hi: u128 = ONE_Q60 + 1;
    proof {
        assert((hi as int) * (hi as int) > v as int) by (nonlinear_arith)
            requires
                hi == 1152921504606846977u128,
                v <= 0x1000000_0000_0000_0000_0000_0000_0000u128;
    }
    while lo + 1 < hi
        invariant
            lo < hi,
            hi <= ONE_Q60 + 1,
            (lo as int) * (lo as int) <= v as int,
            (v as int) < (hi as int) * (hi as int),
        decreases hi - lo,
    {
        let mid = lo + (hi - lo) / 2;
        proof {
            assert((mid as int) * (mid as int) < 340282366920938463463374607431768211456)
                by (nonlinear_arith)
                requires mid <= 1152921504606846977u128;
        }
        if mid * mid <= v {
            lo = mid;
        } else {
            hi = mid;
        }
    }
    proof {
        lemma_isqrt_unique(v as nat, lo as nat);
        assert(lo <= ONE_Q60) by (nonlinear_arith)
            requires
                (lo as int) * (lo as int) <= v as int,
                v <= 0x1000000_0000_0000_0000_0000_0000_0000u128,
                ONE_Q60 == 0x1000_0000_0000_0000u128;
    }
    lo
}

/// Term k of the arcsine series, Q60: term 0 is x, each next multiplies
/// by x^2 * (2k+1)^2 / ((2k+2)(2k+3)) in truncating fixed point.
pub open spec fn spec_asin_term(x: int, x2: int, k: nat) -> int
    decreases k,
{
    if k == 0 {
        x
    } else {
        let j = (k - 1) as nat;
        let p = spec_asin_term(x, x2, j);
        (q_mul_s(p, x2) * ((2 * j + 1) * (2 * j + 1)) as int) / (((2 * j + 2) * (2 * j + 3)) as int)
    }
}

/// Sum of the first k terms of the arcsine series.
pub open spec fn spec_asin_sum(x: int, x2: int, k: nat) -> int
    decreases k,
{
    if k == 0 {
        0
    } else {
        spec_asin_sum(x, x2, (k - 1) as nat) + spec_asin_term(x, x2, (k - 1) as nat)
    }
}

/// Arcsine on [0, sqrt(1/2)], as 40 terms of the series.
pub open spec fn spec_asin_q60(x: int) -> int {
    spec_asin_sum(x, q_mul_s(x, x), 40)
}

fn asin_q60(x: u128) -> (r: u128)
    requires
        x <= ASIN_XMAX_Q60,
    ensures
        r as int == spec_asin_q60(x as int),
        r as int <= 2 * x as int + 80,
{
    let x2 = q_mul(x, x);
    proof {
        assert((x as int) * (x as int) / 0x1000_0000_0000_0000 <= 0x800_0000_0000_0001)
            by (nonlinear_arith)
            requires x <= 815238614083298889u128;
    }
    let mut t: u128 = x;
    let mut s: u128 = 0;
    let mut k: usize = 0;
    while k < 40
        invariant
            x <= ASIN_XMAX_Q60,
            x2 as int == q_mul_s(x as int, x as int),
            x2 <= HALF_Q60 + 1,
            k <= 40,
            t as int == spec_asin_term(x as int, x2 as int, k as nat),
            s as int == spec_asin_sum(x as int, x2 as int, k as nat),
            t <= x,
            2 * (s as int) + 4 * (t as int) <= 4 * (x as int) + 4 * (k as int),
        decreases 40 - k,
    {
        s = s + t;
        proof {
            assert((2 * (k as int) + 2) * (2 * (k as int) + 3) <= 6806) by (nonlinear_arith)
                requires k < 40;
        }
        let odd: u128 = (2 * k + 1) as u128;
        let den: u128 = ((2 * k + 2) as u128) * ((2 * k + 3) as u128);
        proof {
            assert((den as int) >= 6 && ((odd as int) * (odd as int)) < den as int)
                by (nonlinear_arith)
                requires
                    odd == 2 * (k as int) + 1,
                    den == (2 * (k as int) + 2) * (2 * (k as int) + 3),
                    k < 40;
        }
        let tmp = q_mul(t, x2);
        let odd2: u128 = odd * odd;
        proof {
            assert(2 * ((t as int) * (x2 as int) / 0x1000_0000_0000_0000) <= t as int + 2)
                by (nonlinear_arith)
                requires t <= 0x1000_0000_0000_0000u128, x2 <= 0x800_0000_0000_0001u128;
            assert((tmp as int) * (odd2 as int) <= 0x1_0000_0000_0000_0000_0000)
                by (nonlinear_arith)
                requires tmp <= 0x1000_0000_0000_0000u128, odd2 <= 6806;
        }
        let tnew = tmp * odd2 / den;
        proof {
            assert((tnew as int) <= tmp as int) by (nonlinear_arith)
                requires
                    tnew as int == (tmp as int) * (odd2 as int) / (den as int),
                    (odd2 as int) < den as int,
                    den >= 6,
                    tmp >= 0;
        }
        t = tnew;
        k = k + 1;
        proof {
            let ghost kn = k as nat;
            let ghost j = (kn - 1) as nat;
            assert(spec_asin_term(x as int, x2 as int, kn)
                == (q_mul_s(spec_asin_term(x as int, x2 as int, j), x2 as int)
                    * ((2 * j + 1) * (2 * j + 1)) as int)
                    / (((2 * j + 2) * (2 * j + 3)) as int));
            assert(spec_asin_sum(x as int, x2 as int, kn)
                == spec_asin_sum(x as int, x2 as int, j) + spec_asin_term(x as int, x2 as int, j));
        }
    }
    s
}

/// asin(sqrt(h)) on the Q60 scale, for h in [0, 1]; reflects past 1/2
/// so the series argument stays at most sqrt(1/2).
pub open spec fn spec_asin_sqrt_q60(h: int) -> int {
    if h <= HALF_Q60 as int {
        spec_asin_q60(spec_isqrt((h * ONE_Q60) as nat) as int)
    } else {
        HALF_PI_Q60 as int - spec_asin_q60(spec_isqrt(((ONE_Q60 as int - h) * ONE_Q60) as nat) as int)
    }
}

fn asin_sqrt_q60(h: u128) -> (r: u128)
    requires
        h <= ONE_Q60,
    ensures
        r as int == spec_asin_sqrt_q60(h as int),
        r <= HALF_PI_Q60,
{
    if h <= HALF_Q60 {
        let sq = isqrt_u128(h * ONE_Q60);
        proof {
            assert(sq <= 815238614083298889u128) by (nonlinear_arith)
                requires
                    (sq as int) * (sq as int) <= 664613997892457936451903530140172288;
            assert(2 * (sq as int) + 80 < HALF_PI_Q60) by (nonlinear_arith)
                requires
                    sq <= 815238614083298889u128,
                    HALF_PI_Q60 == 1811004864480000000u128;
        }
        asin_q60(sq)
    } else {
        let sq = isqrt_u128((ONE_Q60 - h) * ONE_Q60);
        proof {
            assert(sq <= 815238614083298889u128) by (nonlinear_arith)
                requires
                    (sq as int) * (sq as int) <= 664613997892457936451903530140172288;
        }
        let a = asin_q60(sq);
        proof {
            assert(a < HALF_PI_Q60) by (nonlinear_arith)
                requires
                    a as int <= 2 * (sq as int) + 80,
                    sq <= 815238614083298889u128,
                    HALF_PI_Q60 == 1811004864480000000u128;
        }
        HALF_PI_Q60 - a
    }
}

/// The Haversine great-circle distance in millimeters, evaluated in Q60
/// fixed point with Earth radius 6,371,000 m.
pub open spec fn spec_haversine_mm(a: Location, b: Location) -> int {
    let dlat = abs_int(b.latitude - a.latitude) * RAD_PER_UDEG_Q60 as int;
    let dlon = abs_int(b.longitude - a.longitude) * RAD_PER_UDEG_Q60 as int;
    let s1 = spec_sin_q60(dlat / 2);
    let s2 = spec_sin_pi_q60(dlon / 2);
    let c1 = spec_cos_q60(abs_int(a.latitude as int) * RAD_PER_UDEG_Q60 as int);
    let c2 = spec_cos_q60(abs_int(b.latitude as int) * RAD_PER_UDEG_Q60 as int);
    let hraw = q_mul_s(s1, s1) + q_mul_s(q_mul_s(c1, c2), q_mul_s(s2, s2));
    let h = if hraw > ONE_Q60 as int { ONE_Q60 as int } else { hraw };
    let c = spec_asin_sqrt_q60(h);
    (2 * EARTH_RADIUS_MM as int * c) / (ONE_Q60 as int)
}

/// Great-circle distance between two locations, in millimeters; it
/// never exceeds half the Earth's circumference. Inputs are quantized
/// to microdegrees and the result to millimeters, so two distinct
/// points closer than that grid — and coordinate pairs that denote one
/// physical point, at the poles or across the antimeridian — can
/// measure zero; only a point's distance to itself is stated to be
/// zero.
pub fn haversine_distance(a: &Location, b: &Location) -> (d: u64)
    requires
        a.wf(),
        b.wf(),
    ensures
        d as int == spec_haversine_mm(*a, *b),
        d <= 20015086796,
{
    let dlat_udeg: u128 = if b.latitude >= a.latitude {
        (b.latitude - a.latitude) as u128
    } else {
        (a.latitude - b.latitude) as u128
    };
    let dlon_udeg: u128 = if b.longitude >= a.longitude {
        (b.longitude - a.longitude) as u128
    } else {
        (a.longitude - b.longitude) as u128
    };
    let alat_udeg: u128 = if a.latitude >= 0 { a.latitude as u128 } else { (-a.latitude) as u128 };
    let blat_udeg: u128 = if b.latitude >= 0 { b.latitude as u128 } else { (-b.latitude) as u128 };

    let s1 = sin_q60(dlat_udeg * RAD_PER_UDEG_Q60 / 2);
    let s2 = sin_pi_q60(dlon_udeg * RAD_PER_UDEG_Q60 / 2);
    let c1 = cos_q60(alat_udeg * RAD_PER_UDEG_Q60);
    let c2 = cos_q60(blat_udeg * RAD_PER_UDEG_Q60);

    let p1 = q_mul(s1, s1);
    let p2 = q_mul(q_mul(c1, c2), q_mul(s2, s2));
    let hraw = p1 + p2;
    let h = if hraw > ONE_Q60 { ONE_Q60 } else { hraw };
    let c = asin_sqrt_q60(h);
    let d128 = 2 * EARTH_RADIUS_MM * c / ONE_Q60;
    proof {
        assert(2 * 6371000000 * (c as int) / 0x1000_0000_0000_0000 <= 20015086796)
            by (nonlinear_arith)
            requires c <= 1811004864480000000u128;
    }
    d128 as u64
}

/// The distance is symmetric in its two arguments.
pub proof fn lemma_distance_symmetric(a: Location, b: Location)
    ensures
        spec_haversine_mm(a, b) == spec_haversine_mm(b, a),
{
    let c1 = spec_cos_q60(abs_int(a.latitude as int) * RAD_PER_UDEG_Q60 as int);
    let c2 = spec_cos_q60(abs_int(b.latitude as int) * RAD_PER_UDEG_Q60 as int);
    assert(c1 * c2 == c2 * c1) by (nonlinear_arith);
    assert(abs_int(b.latitude - a.latitude) == abs_int(a.latitude - b.latitude));
    assert(abs_int(b.longitude - a.longitude) == abs_int(a.longitude - b.longitude));
}

/// The distance from a location to itself is zero.
pub proof fn lemma_distance_identity(a: Location)
    ensures
        spec_haversine_mm(a, a) == 0,
{
    lemma_asin_series_zero(40);
    assert(spec_sin_q60(0) == 0);
    assert(spec_isqrt(0) == 0);
    let c1 = spec_cos_q60(abs_int(a.latitude as int) * RAD_PER_UDEG_Q60 as int);
    let cc = q_mul_s(c1, c1);
    assert(cc * 0 == 0) by (nonlinear_arith);
    assert(q_mul_s(cc, 0) == 0);
}

proof fn lemma_asin_series_zero(k: nat)
    ensures
        spec_asin_term(0, 0, k) == 0,
        spec_asin_sum(0, 0, k) == 0,
    decreases k,
{
    if k > 0 {
        lemma_asin_series_zero((k - 1) as nat);
        let j = (k - 1) as nat;
        assert(q_mul_s(0, 0) == 0);
        assert((0 * ((2 * j + 1) * (2 * j + 1)) as int) / (((2 * j + 2) * (2 * j + 3)) as int) == 0)
            by (nonlinear_arith);
    }
}

/// Whether both coordinates of two locations differ by at most
/// `threshold_udeg` microdegrees.
pub open spec fn spec_locations_close(a: Location, b: Location, threshold_udeg: i64) -> bool {
    abs_int(a.latitude - b.latitude) <= threshold_udeg as int
        && abs_int(a.longitude - b.longitude) <= threshold_udeg as int
}

/// Coordinate-wise closeness used by the flat grouping pass.
pub fn are_locations_close(a: &Location, b: &Location, threshold_udeg: i64) -> (r: bool)
    requires
        a.wf(),
        b.wf(),
    ensures
        r == spec_locations_close(*a, *b, threshold_udeg),
{
    let dlat: i64 = if a.latitude >= b.latitude { a.latitude - b.latitude } else { b.latitude - a.latitude };
    let dlon: i64 = if a.longitude >= b.longitude { a.longitude - b.longitude } else { b.longitude - a.longitude };
    dlat <= threshold_udeg && dlon <= threshold_udeg
}

} // verus!
