//! Extraction of coordinates and heading from an image's embedded
//! metadata. The embedded container is decoded by the `exif` crate
//! behind small trusted wrappers that hand back plain values; every
//! decision taken on those values — rational triplets to decimal
//! degrees, hemisphere signs, range validation, the fallback from the
//! structured read to the external tool's text — is verified here.

use vstd::prelude::*;
use crate::geo::Location;
use crate::cluster::{ImageMetadata, spec_div_trunc};
use crate::parse::{parse_dms_to_decimal, spec_parse_dms, spec_parse_full_number, parse_full_number};
use crate::exiftool::{
    get_gps_from_exiftool_string, spec_scan_gps_lines, scan_direction_lines,
    spec_scan_direction_lines,
};

verus! {

#[verifier::external_type_specification]
#[verifier::external_body]
pub struct ExExif(exif::Exif);

/// One embedded metadata field reduced to plain values.
pub enum ExifValue {
    /// A list of unsigned rationals, as numerator and denominator.
    Rationals(Vec<(u32, u32)>),
    /// The first text chunk of an ASCII field.
    Text(Vec<u8>),
}

/// The decoded embedded-metadata container of an image's bytes, when
/// they decode; a pure function of the bytes.
pub uninterp spec fn exif_of(bytes: Seq<u8>) -> Option<exif::Exif>;

/// The GPSLatitude field of a container, reduced to plain values; a
/// pure function of the container.
pub uninterp spec fn gps_latitude_of(ex: exif::Exif) -> Option<ExifValue>;

/// The GPSLongitude field of a container, reduced to plain values.
pub uninterp spec fn gps_longitude_of(ex: exif::Exif) -> Option<ExifValue>;

/// The GPSLatitudeRef field of a container, reduced to plain values.
pub uninterp spec fn gps_latitude_ref_of(ex: exif::Exif) -> Option<ExifValue>;

/// The GPSLongitudeRef field of a container, reduced to plain values.
pub uninterp spec fn gps_longitude_ref_of(ex: exif::Exif) -> Option<ExifValue>;

/// The GPSImgDirection field of a container, reduced to plain values.
pub uninterp spec fn gps_img_direction_of(ex: exif::Exif) -> Option<ExifValue>;

/// Relies on `exif::Reader::read_from_container`: decodes the embedded
/// metadata of an image held in memory; any read or decode error is an
/// absent result. The decode depends on the bytes alone, so the result
/// is named `exif_of`.
#[verifier::external_body]
fn parse_exif_container(bytes: &Vec<u8>) -> (r: Option<exif::Exif>)
    ensures
        r == exif_of(bytes@),
{
    let mut cur = std::io::Cursor::new(bytes.as_slice());
    exif::Reader::new().read_from_container(&mut cur).ok()
}

/// Relies on `exif::Exif::get_field` for the GPSLatitude tag; the
/// field's value is handed back as plain rationals or text, and
/// depends on the container alone, so it is named `gps_latitude_of`.
#[verifier::external_body]
fn exif_gps_latitude(ex: &exif::Exif) -> (r: Option<ExifValue>)
    ensures
        r == gps_latitude_of(*ex),
{
    match ex.get_field(exif::Tag::GPSLatitude, exif::In::PRIMARY) {
        None => None,
        Some(f) => match &f.value {
            exif::Value::Rational(v) => Some(ExifValue::Rationals(v.iter().map(|r| (r.num, r.denom)).collect())),
            exif::Value::Ascii(a) => a.get(0).map(|b| ExifValue::Text(b.clone())),
            _ => None,
        },
    }
}

/// Relies on `exif::Exif::get_field` for the GPSLongitude tag; the
/// result is named `gps_longitude_of`.
#[verifier::external_body]
fn exif_gps_longitude(ex: &exif::Exif) -> (r: Option<ExifValue>)
    ensures
        r == gps_longitude_of(*ex),
{
    match ex.get_field(exif::Tag::GPSLongitude, exif::In::PRIMARY) {
        None => None,
        Some(f) => match &f.value {
            exif::Value::Rational(v) => Some(ExifValue::Rationals(v.iter().map(|r| (r.num, r.denom)).collect())),
            exif::Value::Ascii(a) => a.get(0).map(|b| ExifValue::Text(b.clone())),
            _ => None,
        },
    }
}

/// Relies on `exif::Exif::get_field` for the GPSLatitudeRef tag; the
/// result is named `gps_latitude_ref_of`.
#[verifier::external_body]
fn exif_gps_latitude_ref(ex: &exif::Exif) -> (r: Option<ExifValue>)
    ensures
        r == gps_latitude_ref_of(*ex),
{
    match ex.get_field(exif::Tag::GPSLatitudeRef, exif::In::PRIMARY) {
        None => None,
        Some(f) => match &f.value {
            exif::Value::Rational(v) => Some(ExifValue::Rationals(v.iter().map(|r| (r.num, r.denom)).collect())),
            exif::Value::Ascii(a) => a.get(0).map(|b| ExifValue::Text(b.clone())),
            _ => None,
        },
    }
}

/// Relies on `exif::Exif::get_field` for the GPSLongitudeRef tag; the
/// result is named `gps_longitude_ref_of`.
#[verifier::external_body]
fn exif_gps_longitude_ref(ex: &exif::Exif) -> (r: Option<ExifValue>)
    ensures
        r == gps_longitude_ref_of(*ex),
{
    match ex.get_field(exif::Tag::GPSLongitudeRef, exif::In::PRIMARY) {
        None => None,
        Some(f) => match &f.value {
            exif::Value::Rational(v) => Some(ExifValue::Rationals(v.iter().map(|r| (r.num, r.denom)).collect())),
            exif::Value::Ascii(a) => a.get(0).map(|b| ExifValue::Text(b.clone())),
            _ => None,
        },
    }
}

/// Relies on `exif::Exif::get_field` for the GPSImgDirection tag; the
/// result is named `gps_img_direction_of`.
#[verifier::external_body]
fn exif_gps_img_direction(ex: &exif::Exif) -> (r: Option<ExifValue>)
    ensures
        r == gps_img_direction_of(*ex),
{
    match ex.get_field(exif::Tag::GPSImgDirection, exif::In::PRIMARY) {
        None => None,
        Some(f) => match &f.value {
            exif::Value::Rational(v) => Some(ExifValue::Rationals(v.iter().map(|r| (r.num, r.denom)).collect())),
            exif::Value::Ascii(a) => a.get(0).map(|b| ExifValue::Text(b.clone())),
            _ => None,
        },
    }
}

/// Microdegrees of a degree-minute-second rational triplet, truncated;
/// absent when any denominator is zero.
pub open spec fn spec_rational_triplet_micro(
    deg: (u32, u32),
    min: (u32, u32),
    sec: (u32, u32),
) -> Option<int> {
    if deg.1 > 0 && min.1 > 0 && sec.1 > 0 {
        Option::Some(
            (deg.0 * 1000000) as int / deg.1 as int
                + (min.0 * 1000000) as int / (min.1 * 60) as int
                + (sec.0 * 1000000) as int / (sec.1 * 3600) as int,
        )
    } else {
        Option::None
    }
}

/// Converts one degree-minute-second triplet of rationals to
/// microdegrees: `deg + min/60 + sec/3600`, each term truncated.
pub fn rational_triplet_micro(deg: (u32, u32), min: (u32, u32), sec: (u32, u32)) -> (r: Option<u64>)
    ensures
        match spec_rational_triplet_micro(deg, min, sec) {
            Option::Some(v) => r is Some && r->0 as int == v,
            Option::None => r is None,
        },
{
    if deg.1 == 0 || min.1 == 0 || sec.1 == 0 {
        return None;
    }
    let d: u64 = deg.0 as u64 * 1000000 / deg.1 as u64;
    let m: u64 = min.0 as u64 * 1000000 / (min.1 as u64 * 60);
    let s: u64 = sec.0 as u64 * 1000000 / (sec.1 as u64 * 3600);
    proof {
        assert((deg.0 * 1000000) as int / (deg.1 as int) <= (deg.0 * 1000000) as int)
            by (nonlinear_arith)
            requires deg.1 >= 1;
        assert((min.0 * 1000000) as int / ((min.1 * 60) as int) <= (min.0 * 1000000) as int)
            by (nonlinear_arith)
            requires min.1 >= 1;
        assert((sec.0 * 1000000) as int / ((sec.1 * 3600) as int) <= (sec.0 * 1000000) as int)
            by (nonlinear_arith)
            requires sec.1 >= 1;
    }
    Some(d + m + s)
}

/// Whether the reference text is the single letter c.
pub open spec fn spec_ref_is(r: Option<Seq<u8>>, c: u8) -> bool {
    r is Some && r->0 == seq![c]
}

/// The location read from rational GPS fields: both triplets converted
/// to microdegrees, negated for an `S` or `W` reference, and kept only
/// inside the valid geographic range. A missing reference leaves the
/// tag set partial, and a partial tag set yields no coordinates.
pub open spec fn spec_gps_from_rationals(
    lat: Seq<(u32, u32)>,
    latr: Option<Seq<u8>>,
    lon: Seq<(u32, u32)>,
    lonr: Option<Seq<u8>>,
) -> Option<Location> {
    if lat.len() >= 3 && lon.len() >= 3 && latr is Some && lonr is Some {
        match (
            spec_rational_triplet_micro(lat[0], lat[1], lat[2]),
            spec_rational_triplet_micro(lon[0], lon[1], lon[2]),
        ) {
            (Option::Some(la), Option::Some(lo)) => {
                let la2 = if spec_ref_is(latr, 83) { -la } else { la };
                let lo2 = if spec_ref_is(lonr, 87) { -lo } else { lo };
                if -90000000 <= la2 <= 90000000 && -180000000 <= lo2 <= 180000000 {
                    Option::Some(Location { latitude: la2 as i64, longitude: lo2 as i64 })
                } else {
                    Option::None
                }
            },
            _ => Option::None,
        }
    } else {
        Option::None
    }
}

/// Combines rational GPS fields and their hemisphere references into a
/// validated location.
pub fn gps_from_rationals(
    lat: &Vec<(u32, u32)>,
    latr: &Option<Vec<u8>>,
    lon: &Vec<(u32, u32)>,
    lonr: &Option<Vec<u8>>,
) -> (r: Option<Location>)
    ensures
        match spec_gps_from_rationals(
            lat@,
            match latr { Option::Some(v) => Option::Some(v@), Option::None => Option::None },
            lon@,
            match lonr { Option::Some(v) => Option::Some(v@), Option::None => Option::None },
        ) {
            Option::Some(l) => r == Option::Some(l) && l.wf(),
            Option::None => r is None,
        },
{
    if lat.len() < 3 || lon.len() < 3 {
        return None;
    }
    if latr.is_none() || lonr.is_none() {
        return None;
    }
    let la = rational_triplet_micro(lat[0], lat[1], lat[2]);
    let lo = rational_triplet_micro(lon[0], lon[1], lon[2]);
    match (la, lo) {
        (Option::Some(la), Option::Some(lo)) => {
            let lat_neg = ref_is(latr, 83);
            let lon_neg = ref_is(lonr, 87);
            let la_i: i64 = if lat_neg { -(la as i64) } else { la as i64 };
            let lo_i: i64 = if lon_neg { -(lo as i64) } else { lo as i64 };
            Location::checked(la_i, lo_i)
        },
        _ => None,
    }
}

/// Whether the reference bytes are the single letter c.
fn ref_is(r: &Option<Vec<u8>>, c: u8) -> (b: bool)
    ensures
        b == spec_ref_is(
            match r { Option::Some(v) => Option::Some(v@), Option::None => Option::None },
            c,
        ),
{
    match r {
        Option::Some(v) => {
            let hit = v.len() == 1 && v[0] == c;
            proof {
                if v@.len() == 1 && v@[0] == c {
                    assert(v@ =~= seq![c]);
                }
                if v@ == seq![c] {
                    assert(v@.len() == 1 && v@[0] == c);
                }
            }
            hit
        },
        Option::None => false,
    }
}

/// The heading in millidegrees from the first rational of the
/// direction field; absent for an empty list or a zero denominator.
pub open spec fn spec_heading_mdeg(v: Seq<(u32, u32)>) -> Option<int> {
    if v.len() > 0 && v[0].1 > 0 {
        Option::Some((v[0].0 * 1000) as int / v[0].1 as int)
    } else {
        Option::None
    }
}

/// Converts the direction field's first rational to millidegrees.
pub fn heading_from_rationals(v: &Vec<(u32, u32)>) -> (r: Option<i64>)
    ensures
        match spec_heading_mdeg(v@) {
            Option::Some(m) => r is Some && r->0 as int == m,
            Option::None => r is None,
        },
{
    if v.len() == 0 {
        return None;
    }
    let (n, d) = v[0];
    if d == 0 {
        return None;
    }
    let m: u64 = n as u64 * 1000 / d as u64;
    proof {
        assert((n * 1000) as int / (d as int) <= (n * 1000) as int) by (nonlinear_arith)
            requires d >= 1;
    }
    Some(m as i64)
}

/// The text `a`, a space and the text `b`.
fn join_with_space(a: &Vec<u8>, b: &Vec<u8>) -> (r: Vec<u8>)
    ensures
        r@ == a@ + seq![32u8] + b@,
{
    let mut out: Vec<u8> = Vec::new();
    let mut k: usize = 0;
    while k < a.len()
        invariant
            k <= a@.len(),
            out@ =~= a@.subrange(0, k as int),
        decreases a@.len() - k,
    {
        out.push(a[k]);
        k = k + 1;
        proof {
            assert(out@ =~= a@.subrange(0, k as int));
        }
    }
    out.push(32);
    let mut t: usize = 0;
    while t < b.len()
        invariant
            t <= b@.len(),
            out@ =~= a@ + seq![32u8] + b@.subrange(0, t as int),
        decreases b@.len() - t,
    {
        out.push(b[t]);
        t = t + 1;
        proof {
            assert(out@ =~= a@ + seq![32u8] + b@.subrange(0, t as int));
        }
    }
    proof {
        assert(out@ =~= a@ + seq![32u8] + b@);
    }
    out
}

/// The location read from textual GPS fields: each coordinate text is
/// joined with its reference text and read as free coordinate text,
/// then the pair is kept only inside the valid geographic range.
pub open spec fn spec_gps_from_text(
    lat: Seq<u8>,
    latr: Seq<u8>,
    lon: Seq<u8>,
    lonr: Seq<u8>,
) -> Option<Location> {
    match (
        spec_parse_dms(lat + seq![32u8] + latr),
        spec_parse_dms(lon + seq![32u8] + lonr),
    ) {
        (Option::Some(la), Option::Some(lo)) => {
            if -90000000 <= la <= 90000000 && -180000000 <= lo <= 180000000 {
                Option::Some(Location { latitude: la as i64, longitude: lo as i64 })
            } else {
                Option::None
            }
        },
        _ => Option::None,
    }
}

/// Combines textual GPS fields and their references into a validated
/// location.
pub fn gps_from_text(lat: &Vec<u8>, latr: &Vec<u8>, lon: &Vec<u8>, lonr: &Vec<u8>) -> (r: Option<Location>)
    ensures
        match spec_gps_from_text(lat@, latr@, lon@, lonr@) {
            Option::Some(l) => r == Option::Some(l) && l.wf(),
            Option::None => r is None,
        },
{
    let lat_full = join_with_space(lat, latr);
    let lon_full = join_with_space(lon, lonr);
    let la = parse_dms_to_decimal(&lat_full);
    let lo = parse_dms_to_decimal(&lon_full);
    match (la, lo) {
        (Option::Some(la), Option::Some(lo)) => Location::checked(la, lo),
        _ => None,
    }
}

/// The structured rational read over a container's named fields: both
/// coordinate fields must hold rational triplets and both
/// hemisphere-reference fields must be present and readable as text,
/// or the read yields nothing — a partial tag set gives no
/// coordinates.
pub open spec fn spec_extract_gps_rational(ex: exif::Exif) -> Option<Location> {
    match (gps_latitude_of(ex), gps_latitude_ref_of(ex), gps_longitude_of(ex), gps_longitude_ref_of(ex)) {
        (
            Option::Some(ExifValue::Rationals(la)),
            Option::Some(ExifValue::Text(lr)),
            Option::Some(ExifValue::Rationals(lo)),
            Option::Some(ExifValue::Text(or)),
        ) => spec_gps_from_rationals(la@, Option::Some(lr@), lo@, Option::Some(or@)),
        _ => Option::None,
    }
}

/// The structured textual read over a container's named fields: all
/// four GPS fields must be readable as text, or the read yields
/// nothing.
pub open spec fn spec_extract_gps_string(ex: exif::Exif) -> Option<Location> {
    match (gps_latitude_of(ex), gps_latitude_ref_of(ex), gps_longitude_of(ex), gps_longitude_ref_of(ex)) {
        (
            Option::Some(ExifValue::Text(la)),
            Option::Some(ExifValue::Text(lr)),
            Option::Some(ExifValue::Text(lo)),
            Option::Some(ExifValue::Text(or)),
        ) => spec_gps_from_text(la@, lr@, lo@, or@),
        _ => Option::None,
    }
}

/// The location the whole structured read yields: the rational
/// strategy first, then the textual one.
pub open spec fn spec_extract_location_lib(ex: exif::Exif) -> Option<Location> {
    match spec_extract_gps_rational(ex) {
        Option::Some(l) => Option::Some(l),
        Option::None => spec_extract_gps_string(ex),
    }
}

/// The heading the structured read yields, in millidegrees: the first
/// rational of the named direction field.
pub open spec fn spec_extract_direction_lib(ex: exif::Exif) -> Option<int> {
    match gps_img_direction_of(ex) {
        Option::Some(ExifValue::Rationals(v)) => spec_heading_mdeg(v@),
        _ => Option::None,
    }
}

/// The location the embedded read of an image's bytes yields.
pub open spec fn spec_lib_location(bytes: Seq<u8>) -> Option<Location> {
    match exif_of(bytes) {
        Option::Some(ex) => spec_extract_location_lib(ex),
        Option::None => Option::None,
    }
}

/// The heading the embedded read of an image's bytes yields.
pub open spec fn spec_lib_direction(bytes: Seq<u8>) -> Option<int> {
    match exif_of(bytes) {
        Option::Some(ex) => spec_extract_direction_lib(ex),
        Option::None => Option::None,
    }
}

/// Whether an optional machine heading carries exactly the optional
/// ideal one.
pub open spec fn opt_mdeg_is(r: Option<i64>, m: Option<int>) -> bool {
    match m {
        Option::Some(v) => r is Some && r->0 as int == v,
        Option::None => r is None,
    }
}

/// Reads a location from the structured GPS fields. Both coordinate
/// fields must hold rational triplets and both hemisphere-reference
/// fields must be present and readable as text, or the read yields
/// nothing: a partial tag set gives no coordinates. Relies on the
/// trusted field readers for what the container holds; every step from
/// plain field values to the location is verified, and any returned
/// location is inside the valid geographic range.
pub fn extract_gps_rational(ex: &exif::Exif) -> (r: Option<Location>)
    ensures
        r == spec_extract_gps_rational(*ex),
        (r is Some) ==> r->0.wf(),
{
    let lat = exif_gps_latitude(ex);
    let latr = exif_gps_latitude_ref(ex);
    let lon = exif_gps_longitude(ex);
    let lonr = exif_gps_longitude_ref(ex);
    match (lat, latr, lon, lonr) {
        (
            Option::Some(ExifValue::Rationals(la)),
            Option::Some(ExifValue::Text(lr)),
            Option::Some(ExifValue::Rationals(lo)),
            Option::Some(ExifValue::Text(or)),
        ) => gps_from_rationals(&la, &Some(lr), &lo, &Some(or)),
        _ => None,
    }
}

/// Reads a location from textual GPS fields. Any returned location is
/// inside the valid geographic range.
pub fn extract_gps_string(ex: &exif::Exif) -> (r: Option<Location>)
    ensures
        r == spec_extract_gps_string(*ex),
        (r is Some) ==> r->0.wf(),
{
    let lat = exif_gps_latitude(ex);
    let latr = exif_gps_latitude_ref(ex);
    let lon = exif_gps_longitude(ex);
    let lonr = exif_gps_longitude_ref(ex);
    match (lat, latr, lon, lonr) {
        (
            Option::Some(ExifValue::Text(la)),
            Option::Some(ExifValue::Text(lr)),
            Option::Some(ExifValue::Text(lo)),
            Option::Some(ExifValue::Text(or)),
        ) => gps_from_text(&la, &lr, &lo, &or),
        _ => None,
    }
}

/// Extracts location and heading from an image's bytes through the
/// embedded-metadata reader: the rational strategy first, then the
/// textual one. Failures leave the fields absent; they never fail the
/// pipeline. Any returned location is inside the valid range.
pub fn extract_image_metadata_lib(
    path: &str,
    file_name: &str,
    bytes: &Vec<u8>,
) -> (r: ImageMetadata)
    ensures
        r.path@ == path@,
        r.file_name@ == file_name@,
        r.location == spec_lib_location(bytes@),
        opt_mdeg_is(r.gps_img_direction, spec_lib_direction(bytes@)),
        (r.location is Some) ==> r.location->0.wf(),
{
    let mut location: Option<Location> = None;
    let mut direction: Option<i64> = None;
    let parsed = parse_exif_container(bytes);
    match parsed {
        Option::Some(ex) => {
            location = extract_gps_rational(&ex);
            if location.is_none() {
                location = extract_gps_string(&ex);
            }
            let dir = exif_gps_img_direction(&ex);
            match dir {
                Option::Some(ExifValue::Rationals(v)) => {
                    direction = heading_from_rationals(&v);
                },
                _ => {},
            }
        },
        Option::None => {},
    }
    ImageMetadata {
        path: String::from_str(path),
        file_name: String::from_str(file_name),
        location,
        gps_img_direction: direction,
    }
}
/// The heading in millidegrees from the first `GPS Img Direction`
/// line: its value read as a plain number of degrees, truncated to
/// millidegrees.
pub open spec fn spec_direction_mdeg(s: Seq<u8>) -> Option<int> {
    match spec_scan_direction_lines(s, 0) {
        Option::Some(v) => match spec_parse_full_number(v) {
            Option::Some(micro) => Option::Some(spec_div_trunc(micro, 1000)),
            Option::None => Option::None,
        },
        Option::None => Option::None,
    }
}

/// Reads the heading from the external tool's report, in millidegrees.
pub fn direction_from_exiftool_text(s: &Vec<u8>) -> (r: Option<i64>)
    ensures
        match spec_direction_mdeg(s@) {
            Option::Some(m) => r is Some && r->0 as int == m,
            Option::None => r is None,
        },
{
    let v = scan_direction_lines(s);
    match v {
        Option::Some(v) => {
            let micro = parse_full_number(&v);
            match micro {
                Option::Some(mi) => {
                    if mi >= 0 {
                        Some(mi / 1000)
                    } else {
                        let mag: u128 = (-(mi as i128)) as u128 / 1000;
                        Some(-(mag as i64))
                    }
                },
                Option::None => None,
            }
        },
        Option::None => None,
    }
}

/// The location the external tool's report yields, kept only inside
/// the valid geographic range.
pub open spec fn spec_location_from_exiftool(s: Seq<u8>) -> Option<Location> {
    match spec_scan_gps_lines(s, 0, Option::None, Option::None, Option::None, Option::None) {
        Option::Some((la, lo)) => {
            if -90000000 <= la <= 90000000 && -180000000 <= lo <= 180000000 {
                Option::Some(Location { latitude: la as i64, longitude: lo as i64 })
            } else {
                Option::None
            }
        },
        Option::None => Option::None,
    }
}

/// Extracts location and heading from the external tool's textual
/// report alone.
pub fn extract_from_exiftool_text(path: &str, file_name: &str, text: &Vec<u8>) -> (r: ImageMetadata)
    ensures
        r.path@ == path@,
        r.file_name@ == file_name@,
        r.location == spec_location_from_exiftool(text@),
        match spec_direction_mdeg(text@) {
            Option::Some(m) => r.gps_img_direction is Some && r.gps_img_direction->0 as int == m,
            Option::None => r.gps_img_direction is None,
        },
        (r.location is Some) ==> r.location->0.wf(),
{
    let pos = get_gps_from_exiftool_string(text);
    let location = match pos {
        Option::Some((la, lo)) => Location::checked(la, lo),
        Option::None => None,
    };
    let direction = direction_from_exiftool_text(text);
    ImageMetadata {
        path: String::from_str(path),
        file_name: String::from_str(file_name),
        location,
        gps_img_direction: direction,
    }
}

/// Extracts an image's metadata: the structured embedded read first;
/// where it yields no coordinates and the external tool's report is at
/// hand, the report supplies the location, and the heading too when
/// the embedded read had none. Extraction never fails the pipeline:
/// on any failure the fields stay absent.
pub fn extract_image_metadata(
    path: &str,
    file_name: &str,
    bytes: &Vec<u8>,
    exiftool_text: Option<&Vec<u8>>,
) -> (r: ImageMetadata)
    ensures
        r.path@ == path@,
        r.file_name@ == file_name@,
        r.location == (match spec_lib_location(bytes@) {
            Option::Some(l) => Option::Some(l),
            Option::None => match exiftool_text {
                Option::Some(t) => spec_location_from_exiftool(t@),
                Option::None => Option::None,
            },
        }),
        opt_mdeg_is(r.gps_img_direction, match spec_lib_direction(bytes@) {
            Option::Some(m) => Option::Some(m),
            Option::None => match exiftool_text {
                Option::Some(t) => spec_direction_mdeg(t@),
                Option::None => Option::None,
            },
        }),
        (r.location is Some) ==> r.location->0.wf(),
{
    let mut meta = extract_image_metadata_lib(path, file_name, bytes);
    match exiftool_text {
        Option::Some(text) => {
            if meta.location.is_none() {
                let pos = get_gps_from_exiftool_string(text);
                meta.location = match pos {
                    Option::Some((la, lo)) => Location::checked(la, lo),
                    Option::None => None,
                };
            }
            if meta.gps_img_direction.is_none() {
                meta.gps_img_direction = direction_from_exiftool_text(text);
            }
        },
        Option::None => {},
    }
    meta
}

} // verus!