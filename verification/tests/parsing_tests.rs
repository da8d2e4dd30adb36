use fissura::exifdata::{
    direction_from_exiftool_text, extract_from_exiftool_text, extract_image_metadata,
    gps_from_rationals, heading_from_rationals, rational_triplet_micro,
};
use fissura::exiftool::{get_gps_from_exiftool_string, parse_position_string};
use fissura::parse::parse_dms_to_decimal;

fn bytes(s: &str) -> Vec<u8> {
    s.as_bytes().to_vec()
}

#[test]
fn dms_with_hemisphere_suffix() {
    // 16 + 38/60 + 18.20/3600 degrees south.
    let v = parse_dms_to_decimal(&bytes("16 deg 38' 18.20\" S"));
    assert_eq!(v, Some(-16_638_388));
    let v2 = parse_dms_to_decimal(&bytes("161 deg 7' 31.68\" E"));
    assert_eq!(v2, Some(161_125_466));
}

#[test]
fn dms_without_direction_is_positive() {
    let v = parse_dms_to_decimal(&bytes("16 deg 38' 18.20\""));
    assert_eq!(v, Some(16_638_388));
}

#[test]
fn decimal_with_direction() {
    assert_eq!(parse_dms_to_decimal(&bytes("16.6384 S")), Some(-16_638_400));
    assert_eq!(parse_dms_to_decimal(&bytes("161.1255 E")), Some(161_125_500));
    // A west suffix negates whatever sign the number carried.
    assert_eq!(parse_dms_to_decimal(&bytes("-73.9856 W")), Some(73_985_600));
}

#[test]
fn plain_number_fallback() {
    assert_eq!(parse_dms_to_decimal(&bytes("123.5")), Some(123_500_000));
    assert_eq!(parse_dms_to_decimal(&bytes("  42  ")), Some(42_000_000));
    assert_eq!(parse_dms_to_decimal(&bytes("-0.5")), Some(-500_000));
    assert_eq!(parse_dms_to_decimal(&bytes("")), None);
    assert_eq!(parse_dms_to_decimal(&bytes("abc")), None);
    assert_eq!(parse_dms_to_decimal(&bytes("1.2.3")), None);
}

#[test]
fn position_string_with_both_halves() {
    let v = parse_position_string(&bytes("16 deg 38' 18.20\" S, 161 deg 7' 31.68\" E"));
    assert_eq!(v, Some((-16_638_388, 161_125_466)));
    assert_eq!(parse_position_string(&bytes("no comma here")), None);
    // The direction letter is required in each half.
    assert_eq!(
        parse_position_string(&bytes("16 deg 38' 18.20\", 161 deg 7' 31.68\"")),
        None
    );
}

#[test]
fn exiftool_report_with_position_line() {
    let text = bytes(
        "File Name                       : img.jpg\n\
         GPS Position                    : 16 deg 38' 18.20\" S, 161 deg 7' 31.68\" E\n",
    );
    assert_eq!(get_gps_from_exiftool_string(&text), Some((-16_638_388, 161_125_466)));
}

#[test]
fn exiftool_report_with_separate_lines() {
    let text = bytes(
        "GPS Latitude                    : 16 deg 38' 18.20\"\n\
         GPS Latitude Ref                : South\n\
         GPS Longitude                   : 161 deg 7' 31.68\"\n\
         GPS Longitude Ref               : East\n",
    );
    assert_eq!(get_gps_from_exiftool_string(&text), Some((-16_638_388, 161_125_466)));
}

#[test]
fn exiftool_suffixes_decide_without_ref_lines() {
    // No reference lines: the hemisphere suffix on each coordinate
    // line decides the sign.
    let text = bytes(
        "GPS Latitude                    : 16 deg 38' 18.20\" S\n\
         GPS Longitude                   : 161 deg 7' 31.68\" E\n",
    );
    assert_eq!(get_gps_from_exiftool_string(&text), Some((-16_638_388, 161_125_466)));
    // A remembered reference line decides even against the suffix.
    let text2 = bytes(
        "GPS Latitude                    : 16 deg 38' 18.20\" S\n\
         GPS Latitude Ref                : North\n\
         GPS Longitude                   : 161 deg 7' 31.68\" W\n\
         GPS Longitude Ref               : West\n",
    );
    assert_eq!(get_gps_from_exiftool_string(&text2), Some((16_638_388, -161_125_466)));
}

#[test]
fn exiftool_report_without_gps_lines() {
    let text = bytes("File Name : a.jpg\nMIME Type : image/jpeg\n");
    assert_eq!(get_gps_from_exiftool_string(&text), None);
}

#[test]
fn exiftool_direction_line() {
    let text = bytes("GPS Img Direction               : 123.45\n");
    assert_eq!(direction_from_exiftool_text(&text), Some(123_450));
    let none = bytes("GPS Img Direction Ref           : T\n");
    assert_eq!(direction_from_exiftool_text(&none), None);
}

#[test]
fn extract_from_exiftool_text_fills_fields() {
    let text = bytes(
        "GPS Position                    : 16 deg 38' 18.20\" S, 161 deg 7' 31.68\" E\n\
         GPS Img Direction               : 90.5\n",
    );
    let m = extract_from_exiftool_text("/in/a.jpg", "a.jpg", &text);
    assert_eq!(m.path.as_str(), "/in/a.jpg");
    assert_eq!(m.file_name.as_str(), "a.jpg");
    let loc = m.location.unwrap();
    assert_eq!(loc.latitude, -16_638_388);
    assert_eq!(loc.longitude, 161_125_466);
    assert_eq!(m.gps_img_direction, Some(90_500));
}

#[test]
fn rational_triplets_convert_exactly() {
    // 16 deg 38' 18.2": seconds as 91/5.
    assert_eq!(rational_triplet_micro((16, 1), (38, 1), (91, 5)), Some(16_638_388));
    assert_eq!(rational_triplet_micro((16, 1), (38, 0), (91, 5)), None);
}

#[test]
fn rationals_with_south_reference() {
    let lat = vec![(16u32, 1u32), (38, 1), (91, 5)];
    let lon = vec![(161u32, 1u32), (7, 1), (3168, 100)];
    let latr = Some(b"S".to_vec());
    let lonr = Some(b"E".to_vec());
    let loc = gps_from_rationals(&lat, &latr, &lon, &lonr).unwrap();
    assert_eq!(loc.latitude, -16_638_388);
    assert_eq!(loc.longitude, 161_125_466);
    // Out-of-range coordinates are rejected.
    let big = vec![(200u32, 1u32), (0, 1), (0, 1)];
    assert!(gps_from_rationals(&big, &latr, &lon, &lonr).is_none());
}

#[test]
fn rationals_without_references_give_nothing() {
    // A partial tag set — a missing hemisphere reference — yields no
    // coordinates.
    let lat = vec![(16u32, 1u32), (38, 1), (91, 5)];
    let lon = vec![(161u32, 1u32), (7, 1), (3168, 100)];
    assert!(gps_from_rationals(&lat, &None, &lon, &Some(b"E".to_vec())).is_none());
    assert!(gps_from_rationals(&lat, &Some(b"N".to_vec()), &lon, &None).is_none());
    assert!(gps_from_rationals(&lat, &None, &lon, &None).is_none());
}

#[test]
fn heading_from_first_rational() {
    assert_eq!(heading_from_rationals(&vec![(905u32, 10u32)]), Some(90_500));
    assert_eq!(heading_from_rationals(&vec![]), None);
    assert_eq!(heading_from_rationals(&vec![(1, 0)]), None);
}

#[test]
fn extraction_falls_back_to_tool_text() {
    // No usable embedded metadata; the tool's report supplies both.
    let not_an_image = bytes("plain text, no metadata");
    let text = bytes(
        "GPS Position                    : 16 deg 38' 18.20\" S, 161 deg 7' 31.68\" E\n\
         GPS Img Direction               : 45\n",
    );
    let m = extract_image_metadata("/in/a.jpg", "a.jpg", &not_an_image, Some(&text));
    let loc = m.location.unwrap();
    assert_eq!(loc.latitude, -16_638_388);
    assert_eq!(m.gps_img_direction, Some(45_000));
    // Without the report, everything stays absent.
    let m2 = extract_image_metadata("/in/a.jpg", "a.jpg", &not_an_image, None);
    assert!(m2.location.is_none());
    assert!(m2.gps_img_direction.is_none());
}
