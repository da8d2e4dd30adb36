use fissura::facade::determinar_fachada_nome;
use fissura::geo::{are_locations_close, haversine_distance, Location};

fn loc(lat: i64, lon: i64) -> Location {
    Location { latitude: lat, longitude: lon }
}

#[test]
fn distance_identity_is_zero() {
    let a = loc(10_000_000, 10_000_000);
    assert_eq!(haversine_distance(&a, &a), 0);
    let b = loc(-33_868_800, 151_209_300);
    assert_eq!(haversine_distance(&b, &b), 0);
}

#[test]
fn distance_is_symmetric() {
    let a = loc(10_000_000, 10_000_000);
    let b = loc(40_000_000, 40_000_000);
    assert_eq!(haversine_distance(&a, &b), haversine_distance(&b, &a));
    let c = loc(-33_868_800, 151_209_300);
    let d = loc(51_507_400, -127_900);
    assert_eq!(haversine_distance(&c, &d), haversine_distance(&d, &c));
}

#[test]
fn distance_of_close_points_is_about_fifteen_meters() {
    // (10.0, 10.0) vs (10.0001, 10.0001): roughly 15.6 m.
    let a = loc(10_000_000, 10_000_000);
    let b = loc(10_000_100, 10_000_100);
    let mm = haversine_distance(&a, &b);
    assert!(mm > 15_000 && mm < 16_300, "got {} mm", mm);
}

#[test]
fn distance_of_one_equator_degree() {
    // One degree of longitude on the equator: about 111.195 km.
    let a = loc(0, 0);
    let b = loc(0, 1_000_000);
    let mm = haversine_distance(&a, &b);
    assert!(mm > 111_100_000 && mm < 111_300_000, "got {} mm", mm);
}

#[test]
fn distance_of_far_points_is_thousands_of_kilometers() {
    // (10, 10) vs (40, 40): about 4,458.6 km.
    let a = loc(10_000_000, 10_000_000);
    let b = loc(40_000_000, 40_000_000);
    let mm = haversine_distance(&a, &b);
    assert!(mm > 4_458_000_000 && mm < 4_459_200_000, "got {} mm", mm);
}

#[test]
fn distance_never_exceeds_half_the_circumference() {
    // Antipodal poles: the largest possible great-circle distance.
    let a = loc(90_000_000, 0);
    let b = loc(-90_000_000, 0);
    let mm = haversine_distance(&a, &b);
    assert!(mm <= 20_015_086_796, "got {} mm", mm);
    assert!(mm > 20_000_000_000, "got {} mm", mm);
    let c = loc(0, -180_000_000);
    let d = loc(0, 180_000_000);
    assert!(haversine_distance(&c, &d) <= 20_015_086_796);
}

#[test]
fn locations_close_is_coordinate_wise() {
    let a = loc(1_000, 2_000);
    let b = loc(1_400, 2_400);
    assert!(are_locations_close(&a, &b, 500));
    assert!(!are_locations_close(&a, &b, 300));
}

#[test]
fn location_checked_rejects_out_of_range() {
    assert!(Location::checked(90_000_001, 0).is_none());
    assert!(Location::checked(0, -180_000_001).is_none());
    assert!(Location::checked(90_000_000, -180_000_000).is_some());
}

#[test]
fn facade_boundaries() {
    let cases: [(i64, &str); 10] = [
        (0, "Norte"),
        (44_990, "Norte"),
        (45_000, "Leste"),
        (134_990, "Leste"),
        (135_000, "Sul"),
        (224_990, "Sul"),
        (225_000, "Oeste"),
        (314_990, "Oeste"),
        (315_000, "Norte"),
        (359_990, "Norte"),
    ];
    for (mdeg, expected) in cases.iter() {
        let got = determinar_fachada_nome(Some(*mdeg));
        assert_eq!(got.as_str(), *expected, "heading {} mdeg", mdeg);
    }
}

#[test]
fn facade_of_east_heading_and_of_missing_heading() {
    assert_eq!(determinar_fachada_nome(Some(90_000)).as_str(), "Leste");
    assert_eq!(determinar_fachada_nome(None).as_str(), "Indefinida");
}

#[test]
fn facade_out_of_range_is_indefinida() {
    assert_eq!(determinar_fachada_nome(Some(-1)).as_str(), "Indefinida");
    assert_eq!(determinar_fachada_nome(Some(360_000)).as_str(), "Indefinida");
    assert_eq!(determinar_fachada_nome(Some(400_000)).as_str(), "Indefinida");
}
