use fissura::flatgroup::{
    group_by_proximity, group_info_content, location_group_name, parse_exiftool_sections,
    sections_stats,
};
use fissura::geo::Location;

#[test]
fn sections_are_split_and_located() {
    let text = b"File Name                       : a.jpg\n\
GPS Position                    : 16 deg 38' 18.20\" S, 161 deg 7' 31.68\" E\n\
---\n\
File Name                       : b.jpg\n\
Comment                         : none\n"
        .to_vec();
    let entries = parse_exiftool_sections(&text);
    assert_eq!(entries.len(), 2);
    assert_eq!(entries[0].0, b"a.jpg".to_vec());
    let loc = entries[0].1.unwrap();
    assert_eq!(loc.latitude, -16_638_388);
    assert_eq!(loc.longitude, 161_125_466);
    assert_eq!(entries[1].0, b"b.jpg".to_vec());
    assert!(entries[1].1.is_none());
}

#[test]
fn blank_lines_also_close_sections() {
    let text = b"File Name : a.jpg\n\n\
File Name : b.jpg\n\
GPS Position : 16 deg 38' 18.20\" S, 161 deg 7' 31.68\" E\n"
        .to_vec();
    let entries = parse_exiftool_sections(&text);
    assert_eq!(entries.len(), 2);
    assert!(entries[0].1.is_none());
    assert!(entries[1].1.is_some());
}

#[test]
fn proximity_groups_by_first_member() {
    let entries = vec![
        (b"a.jpg".to_vec(), Some(Location { latitude: 10_000_000, longitude: 10_000_000 })),
        (b"b.jpg".to_vec(), Some(Location { latitude: 10_000_050, longitude: 10_000_050 })),
        (b"skip.jpg".to_vec(), None),
        (b"c.jpg".to_vec(), Some(Location { latitude: 40_000_000, longitude: 40_000_000 })),
    ];
    let groups = group_by_proximity(&entries, 100);
    assert_eq!(groups.len(), 2);
    assert_eq!(groups[0], vec![0usize, 1]);
    assert_eq!(groups[1], vec![3usize]);
    let stats = sections_stats(&entries, groups.len());
    assert_eq!(stats.total_images, 4);
    assert_eq!(stats.images_with_gps, 3);
    assert_eq!(stats.images_without_gps, 1);
    assert_eq!(stats.predio_groups, 2);
    assert_eq!(stats.total_images, stats.images_with_gps + stats.images_without_gps);
}

#[test]
fn group_names_and_info_text() {
    assert_eq!(location_group_name(2).as_str(), "location_group_2");
    let names = vec!["a.jpg".to_string(), "b.jpg".to_string()];
    assert_eq!(
        group_info_content(1, &names).as_str(),
        "Grupo de localização 1\nArquivos neste grupo:\n- a.jpg\n- b.jpg\n"
    );
    let none: Vec<String> = Vec::new();
    assert_eq!(
        group_info_content(3, &none).as_str(),
        "Grupo de localização 3\nArquivos neste grupo:\n"
    );
}
