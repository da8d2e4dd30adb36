use fissura::cluster::{calculate_centroid, cluster_predios, predio_id, ImageMetadata};
use fissura::geo::Location;
use fissura::materialize::build_move_plan;
use fissura::pipeline::process_images;
use fissura::sanitize::{sanitize_filename, sanitize_name, u64_to_decimal};
use fissura::stats::{
    record_copy_error, record_fachada_dir_error, record_predio_dir_error, record_remove_error,
    ProcessingStats,
};

fn image(name: &str, lat: i64, lon: i64, dir: Option<i64>) -> ImageMetadata {
    ImageMetadata {
        path: format!("/input/{}", name),
        file_name: name.to_string(),
        location: Some(Location { latitude: lat, longitude: lon }),
        gps_img_direction: dir,
    }
}

fn image_no_gps(name: &str) -> ImageMetadata {
    ImageMetadata {
        path: format!("/input/{}", name),
        file_name: name.to_string(),
        location: None,
        gps_img_direction: None,
    }
}

#[test]
fn sanitize_filename_replaces_and_strips() {
    assert_eq!(sanitize_filename("my file?.jpg").as_str(), "my_file.jpg");
    assert_eq!(sanitize_filename("a/b\\c:d*e?f\"g<h>i|j").as_str(), "abcdefghij");
    assert_eq!(sanitize_filename("plain.png").as_str(), "plain.png");
}

#[test]
fn sanitize_name_keeps_alphanumerics() {
    assert_eq!(sanitize_name("Galpao Logistico!").as_str(), "Galpao_Logistico");
    assert_eq!(sanitize_name("a-b_c.d").as_str(), "a-b_cd");
}

#[test]
fn decimal_rendering() {
    assert_eq!(u64_to_decimal(0).as_str(), "0");
    assert_eq!(u64_to_decimal(1234).as_str(), "1234");
    assert_eq!(predio_id(3).as_str(), "Predio-3");
    assert_eq!(predio_id(12).as_str(), "Predio-12");
}

#[test]
fn centroid_of_empty_and_of_pairs() {
    let empty: Vec<Location> = Vec::new();
    assert!(calculate_centroid(&empty).is_none());
    let pts = vec![
        Location { latitude: 10, longitude: 20 },
        Location { latitude: 20, longitude: 40 },
    ];
    let c = calculate_centroid(&pts).unwrap();
    assert_eq!(c.latitude, 15);
    assert_eq!(c.longitude, 30);
    // Truncation toward zero on a negative mean.
    let neg = vec![
        Location { latitude: -1, longitude: 0 },
        Location { latitude: -2, longitude: 0 },
    ];
    let c2 = calculate_centroid(&neg).unwrap();
    assert_eq!(c2.latitude, -1);
}

#[test]
fn clustering_three_images_with_fifty_meter_threshold() {
    // Two images ~15.6 m apart cluster together; the third is ~4,459 km away.
    let images = vec![
        image("a.jpg", 10_000_000, 10_000_000, None),
        image("b.jpg", 10_000_100, 10_000_100, None),
        image("c.jpg", 40_000_000, 40_000_000, None),
    ];
    let predios = cluster_predios(&images, 50);
    assert_eq!(predios.len(), 2);
    assert_eq!(predios[0].id.as_str(), "Predio-1");
    assert_eq!(predios[1].id.as_str(), "Predio-2");
    assert_eq!(predios[0].todas_imagens_no_predio.len(), 2);
    assert_eq!(predios[0].todas_imagens_no_predio[0].file_name.as_str(), "a.jpg");
    assert_eq!(predios[0].todas_imagens_no_predio[1].file_name.as_str(), "b.jpg");
    assert_eq!(predios[1].todas_imagens_no_predio.len(), 1);
    assert_eq!(predios[1].todas_imagens_no_predio[0].file_name.as_str(), "c.jpg");
    // The first building's centroid is the mean of its two members.
    assert_eq!(predios[0].centroide.latitude, 10_000_050);
    assert_eq!(predios[0].centroide.longitude, 10_000_050);
    assert_eq!(predios[1].centroide.latitude, 40_000_000);
}

#[test]
fn clustering_is_deterministic_across_runs() {
    let images = vec![
        image("a.jpg", 10_000_000, 10_000_000, None),
        image("b.jpg", 10_000_100, 10_000_100, None),
        image("c.jpg", 40_000_000, 40_000_000, None),
    ];
    let p1 = cluster_predios(&images, 50);
    let p2 = cluster_predios(&images, 50);
    assert_eq!(p1.len(), p2.len());
    for (x, y) in p1.iter().zip(p2.iter()) {
        assert_eq!(x.id.as_str(), y.id.as_str());
        assert_eq!(x.centroide, y.centroide);
        assert_eq!(
            x.todas_imagens_no_predio.len(),
            y.todas_imagens_no_predio.len()
        );
        for (i, j) in x
            .todas_imagens_no_predio
            .iter()
            .zip(y.todas_imagens_no_predio.iter())
        {
            assert_eq!(i.file_name.as_str(), j.file_name.as_str());
        }
    }
}

#[test]
fn no_gps_short_circuit() {
    let images = vec![image_no_gps("a.jpg"), image_no_gps("b.jpg")];
    let (stats, predios) = process_images(&images, 200);
    assert_eq!(predios.len(), 0);
    assert_eq!(stats.predio_groups, 0);
    assert_eq!(stats.total_images, 2);
    assert_eq!(stats.images_with_gps, 0);
    assert_eq!(stats.images_without_gps, 2);
    assert!(!stats.errors.is_empty());
    assert_eq!(stats.errors[0].as_str(), "Nenhuma imagem com dados GPS encontrada.");
}

#[test]
fn stats_always_tally() {
    let images = vec![
        image("a.jpg", 10_000_000, 10_000_000, Some(90_000)),
        image_no_gps("b.jpg"),
        image("c.jpg", 40_000_000, 40_000_000, None),
        image_no_gps("d.jpg"),
    ];
    let (stats, predios) = process_images(&images, 200);
    assert_eq!(stats.total_images, 4);
    assert_eq!(stats.images_with_gps, 2);
    assert_eq!(stats.images_without_gps, 2);
    assert_eq!(stats.images_with_direction, 1);
    assert_eq!(
        stats.total_images,
        stats.images_with_gps + stats.images_without_gps
    );
    assert_eq!(stats.predio_groups, predios.len());
    assert_eq!(predios.len(), 2);
    assert!(stats.errors.is_empty());
}

#[test]
fn facades_are_grouped_per_building() {
    let images = vec![
        image("east.jpg", 10_000_000, 10_000_000, Some(90_000)),
        image("none.jpg", 10_000_001, 10_000_001, None),
        image("east2.jpg", 10_000_002, 10_000_002, Some(100_000)),
    ];
    let (_stats, predios) = process_images(&images, 200);
    assert_eq!(predios.len(), 1);
    let pr = &predios[0];
    assert_eq!(pr.fachadas.len(), 2);
    assert_eq!(pr.fachadas[0].nome.as_str(), "Leste");
    assert_eq!(pr.fachadas[0].imagens.len(), 2);
    assert_eq!(pr.fachadas[0].imagens[0].file_name.as_str(), "east.jpg");
    assert_eq!(pr.fachadas[0].imagens[1].file_name.as_str(), "east2.jpg");
    assert_eq!(pr.fachadas[1].nome.as_str(), "Indefinida");
    assert_eq!(pr.fachadas[1].imagens.len(), 1);
}

#[test]
fn move_plan_uses_sanitized_names() {
    let images = vec![image("img 1.jpg", 10_000_000, 10_000_000, Some(90_000))];
    let (_stats, predios) = process_images(&images, 200);
    let plan = build_move_plan(&predios);
    assert_eq!(plan.len(), 1);
    assert_eq!(plan[0].dir_name.as_str(), "Predio-1");
    assert_eq!(plan[0].items.len(), 1);
    assert_eq!(plan[0].items[0].fachada_dir.as_str(), "fachada-Leste");
    assert_eq!(plan[0].items[0].dest_name.as_str(), "img_1.jpg");
    assert_eq!(plan[0].items[0].src_path.as_str(), "/input/img 1.jpg");
}

#[test]
fn error_recorders_compose_the_exact_messages() {
    let mut stats = ProcessingStats::default();
    record_predio_dir_error(&mut stats, "Predio-1", "permission denied");
    record_fachada_dir_error(&mut stats, "/p/fachada-Sul", "disk full");
    record_copy_error(&mut stats, "/a.jpg", "/b.jpg", "busy");
    record_remove_error(&mut stats, "/a.jpg", "locked");
    assert_eq!(stats.errors.len(), 4);
    assert_eq!(
        stats.errors[0].as_str(),
        "Erro ao criar pasta do prédio Predio-1: permission denied"
    );
    assert_eq!(
        stats.errors[1].as_str(),
        "Erro ao criar diretório /p/fachada-Sul: disk full"
    );
    assert_eq!(stats.errors[2].as_str(), "Falha ao copiar /a.jpg para /b.jpg: busy");
    assert_eq!(
        stats.errors[3].as_str(),
        "Falha ao apagar arquivo original /a.jpg: locked"
    );
    assert_eq!(stats.total_images, 0);
    assert_eq!(stats.predio_groups, 0);
}

#[test]
fn failed_building_directory_skips_only_that_building() {
    // Two buildings far apart; materializing the first fails at its
    // directory, the second still processes.
    let images = vec![
        image("a.jpg", 10_000_000, 10_000_000, Some(90_000)),
        image("b.jpg", 40_000_000, 40_000_000, Some(200_000)),
    ];
    let (mut stats, predios) = process_images(&images, 50);
    assert_eq!(predios.len(), 2);
    let plan = build_move_plan(&predios);
    let mut moved: Vec<String> = Vec::new();
    for pl in plan.iter() {
        // Stand-in for directory creation: the first building's fails.
        let dir_created = pl.dir_name.as_str() != "Predio-1";
        if !dir_created {
            record_predio_dir_error(&mut stats, pl.dir_name.as_str(), "permission denied");
            continue;
        }
        for item in pl.items.iter() {
            moved.push(item.src_path.clone());
        }
    }
    assert_eq!(stats.errors.len(), 1);
    assert_eq!(
        stats.errors[0].as_str(),
        "Erro ao criar pasta do prédio Predio-1: permission denied"
    );
    assert_eq!(moved, vec!["/input/b.jpg".to_string()]);
    assert_eq!(stats.predio_groups, 2);
    assert_eq!(stats.total_images, 2);
}
