use fissura::detect::{
    count_fissura_kinds, count_fissura_kinds_in, extract_building_name_from_path, name_matches,
    DetectionRecord,
};
use fissura::paths::{display_from_projects, guess_mime_type, is_image_file};
use fissura::report::{build_report_data, simulate_detection};

#[test]
fn name_matching_folds_case() {
    assert!(name_matches("termica", "termica"));
    assert!(name_matches("Termica", "termica"));
    assert!(name_matches("TERMICA", "termica"));
    assert!(name_matches("RetraÇao", "retraçao"));
    assert!(!name_matches("termicas", "termica"));
    assert!(!name_matches("retracao", "termica"));
}

#[test]
fn counting_kinds_in_one_record() {
    let names = vec![
        "Termica".to_string(),
        "retracao".to_string(),
        "outra".to_string(),
        "TERMICA".to_string(),
    ];
    let (t, r) = count_fissura_kinds_in(&names);
    assert_eq!(t, 2);
    assert_eq!(r, 1);
}

#[test]
fn counting_kinds_over_records() {
    let records = vec![
        DetectionRecord {
            path: "images/Predio-1/fachada-Leste/a.jpg".to_string(),
            fissura_names: vec!["termica".to_string(), "retraçao".to_string()],
        },
        DetectionRecord {
            path: "images/Predio-2/fachada-Sul/b.jpg".to_string(),
            fissura_names: vec!["Termica".to_string()],
        },
    ];
    let (t, r) = count_fissura_kinds(&records);
    assert_eq!(t, 2);
    assert_eq!(r, 1);
}

#[test]
fn building_name_comes_from_two_levels_up() {
    assert_eq!(
        extract_building_name_from_path("images/Predio-1/fachada-Leste/a.jpg")
            .unwrap()
            .as_str(),
        "Predio-1"
    );
    assert_eq!(
        extract_building_name_from_path("b/c/d.jpg").unwrap().as_str(),
        "b"
    );
    assert!(extract_building_name_from_path("c/d.jpg").is_none());
    assert!(extract_building_name_from_path("d.jpg").is_none());
}

#[test]
fn display_below_projects() {
    assert_eq!(
        display_from_projects("/home/u/Projects/proj1/images/a.jpg")
            .unwrap()
            .as_str(),
        "proj1/images/a.jpg"
    );
    assert_eq!(display_from_projects("/home/u/Projects").unwrap().as_str(), "");
    assert!(display_from_projects("/home/u/other/a.jpg").is_none());
}

#[test]
fn mime_types_by_extension() {
    assert_eq!(guess_mime_type("a/b.png"), "image/png");
    assert_eq!(guess_mime_type("x.jpg"), "image/jpeg");
    assert_eq!(guess_mime_type("x.jpeg"), "image/jpeg");
    assert_eq!(guess_mime_type("x.gif"), "image/gif");
    assert_eq!(guess_mime_type("x.svg"), "image/svg+xml");
    assert_eq!(guess_mime_type("noext"), "application/octet-stream");
    assert_eq!(guess_mime_type("x.PNG"), "application/octet-stream");
    assert_eq!(guess_mime_type(".bashrc"), "application/octet-stream");
}

#[test]
fn image_files_by_extension_case_insensitive() {
    assert!(is_image_file("a.JPG"));
    assert!(is_image_file("a/b/c.webp"));
    assert!(is_image_file("x.Tiff"));
    assert!(!is_image_file("b.txt"));
    assert!(!is_image_file("noext"));
}

#[test]
fn simulated_detection_cycles_classes_and_facades() {
    let names = vec!["a.jpg".to_string(), "b.jpg".to_string(), "c.jpg".to_string()];
    let (facetas, fissuras) = simulate_detection(&names, "Galpao_3");
    assert_eq!(fissuras.len(), 3);
    assert_eq!(fissuras[0].faceta_id.as_str(), "F01");
    assert_eq!(fissuras[0].classificacao.as_str(), "Térmica");
    assert_eq!(fissuras[0].localizacao.as_str(), "Localização simulada 1 (a.jpg)");
    assert_eq!(fissuras[0].caminho_imagem.as_str(), "images/a.jpg");
    assert_eq!(fissuras[1].faceta_id.as_str(), "F02");
    assert_eq!(fissuras[1].classificacao.as_str(), "Retração plástica");
    assert_eq!(fissuras[2].faceta_id.as_str(), "F01");
    assert_eq!(fissuras[2].classificacao.as_str(), "Estrutural");
    assert_eq!(
        fissuras[2].descricao.as_str(),
        "Descrição simulada da fissura 3 para a imagem c.jpg."
    );
    assert_eq!(facetas.len(), 2);
    assert_eq!(facetas[0].id.as_str(), "F01");
    assert_eq!(facetas[0].orientacao.as_str(), "Norte");
    assert_eq!(facetas[0].qtd_rachaduras, 2);
    assert_eq!(
        facetas[0].observacoes.as_str(),
        "Observações da faceta F01 do Galpao_3"
    );
    assert_eq!(facetas[1].id.as_str(), "F02");
    assert_eq!(facetas[1].orientacao.as_str(), "Leste");
    assert_eq!(facetas[1].qtd_rachaduras, 1);
}

#[test]
fn report_payload_is_assembled_exactly() {
    let (facetas, fissuras) = simulate_detection(&vec!["a.jpg".to_string()], "G3");
    let r = build_report_data("Proj", "G3", "2024-05-01", facetas, fissuras);
    assert_eq!(r.nome_projeto.as_str(), "Proj");
    assert_eq!(r.data_analise.as_str(), "2024-05-01");
    assert_eq!(r.nome_predio.as_str(), "G3");
    assert_eq!(r.numero_andares, 1);
    assert_eq!(r.ano_construcao, 2000);
    assert_eq!(
        r.observacoes_gerais.as_str(),
        "Observações gerais simuladas para o Proj - G3."
    );
    assert_eq!(r.facetas.len(), 2);
    assert_eq!(r.fissuras.len(), 1);
    assert_eq!(r.nome_responsavel.as_str(), "Eng. Responsável Simulado");
    assert_eq!(r.nome_empresa.as_str(), "Simulações & Análises Ltda.");
}
