//! The structures of the inspection report and the stand-in detection
//! step that fills them from a listing of image files, pending the
//! external crack-detection model.

use vstd::prelude::*;
use crate::sanitize::{push_u64_decimal, spec_decimal_digits};

verus! {

/// One facade entry of the report.
#[derive(Debug)]
pub struct Faceta {
    /// Sequential identifier, `F01`, `F02`, ...
    pub id: String,
    /// Compass orientation of the facade.
    pub orientacao: String,
    /// Number of cracks attributed to the facade.
    pub qtd_rachaduras: u32,
    /// Free-form notes.
    pub observacoes: String,
}

/// One crack entry of the report.
#[derive(Debug)]
pub struct Fissura {
    /// The facade the crack belongs to.
    pub faceta_id: String,
    /// Where on the facade the crack sits.
    pub localizacao: String,
    /// The crack's classification.
    pub classificacao: String,
    /// Free-form description.
    pub descricao: String,
    /// Path of the image showing the crack, relative to the report.
    pub caminho_imagem: String,
}

/// The complete report payload.
#[derive(Debug)]
pub struct ReportData {
    pub nome_projeto: String,
    pub data_analise: String,
    pub nome_responsavel: String,
    pub nome_predio: String,
    pub endereco_predio: String,
    pub numero_andares: u32,
    pub ano_construcao: u32,
    pub tipo_estrutura: String,
    pub observacoes_gerais: String,
    pub facetas: Vec<Faceta>,
    pub fissuras: Vec<Fissura>,
    pub conclusao_geral: String,
    pub recomendacoes: String,
    pub funcao_responsavel: String,
    pub nome_empresa: String,
}

/// The classification cycle of the stand-in detection, by 1-based
/// counter.
pub open spec fn spec_sim_class(i: nat) -> Seq<char> {
    if i % 3 == 0 {
        "Estrutural"@
    } else if i % 3 == 1 {
        "Térmica"@
    } else {
        "Retração plástica"@
    }
}

/// The facade a stand-in crack is attributed to, by 1-based counter:
/// even counters to `F02`, odd to `F01`.
pub open spec fn spec_sim_faceta_id(i: nat) -> Seq<char> {
    if i % 2 == 0 { "F02"@ } else { "F01"@ }
}

/// The location text of a stand-in crack.
pub open spec fn spec_sim_loc(i: nat, name: Seq<char>) -> Seq<char> {
    "Localização simulada "@ + spec_decimal_digits(i) + " ("@ + name + ")"@
}

/// The description text of a stand-in crack.
pub open spec fn spec_sim_desc(i: nat, name: Seq<char>) -> Seq<char> {
    "Descrição simulada da fissura "@ + spec_decimal_digits(i) + " para a imagem "@ + name + "."@
}

/// The report-relative image path of a stand-in crack.
pub open spec fn spec_sim_path(name: Seq<char>) -> Seq<char> {
    "images/"@ + name
}

/// The notes of a stand-in facade.
pub open spec fn spec_sim_obs(id: Seq<char>, building: Seq<char>) -> Seq<char> {
    "Observações da faceta "@ + id + " do "@ + building
}

/// How one stand-in crack reflects the file at 0-based index k.
pub open spec fn sim_fissura_matches(f: Fissura, k: int, name: Seq<char>) -> bool {
    let i = (k + 1) as nat;
    &&& f.faceta_id@ == spec_sim_faceta_id(i)
    &&& f.classificacao@ == spec_sim_class(i)
    &&& f.localizacao@ == spec_sim_loc(i, name)
    &&& f.descricao@ == spec_sim_desc(i, name)
    &&& f.caminho_imagem@ == spec_sim_path(name)
}

/// Builds the two stand-in facades and one stand-in crack per image
/// file, cycling classifications and alternating facades exactly as
/// stated by the `spec_sim` functions; each facade's crack count is
/// the number of cracks attributed to it.
pub fn simulate_detection(file_names: &Vec<String>, building_name: &str) -> (r: (Vec<Faceta>, Vec<Fissura>))
    requires
        file_names@.len() <= 0xFFFF_FFFF,
    ensures
        r.1@.len() == file_names@.len(),
        forall|k: int| 0 <= k < file_names@.len()
            ==> sim_fissura_matches(#[trigger] r.1@[k], k, file_names@[k]@),
        r.0@.len() == 2,
        r.0@[0].id@ == "F01"@,
        r.0@[0].orientacao@ == "Norte"@,
        r.0@[0].observacoes@ == spec_sim_obs("F01"@, building_name@),
        r.0@[0].qtd_rachaduras as int == (file_names@.len() as int + 1) / 2,
        r.0@[1].id@ == "F02"@,
        r.0@[1].orientacao@ == "Leste"@,
        r.0@[1].observacoes@ == spec_sim_obs("F02"@, building_name@),
        r.0@[1].qtd_rachaduras as int == file_names@.len() as int / 2,
{
    let n = file_names.len();
    let mut fissuras: Vec<Fissura> = Vec::new();
    let mut qtd1: u32 = 0;
    let mut qtd2: u32 = 0;
    let mut k: usize = 0;
    while k < n
        invariant
            k <= n,
            n == file_names@.len(),
            n <= 0xFFFF_FFFF,
            fissuras@.len() == k,
            forall|t: int| 0 <= t < k
                ==> sim_fissura_matches(#[trigger] fissuras@[t], t, file_names@[t]@),
            qtd1 as int == (k as int + 1) / 2,
            qtd2 as int == k as int / 2,
        decreases n - k,
    {
        let i: u64 = (k + 1) as u64;
        let name = &file_names[k];
        let faceta_id = if i % 2 == 0 { String::from_str("F02") } else { String::from_str("F01") };
        let classificacao = if i % 3 == 0 {
            String::from_str("Estrutural")
        } else if i % 3 == 1 {
            String::from_str("Térmica")
        } else {
            String::from_str("Retração plástica")
        };
        let mut localizacao = String::from_str("Localização simulada ");
        push_u64_decimal(&mut localizacao, i);
        localizacao.append(" (");
        localizacao.append(name.as_str());
        localizacao.append(")");
        let mut descricao = String::from_str("Descrição simulada da fissura ");
        push_u64_decimal(&mut descricao, i);
        descricao.append(" para a imagem ");
        descricao.append(name.as_str());
        descricao.append(".");
        let mut caminho = String::from_str("images/");
        caminho.append(name.as_str());
        proof {
            assert(localizacao@ =~= spec_sim_loc(i as nat, name@));
            assert(descricao@ =~= spec_sim_desc(i as nat, name@));
            assert(caminho@ =~= spec_sim_path(name@));
            assert(i as nat == (k + 1) as nat);
        }
        if i % 2 == 0 {
            qtd2 = qtd2 + 1;
        } else {
            qtd1 = qtd1 + 1;
        }
        fissuras.push(Fissura {
            faceta_id,
            localizacao,
            classificacao,
            descricao,
            caminho_imagem: caminho,
        });
        k = k + 1;
    }
    let mut obs1 = String::from_str("Observações da faceta ");
    obs1.append("F01");
    obs1.append(" do ");
    obs1.append(building_name);
    let mut obs2 = String::from_str("Observações da faceta ");
    obs2.append("F02");
    obs2.append(" do ");
    obs2.append(building_name);
    proof {
        assert(obs1@ =~= spec_sim_obs("F01"@, building_name@));
        assert(obs2@ =~= spec_sim_obs("F02"@, building_name@));
    }
    let f1 = Faceta {
        id: String::from_str("F01"),
        orientacao: String::from_str("Norte"),
        qtd_rachaduras: qtd1,
        observacoes: obs1,
    };
    let f2 = Faceta {
        id: String::from_str("F02"),
        orientacao: String::from_str("Leste"),
        qtd_rachaduras: qtd2,
        observacoes: obs2,
    };
    let mut facetas: Vec<Faceta> = Vec::new();
    facetas.push(f1);
    facetas.push(f2);
    (facetas, fissuras)
}

/// The general-notes text of an assembled report.
pub open spec fn spec_report_obs(project: Seq<char>, building: Seq<char>) -> Seq<char> {
    "Observações gerais simuladas para o "@ + project + " - "@ + building + "."@
}

/// Assembles the report payload around the detection outcome; the
/// analysis date is supplied by the caller.
pub fn build_report_data(
    project_name: &str,
    building_name: &str,
    data_analise: &str,
    facetas: Vec<Faceta>,
    fissuras: Vec<Fissura>,
) -> (r: ReportData)
    ensures
        r.nome_projeto@ == project_name@,
        r.data_analise@ == data_analise@,
        r.nome_responsavel@ == "Eng. Responsável Simulado"@,
        r.nome_predio@ == building_name@,
        r.endereco_predio@ == "Endereço Simulado, 123"@,
        r.numero_andares == 1u32,
        r.ano_construcao == 2000u32,
        r.tipo_estrutura@ == "Tipo de Estrutura Simulada"@,
        r.observacoes_gerais@ == spec_report_obs(project_name@, building_name@),
        r.facetas == facetas,
        r.fissuras == fissuras,
        r.conclusao_geral@ == "Conclusão geral simulada. Análise requer especialista."@,
        r.recomendacoes@ == "Recomendações simuladas. Verificar todas as fissuras."@,
        r.funcao_responsavel@ == "Engenheiro de Simulação"@,
        r.nome_empresa@ == "Simulações & Análises Ltda."@,
{
    let mut obs = String::from_str("Observações gerais simuladas para o ");
    obs.append(project_name);
    obs.append(" - ");
    obs.append(building_name);
    obs.append(".");
    proof {
        assert(obs@ =~= spec_report_obs(project_name@, building_name@));
    }
    ReportData {
        nome_projeto: String::from_str(project_name),
        data_analise: String::from_str(data_analise),
        nome_responsavel: String::from_str("Eng. Responsável Simulado"),
        nome_predio: String::from_str(building_name),
        endereco_predio: String::from_str("Endereço Simulado, 123"),
        numero_andares: 1,
        ano_construcao: 2000,
        tipo_estrutura: String::from_str("Tipo de Estrutura Simulada"),
        observacoes_gerais: obs,
        facetas,
        fissuras,
        conclusao_geral: String::from_str("Conclusão geral simulada. Análise requer especialista."),
        recomendacoes: String::from_str("Recomendações simuladas. Verificar todas as fissuras."),
        funcao_responsavel: String::from_str("Engenheiro de Simulação"),
        nome_empresa: String::from_str("Simulações & Análises Ltda."),
    }
}

} // verus!
