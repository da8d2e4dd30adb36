//! The orchestration pass over extracted image metadata: counting,
//! partitioning by GPS presence, clustering into buildings and grouping
//! each building's images by facade.

use vstd::prelude::*;
use crate::cluster::{
    Fachada, ImageMetadata, Predio, cluster_predios, predio_matches_group, predios_match_groups,
    spec_centroid, spec_group_locs, spec_groups_upto, spec_locs_of, spec_predio_id,
};
use crate::facade::{determinar_fachada_nome, spec_fachada_nome};
use crate::stats::ProcessingStats;

verus! {

/// Number of images that carry a location.
pub open spec fn spec_count_gps(s: Seq<ImageMetadata>) -> int
    decreases s.len(),
{
    if s.len() == 0 {
        0
    } else {
        spec_count_gps(s.drop_last()) + if s.last().location is Some { 1int } else { 0int }
    }
}

/// Number of images that carry a compass heading.
pub open spec fn spec_count_dir(s: Seq<ImageMetadata>) -> int
    decreases s.len(),
{
    if s.len() == 0 {
        0
    } else {
        spec_count_dir(s.drop_last()) + if s.last().gps_img_direction is Some { 1int } else { 0int }
    }
}

/// The images that carry a location, in input order.
pub open spec fn spec_with_gps(s: Seq<ImageMetadata>) -> Seq<ImageMetadata>
    decreases s.len(),
{
    if s.len() == 0 {
        Seq::empty()
    } else {
        let prev = spec_with_gps(s.drop_last());
        if s.last().location is Some { prev.push(s.last()) } else { prev }
    }
}

/// The GPS count is the length of the GPS partition, and both counters
/// never exceed the number of images.
pub proof fn lemma_counts(s: Seq<ImageMetadata>)
    ensures
        spec_with_gps(s).len() == spec_count_gps(s),
        0 <= spec_count_gps(s) <= s.len(),
        0 <= spec_count_dir(s) <= s.len(),
    decreases s.len(),
{
    if s.len() > 0 {
        lemma_counts(s.drop_last());
    }
}

proof fn lemma_with_gps_wf(s: Seq<ImageMetadata>)
    requires
        forall|i: int| 0 <= i < s.len()
            ==> ((#[trigger] s[i]).location is Some ==> s[i].location->0.wf()),
    ensures
        forall|i: int| 0 <= i < spec_with_gps(s).len()
            ==> (#[trigger] spec_with_gps(s)[i]).location is Some
                && spec_with_gps(s)[i].location->0.wf(),
    decreases s.len(),
{
    if s.len() > 0 {
        lemma_with_gps_wf(s.drop_last());
        let prev = spec_with_gps(s.drop_last());
        if s.last().location is Some {
            assert forall|i: int| 0 <= i < spec_with_gps(s).len()
                implies (#[trigger] spec_with_gps(s)[i]).location is Some
                    && spec_with_gps(s)[i].location->0.wf() by {
                if i < prev.len() {
                    assert(spec_with_gps(s)[i] == prev[i]);
                } else {
                    assert(spec_with_gps(s)[i] == s.last());
                    assert(s.last() == s[s.len() - 1]);
                }
            }
        }
    }
}

/// The facades of a sequence of images, in order of first appearance of
/// each facade name; each facade lists its images in assignment order.
pub open spec fn spec_find_nome(
    fs: Seq<(Seq<char>, Seq<ImageMetadata>)>,
    nm: Seq<char>,
    from: nat,
) -> Option<int>
    decreases fs.len() - from,
{
    if from >= fs.len() {
        Option::None
    } else if fs[from as int].0 == nm {
        Option::Some(from as int)
    } else {
        spec_find_nome(fs, nm, from + 1)
    }
}

/// The facade grouping of a sequence of images.
pub open spec fn spec_fachadas(images: Seq<ImageMetadata>) -> Seq<(Seq<char>, Seq<ImageMetadata>)>
    decreases images.len(),
{
    if images.len() == 0 {
        Seq::empty()
    } else {
        let prev = spec_fachadas(images.drop_last());
        let im = images.last();
        let nm = spec_fachada_nome(im.gps_img_direction);
        match spec_find_nome(prev, nm, 0) {
            Option::Some(k) => prev.update(k, (nm, prev[k].1.push(im))),
            Option::None => prev.push((nm, seq![im])),
        }
    }
}

/// The name and image list of each facade, as mathematical values.
pub open spec fn fachadas_model(fs: Seq<Fachada>) -> Seq<(Seq<char>, Seq<ImageMetadata>)> {
    fs.map_values(|f: Fachada| (f.nome@, f.imagens@))
}

proof fn lemma_find_nome_advance(
    fs: Seq<(Seq<char>, Seq<ImageMetadata>)>,
    nm: Seq<char>,
    j: nat,
)
    requires
        j <= fs.len(),
        forall|k: int| 0 <= k < j ==> (#[trigger] fs[k]).0 != nm,
    ensures
        spec_find_nome(fs, nm, 0) == spec_find_nome(fs, nm, j),
    decreases j,
{
    if j > 0 {
        lemma_find_nome_advance(fs, nm, (j - 1) as nat);
    }
}

/// Finds the facade with the given name, if one exists.
fn find_fachada(fs: &Vec<Fachada>, nm: &String) -> (r: Option<usize>)
    ensures
        match r {
            Option::Some(k) => 0 <= k < fs@.len()
                && spec_find_nome(fachadas_model(fs@), nm@, 0) == Option::Some(k as int)
                && fs@[k as int].nome@ == nm@,
            Option::None => spec_find_nome(fachadas_model(fs@), nm@, 0) is None,
        },
{
    let ghost model = fachadas_model(fs@);
    let mut j: usize = 0;
    while j < fs.len()
        invariant
            j <= fs@.len(),
            model == fachadas_model(fs@),
            forall|k: int| 0 <= k < j ==> (#[trigger] model[k]).0 != nm@,
        decreases fs@.len() - j,
    {
        if fs[j].nome.eq(nm) {
            proof {
                assert(model[j as int].0 == nm@);
                lemma_find_nome_advance(model, nm@, j as nat);
            }
            return Some(j);
        }
        proof {
            assert(model[j as int].0 == fs@[j as int].nome@);
        }
        j = j + 1;
    }
    proof {
        lemma_find_nome_advance(model, nm@, fs@.len() as nat);
    }
    None
}

/// Groups the images by facade name, classifying each heading.
pub fn classify_fachadas(images: &Vec<ImageMetadata>) -> (fs: Vec<Fachada>)
    ensures
        fachadas_model(fs@) == spec_fachadas(images@),
{
    let n = images.len();
    let mut fs: Vec<Fachada> = Vec::new();
    let mut i: usize = 0;
    while i < n
        invariant
            n == images@.len(),
            i <= n,
            fachadas_model(fs@) == spec_fachadas(images@.take(i as int)),
        decreases n - i,
    {
        let ghost prev = spec_fachadas(images@.take(i as int));
        let im = images[i].duplicate();
        let nm = determinar_fachada_nome(im.gps_img_direction);
        let found = find_fachada(&fs, &nm);
        match found {
            Option::Some(k) => {
                let ghost fs0 = fs@;
                let mut f = fs.remove(k);
                f.imagens.push(im);
                let ghost f_g = f;
                fs.insert(k, f);
                i = i + 1;
                proof {
                    let cur = spec_fachadas(images@.take(i as int));
                    assert(images@.take(i as int).drop_last() =~= images@.take(i - 1));
                    assert(images@.take(i as int).last() == images@[i - 1]);
                    assert(cur == prev.update(k as int, (nm@, prev[k as int].1.push(images@[i - 1]))));
                    assert(fs@ =~= fs0.update(k as int, f_g));
                    assert(f_g.nome@ == fs0[k as int].nome@);
                    assert(f_g.nome@ == prev[k as int].0);
                    assert(prev[k as int].0 == nm@);
                    assert(f_g.imagens@ =~= prev[k as int].1.push(images@[i - 1]));
                    assert(fachadas_model(fs@) =~~= cur);
                }
            },
            Option::None => {
                let f = Fachada { nome: nm, imagens: vec![im] };
                let ghost f_g = f;
                fs.push(f);
                i = i + 1;
                proof {
                    let cur = spec_fachadas(images@.take(i as int));
                    assert(images@.take(i as int).drop_last() =~= images@.take(i - 1));
                    assert(images@.take(i as int).last() == images@[i - 1]);
                    assert(cur == prev.push((nm@, seq![images@[i - 1]])));
                    assert(f_g.imagens@ =~= seq![images@[i - 1]]);
                    assert(fachadas_model(fs@) =~~= cur);
                }
            },
        }
    }
    proof {
        assert(images@.take(n as int) =~= images@);
    }
    fs
}

/// The final shape of one building: the members and centroid of its
/// group, the creation-order id, and the members grouped by facade.
pub open spec fn predio_final_matches(
    pr: Predio,
    images: Seq<ImageMetadata>,
    g: Seq<int>,
    p: int,
) -> bool {
    &&& pr.todas_imagens_no_predio@.len() == g.len()
    &&& forall|j: int| 0 <= j < g.len()
        ==> 0 <= #[trigger] g[j] < images.len()
            && pr.todas_imagens_no_predio@[j] == images[g[j]]
    &&& pr.centroide == spec_centroid(spec_group_locs(spec_locs_of(images), g))
    &&& pr.centroide.wf()
    &&& pr.id@ == spec_predio_id((p + 1) as nat)
    &&& fachadas_model(pr.fachadas@) == spec_fachadas(pr.todas_imagens_no_predio@)
}

/// The full result of the orchestration pass over a list of extracted
/// image metadata.
pub open spec fn process_result_ok(
    images: Seq<ImageMetadata>,
    threshold_meters: u64,
    stats: ProcessingStats,
    predios: Seq<Predio>,
) -> bool {
    let wl = spec_with_gps(images);
    let groups = spec_groups_upto(spec_locs_of(wl), threshold_meters as int * 1000, wl.len());
    &&& stats.total_images == images.len()
    &&& stats.images_with_gps == spec_count_gps(images)
    &&& stats.images_with_direction == spec_count_dir(images)
    &&& stats.images_without_gps == images.len() - spec_count_gps(images)
    &&& stats.predio_groups == predios.len()
    &&& if spec_count_gps(images) == 0 {
            &&& predios.len() == 0
            &&& stats.errors@.len() == 1
            &&& stats.errors@[0]@ == "Nenhuma imagem com dados GPS encontrada."@
        } else {
            &&& stats.errors@.len() == 0
            &&& predios.len() == groups.len()
            &&& forall|p: int| 0 <= p < groups.len()
                ==> predio_final_matches(#[trigger] predios[p], wl, groups[p], p)
        }
}

/// One pass over extracted metadata: counts the images, partitions them
/// by GPS presence, and—unless no image carries GPS data, in which case
/// it records the informational error and returns zero buildings—
/// clusters the geotagged images into buildings and groups each
/// building's images by facade. The statistics always tally:
/// `total_images == images_with_gps + images_without_gps`.
pub fn process_images(images: &Vec<ImageMetadata>, threshold_meters: u64) -> (r: (ProcessingStats, Vec<Predio>))
    requires
        forall|i: int| 0 <= i < images@.len()
            ==> ((#[trigger] images@[i]).location is Some ==> images@[i].location->0.wf()),
    ensures
        process_result_ok(images@, threshold_meters, r.0, r.1@),
        r.0.consistent(),
{
    let n = images.len();
    let mut with_gps: usize = 0;
    let mut with_dir: usize = 0;
    let mut with_loc: Vec<ImageMetadata> = Vec::new();
    let mut i: usize = 0;
    while i < n
        invariant
            n == images@.len(),
            i <= n,
            forall|k: int| 0 <= k < images@.len()
                ==> ((#[trigger] images@[k]).location is Some ==> images@[k].location->0.wf()),
            with_gps as int == spec_count_gps(images@.take(i as int)),
            with_dir as int == spec_count_dir(images@.take(i as int)),
            with_loc@ == spec_with_gps(images@.take(i as int)),
            with_gps <= i,
            with_dir <= i,
        decreases n - i,
    {
        let im = &images[i];
        let has_loc = im.location.is_some();
        let has_dir = im.gps_img_direction.is_some();
        if has_loc {
            with_gps = with_gps + 1;
            with_loc.push(im.duplicate());
        }
        if has_dir {
            with_dir = with_dir + 1;
        }
        i = i + 1;
        proof {
            let pre = images@.take(i as int);
            assert(pre.drop_last() =~= images@.take(i - 1));
            assert(pre.last() == images@[i - 1]);
        }
    }
    proof {
        assert(images@.take(n as int) =~= images@);
        lemma_counts(images@);
        lemma_with_gps_wf(images@);
    }
    let mut stats = ProcessingStats::default();
    stats.total_images = n;
    stats.images_with_gps = with_gps;
    stats.images_with_direction = with_dir;
    if with_loc.len() == 0 {
        stats.images_without_gps = n;
        stats.errors.push(String::from_str("Nenhuma imagem com dados GPS encontrada."));
        return (stats, Vec::new());
    }
    stats.images_without_gps = n - with_gps;
    let mut predios = cluster_predios(&with_loc, threshold_meters);
    let ghost wl = with_loc@;
    let ghost groups = spec_groups_upto(spec_locs_of(wl), threshold_meters as int * 1000, wl.len());
    let m = predios.len();
    let mut p: usize = 0;
    while p < m
        invariant
            m == predios@.len(),
            p <= m,
            predios@.len() == groups.len(),
            forall|q: int| p <= q < groups.len()
                ==> predio_matches_group(#[trigger] predios@[q], wl, groups[q], q),
            forall|q: int| 0 <= q < p
                ==> predio_final_matches(#[trigger] predios@[q], wl, groups[q], q),
        decreases m - p,
    {
        let ghost predios0 = predios@;
        let mut pr = predios.remove(p);
        proof {
            assert(predio_matches_group(predios0[p as int], wl, groups[p as int], p as int));
        }
        let fs = classify_fachadas(&pr.todas_imagens_no_predio);
        pr.fachadas = fs;
        let ghost pr_g = pr;
        predios.insert(p, pr);
        p = p + 1;
        proof {
            assert(predios@ =~= predios0.update(p - 1, pr_g));
            assert(predio_final_matches(pr_g, wl, groups[p - 1], p - 1));
            assert forall|q: int| 0 <= q < p
                implies predio_final_matches(#[trigger] predios@[q], wl, groups[q], q) by {
                if q < p - 1 {
                    assert(predios@[q] == predios0[q]);
                }
            }
            assert forall|q: int| p <= q < groups.len()
                implies predio_matches_group(#[trigger] predios@[q], wl, groups[q], q) by {
                assert(predios@[q] == predios0[q]);
            }
        }
    }
    stats.predio_groups = predios.len();
    (stats, predios)
}

} // verus!
