//! Greedy clustering of geotagged images into buildings.
//!
//! Images are scanned in discovery order; each joins the first existing
//! building whose running centroid lies within the distance threshold,
//! otherwise it seeds a new building. After every insertion the
//! building's centroid is recomputed as the arithmetic mean of all its
//! members' coordinates.

use vstd::prelude::*;
use crate::geo::{Location, spec_haversine_mm, haversine_distance, MAX_LAT_UDEG, MAX_LON_UDEG};
use crate::sanitize::{push_u64_decimal, spec_decimal_digits};

verus! {

/// Metadata extracted from one image file. The heading is in
/// millidegrees clockwise from true north.
#[derive(Debug)]
pub struct ImageMetadata {
    /// Full path of the image file.
    pub path: String,
    /// Base name of the image file.
    pub file_name: String,
    /// Geographic position, when one was found.
    pub location: Option<Location>,
    /// Compass heading in millidegrees, when one was found.
    pub gps_img_direction: Option<i64>,
}

impl ImageMetadata {
    /// An exact copy of the metadata.
    pub fn duplicate(&self) -> (r: ImageMetadata)
        ensures
            r == *self,
    {
        ImageMetadata {
            path: self.path.clone(),
            file_name: self.file_name.clone(),
            location: self.location,
            gps_img_direction: self.gps_img_direction,
        }
    }
}

/// One compass-facing side of a building and the images assigned to it.
#[derive(Debug)]
pub struct Fachada {
    /// One of Norte, Sul, Leste, Oeste, Indefinida.
    pub nome: String,
    /// The images assigned to this facade, in assignment order.
    pub imagens: Vec<ImageMetadata>,
}

/// A building produced by the clusterer.
#[derive(Debug)]
pub struct Predio {
    /// Sequential identifier, `Predio-{n}` with n the creation order.
    pub id: String,
    /// Arithmetic mean of the members' coordinates.
    pub centroide: Location,
    /// The members grouped by facade, in order of first appearance.
    pub fachadas: Vec<Fachada>,
    /// All member images, in assignment order.
    pub todas_imagens_no_predio: Vec<ImageMetadata>,
}

/// Truncating division, the semantics of integer division on machine
/// integers, for a positive divisor.
pub open spec fn spec_div_trunc(a: int, b: int) -> int {
    if a >= 0 { a / b } else { -((-a) / b) }
}

/// Sum of the latitudes of a list of locations.
pub open spec fn spec_sum_lat(ls: Seq<Location>) -> int
    decreases ls.len(),
{
    if ls.len() == 0 { 0 } else { spec_sum_lat(ls.drop_last()) + ls.last().latitude }
}

/// Sum of the longitudes of a list of locations.
pub open spec fn spec_sum_lon(ls: Seq<Location>) -> int
    decreases ls.len(),
{
    if ls.len() == 0 { 0 } else { spec_sum_lon(ls.drop_last()) + ls.last().longitude }
}

/// The arithmetic mean of a nonempty list of locations, with
/// truncating division on each coordinate.
pub open spec fn spec_centroid(ls: Seq<Location>) -> Location {
    Location {
        latitude: spec_div_trunc(spec_sum_lat(ls), ls.len() as int) as i64,
        longitude: spec_div_trunc(spec_sum_lon(ls), ls.len() as int) as i64,
    }
}

proof fn lemma_sum_bounds(ls: Seq<Location>)
    requires
        forall|i: int| 0 <= i < ls.len() ==> (#[trigger] ls[i]).wf(),
    ensures
        -(ls.len() as int) * (MAX_LAT_UDEG as int) <= spec_sum_lat(ls)
            <= (ls.len() as int) * (MAX_LAT_UDEG as int),
        -(ls.len() as int) * (MAX_LON_UDEG as int) <= spec_sum_lon(ls)
            <= (ls.len() as int) * (MAX_LON_UDEG as int),
    decreases ls.len(),
{
    if ls.len() > 0 {
        lemma_sum_bounds(ls.drop_last());
    }
}

/// The centroid of well-formed locations is well formed, and its spec
/// coordinates fit in the i64 fields without truncation.
pub proof fn lemma_centroid_wf(ls: Seq<Location>)
    requires
        ls.len() > 0,
        forall|i: int| 0 <= i < ls.len() ==> (#[trigger] ls[i]).wf(),
    ensures
        spec_centroid(ls).wf(),
        spec_centroid(ls).latitude == spec_div_trunc(spec_sum_lat(ls), ls.len() as int),
        spec_centroid(ls).longitude == spec_div_trunc(spec_sum_lon(ls), ls.len() as int),
{
    lemma_sum_bounds(ls);
    let n = ls.len() as int;
    let sa = spec_sum_lat(ls);
    let so = spec_sum_lon(ls);
    assert(-90000000 <= spec_div_trunc(sa, n) <= 90000000) by (nonlinear_arith)
        requires n >= 1, -n * 90000000 <= sa <= n * 90000000;
    assert(-180000000 <= spec_div_trunc(so, n) <= 180000000) by (nonlinear_arith)
        requires n >= 1, -n * 180000000 <= so <= n * 180000000;
}

/// Truncating division of a possibly negative sum by a positive count.
fn div_trunc_i128(a: i128, b: u128) -> (r: i128)
    requires
        1 <= b <= 0xFFFF_FFFF_FFFF_FFFF,
        a > -0x8000_0000_0000_0000_0000_0000_0000_0000i128,
    ensures
        r as int == spec_div_trunc(a as int, b as int),
{
    if a >= 0 {
        let q = (a as u128) / b;
        proof {
            assert((a as u128) as int / (b as int) <= (a as u128) as int) by (nonlinear_arith)
                requires b >= 1;
        }
        q as i128
    } else {
        let m: i128 = -a;
        let q = (m as u128) / b;
        proof {
            assert((m as u128) as int / (b as int) <= (m as u128) as int) by (nonlinear_arith)
                requires b >= 1;
        }
        -(q as i128)
    }
}

/// The arithmetic mean of the given locations, or `None` for an empty
/// list.
pub fn calculate_centroid(locations: &Vec<Location>) -> (r: Option<Location>)
    requires
        forall|i: int| 0 <= i < locations@.len() ==> (#[trigger] locations@[i]).wf(),
    ensures
        r is Some <==> locations@.len() > 0,
        r is Some ==> r->0 == spec_centroid(locations@) && r->0.wf(),
{
    let n = locations.len();
    if n == 0 {
        return None;
    }
    let mut sum_lat: i128 = 0;
    let mut sum_lon: i128 = 0;
    let mut i: usize = 0;
    while i < n
        invariant
            n == locations@.len(),
            i <= n,
            forall|k: int| 0 <= k < locations@.len() ==> (#[trigger] locations@[k]).wf(),
            sum_lat as int == spec_sum_lat(locations@.take(i as int)),
            sum_lon as int == spec_sum_lon(locations@.take(i as int)),
            -(i as int) * 90000000 <= sum_lat as int <= (i as int) * 90000000,
            -(i as int) * 180000000 <= sum_lon as int <= (i as int) * 180000000,
        decreases n - i,
    {
        sum_lat = sum_lat + locations[i].latitude as i128;
        sum_lon = sum_lon + locations[i].longitude as i128;
        i = i + 1;
        proof {
            let pre = locations@.take(i as int);
            assert(pre.drop_last() =~= locations@.take(i - 1));
            assert(pre.last() == locations@[i - 1]);
        }
    }
    proof {
        assert(locations@.take(n as int) =~= locations@);
        lemma_centroid_wf(locations@);
    }
    let lat = div_trunc_i128(sum_lat, n as u128);
    let lon = div_trunc_i128(sum_lon, n as u128);
    Some(Location { latitude: lat as i64, longitude: lon as i64 })
}

/// The building identifier for 1-based creation index n.
pub open spec fn spec_predio_id(n: nat) -> Seq<char> {
    "Predio-"@ + spec_decimal_digits(n)
}

/// Renders `Predio-{n}`.
pub fn predio_id(n: u64) -> (r: String)
    ensures
        r@ == spec_predio_id(n as nat),
{
    let mut s = String::from_str("Predio-");
    push_u64_decimal(&mut s, n);
    s
}

/// The locations of a group of member indices.
pub open spec fn spec_group_locs(locs: Seq<Location>, g: Seq<int>) -> Seq<Location> {
    g.map_values(|idx: int| locs[idx])
}

/// The locations of a list of images, all of which carry one.
pub open spec fn spec_locs_of(images: Seq<ImageMetadata>) -> Seq<Location> {
    images.map_values(|im: ImageMetadata| im.location->0)
}

/// Index of the first group whose centroid lies within the threshold of
/// `target`, scanning from `from`.
pub open spec fn spec_first_fit_from(
    target: Location,
    locs: Seq<Location>,
    groups: Seq<Seq<int>>,
    thr_mm: int,
    from: nat,
) -> Option<int>
    decreases groups.len() - from,
{
    if from >= groups.len() {
        Option::None
    } else if spec_haversine_mm(target, spec_centroid(spec_group_locs(locs, groups[from as int])))
        <= thr_mm {
        Option::Some(from as int)
    } else {
        spec_first_fit_from(target, locs, groups, thr_mm, from + 1)
    }
}

/// The grouping after the first n images have been assigned: each image
/// joins the first group within threshold of its current centroid, or
/// opens a new group.
pub open spec fn spec_groups_upto(locs: Seq<Location>, thr_mm: int, n: nat) -> Seq<Seq<int>>
    decreases n,
{
    if n == 0 {
        Seq::empty()
    } else {
        let prev = spec_groups_upto(locs, thr_mm, (n - 1) as nat);
        let i = n - 1;
        match spec_first_fit_from(locs[i as int], locs, prev, thr_mm, 0) {
            Option::Some(g) => prev.update(g, prev[g].push(i as int)),
            Option::None => prev.push(seq![i as int]),
        }
    }
}

/// How one building reflects one group of the index model: the members
/// are exactly the images at the group's indices, the centroid is their
/// mean, the id is the creation-order name, and the facades are not yet
/// filled.
pub open spec fn predio_matches_group(
    pr: Predio,
    images: Seq<ImageMetadata>,
    g: Seq<int>,
    p: int,
) -> bool {
    &&& pr.todas_imagens_no_predio@.len() == g.len()
    &&& forall|j: int| 0 <= j < g.len()
        ==> 0 <= #[trigger] g[j] < images.len()
            && pr.todas_imagens_no_predio@[j] == images[g[j]]
    &&& pr.centroide == spec_centroid(spec_group_locs(spec_locs_of(images), g))
    &&& pr.centroide.wf()
    &&& pr.id@ == spec_predio_id((p + 1) as nat)
    &&& pr.fachadas@.len() == 0
}

/// How a list of buildings reflects the whole index model.
pub open spec fn predios_match_groups(
    predios: Seq<Predio>,
    images: Seq<ImageMetadata>,
    groups: Seq<Seq<int>>,
) -> bool {
    &&& predios.len() == groups.len()
    &&& forall|p: int| 0 <= p < groups.len()
        ==> predio_matches_group(#[trigger] predios[p], images, groups[p], p)
}

proof fn lemma_first_fit_advance(
    target: Location,
    locs: Seq<Location>,
    groups: Seq<Seq<int>>,
    thr_mm: int,
    j: nat,
)
    requires
        j <= groups.len(),
        forall|g: int| 0 <= g < j
            ==> spec_haversine_mm(target, spec_centroid(spec_group_locs(locs, #[trigger] groups[g])))
                > thr_mm,
    ensures
        spec_first_fit_from(target, locs, groups, thr_mm, 0)
            == spec_first_fit_from(target, locs, groups, thr_mm, j),
    decreases j,
{
    if j > 0 {
        lemma_first_fit_advance(target, locs, groups, thr_mm, (j - 1) as nat);
    }
}

/// Scans the buildings in order and returns the first whose centroid
/// lies within `thr_mm` millimeters of `loc`.
fn find_first_fit(
    predios: &Vec<Predio>,
    loc: &Location,
    thr_mm: u128,
    Ghost(images): Ghost<Seq<ImageMetadata>>,
    Ghost(prev): Ghost<Seq<Seq<int>>>,
) -> (r: Option<usize>)
    requires
        loc.wf(),
        thr_mm <= 0xFFFF_FFFF_FFFF_FFFF_FFFF,
        predios_match_groups(predios@, images, prev),
    ensures
        match r {
            Option::Some(g) => 0 <= g < predios@.len()
                && spec_first_fit_from(*loc, spec_locs_of(images), prev, thr_mm as int, 0)
                    == Option::Some(g as int),
            Option::None => spec_first_fit_from(*loc, spec_locs_of(images), prev, thr_mm as int, 0)
                is None,
        },
{
    let ghost locs = spec_locs_of(images);
    let mut j: usize = 0;
    while j < predios.len()
        invariant
            loc.wf(),
            predios_match_groups(predios@, images, prev),
            j <= predios@.len(),
            forall|g: int| 0 <= g < j
                ==> spec_haversine_mm(*loc, spec_centroid(spec_group_locs(locs, #[trigger] prev[g])))
                    > thr_mm as int,
            locs == spec_locs_of(images),
        decreases predios@.len() - j,
    {
        proof {
            assert(predio_matches_group(predios@[j as int], images, prev[j as int], j as int));
        }
        let d = haversine_distance(loc, &predios[j].centroide);
        if d as u128 <= thr_mm {
            proof {
                lemma_first_fit_advance(*loc, locs, prev, thr_mm as int, j as nat);
            }
            return Some(j);
        }
        j = j + 1;
    }
    proof {
        lemma_first_fit_advance(*loc, locs, prev, thr_mm as int, predios@.len() as nat);
    }
    None
}

/// Groups the images into buildings: first-fit against the running
/// centroids with the threshold in meters, in input order. Every input
/// image must carry a valid location. The result stands in the exact
/// relation `predios_match_groups` to the index model of the greedy
/// pass, which pins the assignment, the centroids and the ids.
pub fn cluster_predios(images: &Vec<ImageMetadata>, threshold_meters: u64) -> (predios: Vec<Predio>)
    requires
        forall|i: int| 0 <= i < images@.len()
            ==> (#[trigger] images@[i]).location is Some && images@[i].location->0.wf(),
    ensures
        predios_match_groups(
            predios@,
            images@,
            spec_groups_upto(spec_locs_of(images@), threshold_meters as int * 1000, images@.len()),
        ),
        predios@.len() <= images@.len(),
{
    let ghost locs = spec_locs_of(images@);
    let ghost thr: int = threshold_meters as int * 1000;
    let thr_mm: u128 = threshold_meters as u128 * 1000;
    let n = images.len();
    let mut predios: Vec<Predio> = Vec::new();
    let mut i: usize = 0;
    while i < n
        invariant
            n == images@.len(),
            i <= n,
            locs == spec_locs_of(images@),
            thr == threshold_meters as int * 1000,
            thr_mm as int == thr,
            thr_mm <= 0xFFFF_FFFF_FFFF_FFFF_FFFF,
            forall|k: int| 0 <= k < images@.len()
                ==> (#[trigger] images@[k]).location is Some && images@[k].location->0.wf(),
            predios_match_groups(predios@, images@, spec_groups_upto(locs, thr, i as nat)),
            predios@.len() <= i,
        decreases n - i,
    {
        let ghost prev = spec_groups_upto(locs, thr, i as nat);
        let im = images[i].duplicate();
        let loc = match im.location {
            Option::Some(l) => l,
            Option::None => { unreached() },
        };
        proof {
            assert(loc == locs[i as int]);
        }
        let fit = find_first_fit(&predios, &loc, thr_mm, Ghost(images@), Ghost(prev));
        match fit {
            Option::Some(g) => {
                let ghost predios0 = predios@;
                let mut pr = predios.remove(g);
                pr.todas_imagens_no_predio.push(im);
                let ghost newg = prev[g as int].push(i as int);
                proof {
                    assert(predio_matches_group(predios0[g as int], images@, prev[g as int], g as int));
                    assert(forall|jj: int| 0 <= jj < newg.len()
                        ==> 0 <= #[trigger] newg[jj] < images@.len()
                            && pr.todas_imagens_no_predio@[jj] == images@[newg[jj]]);
                }
                let mut member_locs: Vec<Location> = Vec::new();
                let mut t: usize = 0;
                while t < pr.todas_imagens_no_predio.len()
                    invariant
                        t <= pr.todas_imagens_no_predio@.len(),
                        member_locs@.len() == t,
                        forall|k: int| 0 <= k < images@.len()
                            ==> (#[trigger] images@[k]).location is Some
                                && images@[k].location->0.wf(),
                        forall|jj: int| 0 <= jj < pr.todas_imagens_no_predio@.len()
                            ==> 0 <= #[trigger] newg[jj] < images@.len()
                                && pr.todas_imagens_no_predio@[jj] == images@[newg[jj]],
                        newg.len() == pr.todas_imagens_no_predio@.len(),
                        forall|k: int| 0 <= k < t
                            ==> #[trigger] member_locs@[k]
                                == pr.todas_imagens_no_predio@[k].location->0,
                    decreases pr.todas_imagens_no_predio@.len() - t,
                {
                    proof {
                        assert(0 <= newg[t as int] < images@.len());
                        assert(pr.todas_imagens_no_predio@[t as int] == images@[newg[t as int]]);
                        assert(pr.todas_imagens_no_predio@[t as int].location is Some);
                    }
                    let l = match &pr.todas_imagens_no_predio[t].location {
                        Option::Some(l) => *l,
                        Option::None => { unreached() },
                    };
                    let ghost ml0 = member_locs@;
                    member_locs.push(l);
                    t = t + 1;
                    proof {
                        assert(member_locs@ == ml0.push(l));
                        assert forall|k: int| 0 <= k < t
                            implies #[trigger] member_locs@[k]
                                == pr.todas_imagens_no_predio@[k].location->0 by {
                            if k < t - 1 {
                                assert(member_locs@[k] == ml0[k]);
                            }
                        }
                    }
                }
                proof {
                    assert(member_locs@ =~= spec_group_locs(locs, newg));
                    assert(forall|k: int| 0 <= k < member_locs@.len()
                        ==> (#[trigger] member_locs@[k]).wf());
                }
                let c = match calculate_centroid(&member_locs) {
                    Option::Some(c) => c,
                    Option::None => { unreached() },
                };
                pr.centroide = c;
                let ghost pr_g = pr;
                predios.insert(g, pr);
                i = i + 1;
                proof {
                    let cur = spec_groups_upto(locs, thr, i as nat);
                    assert(cur == prev.update(g as int, newg));
                    assert(predios@ =~= predios0.update(g as int, pr_g));
                    assert forall|p: int| 0 <= p < cur.len()
                        implies predio_matches_group(#[trigger] predios@[p], images@, cur[p], p) by {
                        if p != g as int {
                            assert(predios@[p] == predios0[p]);
                            assert(predio_matches_group(predios0[p], images@, prev[p], p));
                        }
                    }
                }
            },
            Option::None => {
                let count = predios.len() as u64;
                let id = predio_id(count + 1);
                let pr = Predio {
                    id,
                    centroide: loc,
                    fachadas: Vec::new(),
                    todas_imagens_no_predio: vec![im],
                };
                let ghost pr_g = pr;
                predios.push(pr);
                i = i + 1;
                proof {
                    let cur = spec_groups_upto(locs, thr, i as nat);
                    let newg = seq![(i - 1) as int];
                    assert(cur == prev.push(newg));
                    let ls = spec_group_locs(locs, newg);
                    assert(ls =~= seq![locs[(i - 1) as int]]);
                    assert(ls.len() == 1);
                    assert(ls.last() == loc);
                    assert(ls.drop_last() =~= Seq::<Location>::empty());
                    assert(spec_sum_lat(Seq::<Location>::empty()) == 0);
                    assert(spec_sum_lon(Seq::<Location>::empty()) == 0);
                    assert(spec_sum_lat(ls) == loc.latitude as int);
                    assert(spec_sum_lon(ls) == loc.longitude as int);
                    assert(spec_centroid(ls) == loc);
                    assert(pr_g.todas_imagens_no_predio@ =~= seq![images@[(i - 1) as int]]);
                    assert forall|p: int| 0 <= p < cur.len()
                        implies predio_matches_group(#[trigger] predios@[p], images@, cur[p], p) by {
                        if p < cur.len() - 1 {
                            assert(predio_matches_group(predios@[p], images@, prev[p], p));
                        }
                    }
                }
            },
        }
    }
    predios
}

/// After clustering, every building's centroid is the arithmetic mean
/// of its member images' coordinates.
pub proof fn lemma_centroid_invariant(
    predios: Seq<Predio>,
    images: Seq<ImageMetadata>,
    groups: Seq<Seq<int>>,
)
    requires
        predios_match_groups(predios, images, groups),
    ensures
        forall|p: int| 0 <= p < predios.len()
            ==> (#[trigger] predios[p]).centroide
                == spec_centroid(spec_group_locs(spec_locs_of(images), groups[p])),
{
    assert forall|p: int| 0 <= p < predios.len()
        implies (#[trigger] predios[p]).centroide
            == spec_centroid(spec_group_locs(spec_locs_of(images), groups[p])) by {
        assert(predio_matches_group(predios[p], images, groups[p], p));
    }
}

/// Re-running the clusterer on the same inputs gives the same building
/// assignments: any two results that stand in the clusterer's
/// postcondition relation to the same images and threshold agree on the
/// number of buildings, on every member of every building, on every
/// centroid and on every identifier.
pub proof fn lemma_cluster_deterministic(
    images: Seq<ImageMetadata>,
    thr_mm: int,
    p1: Seq<Predio>,
    p2: Seq<Predio>,
)
    requires
        predios_match_groups(p1, images, spec_groups_upto(spec_locs_of(images), thr_mm, images.len())),
        predios_match_groups(p2, images, spec_groups_upto(spec_locs_of(images), thr_mm, images.len())),
    ensures
        p1.len() == p2.len(),
        forall|p: int| 0 <= p < p1.len()
            ==> (#[trigger] p1[p]).todas_imagens_no_predio@ == p2[p].todas_imagens_no_predio@
                && p1[p].centroide == p2[p].centroide
                && p1[p].id@ == p2[p].id@,
{
    let groups = spec_groups_upto(spec_locs_of(images), thr_mm, images.len());
    assert forall|p: int| 0 <= p < p1.len()
        implies (#[trigger] p1[p]).todas_imagens_no_predio@ == p2[p].todas_imagens_no_predio@
            && p1[p].centroide == p2[p].centroide
            && p1[p].id@ == p2[p].id@ by {
        assert(predio_matches_group(p1[p], images, groups[p], p));
        assert(predio_matches_group(p2[p], images, groups[p], p));
        let g = groups[p];
        assert forall|j: int| 0 <= j < p1[p].todas_imagens_no_predio@.len()
            implies p1[p].todas_imagens_no_predio@[j] == p2[p].todas_imagens_no_predio@[j] by {
            assert(p1[p].todas_imagens_no_predio@[j] == images[g[j]]);
            assert(p2[p].todas_imagens_no_predio@[j] == images[g[j]]);
        }
        assert(p1[p].todas_imagens_no_predio@ =~= p2[p].todas_imagens_no_predio@);
    }
}

} // verus!
