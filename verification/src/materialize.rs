//! The materialization plan: for each building, the sanitized directory
//! to create and, per image, the sanitized facade subdirectory, the
//! sanitized destination file name and the source path. The filesystem
//! work itself is performed outside the library; failures are recorded
//! through the functions in `stats`, one building or image skipped at a
//! time, and never abort the run.

use vstd::prelude::*;
use crate::cluster::{ImageMetadata, Predio};
use crate::facade::{determinar_fachada_nome, spec_fachada_nome};
use crate::sanitize::{sanitize_filename, spec_sanitize_filename};

verus! {

/// One file to move: copy `src_path` into the facade directory under
/// the building directory, then delete the source only if the copy
/// succeeded.
#[derive(Debug)]
pub struct MoveItem {
    /// Sanitized `fachada-{name}` directory under the building's.
    pub fachada_dir: String,
    /// Sanitized base name of the destination file.
    pub dest_name: String,
    /// Path of the source file.
    pub src_path: String,
}

/// The moves of one building.
#[derive(Debug)]
pub struct PredioPlan {
    /// Sanitized building directory under the images root.
    pub dir_name: String,
    /// One move per member image, in assignment order.
    pub items: Vec<MoveItem>,
}

/// The facade directory name for an image: `fachada-` plus the
/// classified facade name, sanitized.
pub open spec fn spec_fachada_dir_name(im: ImageMetadata) -> Seq<char> {
    spec_sanitize_filename("fachada-"@ + spec_fachada_nome(im.gps_img_direction))
}

/// How one move reflects one image.
pub open spec fn item_matches(it: MoveItem, im: ImageMetadata) -> bool {
    &&& it.fachada_dir@ == spec_fachada_dir_name(im)
    &&& it.dest_name@ == spec_sanitize_filename(im.file_name@)
    &&& it.src_path@ == im.path@
}

/// How one building's plan reflects the building.
pub open spec fn plan_matches(pl: PredioPlan, pr: Predio) -> bool {
    &&& pl.dir_name@ == spec_sanitize_filename(pr.id@)
    &&& pl.items@.len() == pr.todas_imagens_no_predio@.len()
    &&& forall|j: int| 0 <= j < pl.items@.len()
        ==> item_matches(#[trigger] pl.items@[j], pr.todas_imagens_no_predio@[j])
}

/// The move for one image.
fn build_move_item(im: &ImageMetadata) -> (it: MoveItem)
    ensures
        item_matches(it, *im),
{
    let nome = determinar_fachada_nome(im.gps_img_direction);
    let mut fd = String::from_str("fachada-");
    fd.append(nome.as_str());
    let fachada_dir = sanitize_filename(fd.as_str());
    let dest_name = sanitize_filename(im.file_name.as_str());
    let src_path = im.path.clone();
    MoveItem { fachada_dir, dest_name, src_path }
}

/// The full materialization plan for the clustered buildings.
pub fn build_move_plan(predios: &Vec<Predio>) -> (r: Vec<PredioPlan>)
    ensures
        r@.len() == predios@.len(),
        forall|p: int| 0 <= p < predios@.len() ==> plan_matches(#[trigger] r@[p], predios@[p]),
{
    let n = predios.len();
    let mut plans: Vec<PredioPlan> = Vec::new();
    let mut p: usize = 0;
    while p < n
        invariant
            n == predios@.len(),
            p <= n,
            plans@.len() == p,
            forall|q: int| 0 <= q < p ==> plan_matches(#[trigger] plans@[q], predios@[q]),
        decreases n - p,
    {
        let pr = &predios[p];
        let dir_name = sanitize_filename(pr.id.as_str());
        let mut items: Vec<MoveItem> = Vec::new();
        let mut j: usize = 0;
        let k = pr.todas_imagens_no_predio.len();
        while j < k
            invariant
                k == pr.todas_imagens_no_predio@.len(),
                j <= k,
                items@.len() == j,
                forall|t: int| 0 <= t < j
                    ==> item_matches(#[trigger] items@[t], pr.todas_imagens_no_predio@[t]),
            decreases k - j,
        {
            let it = build_move_item(&pr.todas_imagens_no_predio[j]);
            items.push(it);
            j = j + 1;
        }
        plans.push(PredioPlan { dir_name, items });
        p = p + 1;
    }
    plans
}

} // verus!
