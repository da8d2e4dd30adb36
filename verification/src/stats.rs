//! Processing statistics and the error log that the pipeline
//! accumulates. Counters only ever grow; filesystem failures are
//! recorded as human-readable entries and never abort a run.

use vstd::prelude::*;

verus! {

/// Aggregate counters and error log of one pipeline run.
#[derive(Debug)]
pub struct ProcessingStats {
    /// Number of image files considered.
    pub total_images: usize,
    /// Number of images with a usable location.
    pub images_with_gps: usize,
    /// Number of images without a usable location.
    pub images_without_gps: usize,
    /// Number of images with a compass heading.
    pub images_with_direction: usize,
    /// Number of buildings the clusterer produced.
    pub predio_groups: usize,
    /// Non-fatal failures, in the order they occurred.
    pub errors: Vec<String>,
}

impl ProcessingStats {
    /// The counters tally: every image either has GPS data or has not.
    pub open spec fn consistent(self) -> bool {
        self.total_images == self.images_with_gps + self.images_without_gps
    }
}

impl Default for ProcessingStats {
    /// All counters zero and no errors.
    fn default() -> (r: Self)
        ensures
            r.total_images == 0,
            r.images_with_gps == 0,
            r.images_without_gps == 0,
            r.images_with_direction == 0,
            r.predio_groups == 0,
            r.errors@.len() == 0,
    {
        ProcessingStats {
            total_images: 0,
            images_with_gps: 0,
            images_without_gps: 0,
            images_with_direction: 0,
            predio_groups: 0,
            errors: Vec::new(),
        }
    }
}

/// Concatenation of a prefix, a subject, a separator and a detail.
fn build_msg(prefix: &str, a: &str, mid: &str, b: &str) -> (r: String)
    ensures
        r@ == prefix@ + a@ + mid@ + b@,
{
    let mut s = String::from_str(prefix);
    s.append(a);
    s.append(mid);
    s.append(b);
    proof {
        assert(s@ =~= prefix@ + a@ + mid@ + b@);
    }
    s
}

/// Everything but the error log is unchanged.
pub open spec fn counters_unchanged(pre: ProcessingStats, post: ProcessingStats) -> bool {
    &&& post.total_images == pre.total_images
    &&& post.images_with_gps == pre.images_with_gps
    &&& post.images_without_gps == pre.images_without_gps
    &&& post.images_with_direction == pre.images_with_direction
    &&& post.predio_groups == pre.predio_groups
}

/// One entry was appended to the error log and nothing else changed.
pub open spec fn error_appended(pre: ProcessingStats, post: ProcessingStats, msg: Seq<char>) -> bool {
    &&& counters_unchanged(pre, post)
    &&& post.errors@.len() == pre.errors@.len() + 1
    &&& post.errors@.drop_last() == pre.errors@
    &&& post.errors@.last()@ == msg
}

/// The message recorded when a building's directory cannot be created.
pub open spec fn spec_msg_predio_dir(dir: Seq<char>, err: Seq<char>) -> Seq<char> {
    "Erro ao criar pasta do prédio "@ + dir + ": "@ + err
}

/// Records a failure to create a building's directory; that building's
/// images are skipped by the caller and processing continues.
pub fn record_predio_dir_error(stats: &mut ProcessingStats, dir: &str, err: &str)
    ensures
        error_appended(*old(stats), *final(stats), spec_msg_predio_dir(dir@, err@)),
{
    let msg = build_msg("Erro ao criar pasta do prédio ", dir, ": ", err);
    let ghost pre = stats.errors@;
    stats.errors.push(msg);
    proof {
        assert(stats.errors@.drop_last() =~= pre);
    }
}

/// The message recorded when a facade directory cannot be created.
pub open spec fn spec_msg_fachada_dir(dir: Seq<char>, err: Seq<char>) -> Seq<char> {
    "Erro ao criar diretório "@ + dir + ": "@ + err
}

/// Records a failure to create a facade directory; that image is
/// skipped by the caller and processing continues.
pub fn record_fachada_dir_error(stats: &mut ProcessingStats, dir: &str, err: &str)
    ensures
        error_appended(*old(stats), *final(stats), spec_msg_fachada_dir(dir@, err@)),
{
    let msg = build_msg("Erro ao criar diretório ", dir, ": ", err);
    let ghost pre = stats.errors@;
    stats.errors.push(msg);
    proof {
        assert(stats.errors@.drop_last() =~= pre);
    }
}

/// The message recorded when a copy fails.
pub open spec fn spec_msg_copy(src: Seq<char>, dst: Seq<char>, err: Seq<char>) -> Seq<char> {
    "Falha ao copiar "@ + src + " para "@ + dst + ": "@ + err
}

/// Records a failed copy; the original file is left in place and
/// processing continues.
pub fn record_copy_error(stats: &mut ProcessingStats, src: &str, dst: &str, err: &str)
    ensures
        error_appended(*old(stats), *final(stats), spec_msg_copy(src@, dst@, err@)),
{
    let mut msg = build_msg("Falha ao copiar ", src, " para ", dst);
    msg.append(": ");
    msg.append(err);
    let ghost pre = stats.errors@;
    proof {
        assert(msg@ =~= spec_msg_copy(src@, dst@, err@));
    }
    stats.errors.push(msg);
    proof {
        assert(stats.errors@.drop_last() =~= pre);
    }
}

/// The message recorded when, after a successful copy, the original
/// file cannot be removed.
pub open spec fn spec_msg_remove(src: Seq<char>, err: Seq<char>) -> Seq<char> {
    "Falha ao apagar arquivo original "@ + src + ": "@ + err
}

/// Records a failed removal after a successful copy: the duplicate
/// remains at the source and processing continues.
pub fn record_remove_error(stats: &mut ProcessingStats, src: &str, err: &str)
    ensures
        error_appended(*old(stats), *final(stats), spec_msg_remove(src@, err@)),
{
    let msg = build_msg("Falha ao apagar arquivo original ", src, ": ", err);
    let ghost pre = stats.errors@;
    stats.errors.push(msg);
    proof {
        assert(stats.errors@.drop_last() =~= pre);
    }
}

} // verus!
