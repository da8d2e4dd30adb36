//! Tallying of crack-detection results: classification names are
//! compared case-insensitively (ASCII and Latin-1 letters), and the
//! building a result belongs to is read from its path. Paths are
//! modeled as `/`-separated text.

use vstd::prelude::*;
use crate::sanitize::push_char;

verus! {

/// One detection result reduced to plain values: the image's path and
/// the classification names found in it.
#[derive(Debug)]
pub struct DetectionRecord {
    /// Path of the image, as the detection step reports it.
    pub path: String,
    /// Classification names of the cracks found in the image.
    pub fissura_names: Vec<String>,
}

/// Whether c equals the lowercase letter t directly or as its ASCII or
/// Latin-1 uppercase counterpart.
pub open spec fn spec_char_matches_ci(c: char, t: char) -> bool {
    c == t || c as u32 + 32 == t as u32
}

/// Whether the name matches the lowercase target, character by
/// character, folding ASCII and Latin-1 case.
pub open spec fn spec_name_matches(name: Seq<char>, target: Seq<char>) -> bool {
    name.len() == target.len()
        && forall|i: int| 0 <= i < name.len() ==> spec_char_matches_ci(#[trigger] name[i], target[i])
}

/// Compares a classification name against a lowercase target, folding
/// ASCII and Latin-1 case.
pub fn name_matches(name: &str, target: &str) -> (r: bool)
    ensures
        r == spec_name_matches(name@, target@),
{
    let n = name.unicode_len();
    let m = target.unicode_len();
    if n != m {
        return false;
    }
    let mut i: usize = 0;
    while i < n
        invariant
            i <= n,
            n == name@.len(),
            n == target@.len(),
            forall|k: int| 0 <= k < i ==> spec_char_matches_ci(#[trigger] name@[k], target@[k]),
        decreases n - i,
    {
        let c = name.get_char(i);
        let t = target.get_char(i);
        if !(c == t || (c as u32) + 32 == t as u32) {
            return false;
        }
        i = i + 1;
    }
    true
}

/// Whether a classification name reads `termica`, case folded.
pub open spec fn spec_is_termica(name: Seq<char>) -> bool {
    spec_name_matches(name, "termica"@)
}

/// Whether a classification name reads `retracao` or `retraçao`, case
/// folded.
pub open spec fn spec_is_retracao(name: Seq<char>) -> bool {
    spec_name_matches(name, "retracao"@) || spec_name_matches(name, "retraçao"@)
}

/// Thermal cracks among a list of classification names.
pub open spec fn spec_count_termica_names(names: Seq<String>) -> int
    decreases names.len(),
{
    if names.len() == 0 {
        0
    } else {
        spec_count_termica_names(names.drop_last())
            + if spec_is_termica(names.last()@) { 1int } else { 0int }
    }
}

/// Shrinkage cracks among a list of classification names.
pub open spec fn spec_count_retracao_names(names: Seq<String>) -> int
    decreases names.len(),
{
    if names.len() == 0 {
        0
    } else {
        spec_count_retracao_names(names.drop_last())
            + if spec_is_retracao(names.last()@) { 1int } else { 0int }
    }
}

/// Counts the thermal and shrinkage classifications in one result.
pub fn count_fissura_kinds_in(names: &Vec<String>) -> (r: (u64, u64))
    ensures
        r.0 as int == spec_count_termica_names(names@),
        r.1 as int == spec_count_retracao_names(names@),
{
    let n = names.len();
    let mut t: u64 = 0;
    let mut c: u64 = 0;
    let mut i: usize = 0;
    while i < n
        invariant
            i <= n,
            n == names@.len(),
            t as int == spec_count_termica_names(names@.take(i as int)),
            c as int == spec_count_retracao_names(names@.take(i as int)),
            t <= i,
            c <= i,
        decreases n - i,
    {
        let name = &names[i];
        if name_matches(name.as_str(), "termica") {
            t = t + 1;
        }
        let is_r = if name_matches(name.as_str(), "retracao") {
            true
        } else {
            name_matches(name.as_str(), "retraçao")
        };
        if is_r {
            c = c + 1;
        }
        i = i + 1;
        proof {
            let pre = names@.take(i as int);
            assert(pre.drop_last() =~= names@.take(i - 1));
            assert(pre.last() == names@[i - 1]);
        }
    }
    proof {
        assert(names@.take(n as int) =~= names@);
    }
    (t, c)
}

/// Thermal cracks over all results.
pub open spec fn spec_count_termica(records: Seq<DetectionRecord>) -> int
    decreases records.len(),
{
    if records.len() == 0 {
        0
    } else {
        spec_count_termica(records.drop_last())
            + spec_count_termica_names(records.last().fissura_names@)
    }
}

/// Shrinkage cracks over all results.
pub open spec fn spec_count_retracao(records: Seq<DetectionRecord>) -> int
    decreases records.len(),
{
    if records.len() == 0 {
        0
    } else {
        spec_count_retracao(records.drop_last())
            + spec_count_retracao_names(records.last().fissura_names@)
    }
}

/// Counts the thermal and shrinkage classifications over all results.
pub fn count_fissura_kinds(records: &Vec<DetectionRecord>) -> (r: (u128, u128))
    ensures
        r.0 as int == spec_count_termica(records@),
        r.1 as int == spec_count_retracao(records@),
{
    let n = records.len();
    let mut t: u128 = 0;
    let mut c: u128 = 0;
    let mut i: usize = 0;
    while i < n
        invariant
            i <= n,
            n == records@.len(),
            t as int == spec_count_termica(records@.take(i as int)),
            c as int == spec_count_retracao(records@.take(i as int)),
            t as int <= (i as int) * 0x1_0000_0000_0000_0000,
            c as int <= (i as int) * 0x1_0000_0000_0000_0000,
        decreases n - i,
    {
        let (dt, dc) = count_fissura_kinds_in(&records[i].fissura_names);
        t = t + dt as u128;
        c = c + dc as u128;
        i = i + 1;
        proof {
            let pre = records@.take(i as int);
            assert(pre.drop_last() =~= records@.take(i - 1));
            assert(pre.last() == records@[i - 1]);
        }
    }
    proof {
        assert(records@.take(n as int) =~= records@);
    }
    (t, c)
}

/// The last index of a separator strictly below e, or -1.
pub open spec fn spec_prev_slash(s: Seq<char>, e: int) -> int
    decreases e + 1
        when e <= s.len()
{
    if e <= 0 {
        -1
    } else if s[e - 1] == '/' {
        e - 1
    } else {
        spec_prev_slash(s, e - 1)
    }
}

/// The building segment of a detection path: the name two directory
/// levels above the file, as in `.../building/facade/image`.
pub open spec fn spec_building_name(s: Seq<char>) -> Option<Seq<char>> {
    let p_last = spec_prev_slash(s, s.len() as int);
    if p_last < 0 {
        Option::None
    } else {
        let p1 = spec_prev_slash(s, p_last);
        if p1 < 0 {
            Option::None
        } else {
            let p2 = spec_prev_slash(s, p1);
            Option::Some(s.subrange(p2 + 1, p1))
        }
    }
}

/// Finds the last separator strictly below e.
fn prev_slash(path: &str, e: usize) -> (r: Option<usize>)
    requires
        e <= path@.len(),
    ensures
        match r {
            Option::Some(p) => p as int == spec_prev_slash(path@, e as int) && p < e,
            Option::None => spec_prev_slash(path@, e as int) == -1,
        },
{
    let mut j = e;
    while j > 0
        invariant
            j <= e <= path@.len(),
            spec_prev_slash(path@, e as int) == spec_prev_slash(path@, j as int),
        decreases j,
    {
        if path.get_char(j - 1) == '/' {
            return Some(j - 1);
        }
        j = j - 1;
    }
    None
}

/// Reads the building name out of a detection path.
pub fn extract_building_name_from_path(path: &str) -> (r: Option<String>)
    ensures
        match spec_building_name(path@) {
            Option::Some(b) => r is Some && r->0@ == b,
            Option::None => r is None,
        },
{
    let n = path.unicode_len();
    let p_last = match prev_slash(path, n) {
        Option::Some(p) => p,
        Option::None => {
            return None;
        },
    };
    let p1 = match prev_slash(path, p_last) {
        Option::Some(p) => p,
        Option::None => {
            return None;
        },
    };
    let start: usize = match prev_slash(path, p1) {
        Option::Some(p) => p + 1,
        Option::None => 0,
    };
    let mut out = String::new();
    let mut k = start;
    while k < p1
        invariant
            start <= k <= p1,
            p1 < path@.len(),
            out@ =~= path@.subrange(start as int, k as int),
        decreases p1 - k,
    {
        push_char(&mut out, path.get_char(k));
        k = k + 1;
        proof {
            assert(out@ =~= path@.subrange(start as int, k as int));
        }
    }
    proof {
        assert(out@ =~= path@.subrange(start as int, p1 as int));
    }
    Some(out)
}

} // verus!
