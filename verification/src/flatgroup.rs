//! The flat grouping pass over an external metadata dump: the dump is
//! split into per-file sections, coordinates are read from each
//! section, and files are grouped by coordinate-wise proximity to the
//! first member of each group. Groups are named `location_group_{n}`.

use vstd::prelude::*;
use crate::exifdata::spec_location_from_exiftool;
use crate::exiftool::get_gps_from_exiftool_string;
use crate::geo::{are_locations_close, spec_locations_close, Location};
use crate::sanitize::{push_u64_decimal, spec_decimal_digits};
use crate::scan::{match_at, scan_end, spec_match_at, spec_scan_end, spec_trim_end, sub_bytes, trim_end};
use crate::stats::ProcessingStats;

verus! {

/// The bytes of `---`, the section separator.
pub open spec fn tag_dashes() -> Seq<u8> {
    seq![45u8, 45u8, 45u8]
}

fn tag_dashes_vec() -> (r: Vec<u8>)
    ensures
        r@ == tag_dashes(),
{
    let r: Vec<u8> = vec![45u8, 45u8, 45u8];
    proof { assert(r@ =~= tag_dashes()); }
    r
}

/// The bytes of `File Name`.
pub open spec fn tag_file_name() -> Seq<u8> {
    seq![70u8, 105u8, 108u8, 101u8, 32u8, 78u8, 97u8, 109u8, 101u8]
}

fn tag_file_name_vec() -> (r: Vec<u8>)
    ensures
        r@ == tag_file_name(),
{
    let r: Vec<u8> = vec![70u8, 105u8, 108u8, 101u8, 32u8, 78u8, 97u8, 109u8, 101u8];
    proof { assert(r@ =~= tag_file_name()); }
    r
}

/// The file name carried by a `File Name` line: the text after the
/// line's first colon, trimmed; nothing without a colon.
pub open spec fn spec_file_name_value(s: Seq<u8>, i: int, hi: int) -> Option<Seq<u8>> {
    let c = spec_scan_end(s, i, 7);
    if c < hi {
        let vlo = spec_scan_end(s, c + 1, 5);
        let vhi = spec_trim_end(s, hi, c + 1, 5);
        if vlo <= vhi {
            Option::Some(s.subrange(vlo, vhi))
        } else {
            Option::Some(Seq::empty())
        }
    } else {
        Option::None
    }
}

fn file_name_value(s: &Vec<u8>, i: usize, hi: usize) -> (r: Option<Vec<u8>>)
    requires
        i <= s@.len(),
        hi <= s@.len(),
    ensures
        match r {
            Option::Some(v) => spec_file_name_value(s@, i as int, hi as int) == Option::Some(v@),
            Option::None => spec_file_name_value(s@, i as int, hi as int) is None,
        },
{
    let c = scan_end(s, i, 7);
    if c < hi {
        let vlo = scan_end(s, c + 1, 5);
        let vhi = trim_end(s, hi, c + 1, 5);
        if vlo <= vhi {
            Some(sub_bytes(s, vlo, vhi))
        } else {
            let empty: Vec<u8> = Vec::new();
            proof { assert(empty@ =~= Seq::<u8>::empty()); }
            Some(empty)
        }
    } else {
        None
    }
}

/// The per-file sections of a metadata dump, scanned line by line: a
/// `---` line or a blank line closes the open section; a `File Name`
/// line opens one; every line of an open section, the name line
/// included, belongs to its text. Each closed section yields the file
/// name and the coordinates its text gives up.
pub open spec fn spec_sections(
    s: Seq<u8>,
    i: int,
    cur: Option<Seq<u8>>,
    buf: Seq<u8>,
    out: Seq<(Seq<u8>, Option<Location>)>,
) -> Seq<(Seq<u8>, Option<Location>)>
    decreases s.len() - i
        when 0 <= i <= s.len()
{
    if i >= s.len() {
        match cur {
            Option::Some(name) => out.push((name, spec_location_from_exiftool(buf))),
            Option::None => out,
        }
    } else {
        let hi0 = spec_scan_end(s, i, 4);
        let hi = if hi0 < i { i } else { if hi0 > s.len() { s.len() as int } else { hi0 } };
        let next = if hi < s.len() { hi + 1 } else { s.len() as int };
        let blank = spec_scan_end(s, i, 5) >= hi;
        if spec_match_at(s, i, tag_dashes()) || blank {
            let out2 = match cur {
                Option::Some(name) => out.push((name, spec_location_from_exiftool(buf))),
                Option::None => out,
            };
            spec_sections(s, next, Option::None, Seq::empty(), out2)
        } else {
            let cur2 = if spec_match_at(s, i, tag_file_name()) {
                match spec_file_name_value(s, i, hi) {
                    Option::Some(v) => Option::Some(v),
                    Option::None => cur,
                }
            } else {
                cur
            };
            let buf2 = if cur2 is Some {
                buf + s.subrange(i, hi) + seq![10u8]
            } else {
                buf
            };
            spec_sections(s, next, cur2, buf2, out)
        }
    }
}

pub open spec fn opt_view(o: Option<Vec<u8>>) -> Option<Seq<u8>> {
    match o {
        Option::Some(v) => Option::Some(v@),
        Option::None => Option::None,
    }
}

/// The entries as mathematical values.
pub open spec fn entries_model(es: Seq<(Vec<u8>, Option<Location>)>) -> Seq<(Seq<u8>, Option<Location>)> {
    es.map_values(|e: (Vec<u8>, Option<Location>)| (e.0@, e.1))
}

/// Splits a metadata dump into per-file entries with the coordinates
/// each section gives up; coordinates outside the geographic range
/// count as absent.
pub fn parse_exiftool_sections(text: &Vec<u8>) -> (r: Vec<(Vec<u8>, Option<Location>)>)
    ensures
        entries_model(r@) == spec_sections(text@, 0, Option::None, Seq::empty(), Seq::empty()),
        forall|k: int| 0 <= k < r@.len()
            ==> ((#[trigger] r@[k]).1 is Some ==> r@[k].1->0.wf()),
{
    let n = text.len();
    let dashes = tag_dashes_vec();
    let fname = tag_file_name_vec();
    let mut cur: Option<Vec<u8>> = None;
    let mut buf: Vec<u8> = Vec::new();
    let mut out: Vec<(Vec<u8>, Option<Location>)> = Vec::new();
    proof {
        assert(buf@ =~= Seq::<u8>::empty());
        assert(entries_model(out@) =~= Seq::<(Seq<u8>, Option<Location>)>::empty());
    }
    let mut i: usize = 0;
    while i < n
        invariant
            i <= n,
            n == text@.len(),
            dashes@ == tag_dashes(),
            fname@ == tag_file_name(),
            spec_sections(text@, 0, Option::None, Seq::empty(), Seq::empty())
                == spec_sections(text@, i as int, opt_view(cur), buf@, entries_model(out@)),
            forall|k: int| 0 <= k < out@.len()
                ==> ((#[trigger] out@[k]).1 is Some ==> out@[k].1->0.wf()),
        decreases n - i,
    {
        let hi = scan_end(text, i, 4);
        let next = if hi < n { hi + 1 } else { n };
        let blank = scan_end(text, i, 5) >= hi;
        let ghost out0 = entries_model(out@);
        if match_at(text, i, &dashes) || blank {
            match &cur {
                Option::Some(name) => {
                    let loc = location_of_section(&buf);
                    let name2 = sub_bytes(name, 0, name.len());
                    proof {
                        assert(name2@ =~= name@);
                    }
                    out.push((name2, loc));
                    proof {
                        assert(entries_model(out@) =~= out0.push((name@, spec_location_from_exiftool(buf@))));
                    }
                },
                Option::None => {},
            }
            cur = None;
            buf = Vec::new();
            proof {
                assert(buf@ =~= Seq::<u8>::empty());
            }
        } else {
            if match_at(text, i, &fname) {
                let v = file_name_value(text, i, hi);
                match v {
                    Option::Some(v) => { cur = Some(v); },
                    Option::None => {},
                }
            }
            if cur.is_some() {
                let ghost buf0 = buf@;
                let mut k = i;
                while k < hi
                    invariant
                        i <= k <= hi <= text@.len(),
                        buf@ =~= buf0 + text@.subrange(i as int, k as int),
                    decreases hi - k,
                {
                    buf.push(text[k]);
                    k = k + 1;
                    proof {
                        assert(buf@ =~= buf0 + text@.subrange(i as int, k as int));
                    }
                }
                buf.push(10);
                proof {
                    assert(buf@ =~= buf0 + text@.subrange(i as int, hi as int) + seq![10u8]);
                }
            }
        }
        i = next;
    }
    match &cur {
        Option::Some(name) => {
            let loc = location_of_section(&buf);
            let name2 = sub_bytes(name, 0, name.len());
            let ghost out0 = entries_model(out@);
            proof {
                assert(name2@ =~= name@);
            }
            out.push((name2, loc));
            proof {
                assert(entries_model(out@) =~= out0.push((name@, spec_location_from_exiftool(buf@))));
            }
        },
        Option::None => {},
    }
    out
}

/// Reads a section's coordinates and validates the range.
fn location_of_section(buf: &Vec<u8>) -> (r: Option<Location>)
    ensures
        r == spec_location_from_exiftool(buf@),
        r is Some ==> r->0.wf(),
{
    match get_gps_from_exiftool_string(buf) {
        Option::Some((la, lo)) => Location::checked(la, lo),
        Option::None => None,
    }
}

/// Index of the first group whose first member lies coordinate-wise
/// within the threshold of the location, scanning from `from`.
pub open spec fn spec_flat_fit_from(
    target: Location,
    locs: Seq<Option<Location>>,
    groups: Seq<Seq<int>>,
    thr_udeg: i64,
    from: nat,
) -> Option<int>
    decreases groups.len() - from
        when forall|g: int| 0 <= g < groups.len() ==> (#[trigger] groups[g]).len() > 0
{
    if from >= groups.len() {
        Option::None
    } else if groups[from as int].len() > 0
        && spec_locations_close(locs[groups[from as int][0]]->0, target, thr_udeg) {
        Option::Some(from as int)
    } else {
        spec_flat_fit_from(target, locs, groups, thr_udeg, from + 1)
    }
}

/// The flat grouping after the first n entries: each located entry
/// joins the first group whose seed lies within the threshold, or
/// opens a new group; entries without coordinates join nothing.
pub open spec fn spec_flat_groups(locs: Seq<Option<Location>>, thr_udeg: i64, n: nat) -> Seq<Seq<int>>
    decreases n,
{
    if n == 0 {
        Seq::empty()
    } else {
        let prev = spec_flat_groups(locs, thr_udeg, (n - 1) as nat);
        let i = n - 1;
        if locs[i as int] is Some {
            match spec_flat_fit_from(locs[i as int]->0, locs, prev, thr_udeg, 0) {
                Option::Some(g) => prev.update(g, prev[g].push(i as int)),
                Option::None => prev.push(seq![i as int]),
            }
        } else {
            prev
        }
    }
}

/// Every group of the flat model is nonempty and holds valid indices
/// of located entries.
pub open spec fn flat_groups_wf(groups: Seq<Seq<int>>, locs: Seq<Option<Location>>) -> bool {
    forall|g: int| 0 <= g < groups.len()
        ==> (#[trigger] groups[g]).len() > 0
            && (forall|j: int| 0 <= j < groups[g].len()
                ==> 0 <= #[trigger] groups[g][j] < locs.len() && locs[groups[g][j]] is Some
                    && locs[groups[g][j]]->0.wf())
}

proof fn lemma_flat_fit_advance(
    target: Location,
    locs: Seq<Option<Location>>,
    groups: Seq<Seq<int>>,
    thr_udeg: i64,
    j: nat,
)
    requires
        j <= groups.len(),
        forall|g: int| 0 <= g < groups.len() ==> (#[trigger] groups[g]).len() > 0,
        forall|g: int| 0 <= g < j
            ==> !spec_locations_close(locs[(#[trigger] groups[g])[0]]->0, target, thr_udeg),
    ensures
        spec_flat_fit_from(target, locs, groups, thr_udeg, 0)
            == spec_flat_fit_from(target, locs, groups, thr_udeg, j),
    decreases j,
{
    if j > 0 {
        lemma_flat_fit_advance(target, locs, groups, thr_udeg, (j - 1) as nat);
    }
}

/// The locations of a list of entries.
pub open spec fn spec_entry_locs(entries: Seq<(Vec<u8>, Option<Location>)>) -> Seq<Option<Location>> {
    entries.map_values(|e: (Vec<u8>, Option<Location>)| e.1)
}

/// Scans the groups in order and returns the first whose seed lies
/// coordinate-wise within the threshold of `loc`.
fn find_flat_fit(
    groups: &Vec<Vec<usize>>,
    entries: &Vec<(Vec<u8>, Option<Location>)>,
    loc: &Location,
    threshold_udeg: i64,
    Ghost(prev): Ghost<Seq<Seq<int>>>,
) -> (r: Option<usize>)
    requires
        loc.wf(),
        ({
            let locs = spec_entry_locs(entries@);
            &&& groups@.len() == prev.len()
            &&& forall|g: int| 0 <= g < prev.len()
                ==> (#[trigger] groups@[g])@.len() == prev[g].len()
                    && (forall|t: int| 0 <= t < prev[g].len()
                        ==> (#[trigger] groups@[g]@[t]) as int == prev[g][t])
            &&& flat_groups_wf(prev, locs)
        }),
    ensures
        match r {
            Option::Some(g) => 0 <= g < groups@.len()
                && spec_flat_fit_from(*loc, spec_entry_locs(entries@), prev, threshold_udeg, 0)
                    == Option::Some(g as int),
            Option::None => spec_flat_fit_from(*loc, spec_entry_locs(entries@), prev, threshold_udeg, 0)
                is None,
        },
{
    let ghost locs = spec_entry_locs(entries@);
    let mut j: usize = 0;
    while j < groups.len()
        invariant
            j <= groups@.len(),
            loc.wf(),
            locs == spec_entry_locs(entries@),
            groups@.len() == prev.len(),
            forall|g: int| 0 <= g < prev.len()
                ==> (#[trigger] groups@[g])@.len() == prev[g].len()
                    && (forall|t: int| 0 <= t < prev[g].len()
                        ==> (#[trigger] groups@[g]@[t]) as int == prev[g][t]),
            flat_groups_wf(prev, locs),
            forall|g: int| 0 <= g < j
                ==> !spec_locations_close(locs[(#[trigger] prev[g])[0]]->0, *loc, threshold_udeg),
        decreases groups@.len() - j,
    {
        let first_idx = groups[j][0];
        proof {
            assert(prev[j as int].len() > 0);
            assert((groups@[j as int])@[0] as int == prev[j as int][0]);
            assert(locs[prev[j as int][0]] is Some && locs[prev[j as int][0]]->0.wf());
            assert(entries@[first_idx as int].1 == locs[first_idx as int]);
        }
        let first_loc = match &entries[first_idx].1 {
            Option::Some(l) => *l,
            Option::None => { unreached() },
        };
        if are_locations_close(&first_loc, loc, threshold_udeg) {
            proof {
                lemma_flat_fit_advance(*loc, locs, prev, threshold_udeg, j as nat);
            }
            return Some(j);
        }
        j = j + 1;
    }
    proof {
        lemma_flat_fit_advance(*loc, locs, prev, threshold_udeg, prev.len() as nat);
    }
    None
}

/// Groups the located entries by proximity to each group's first
/// member, in input order, with a coordinate-wise threshold in
/// microdegrees. The result is the index model of the flat pass.
pub fn group_by_proximity(entries: &Vec<(Vec<u8>, Option<Location>)>, threshold_udeg: i64) -> (groups: Vec<Vec<usize>>)
    requires
        forall|k: int| 0 <= k < entries@.len()
            ==> ((#[trigger] entries@[k]).1 is Some ==> entries@[k].1->0.wf()),
    ensures
        ({
            let locs = spec_entry_locs(entries@);
            let model = spec_flat_groups(locs, threshold_udeg, entries@.len());
            &&& groups@.len() == model.len()
            &&& forall|g: int| 0 <= g < model.len()
                ==> (#[trigger] groups@[g])@.len() == model[g].len()
                    && (forall|j: int| 0 <= j < model[g].len()
                        ==> (#[trigger] groups@[g]@[j]) as int == model[g][j])
            &&& flat_groups_wf(model, locs)
        }),
{
    let ghost locs = spec_entry_locs(entries@);
    let n = entries.len();
    let mut groups: Vec<Vec<usize>> = Vec::new();
    let mut i: usize = 0;
    while i < n
        invariant
            i <= n,
            n == entries@.len(),
            locs == spec_entry_locs(entries@),
            forall|k: int| 0 <= k < entries@.len()
                ==> ((#[trigger] entries@[k]).1 is Some ==> entries@[k].1->0.wf()),
            ({
                let model = spec_flat_groups(locs, threshold_udeg, i as nat);
                &&& groups@.len() == model.len()
                &&& forall|g: int| 0 <= g < model.len()
                    ==> (#[trigger] groups@[g])@.len() == model[g].len()
                        && (forall|j: int| 0 <= j < model[g].len()
                            ==> (#[trigger] groups@[g]@[j]) as int == model[g][j])
                &&& flat_groups_wf(model, locs)
            }),
        decreases n - i,
    {
        let ghost prev = spec_flat_groups(locs, threshold_udeg, i as nat);
        let loc_opt = entries[i].1;
        match loc_opt {
            Option::Some(loc) => {
                proof {
                    assert(locs[i as int] == entries@[i as int].1);
                }
                let fit = find_flat_fit(&groups, entries, &loc, threshold_udeg, Ghost(prev));
                match fit {
                    Option::Some(g) => {
                        proof {
                            assert(spec_flat_fit_from(loc, locs, prev, threshold_udeg, 0)
                                == Option::Some(g as int));
                        }
                        let ghost groups0 = groups@;
                        let mut grp = groups.remove(g);
                        grp.push(i);
                        let ghost grp_g = grp;
                        groups.insert(g, grp);
                        i = i + 1;
                        proof {
                            let cur = spec_flat_groups(locs, threshold_udeg, i as nat);
                            let newg = prev[g as int].push((i - 1) as int);
                            assert(cur == prev.update(g as int, newg));
                            assert(groups@ =~= groups0.update(g as int, grp_g));
                            assert(grp_g@.len() == newg.len());
                            assert forall|t: int| 0 <= t < newg.len()
                                implies (grp_g@[t]) as int == newg[t] by {
                                if t < newg.len() - 1 {
                                    assert(groups0[g as int]@[t] as int == prev[g as int][t]);
                                }
                            }
                        }
                    },
                    Option::None => {
                        let single: Vec<usize> = vec![i];
                        let ghost single_g = single;
                        groups.push(single);
                        i = i + 1;
                        proof {
                            let cur = spec_flat_groups(locs, threshold_udeg, i as nat);
                            let newg = seq![(i - 1) as int];
                            assert(cur == prev.push(newg));
                            assert(single_g@.len() == 1);
                            assert(single_g@[0] as int == (i - 1) as int);
                        }
                    },
                }
            },
            Option::None => {
                i = i + 1;
                proof {
                    assert(spec_flat_groups(locs, threshold_udeg, i as nat) == prev);
                }
            },
        }
    }
    groups
}

/// The directory name of the 1-based group n.
pub open spec fn spec_location_group_name(n: nat) -> Seq<char> {
    "location_group_"@ + spec_decimal_digits(n)
}

/// Renders `location_group_{n}`.
pub fn location_group_name(n: u64) -> (r: String)
    ensures
        r@ == spec_location_group_name(n as nat),
{
    let mut s = String::from_str("location_group_");
    push_u64_decimal(&mut s, n);
    s
}

/// The group description text: a heading with the 1-based group
/// number, a list header, and one `- name` line per member.
pub open spec fn spec_group_info(n: nat, names: Seq<String>) -> Seq<char>
    decreases names.len(),
{
    if names.len() == 0 {
        "Grupo de localização "@ + spec_decimal_digits(n) + "\n"@ + "Arquivos neste grupo:\n"@
    } else {
        spec_group_info(n, names.drop_last()) + "- "@ + names.last()@ + "\n"@
    }
}

/// Builds the description text written into each group's folder.
pub fn group_info_content(n: u64, names: &Vec<String>) -> (r: String)
    ensures
        r@ == spec_group_info(n as nat, names@),
{
    let mut s = String::from_str("Grupo de localização ");
    push_u64_decimal(&mut s, n);
    s.append("\n");
    s.append("Arquivos neste grupo:\n");
    proof {
        assert(s@ =~= spec_group_info(n as nat, Seq::<String>::empty()));
        assert(names@.take(0) =~= Seq::<String>::empty());
    }
    let m = names.len();
    let mut k: usize = 0;
    while k < m
        invariant
            k <= m,
            m == names@.len(),
            s@ == spec_group_info(n as nat, names@.take(k as int)),
        decreases m - k,
    {
        s.append("- ");
        s.append(names[k].as_str());
        s.append("\n");
        k = k + 1;
        proof {
            let pre = names@.take(k as int);
            assert(pre.drop_last() =~= names@.take(k - 1));
            assert(pre.last() == names@[k - 1]);
            assert(s@ =~= spec_group_info(n as nat, pre));
        }
    }
    proof {
        assert(names@.take(m as int) =~= names@);
    }
    s
}

/// Number of entries that carry coordinates.
pub open spec fn spec_count_located(entries: Seq<(Vec<u8>, Option<Location>)>) -> int
    decreases entries.len(),
{
    if entries.len() == 0 {
        0
    } else {
        spec_count_located(entries.drop_last()) + if entries.last().1 is Some { 1int } else { 0int }
    }
}

/// Tallies a parsed dump into processing statistics: every section is
/// an image, the located ones count as having GPS data, and the group
/// count is the flat grouping's. The counters always tally.
pub fn sections_stats(entries: &Vec<(Vec<u8>, Option<Location>)>, groups_len: usize) -> (r: ProcessingStats)
    ensures
        r.total_images == entries@.len(),
        r.images_with_gps as int == spec_count_located(entries@),
        r.images_without_gps as int == entries@.len() - spec_count_located(entries@),
        r.images_with_direction == 0,
        r.predio_groups == groups_len,
        r.errors@.len() == 0,
        r.consistent(),
{
    let n = entries.len();
    let mut with: usize = 0;
    let mut i: usize = 0;
    while i < n
        invariant
            i <= n,
            n == entries@.len(),
            with as int == spec_count_located(entries@.take(i as int)),
            with <= i,
        decreases n - i,
    {
        if entries[i].1.is_some() {
            with = with + 1;
        }
        i = i + 1;
        proof {
            let pre = entries@.take(i as int);
            assert(pre.drop_last() =~= entries@.take(i - 1));
            assert(pre.last() == entries@[i - 1]);
        }
    }
    proof {
        assert(entries@.take(n as int) =~= entries@);
    }
    let mut stats = ProcessingStats::default();
    stats.total_images = n;
    stats.images_with_gps = with;
    stats.images_without_gps = n - with;
    stats.predio_groups = groups_len;
    stats
}

} // verus!
