//! Folder analysis: per-directory aggregates ranked by size.
//!
//! The caller snapshots the directories of interest (see [`crate::fstree`])
//! and hands the snapshots here; aggregation and ranking are pure, fully
//! specified computations.

use vstd::prelude::*;
use vstd::string::StringExecFns;

use crate::bytesize::{format_mount_size, mount_size_str};
use crate::fstree::{agg_dir, aggregate_dir, sat_u64, sat_usize, FsNode};
use crate::mset::{lemma_to_multiset_insert, lemma_to_multiset_pop};

verus! {

/// The aggregate of one directory: its path, total size in bytes, file
/// count and subdirectory count, within the depth bound it was scanned
/// under.
#[derive(Debug, Clone)]
pub struct FolderInfo {
    pub path: String,
    pub size: u64,
    pub file_count: usize,
    pub dir_count: usize,
}

impl FolderInfo {
    /// Formats this folder's size under the mount/folder policy.
    pub fn format_size(&self) -> (s: String)
        ensures
            s@ == mount_size_str(self.size as nat),
    {
        format_mount_size(self.size)
    }
}

/// Whether the records are ordered by size, largest first.
pub open spec fn sorted_desc_by_size(s: Seq<FolderInfo>) -> bool {
    forall|i: int, j: int|
        0 <= i < j < s.len() ==> (#[trigger] s[i]).size >= (#[trigger] s[j]).size
}

/// Inserts a record into a size-ordered vector, keeping the order and
/// adding exactly that record to the contents.
fn insert_folder_sorted(out: &mut Vec<FolderInfo>, x: FolderInfo)
    requires
        sorted_desc_by_size(old(out)@),
    ensures
        sorted_desc_by_size(final(out)@),
        final(out)@.to_multiset() == old(out)@.to_multiset().insert(x),
{
    let mut pos: usize = 0;
    while pos < out.len() && out[pos].size >= x.size
        invariant
            0 <= pos <= out@.len(),
            out@ == old(out)@,
            forall|k: int| 0 <= k < pos ==> (#[trigger] out@[k]).size >= x.size,
        decreases out@.len() - pos,
    {
        pos += 1;
    }
    let ghost before = out@;
    proof {
        lemma_to_multiset_insert(before, pos as int, x);
        before.insert_ensures(pos as int, x);
    }
    out.insert(pos, x);
    proof {
        let after = out@;
        assert forall|i: int, j: int|
            0 <= i < j < after.len() implies (#[trigger] after[i]).size >= (
        #[trigger] after[j]).size by {
            if j < pos {
                assert(after[i] == before[i]);
                assert(after[j] == before[j]);
            } else if pos < i {
                assert(after[i] == before[i - 1]);
                assert(after[j] == before[j - 1]);
            } else if i == pos {
                assert(after[j] == before[j - 1]);
                assert(before[pos as int].size < x.size);
                if pos < j - 1 {
                    assert(before[pos as int].size >= before[j - 1].size);
                }
            } else if j == pos {
                assert(after[i] == before[i]);
                assert(before[i].size >= x.size);
            } else {
                assert(after[i] == before[i]);
                assert(after[j] == before[j - 1]);
                assert(before[i].size >= x.size);
                assert(before[pos as int].size < x.size);
                if pos < j - 1 {
                    assert(before[pos as int].size >= before[j - 1].size);
                }
            }
        }
    }
}

/// Sorts the records by size, largest first, returning a reordering of
/// exactly the given records.
pub fn sort_folders_desc(input: Vec<FolderInfo>) -> (out: Vec<FolderInfo>)
    ensures
        sorted_desc_by_size(out@),
        out@.to_multiset() == input@.to_multiset(),
{
    let mut rest = input;
    let mut out: Vec<FolderInfo> = Vec::new();
    proof {
        broadcast use vstd::multiset::group_multiset_axioms;
        broadcast use vstd::seq_lib::group_to_multiset_ensures;

        assert(out@.to_multiset().len() == 0);
        assert forall|y: FolderInfo|
            out@.to_multiset().add(rest@.to_multiset()).count(y) == input@.to_multiset().count(
                y,
            ) by {
            assert(out@.to_multiset().count(y) <= out@.to_multiset().len());
        }
        assert(out@.to_multiset().add(rest@.to_multiset()) =~= input@.to_multiset());
    }
    while rest.len() > 0
        invariant
            sorted_desc_by_size(out@),
            out@.to_multiset().add(rest@.to_multiset()) == input@.to_multiset(),
        decreases rest@.len(),
    {
        let ghost rest_before = rest@;
        let x_opt = rest.pop();
        match x_opt {
            Some(x) => {
                proof {
                    broadcast use vstd::multiset::group_multiset_axioms;

                    lemma_to_multiset_pop(rest_before);
                }
                insert_folder_sorted(&mut out, x);
                proof {
                    broadcast use vstd::multiset::group_multiset_axioms;

                    assert(out@.to_multiset().add(rest@.to_multiset()) =~= input@.to_multiset());
                }
            },
            None => {},
        }
    }
    proof {
        broadcast use vstd::multiset::group_multiset_axioms;
        broadcast use vstd::seq_lib::group_to_multiset_ensures;

        assert(rest@.to_multiset().len() == 0);
        assert forall|y: FolderInfo|
            out@.to_multiset().count(y) == input@.to_multiset().count(y) by {
            assert(rest@.to_multiset().count(y) <= rest@.to_multiset().len());
            assert(out@.to_multiset().add(rest@.to_multiset()).count(y) == input@.to_multiset()
                .count(y));
        }
        assert(out@.to_multiset() =~= input@.to_multiset());
    }
    out
}

/// One named directory entry handed to `analyze_folder`: the entry's name
/// and its snapshot.
pub struct NamedNode {
    pub name: String,
    pub node: FsNode,
}

/// Whether a named entry is a directory.
pub open spec fn is_dir_node(n: FsNode) -> bool {
    n is Dir
}

/// The folder record for one named directory snapshot, aggregated from the
/// top under the given depth bound.
pub open spec fn folder_info_of(nd: NamedNode, max_depth: nat) -> FolderInfo {
    FolderInfo {
        path: nd.name,
        size: sat_u64(agg_dir(nd.node, 0, max_depth).0),
        file_count: sat_usize(agg_dir(nd.node, 0, max_depth).1),
        dir_count: sat_usize(agg_dir(nd.node, 0, max_depth).2),
    }
}

/// The folder records of the directory entries in `s`, in input order:
/// non-directories are skipped, directories are aggregated under the depth
/// bound.
pub open spec fn folders_of_entries(s: Seq<NamedNode>, max_depth: nat) -> Seq<FolderInfo>
    decreases s.len(),
{
    if s.len() == 0 {
        seq![]
    } else {
        let rest = folders_of_entries(s.drop_last(), max_depth);
        if is_dir_node(s.last().node) {
            rest.push(folder_info_of(s.last(), max_depth))
        } else {
            rest
        }
    }
}

/// Analyzes the immediate subdirectories of one folder: each directory
/// entry is aggregated under the depth bound, non-directory entries are
/// skipped, and the records are returned sorted by size, largest first.
pub fn analyze_folder(subdirs: Vec<NamedNode>, max_depth: u64) -> (r: Vec<FolderInfo>)
    ensures
        sorted_desc_by_size(r@),
        r@.to_multiset() == folders_of_entries(subdirs@, max_depth as nat).to_multiset(),
{
    let ghost orig = subdirs@;
    let ghost gmax = max_depth as nat;
    let mut rest = subdirs;
    let mut collected: Vec<FolderInfo> = Vec::new();
    let ghost mut i: int = 0;
    proof {
        assert(orig.skip(0) =~= orig);
        assert(orig.take(0) =~= Seq::<NamedNode>::empty());
    }
    while rest.len() > 0
        invariant
            0 <= i <= orig.len(),
            rest@ == orig.skip(i),
            gmax == max_depth as nat,
            collected@ == folders_of_entries(orig.take(i), gmax),
        decreases rest@.len(),
    {
        let nd = rest.remove(0);
        proof {
            assert(orig.skip(i).remove(0) =~= orig.skip(i + 1));
            assert(nd == orig[i]);
            assert(orig.take(i + 1).drop_last() =~= orig.take(i));
            assert(orig.take(i + 1).last() == orig[i]);
        }
        let is_dir = match &nd.node {
            FsNode::Dir { .. } => true,
            FsNode::File { .. } => false,
        };
        if is_dir {
            let totals = aggregate_dir(&nd.node, 0, max_depth);
            let info = FolderInfo {
                path: nd.name,
                size: totals.0,
                file_count: totals.1,
                dir_count: totals.2,
            };
            collected.push(info);
        }
        proof {
            i = i + 1;
        }
    }
    proof {
        assert(orig.take(orig.len() as int) =~= orig);
    }
    sort_folders_desc(collected)
}

/// The scan depth bound used by the large-folder report.
pub const LARGE_FOLDER_SCAN_DEPTH: u64 = 3;

/// One candidate location handed to `get_common_large_folders`: its path
/// and, when the path exists and is a directory, its snapshot.
pub struct CandidateSnapshot {
    pub path: String,
    pub node: Option<FsNode>,
}

/// Whether a candidate exists as a directory.
pub open spec fn is_present_dir(c: CandidateSnapshot) -> bool {
    match c.node {
        Some(n) => is_dir_node(n),
        None => false,
    }
}

/// The folder record for one present candidate.
pub open spec fn candidate_folder_info(c: CandidateSnapshot, max_depth: nat) -> FolderInfo {
    match c.node {
        Some(n) => FolderInfo {
            path: c.path,
            size: sat_u64(agg_dir(n, 0, max_depth).0),
            file_count: sat_usize(agg_dir(n, 0, max_depth).1),
            dir_count: sat_usize(agg_dir(n, 0, max_depth).2),
        },
        None => FolderInfo { path: c.path, size: 0, file_count: 0, dir_count: 0 },
    }
}

/// The folder records of the present candidate directories in `s`, in
/// input order: absent candidates and non-directories are omitted, never
/// reported as zero.
pub open spec fn folders_of_candidates(s: Seq<CandidateSnapshot>, max_depth: nat) -> Seq<
    FolderInfo,
>
    decreases s.len(),
{
    if s.len() == 0 {
        seq![]
    } else {
        let rest = folders_of_candidates(s.drop_last(), max_depth);
        if is_present_dir(s.last()) {
            rest.push(candidate_folder_info(s.last(), max_depth))
        } else {
            rest
        }
    }
}

/// Whether some present candidate in `s` carries the path `p`.
pub open spec fn path_of_present(s: Seq<CandidateSnapshot>, p: String) -> bool {
    exists|j: int| 0 <= j < s.len() && (#[trigger] s[j]).node is Some && s[j].path == p
}

/// Every reported record's path comes from a candidate whose snapshot was
/// present: an absent candidate is never reported.
pub proof fn lemma_candidate_paths_present(s: Seq<CandidateSnapshot>, max_depth: nat)
    ensures
        forall|i: int|
            0 <= i < folders_of_candidates(s, max_depth).len() ==> path_of_present(
                s,
                (#[trigger] folders_of_candidates(s, max_depth)[i]).path,
            ),
    decreases s.len(),
{
    if s.len() > 0 {
        lemma_candidate_paths_present(s.drop_last(), max_depth);
        let rest = folders_of_candidates(s.drop_last(), max_depth);
        let cur = folders_of_candidates(s, max_depth);
        assert forall|i: int| 0 <= i < cur.len() implies path_of_present(
            s,
            (#[trigger] cur[i]).path,
        ) by {
            if i < rest.len() {
                assert(rest[i] == folders_of_candidates(s.drop_last(), max_depth)[i]);
                assert(path_of_present(s.drop_last(), rest[i].path));
                let j = choose|j: int|
                    0 <= j < s.drop_last().len() && (#[trigger] s.drop_last()[j]).node is Some
                        && s.drop_last()[j].path == rest[i].path;
                assert(s[j].node is Some && s[j].path == cur[i].path);
            } else {
                let j = s.len() - 1;
                assert(s[j].node is Some && s[j].path == cur[i].path);
            }
        }
    }
}

/// Ranks a fixed list of candidate locations by aggregate size: absent
/// candidates are omitted (never reported as zero), present directories are
/// aggregated under `LARGE_FOLDER_SCAN_DEPTH`, and the result is sorted by
/// size, largest first. No reported path belongs to an absent candidate.
pub fn get_common_large_folders(candidates: Vec<CandidateSnapshot>) -> (r: Vec<FolderInfo>)
    ensures
        sorted_desc_by_size(r@),
        r@.to_multiset() == folders_of_candidates(
            candidates@,
            LARGE_FOLDER_SCAN_DEPTH as nat,
        ).to_multiset(),
        forall|i: int|
            0 <= i < r@.len() ==> path_of_present(candidates@, (#[trigger] r@[i]).path),
{
    let ghost orig = candidates@;
    let ghost gmax = LARGE_FOLDER_SCAN_DEPTH as nat;
    let mut rest = candidates;
    let mut collected: Vec<FolderInfo> = Vec::new();
    let ghost mut i: int = 0;
    proof {
        assert(orig.skip(0) =~= orig);
        assert(orig.take(0) =~= Seq::<CandidateSnapshot>::empty());
    }
    while rest.len() > 0
        invariant
            0 <= i <= orig.len(),
            rest@ == orig.skip(i),
            gmax == LARGE_FOLDER_SCAN_DEPTH as nat,
            collected@ == folders_of_candidates(orig.take(i), gmax),
        decreases rest@.len(),
    {
        let c = rest.remove(0);
        proof {
            assert(orig.skip(i).remove(0) =~= orig.skip(i + 1));
            assert(c == orig[i]);
            assert(orig.take(i + 1).drop_last() =~= orig.take(i));
            assert(orig.take(i + 1).last() == orig[i]);
        }
        match c.node {
            Some(node) => {
                let is_dir = match &node {
                    FsNode::Dir { .. } => true,
                    FsNode::File { .. } => false,
                };
                if is_dir {
                    let totals = aggregate_dir(&node, 0, LARGE_FOLDER_SCAN_DEPTH);
                    let info = FolderInfo {
                        path: c.path,
                        size: totals.0,
                        file_count: totals.1,
                        dir_count: totals.2,
                    };
                    collected.push(info);
                }
            },
            None => {},
        }
        proof {
            i = i + 1;
        }
    }
    proof {
        assert(orig.take(orig.len() as int) =~= orig);
    }
    let r = sort_folders_desc(collected);
    proof {
        broadcast use vstd::seq_lib::group_to_multiset_ensures;

        lemma_candidate_paths_present(orig, gmax);
        let ranked = folders_of_candidates(orig, gmax);
        assert forall|k: int| 0 <= k < r@.len() implies path_of_present(
            orig,
            (#[trigger] r@[k]).path,
        ) by {
            assert(r@.contains(r@[k]));
            assert(r@.to_multiset().count(r@[k]) > 0);
            assert(ranked.contains(r@[k]));
            let m = choose|m: int| 0 <= m < ranked.len() && ranked[m] == r@[k];
            assert(ranked[m] == folders_of_candidates(orig, gmax)[m]);
            assert(path_of_present(orig, ranked[m].path));
        }
    }
    r
}

/// Joins a base path and a suffix into one path string.
pub fn join_path(base: &str, suffix: &str) -> (r: String)
    ensures
        r@ == base@ + suffix@,
{
    let mut s = String::from_str(base);
    s.append(suffix);
    s
}

/// The fixed, ordered list of well-known large-folder candidates under the
/// given home directory.
pub open spec fn spec_common_folder_candidates(home: Seq<char>) -> Seq<Seq<char>> {
    seq![
        home + "/.cache"@,
        home + "/.local/share"@,
        home + "/Downloads"@,
        home + "/Documents"@,
        home + "/Pictures"@,
        home + "/Videos"@,
        home + "/Music"@,
        home + "/.config"@,
    ]
}

/// Builds the fixed candidate path list, exactly as
/// `spec_common_folder_candidates` describes.
pub fn common_folder_candidates(home: &str) -> (v: Vec<String>)
    ensures
        v.deep_view() == spec_common_folder_candidates(home@),
{
    let mut v: Vec<String> = Vec::new();
    v.push(join_path(home, "/.cache"));
    v.push(join_path(home, "/.local/share"));
    v.push(join_path(home, "/Downloads"));
    v.push(join_path(home, "/Documents"));
    v.push(join_path(home, "/Pictures"));
    v.push(join_path(home, "/Videos"));
    v.push(join_path(home, "/Music"));
    v.push(join_path(home, "/.config"));
    proof {
        assert(v.deep_view() =~= spec_common_folder_candidates(home@));
    }
    v
}

/// The fixed list of cleanup suggestions shown by the disk analyzer.
pub open spec fn spec_cleanup_suggestions() -> Seq<Seq<char>> {
    seq![
        "Clear package cache: sudo apt-get clean"@,
        "Remove old kernels: sudo apt-get autoremove"@,
        "Clear thumbnail cache: rm -rf ~/.cache/thumbnails/*"@,
        "Empty trash: rm -rf ~/.local/share/Trash/*"@,
        "Clear browser cache in ~/.cache/mozilla or ~/.cache/google-chrome"@,
        "Remove unused Flatpak runtimes: flatpak uninstall --unused"@,
    ]
}

/// Returns the fixed cleanup suggestions, exactly as
/// `spec_cleanup_suggestions` describes.
pub fn get_cleanup_suggestions() -> (v: Vec<String>)
    ensures
        v.deep_view() == spec_cleanup_suggestions(),
{
    let mut v: Vec<String> = Vec::new();
    v.push(String::from_str("Clear package cache: sudo apt-get clean"));
    v.push(String::from_str("Remove old kernels: sudo apt-get autoremove"));
    v.push(String::from_str("Clear thumbnail cache: rm -rf ~/.cache/thumbnails/*"));
    v.push(String::from_str("Empty trash: rm -rf ~/.local/share/Trash/*"));
    v.push(String::from_str("Clear browser cache in ~/.cache/mozilla or ~/.cache/google-chrome"));
    v.push(String::from_str("Remove unused Flatpak runtimes: flatpak uninstall --unused"));
    proof {
        assert(v.deep_view() =~= spec_cleanup_suggestions());
    }
    v
}

} // verus!
