//! Directory tree snapshots and the depth-bounded aggregator.
//!
//! A scan of the real filesystem is handed to this module as an immutable
//! snapshot value; aggregation over the snapshot is then a pure, fully
//! specified computation. Entries that could not be read are simply absent
//! from the snapshot, which models the engine's skip-and-continue treatment
//! of unreadable objects. Sums saturate at the largest machine value instead
//! of overflowing.

use vstd::prelude::*;

verus! {

/// A snapshot of one filesystem object: a regular file with its size in
/// bytes, or a directory with the snapshots of its readable entries.
pub enum FsNode {
    File { size: u64 },
    Dir { entries: Vec<FsNode> },
}

/// An unbounded count clamped to the largest `u64`.
pub open spec fn sat_u64(n: nat) -> u64 {
    if n > u64::MAX {
        u64::MAX
    } else {
        n as u64
    }
}

/// An unbounded count clamped to the largest `usize`.
pub open spec fn sat_usize(n: nat) -> usize {
    if n > usize::MAX {
        usize::MAX
    } else {
        n as usize
    }
}

/// Clamping distributes over addition of clamped parts.
pub proof fn lemma_sat_u64_add(a: nat, b: nat)
    ensures
        sat_u64((sat_u64(a) + sat_u64(b)) as nat) == sat_u64(a + b),
{
}

/// Clamping distributes over addition of clamped parts.
pub proof fn lemma_sat_usize_add(a: nat, b: nat)
    ensures
        sat_usize((sat_usize(a) + sat_usize(b)) as nat) == sat_usize(a + b),
{
}

/// The totals (size in bytes, file count, directory count) of scanning the
/// directory snapshot `n` at recursion depth `depth` with the given depth
/// limit. A scan above the limit sees nothing; otherwise every immediate
/// file is counted, every immediate subdirectory is counted, and each
/// subdirectory is scanned one level deeper. Scanning a file yields nothing,
/// mirroring a directory read that fails on a non-directory.
pub open spec fn agg_dir(n: FsNode, depth: nat, max_depth: nat) -> (nat, nat, nat)
    decreases n,
{
    if depth > max_depth {
        (0, 0, 0)
    } else {
        match n {
            FsNode::File { .. } => (0, 0, 0),
            FsNode::Dir { entries } => agg_entries(entries@, depth, max_depth),
        }
    }
}

/// The totals of a directory's entry list at recursion depth `depth`.
pub open spec fn agg_entries(s: Seq<FsNode>, depth: nat, max_depth: nat) -> (nat, nat, nat)
    decreases s,
{
    if s.len() == 0 {
        (0, 0, 0)
    } else {
        let rest = agg_entries(s.drop_last(), depth, max_depth);
        match s.last() {
            FsNode::File { size } => ((rest.0 + size) as nat, (rest.1 + 1) as nat, rest.2),
            FsNode::Dir { .. } => {
                let sub = agg_dir(s.last(), depth + 1, max_depth);
                ((rest.0 + sub.0) as nat, (rest.1 + sub.1) as nat, (rest.2 + 1 + sub.2) as nat)
            },
        }
    }
}

/// Runs the depth-bounded scan over a snapshot, returning the clamped
/// totals (size in bytes, file count, directory count) of `agg_dir`.
pub fn aggregate_dir(n: &FsNode, depth: u64, max_depth: u64) -> (r: (u64, usize, usize))
    ensures
        r.0 == sat_u64(agg_dir(*n, depth as nat, max_depth as nat).0),
        r.1 == sat_usize(agg_dir(*n, depth as nat, max_depth as nat).1),
        r.2 == sat_usize(agg_dir(*n, depth as nat, max_depth as nat).2),
    decreases *n,
{
    if depth > max_depth {
        return (0, 0, 0);
    }
    match n {
        FsNode::File { .. } => (0, 0, 0),
        FsNode::Dir { entries } => aggregate_entries(entries, depth, max_depth),
    }
}

/// The loop of the scan: folds the totals over one entry list.
fn aggregate_entries(entries: &Vec<FsNode>, depth: u64, max_depth: u64) -> (r: (u64, usize, usize))
    ensures
        r.0 == sat_u64(agg_entries(entries@, depth as nat, max_depth as nat).0),
        r.1 == sat_usize(agg_entries(entries@, depth as nat, max_depth as nat).1),
        r.2 == sat_usize(agg_entries(entries@, depth as nat, max_depth as nat).2),
    decreases entries@,
{
    let ghost gdepth = depth as nat;
    let ghost gmax = max_depth as nat;
    let mut size: u64 = 0;
    let mut files: usize = 0;
    let mut dirs: usize = 0;
    let mut i: usize = 0;
    proof {
        assert(entries@.take(0) =~= Seq::<FsNode>::empty());
    }
    while i < entries.len()
        invariant
            0 <= i <= entries@.len(),
            gdepth == depth as nat,
            gmax == max_depth as nat,
            size == sat_u64(agg_entries(entries@.take(i as int), gdepth, gmax).0),
            files == sat_usize(agg_entries(entries@.take(i as int), gdepth, gmax).1),
            dirs == sat_usize(agg_entries(entries@.take(i as int), gdepth, gmax).2),
        decreases entries@.len() - i,
    {
        let ghost prev = entries@.take(i as int);
        let ghost cur = entries@.take(i + 1);
        proof {
            assert(cur.drop_last() =~= prev);
            assert(cur.last() == entries@[i as int]);
        }
        match &entries[i] {
            FsNode::File { size: fsize } => {
                proof {
                    lemma_sat_u64_add(agg_entries(prev, gdepth, gmax).0, *fsize as nat);
                    lemma_sat_usize_add(agg_entries(prev, gdepth, gmax).1, 1);
                }
                size = size.saturating_add(*fsize);
                files = files.saturating_add(1);
            },
            FsNode::Dir { .. } => {
                proof {
                    assert(decreases_to!(entries@ => entries@[i as int]));
                }
                let sub = if depth < max_depth {
                    aggregate_dir(&entries[i], depth + 1, max_depth)
                } else {
                    (0, 0, 0)
                };
                let ghost gsub = agg_dir(entries@[i as int], gdepth + 1, gmax);
                proof {
                    if !(gdepth < gmax) {
                        assert(gsub == (0nat, 0nat, 0nat));
                    }
                    lemma_sat_u64_add(agg_entries(prev, gdepth, gmax).0, gsub.0);
                    lemma_sat_usize_add(agg_entries(prev, gdepth, gmax).1, gsub.1);
                    lemma_sat_usize_add((agg_entries(prev, gdepth, gmax).2 + 1) as nat, gsub.2);
                    lemma_sat_usize_add(agg_entries(prev, gdepth, gmax).2, 1);
                }
                size = size.saturating_add(sub.0);
                files = files.saturating_add(sub.1);
                dirs = dirs.saturating_add(1);
                dirs = dirs.saturating_add(sub.2);
            },
        }
        i += 1;
    }
    proof {
        assert(entries@.take(entries@.len() as int) =~= entries@);
    }
    (size, files, dirs)
}

/// The totals (size in bytes, file count) of scanning the directory
/// snapshot `n` with no depth limit, as the cleanup scanner does. Scanning
/// a file yields nothing, mirroring a directory read that fails on a
/// non-directory.
pub open spec fn agg_all_dir(n: FsNode) -> (nat, nat)
    decreases n,
{
    match n {
        FsNode::File { .. } => (0, 0),
        FsNode::Dir { entries } => agg_all_entries(entries@),
    }
}

/// The unlimited-depth totals of a directory's entry list.
pub open spec fn agg_all_entries(s: Seq<FsNode>) -> (nat, nat)
    decreases s,
{
    if s.len() == 0 {
        (0, 0)
    } else {
        let rest = agg_all_entries(s.drop_last());
        match s.last() {
            FsNode::File { size } => ((rest.0 + size) as nat, (rest.1 + 1) as nat),
            FsNode::Dir { .. } => {
                let sub = agg_all_dir(s.last());
                ((rest.0 + sub.0) as nat, (rest.1 + sub.1) as nat)
            },
        }
    }
}

/// Runs the unlimited-depth scan over a snapshot, returning the clamped
/// totals (size in bytes, file count) of `agg_all_dir`.
pub fn aggregate_all_dir(n: &FsNode) -> (r: (u64, usize))
    ensures
        r.0 == sat_u64(agg_all_dir(*n).0),
        r.1 == sat_usize(agg_all_dir(*n).1),
    decreases *n,
{
    match n {
        FsNode::File { .. } => (0, 0),
        FsNode::Dir { entries } => aggregate_all_entries(entries),
    }
}

/// The loop of the unlimited-depth scan: folds the totals over one entry
/// list.
fn aggregate_all_entries(entries: &Vec<FsNode>) -> (r: (u64, usize))
    ensures
        r.0 == sat_u64(agg_all_entries(entries@).0),
        r.1 == sat_usize(agg_all_entries(entries@).1),
    decreases entries@,
{
    let mut size: u64 = 0;
    let mut files: usize = 0;
    let mut i: usize = 0;
    proof {
        assert(entries@.take(0) =~= Seq::<FsNode>::empty());
    }
    while i < entries.len()
        invariant
            0 <= i <= entries@.len(),
            size == sat_u64(agg_all_entries(entries@.take(i as int)).0),
            files == sat_usize(agg_all_entries(entries@.take(i as int)).1),
        decreases entries@.len() - i,
    {
        let ghost prev = entries@.take(i as int);
        let ghost cur = entries@.take(i + 1);
        proof {
            assert(cur.drop_last() =~= prev);
            assert(cur.last() == entries@[i as int]);
        }
        match &entries[i] {
            FsNode::File { size: fsize } => {
                proof {
                    lemma_sat_u64_add(agg_all_entries(prev).0, *fsize as nat);
                    lemma_sat_usize_add(agg_all_entries(prev).1, 1);
                }
                size = size.saturating_add(*fsize);
                files = files.saturating_add(1);
            },
            FsNode::Dir { .. } => {
                proof {
                    assert(decreases_to!(entries@ => entries@[i as int]));
                }
                let sub = aggregate_all_dir(&entries[i]);
                let ghost gsub = agg_all_dir(entries@[i as int]);
                proof {
                    lemma_sat_u64_add(agg_all_entries(prev).0, gsub.0);
                    lemma_sat_usize_add(agg_all_entries(prev).1, gsub.1);
                }
                size = size.saturating_add(sub.0);
                files = files.saturating_add(sub.1);
            },
        }
        i += 1;
    }
    proof {
        assert(entries@.take(entries@.len() as int) =~= entries@);
    }
    (size, files)
}

/// Scanning at a higher depth limit never lowers any of the three totals:
/// the aggregate is monotonic in the depth bound.
pub proof fn lemma_agg_monotonic_in_depth(n: FsNode, depth: nat, limit1: nat, limit2: nat)
    requires
        limit1 <= limit2,
    ensures
        agg_dir(n, depth, limit1).0 <= agg_dir(n, depth, limit2).0,
        agg_dir(n, depth, limit1).1 <= agg_dir(n, depth, limit2).1,
        agg_dir(n, depth, limit1).2 <= agg_dir(n, depth, limit2).2,
    decreases n,
{
    if depth <= limit1 {
        match n {
            FsNode::File { .. } => {},
            FsNode::Dir { entries } => {
                lemma_agg_entries_monotonic_in_depth(entries@, depth, limit1, limit2);
            },
        }
    }
}

/// Monotonicity of the depth bound, over a directory's entry list.
pub proof fn lemma_agg_entries_monotonic_in_depth(
    s: Seq<FsNode>,
    depth: nat,
    limit1: nat,
    limit2: nat,
)
    requires
        limit1 <= limit2,
    ensures
        agg_entries(s, depth, limit1).0 <= agg_entries(s, depth, limit2).0,
        agg_entries(s, depth, limit1).1 <= agg_entries(s, depth, limit2).1,
        agg_entries(s, depth, limit1).2 <= agg_entries(s, depth, limit2).2,
    decreases s,
{
    if s.len() > 0 {
        lemma_agg_entries_monotonic_in_depth(s.drop_last(), depth, limit1, limit2);
        match s.last() {
            FsNode::File { .. } => {},
            FsNode::Dir { .. } => {
                lemma_agg_monotonic_in_depth(s.last(), depth + 1, limit1, limit2);
            },
        }
    }
}

/// Scanning an empty directory yields zero size and zero counts, at every
/// depth and every limit.
pub proof fn lemma_agg_empty_dir(entries: Vec<FsNode>, depth: nat, max_depth: nat)
    requires
        entries@.len() == 0,
    ensures
        agg_dir(FsNode::Dir { entries }, depth, max_depth) == (0nat, 0nat, 0nat),
{
}

} // verus!
