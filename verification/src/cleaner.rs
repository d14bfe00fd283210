//! Cleanup scanning and the category-to-action mapping.
//!
//! A fixed catalogue maps each cleanup category to one or more candidate
//! filesystem paths. The caller snapshots those paths (see
//! [`crate::fstree`]) and hands the snapshots here; the scan aggregates
//! each category at unlimited depth and reports one sizing record per
//! included category, in the fixed catalogue order. Execution of a
//! category's reclaiming action is described as a value — a direct
//! directory clear or a delegated privileged command — which the caller
//! performs.

use vstd::prelude::*;
use vstd::string::StringExecFns;

use crate::bytesize::{cleaner_size_str, format_cleaner_size};
use crate::folders::join_path;
use crate::fstree::{agg_all_dir, aggregate_all_dir, sat_u64, sat_usize, FsNode};

verus! {

/// The closed set of cleanup categories.
#[derive(Debug, Clone, Copy, PartialEq, Eq, Structural)]
pub enum CleanupCategory {
    PackageCache,
    Thumbnails,
    Trash,
    Logs,
    OldKernels,
    BrowserCache,
    TempFiles,
}

impl CleanupCategory {
    /// The category's display name.
    pub open spec fn spec_name(self) -> Seq<char> {
        match self {
            CleanupCategory::PackageCache => "Package Cache"@,
            CleanupCategory::Thumbnails => "Thumbnail Cache"@,
            CleanupCategory::Trash => "Trash"@,
            CleanupCategory::Logs => "Old System Logs"@,
            CleanupCategory::OldKernels => "Old Kernels"@,
            CleanupCategory::BrowserCache => "Browser Cache"@,
            CleanupCategory::TempFiles => "Temporary Files"@,
        }
    }

    /// Returns the display name, exactly as `spec_name` describes.
    pub fn name(&self) -> (r: &'static str)
        ensures
            r@ == self.spec_name(),
    {
        match self {
            CleanupCategory::PackageCache => "Package Cache",
            CleanupCategory::Thumbnails => "Thumbnail Cache",
            CleanupCategory::Trash => "Trash",
            CleanupCategory::Logs => "Old System Logs",
            CleanupCategory::OldKernels => "Old Kernels",
            CleanupCategory::BrowserCache => "Browser Cache",
            CleanupCategory::TempFiles => "Temporary Files",
        }
    }

    /// The category's description.
    pub open spec fn spec_description(self) -> Seq<char> {
        match self {
            CleanupCategory::PackageCache => "APT package cache and downloaded .deb files"@,
            CleanupCategory::Thumbnails => "Cached thumbnail images"@,
            CleanupCategory::Trash => "Files in trash bin"@,
            CleanupCategory::Logs => "Rotated and old system log files"@,
            CleanupCategory::OldKernels => "Old kernel versions (keeps current and one previous)"@,
            CleanupCategory::BrowserCache => "Firefox and Chrome cache files"@,
            CleanupCategory::TempFiles => "Temporary files in /tmp and /var/tmp"@,
        }
    }

    /// Returns the description, exactly as `spec_description` describes.
    pub fn description(&self) -> (r: &'static str)
        ensures
            r@ == self.spec_description(),
    {
        match self {
            CleanupCategory::PackageCache => "APT package cache and downloaded .deb files",
            CleanupCategory::Thumbnails => "Cached thumbnail images",
            CleanupCategory::Trash => "Files in trash bin",
            CleanupCategory::Logs => "Rotated and old system log files",
            CleanupCategory::OldKernels => "Old kernel versions (keeps current and one previous)",
            CleanupCategory::BrowserCache => "Firefox and Chrome cache files",
            CleanupCategory::TempFiles => "Temporary files in /tmp and /var/tmp",
        }
    }
}

/// One reported cleanup opportunity: the category, its aggregate size and
/// file count, and the candidate paths that existed and were scanned.
#[derive(Debug, Clone)]
pub struct CleanupItem {
    pub category: CleanupCategory,
    pub size: u64,
    pub count: usize,
    pub paths: Vec<String>,
}

/// The fixed priority order in which categories are scanned and reported.
pub open spec fn spec_category_order() -> Seq<CleanupCategory> {
    seq![
        CleanupCategory::PackageCache,
        CleanupCategory::Thumbnails,
        CleanupCategory::Trash,
        CleanupCategory::Logs,
        CleanupCategory::OldKernels,
        CleanupCategory::BrowserCache,
        CleanupCategory::TempFiles,
    ]
}

/// Returns the fixed category order, exactly as `spec_category_order`
/// describes.
pub fn category_order() -> (v: Vec<CleanupCategory>)
    ensures
        v@ == spec_category_order(),
{
    let mut v: Vec<CleanupCategory> = Vec::new();
    v.push(CleanupCategory::PackageCache);
    v.push(CleanupCategory::Thumbnails);
    v.push(CleanupCategory::Trash);
    v.push(CleanupCategory::Logs);
    v.push(CleanupCategory::OldKernels);
    v.push(CleanupCategory::BrowserCache);
    v.push(CleanupCategory::TempFiles);
    proof {
        assert(v@ =~= spec_category_order());
    }
    v
}

/// The candidate paths scanned for each category under the given home
/// directory. Old kernels have no scannable path: that category is never
/// reported by the scan, only acted on.
pub open spec fn spec_scan_paths(c: CleanupCategory, home: Seq<char>) -> Seq<Seq<char>> {
    match c {
        CleanupCategory::PackageCache => seq!["/var/cache/apt/archives"@],
        CleanupCategory::Thumbnails => seq![home + "/.cache/thumbnails"@],
        CleanupCategory::Trash => seq![home + "/.local/share/Trash/files"@],
        CleanupCategory::Logs => seq!["/var/log/journal"@],
        CleanupCategory::OldKernels => seq![],
        CleanupCategory::BrowserCache => seq![
            home + "/.cache/mozilla/firefox"@,
            home + "/.cache/google-chrome"@,
        ],
        CleanupCategory::TempFiles => seq!["/tmp"@],
    }
}

/// Builds a category's candidate path list, exactly as `spec_scan_paths`
/// describes.
pub fn cleanup_scan_paths(c: &CleanupCategory, home: &str) -> (v: Vec<String>)
    ensures
        v.deep_view() == spec_scan_paths(*c, home@),
{
    let mut v: Vec<String> = Vec::new();
    match c {
        CleanupCategory::PackageCache => {
            v.push(String::from_str("/var/cache/apt/archives"));
        },
        CleanupCategory::Thumbnails => {
            v.push(join_path(home, "/.cache/thumbnails"));
        },
        CleanupCategory::Trash => {
            v.push(join_path(home, "/.local/share/Trash/files"));
        },
        CleanupCategory::Logs => {
            v.push(String::from_str("/var/log/journal"));
        },
        CleanupCategory::OldKernels => {},
        CleanupCategory::BrowserCache => {
            v.push(join_path(home, "/.cache/mozilla/firefox"));
            v.push(join_path(home, "/.cache/google-chrome"));
        },
        CleanupCategory::TempFiles => {
            v.push(String::from_str("/tmp"));
        },
    }
    proof {
        assert(v.deep_view() =~= spec_scan_paths(*c, home@));
    }
    v
}

/// One candidate path with its snapshot: `None` when the path does not
/// exist.
pub struct PathSnapshot {
    pub path: String,
    pub node: Option<FsNode>,
}

/// One category's candidate snapshots, as handed to the scan.
pub struct CategoryScan {
    pub category: CleanupCategory,
    pub snapshots: Vec<PathSnapshot>,
}

/// The summed unlimited-depth totals (size in bytes, file count) over the
/// present candidate paths.
pub open spec fn scan_totals(snaps: Seq<PathSnapshot>) -> (nat, nat)
    decreases snaps.len(),
{
    if snaps.len() == 0 {
        (0, 0)
    } else {
        let rest = scan_totals(snaps.drop_last());
        match snaps.last().node {
            Some(n) => ((rest.0 + agg_all_dir(n).0) as nat, (rest.1 + agg_all_dir(n).1) as nat),
            None => rest,
        }
    }
}

/// The paths of the present candidates, in input order.
pub open spec fn present_paths(snaps: Seq<PathSnapshot>) -> Seq<Seq<char>>
    decreases snaps.len(),
{
    if snaps.len() == 0 {
        seq![]
    } else {
        let rest = present_paths(snaps.drop_last());
        if snaps.last().node is Some {
            rest.push(snaps.last().path@)
        } else {
            rest
        }
    }
}

/// Whether a category is reported: at least one of its candidate paths
/// exists, and the temporary-files category additionally only when its
/// file count is positive.
pub open spec fn category_included(cs: CategoryScan) -> bool {
    present_paths(cs.snapshots@).len() > 0 && (cs.category == CleanupCategory::TempFiles
        ==> scan_totals(cs.snapshots@).1 > 0)
}

/// The scans that the report keeps, in input order.
pub open spec fn included_scans(scans: Seq<CategoryScan>) -> Seq<CategoryScan>
    decreases scans.len(),
{
    if scans.len() == 0 {
        seq![]
    } else {
        let rest = included_scans(scans.drop_last());
        if category_included(scans.last()) {
            rest.push(scans.last())
        } else {
            rest
        }
    }
}

/// Whether a reported item is the record of one kept scan: same category,
/// the clamped summed totals, and exactly the present paths.
pub open spec fn item_matches(item: CleanupItem, cs: CategoryScan) -> bool {
    &&& item.category == cs.category
    &&& item.size == sat_u64(scan_totals(cs.snapshots@).0)
    &&& item.count == sat_usize(scan_totals(cs.snapshots@).1)
    &&& item.paths.deep_view() == present_paths(cs.snapshots@)
}

/// Scans the given category snapshots and reports one sizing record per
/// included category, in input order. A category whose candidate paths are
/// all absent is omitted, never reported as zero; the temporary-files
/// category is additionally omitted when it holds no files.
pub fn scan_cleanable_items(scans: Vec<CategoryScan>) -> (r: Vec<CleanupItem>)
    ensures
        r@.len() == included_scans(scans@).len(),
        forall|i: int|
            0 <= i < r@.len() ==> item_matches(#[trigger] r@[i], included_scans(scans@)[i]),
{
    let ghost orig = scans@;
    let mut rest = scans;
    let mut items: Vec<CleanupItem> = Vec::new();
    let ghost mut i: int = 0;
    proof {
        assert(orig.skip(0) =~= orig);
        assert(orig.take(0) =~= Seq::<CategoryScan>::empty());
    }
    while rest.len() > 0
        invariant
            0 <= i <= orig.len(),
            rest@ == orig.skip(i),
            items@.len() == included_scans(orig.take(i)).len(),
            forall|m: int|
                0 <= m < items@.len() ==> item_matches(
                    #[trigger] items@[m],
                    included_scans(orig.take(i))[m],
                ),
        decreases rest@.len(),
    {
        let cs = rest.remove(0);
        proof {
            assert(orig.skip(i).remove(0) =~= orig.skip(i + 1));
            assert(cs == orig[i]);
            assert(orig.take(i + 1).drop_last() =~= orig.take(i));
            assert(orig.take(i + 1).last() == orig[i]);
        }
        let CategoryScan { category, snapshots } = cs;
        let ghost snaps_view = snapshots@;
        let mut snaps = snapshots;
        let mut size: u64 = 0;
        let mut count: usize = 0;
        let mut paths: Vec<String> = Vec::new();
        let ghost mut k: int = 0;
        proof {
            assert(snaps_view.skip(0) =~= snaps_view);
            assert(snaps_view.take(0) =~= Seq::<PathSnapshot>::empty());
            assert(paths.deep_view() =~= Seq::<Seq<char>>::empty());
        }
        while snaps.len() > 0
            invariant
                0 <= k <= snaps_view.len(),
                snaps@ == snaps_view.skip(k),
                size == sat_u64(scan_totals(snaps_view.take(k)).0),
                count == sat_usize(scan_totals(snaps_view.take(k)).1),
                paths.deep_view() == present_paths(snaps_view.take(k)),
            decreases snaps@.len(),
        {
            let ps = snaps.remove(0);
            proof {
                assert(snaps_view.skip(k).remove(0) =~= snaps_view.skip(k + 1));
                assert(ps == snaps_view[k]);
                assert(snaps_view.take(k + 1).drop_last() =~= snaps_view.take(k));
                assert(snaps_view.take(k + 1).last() == snaps_view[k]);
            }
            match ps.node {
                Some(node) => {
                    let totals = aggregate_all_dir(&node);
                    proof {
                        crate::fstree::lemma_sat_u64_add(
                            scan_totals(snaps_view.take(k)).0,
                            agg_all_dir(node).0,
                        );
                        crate::fstree::lemma_sat_usize_add(
                            scan_totals(snaps_view.take(k)).1,
                            agg_all_dir(node).1,
                        );
                    }
                    size = size.saturating_add(totals.0);
                    count = count.saturating_add(totals.1);
                    let ghost paths_before = paths.deep_view();
                    paths.push(ps.path);
                    proof {
                        assert(paths.deep_view() =~= paths_before.push(
                            snaps_view[k].path@,
                        ));
                    }
                },
                None => {},
            }
            proof {
                k = k + 1;
            }
        }
        proof {
            assert(snaps_view.take(snaps_view.len() as int) =~= snaps_view);
        }
        let included = paths.len() > 0 && (!(category == CleanupCategory::TempFiles) || count
            > 0);
        if included {
            let item = CleanupItem { category, size, count, paths };
            items.push(item);
            proof {
                assert(included_scans(orig.take(i + 1)) =~= included_scans(orig.take(i)).push(
                    orig[i],
                ));
            }
        } else {
            proof {
                assert(present_paths(snaps_view).len() == paths.deep_view().len());
                assert(!category_included(orig[i]));
                assert(included_scans(orig.take(i + 1)) =~= included_scans(orig.take(i)));
            }
        }
        proof {
            i = i + 1;
        }
    }
    proof {
        assert(orig.take(orig.len() as int) =~= orig);
    }
    items
}

/// One reclaiming action: clear each existing directory's contents while
/// preserving the directory itself, or delegate to an external privileged
/// command.
pub enum CleanupAction {
    ClearDirectories { paths: Vec<String> },
    PrivilegedCommand { program: String, args: Vec<String> },
}

/// Whether `a` is the privileged command `prog` with arguments `args`.
pub open spec fn is_command_action(a: CleanupAction, prog: Seq<char>, args: Seq<Seq<char>>) -> bool {
    match a {
        CleanupAction::PrivilegedCommand { program, args: ar } => program@ == prog
            && ar.deep_view() == args,
        _ => false,
    }
}

/// Whether `a` is a direct clear of exactly the directories `paths`.
pub open spec fn is_clear_action(a: CleanupAction, paths: Seq<Seq<char>>) -> bool {
    match a {
        CleanupAction::ClearDirectories { paths: p } => p.deep_view() == paths,
        _ => false,
    }
}

/// The fixed category-to-action mapping: which directories a category's
/// cleanup clears directly, or which privileged command it delegates to.
pub open spec fn spec_action_for(a: CleanupAction, c: CleanupCategory, home: Seq<char>) -> bool {
    match c {
        CleanupCategory::PackageCache => is_command_action(
            a,
            "pkexec"@,
            seq!["apt-get"@, "clean"@],
        ),
        CleanupCategory::Thumbnails => is_clear_action(a, seq![home + "/.cache/thumbnails"@]),
        CleanupCategory::Trash => is_clear_action(
            a,
            seq![home + "/.local/share/Trash/files"@, home + "/.local/share/Trash/info"@],
        ),
        CleanupCategory::Logs => is_command_action(
            a,
            "pkexec"@,
            seq!["journalctl"@, "--vacuum-time=7d"@],
        ),
        CleanupCategory::OldKernels => is_command_action(
            a,
            "pkexec"@,
            seq!["apt-get"@, "autoremove"@, "--purge"@, "-y"@],
        ),
        CleanupCategory::BrowserCache => is_clear_action(
            a,
            seq![home + "/.cache/mozilla/firefox"@, home + "/.cache/google-chrome"@],
        ),
        CleanupCategory::TempFiles => is_command_action(
            a,
            "pkexec"@,
            seq!["rm"@, "-rf"@, "/tmp/*"@],
        ),
    }
}

/// Maps a category to its reclaiming action under the given home
/// directory, exactly as `spec_action_for` describes. The caller performs
/// the action; each category's outcome is independent of the others.
pub fn cleanup_action(category: &CleanupCategory, home: &str) -> (a: CleanupAction)
    ensures
        spec_action_for(a, *category, home@),
{
    match category {
        CleanupCategory::PackageCache => {
            let mut args: Vec<String> = Vec::new();
            args.push(String::from_str("apt-get"));
            args.push(String::from_str("clean"));
            proof {
                assert(args.deep_view() =~= seq!["apt-get"@, "clean"@]);
            }
            CleanupAction::PrivilegedCommand { program: String::from_str("pkexec"), args }
        },
        CleanupCategory::Thumbnails => {
            let mut paths: Vec<String> = Vec::new();
            paths.push(join_path(home, "/.cache/thumbnails"));
            proof {
                assert(paths.deep_view() =~= seq![home@ + "/.cache/thumbnails"@]);
            }
            CleanupAction::ClearDirectories { paths }
        },
        CleanupCategory::Trash => {
            let mut paths: Vec<String> = Vec::new();
            paths.push(join_path(home, "/.local/share/Trash/files"));
            paths.push(join_path(home, "/.local/share/Trash/info"));
            proof {
                assert(paths.deep_view() =~= seq![
                    home@ + "/.local/share/Trash/files"@,
                    home@ + "/.local/share/Trash/info"@,
                ]);
            }
            CleanupAction::ClearDirectories { paths }
        },
        CleanupCategory::Logs => {
            let mut args: Vec<String> = Vec::new();
            args.push(String::from_str("journalctl"));
            args.push(String::from_str("--vacuum-time=7d"));
            proof {
                assert(args.deep_view() =~= seq!["journalctl"@, "--vacuum-time=7d"@]);
            }
            CleanupAction::PrivilegedCommand { program: String::from_str("pkexec"), args }
        },
        CleanupCategory::OldKernels => {
            let mut args: Vec<String> = Vec::new();
            args.push(String::from_str("apt-get"));
            args.push(String::from_str("autoremove"));
            args.push(String::from_str("--purge"));
            args.push(String::from_str("-y"));
            proof {
                assert(args.deep_view() =~= seq![
                    "apt-get"@,
                    "autoremove"@,
                    "--purge"@,
                    "-y"@,
                ]);
            }
            CleanupAction::PrivilegedCommand { program: String::from_str("pkexec"), args }
        },
        CleanupCategory::BrowserCache => {
            let mut paths: Vec<String> = Vec::new();
            paths.push(join_path(home, "/.cache/mozilla/firefox"));
            paths.push(join_path(home, "/.cache/google-chrome"));
            proof {
                assert(paths.deep_view() =~= seq![
                    home@ + "/.cache/mozilla/firefox"@,
                    home@ + "/.cache/google-chrome"@,
                ]);
            }
            CleanupAction::ClearDirectories { paths }
        },
        CleanupCategory::TempFiles => {
            let mut args: Vec<String> = Vec::new();
            args.push(String::from_str("rm"));
            args.push(String::from_str("-rf"));
            args.push(String::from_str("/tmp/*"));
            proof {
                assert(args.deep_view() =~= seq!["rm"@, "-rf"@, "/tmp/*"@]);
            }
            CleanupAction::PrivilegedCommand { program: String::from_str("pkexec"), args }
        },
    }
}

/// Formats a byte count under the cleaner policy.
pub fn format_size(bytes: u64) -> (s: String)
    ensures
        s@ == cleaner_size_str(bytes as nat),
{
    format_cleaner_size(bytes)
}

} // verus!
