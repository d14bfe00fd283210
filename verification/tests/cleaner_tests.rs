use syshealth::cleaner::{
    category_order, cleanup_action, cleanup_scan_paths, scan_cleanable_items, CategoryScan,
    CleanupAction, CleanupCategory, PathSnapshot,
};
use syshealth::fstree::FsNode;

fn file(size: u64) -> FsNode {
    FsNode::File { size }
}

fn dir(entries: Vec<FsNode>) -> FsNode {
    FsNode::Dir { entries }
}

#[test]
fn category_names_and_descriptions() {
    assert_eq!(CleanupCategory::PackageCache.name(), "Package Cache");
    assert_eq!(CleanupCategory::Thumbnails.name(), "Thumbnail Cache");
    assert_eq!(CleanupCategory::Trash.name(), "Trash");
    assert_eq!(CleanupCategory::Logs.name(), "Old System Logs");
    assert_eq!(CleanupCategory::OldKernels.name(), "Old Kernels");
    assert_eq!(CleanupCategory::BrowserCache.name(), "Browser Cache");
    assert_eq!(CleanupCategory::TempFiles.name(), "Temporary Files");
    assert_eq!(
        CleanupCategory::PackageCache.description(),
        "APT package cache and downloaded .deb files"
    );
    assert_eq!(
        CleanupCategory::OldKernels.description(),
        "Old kernel versions (keeps current and one previous)"
    );
    assert_eq!(
        CleanupCategory::TempFiles.description(),
        "Temporary files in /tmp and /var/tmp"
    );
}

#[test]
fn fixed_category_order() {
    assert_eq!(
        category_order(),
        vec![
            CleanupCategory::PackageCache,
            CleanupCategory::Thumbnails,
            CleanupCategory::Trash,
            CleanupCategory::Logs,
            CleanupCategory::OldKernels,
            CleanupCategory::BrowserCache,
            CleanupCategory::TempFiles,
        ]
    );
}

#[test]
fn scan_path_catalogue() {
    let home = "/home/u";
    assert_eq!(
        cleanup_scan_paths(&CleanupCategory::PackageCache, home),
        vec!["/var/cache/apt/archives"]
    );
    assert_eq!(
        cleanup_scan_paths(&CleanupCategory::Thumbnails, home),
        vec!["/home/u/.cache/thumbnails"]
    );
    assert_eq!(
        cleanup_scan_paths(&CleanupCategory::Trash, home),
        vec!["/home/u/.local/share/Trash/files"]
    );
    assert_eq!(
        cleanup_scan_paths(&CleanupCategory::Logs, home),
        vec!["/var/log/journal"]
    );
    assert_eq!(
        cleanup_scan_paths(&CleanupCategory::OldKernels, home),
        Vec::<String>::new()
    );
    assert_eq!(
        cleanup_scan_paths(&CleanupCategory::BrowserCache, home),
        vec!["/home/u/.cache/mozilla/firefox", "/home/u/.cache/google-chrome"]
    );
    assert_eq!(cleanup_scan_paths(&CleanupCategory::TempFiles, home), vec!["/tmp"]);
}

#[test]
fn scan_omits_absent_category_and_sizes_present_one() {
    // Absent path: the category is omitted entirely.
    let absent = vec![CategoryScan {
        category: CleanupCategory::Thumbnails,
        snapshots: vec![PathSnapshot {
            path: String::from("/home/u/.cache/thumbnails"),
            node: None,
        }],
    }];
    assert_eq!(scan_cleanable_items(absent).len(), 0);

    // Present path with three files totalling 300 bytes.
    let present = vec![CategoryScan {
        category: CleanupCategory::Thumbnails,
        snapshots: vec![PathSnapshot {
            path: String::from("/home/u/.cache/thumbnails"),
            node: Some(dir(vec![file(100), file(150), file(50)])),
        }],
    }];
    let items = scan_cleanable_items(present);
    assert_eq!(items.len(), 1);
    assert_eq!(items[0].category, CleanupCategory::Thumbnails);
    assert_eq!(items[0].size, 300);
    assert_eq!(items[0].count, 3);
    assert_eq!(items[0].paths, vec!["/home/u/.cache/thumbnails"]);
}

#[test]
fn scan_merges_browser_cache_paths() {
    let scans = vec![CategoryScan {
        category: CleanupCategory::BrowserCache,
        snapshots: vec![
            PathSnapshot {
                path: String::from("/home/u/.cache/mozilla/firefox"),
                node: Some(dir(vec![file(100)])),
            },
            PathSnapshot {
                path: String::from("/home/u/.cache/google-chrome"),
                node: Some(dir(vec![file(200), file(50)])),
            },
        ],
    }];
    let items = scan_cleanable_items(scans);
    assert_eq!(items.len(), 1);
    assert_eq!(items[0].size, 350);
    assert_eq!(items[0].count, 3);
    assert_eq!(
        items[0].paths,
        vec!["/home/u/.cache/mozilla/firefox", "/home/u/.cache/google-chrome"]
    );
}

#[test]
fn scan_keeps_partly_present_merged_category() {
    let scans = vec![CategoryScan {
        category: CleanupCategory::BrowserCache,
        snapshots: vec![
            PathSnapshot {
                path: String::from("/home/u/.cache/mozilla/firefox"),
                node: None,
            },
            PathSnapshot {
                path: String::from("/home/u/.cache/google-chrome"),
                node: Some(dir(vec![file(200)])),
            },
        ],
    }];
    let items = scan_cleanable_items(scans);
    assert_eq!(items.len(), 1);
    assert_eq!(items[0].size, 200);
    assert_eq!(items[0].paths, vec!["/home/u/.cache/google-chrome"]);
}

#[test]
fn scan_drops_empty_temp_files_category() {
    let empty_tmp = vec![CategoryScan {
        category: CleanupCategory::TempFiles,
        snapshots: vec![PathSnapshot {
            path: String::from("/tmp"),
            node: Some(dir(vec![dir(vec![])])),
        }],
    }];
    assert_eq!(scan_cleanable_items(empty_tmp).len(), 0);

    let busy_tmp = vec![CategoryScan {
        category: CleanupCategory::TempFiles,
        snapshots: vec![PathSnapshot {
            path: String::from("/tmp"),
            node: Some(dir(vec![file(7)])),
        }],
    }];
    let items = scan_cleanable_items(busy_tmp);
    assert_eq!(items.len(), 1);
    assert_eq!(items[0].count, 1);
}

#[test]
fn scan_keeps_empty_non_temp_category() {
    // An existing but empty directory still yields an entry for ordinary
    // categories: only the temporary-files category needs a positive count.
    let scans = vec![CategoryScan {
        category: CleanupCategory::PackageCache,
        snapshots: vec![PathSnapshot {
            path: String::from("/var/cache/apt/archives"),
            node: Some(dir(vec![])),
        }],
    }];
    let items = scan_cleanable_items(scans);
    assert_eq!(items.len(), 1);
    assert_eq!(items[0].size, 0);
    assert_eq!(items[0].count, 0);
}

#[test]
fn scan_reports_in_fixed_order() {
    let scans = vec![
        CategoryScan {
            category: CleanupCategory::PackageCache,
            snapshots: vec![PathSnapshot {
                path: String::from("/var/cache/apt/archives"),
                node: Some(dir(vec![file(1)])),
            }],
        },
        CategoryScan {
            category: CleanupCategory::Trash,
            snapshots: vec![PathSnapshot {
                path: String::from("/home/u/.local/share/Trash/files"),
                node: Some(dir(vec![file(2)])),
            }],
        },
    ];
    let items = scan_cleanable_items(scans);
    assert_eq!(items.len(), 2);
    assert_eq!(items[0].category, CleanupCategory::PackageCache);
    assert_eq!(items[1].category, CleanupCategory::Trash);
}

fn expect_command(a: CleanupAction, program: &str, args: Vec<&str>) {
    match a {
        CleanupAction::PrivilegedCommand { program: p, args: ar } => {
            assert_eq!(p, program);
            assert_eq!(ar, args);
        }
        CleanupAction::ClearDirectories { .. } => panic!("expected a command action"),
    }
}

fn expect_clear(a: CleanupAction, paths: Vec<&str>) {
    match a {
        CleanupAction::ClearDirectories { paths: p } => assert_eq!(p, paths),
        CleanupAction::PrivilegedCommand { .. } => panic!("expected a clear action"),
    }
}

#[test]
fn category_action_mapping() {
    let home = "/home/u";
    expect_command(
        cleanup_action(&CleanupCategory::PackageCache, home),
        "pkexec",
        vec!["apt-get", "clean"],
    );
    expect_clear(
        cleanup_action(&CleanupCategory::Thumbnails, home),
        vec!["/home/u/.cache/thumbnails"],
    );
    expect_clear(
        cleanup_action(&CleanupCategory::Trash, home),
        vec![
            "/home/u/.local/share/Trash/files",
            "/home/u/.local/share/Trash/info",
        ],
    );
    expect_command(
        cleanup_action(&CleanupCategory::Logs, home),
        "pkexec",
        vec!["journalctl", "--vacuum-time=7d"],
    );
    expect_command(
        cleanup_action(&CleanupCategory::OldKernels, home),
        "pkexec",
        vec!["apt-get", "autoremove", "--purge", "-y"],
    );
    expect_clear(
        cleanup_action(&CleanupCategory::BrowserCache, home),
        vec![
            "/home/u/.cache/mozilla/firefox",
            "/home/u/.cache/google-chrome",
        ],
    );
    expect_command(
        cleanup_action(&CleanupCategory::TempFiles, home),
        "pkexec",
        vec!["rm", "-rf", "/tmp/*"],
    );
}
