use syshealth::folders::{
    analyze_folder, common_folder_candidates, get_cleanup_suggestions, get_common_large_folders,
    sort_folders_desc, CandidateSnapshot, FolderInfo, NamedNode, LARGE_FOLDER_SCAN_DEPTH,
};
use syshealth::fstree::FsNode;

fn file(size: u64) -> FsNode {
    FsNode::File { size }
}

fn dir(entries: Vec<FsNode>) -> FsNode {
    FsNode::Dir { entries }
}

fn folder(path: &str, size: u64) -> FolderInfo {
    FolderInfo {
        path: String::from(path),
        size,
        file_count: 0,
        dir_count: 0,
    }
}

#[test]
fn sorting_is_descending_and_keeps_records() {
    let input = vec![folder("a", 5), folder("b", 50), folder("c", 20), folder("d", 50)];
    let out = sort_folders_desc(input);
    assert_eq!(out.len(), 4);
    for w in out.windows(2) {
        assert!(w[0].size >= w[1].size);
    }
    let mut paths: Vec<&str> = out.iter().map(|f| f.path.as_str()).collect();
    paths.sort();
    assert_eq!(paths, vec!["a", "b", "c", "d"]);
}

#[test]
fn analyze_folder_skips_files_and_ranks_directories() {
    let subdirs = vec![
        NamedNode { name: String::from("small"), node: dir(vec![file(10)]) },
        NamedNode { name: String::from("not-a-dir"), node: file(12345) },
        NamedNode { name: String::from("big"), node: dir(vec![file(100), file(200)]) },
    ];
    let out = analyze_folder(subdirs, 3);
    assert_eq!(out.len(), 2);
    assert_eq!(out[0].path, "big");
    assert_eq!(out[0].size, 300);
    assert_eq!(out[0].file_count, 2);
    assert_eq!(out[1].path, "small");
    assert_eq!(out[1].size, 10);
}

#[test]
fn large_folder_report_omits_absent_candidates() {
    let candidates = vec![
        CandidateSnapshot {
            path: String::from("/home/u/.cache"),
            node: Some(dir(vec![file(10)])),
        },
        CandidateSnapshot { path: String::from("/home/u/Downloads"), node: None },
        CandidateSnapshot {
            path: String::from("/home/u/Videos"),
            node: Some(dir(vec![file(500), file(100)])),
        },
    ];
    let out = get_common_large_folders(candidates);
    assert_eq!(out.len(), 2);
    assert_eq!(out[0].path, "/home/u/Videos");
    assert_eq!(out[0].size, 600);
    assert_eq!(out[1].path, "/home/u/.cache");
    assert_eq!(out[1].size, 10);
    for f in &out {
        assert_ne!(f.path, "/home/u/Downloads");
    }
}

#[test]
fn large_folder_report_respects_depth_bound() {
    assert_eq!(LARGE_FOLDER_SCAN_DEPTH, 3);
    // Depth levels: entries of the candidate are level 0; recursion stops
    // after the bound, so a file five directories down is not counted.
    let deep = dir(vec![dir(vec![dir(vec![dir(vec![dir(vec![file(1000)])])])])]);
    let candidates = vec![CandidateSnapshot { path: String::from("/home/u/.cache"), node: Some(deep) }];
    let out = get_common_large_folders(candidates);
    assert_eq!(out.len(), 1);
    assert_eq!(out[0].size, 0);
    assert_eq!(out[0].dir_count, 4);
}

#[test]
fn candidate_list_is_the_fixed_home_catalogue() {
    let v = common_folder_candidates("/home/u");
    assert_eq!(
        v,
        vec![
            "/home/u/.cache",
            "/home/u/.local/share",
            "/home/u/Downloads",
            "/home/u/Documents",
            "/home/u/Pictures",
            "/home/u/Videos",
            "/home/u/Music",
            "/home/u/.config",
        ]
    );
}

#[test]
fn cleanup_suggestions_are_fixed() {
    let v = get_cleanup_suggestions();
    assert_eq!(v.len(), 6);
    assert_eq!(v[0], "Clear package cache: sudo apt-get clean");
    assert_eq!(v[1], "Remove old kernels: sudo apt-get autoremove");
    assert_eq!(v[2], "Clear thumbnail cache: rm -rf ~/.cache/thumbnails/*");
    assert_eq!(v[3], "Empty trash: rm -rf ~/.local/share/Trash/*");
    assert_eq!(
        v[4],
        "Clear browser cache in ~/.cache/mozilla or ~/.cache/google-chrome"
    );
    assert_eq!(v[5], "Remove unused Flatpak runtimes: flatpak uninstall --unused");
}
