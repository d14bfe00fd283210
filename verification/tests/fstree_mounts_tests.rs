use syshealth::fstree::{aggregate_all_dir, aggregate_dir, FsNode};
use syshealth::mounts::{
    get_mount_points, is_virtual_fs_type, mount_from_stats, parse_mount_line, MountPoint,
};

fn file(size: u64) -> FsNode {
    FsNode::File { size }
}

fn dir(entries: Vec<FsNode>) -> FsNode {
    FsNode::Dir { entries }
}

#[test]
fn empty_directory_aggregates_to_zero() {
    let d = dir(vec![]);
    assert_eq!(aggregate_dir(&d, 0, 0), (0, 0, 0));
    assert_eq!(aggregate_dir(&d, 0, 100), (0, 0, 0));
    assert_eq!(aggregate_all_dir(&d), (0, 0));
}

#[test]
fn nested_aggregation_respects_depth_bound() {
    let tree = dir(vec![file(10), dir(vec![file(5), dir(vec![file(3)])])]);
    assert_eq!(aggregate_dir(&tree, 0, 0), (10, 1, 1));
    assert_eq!(aggregate_dir(&tree, 0, 1), (15, 2, 2));
    assert_eq!(aggregate_dir(&tree, 0, 2), (18, 3, 2));
    assert_eq!(aggregate_dir(&tree, 0, 3), (18, 3, 2));
}

#[test]
fn aggregation_is_monotonic_in_depth_on_example() {
    let tree = dir(vec![
        file(1),
        dir(vec![file(2), dir(vec![file(4), dir(vec![file(8)])])]),
    ]);
    let mut prev = aggregate_dir(&tree, 0, 0);
    for limit in 1..6u64 {
        let cur = aggregate_dir(&tree, 0, limit);
        assert!(cur.0 >= prev.0 && cur.1 >= prev.1 && cur.2 >= prev.2);
        prev = cur;
    }
}

#[test]
fn unlimited_aggregation_sees_everything() {
    let tree = dir(vec![file(10), dir(vec![file(5), dir(vec![file(3)])])]);
    assert_eq!(aggregate_all_dir(&tree), (18, 3));
}

#[test]
fn aggregation_over_a_file_yields_nothing() {
    let f = file(99);
    assert_eq!(aggregate_dir(&f, 0, 5), (0, 0, 0));
    assert_eq!(aggregate_all_dir(&f), (0, 0));
}

#[test]
fn mount_line_parsing() {
    let parsed = parse_mount_line("/dev/sda1 / ext4 rw,relatime 0 0");
    assert_eq!(
        parsed,
        Some((
            String::from("/dev/sda1"),
            String::from("/"),
            String::from("ext4")
        ))
    );
    assert_eq!(parse_mount_line(""), None);
    assert_eq!(parse_mount_line("two fields"), None);
    assert_eq!(
        parse_mount_line("a b c"),
        Some((String::from("a"), String::from("b"), String::from("c")))
    );
}

#[test]
fn virtual_filesystem_exclusion_set() {
    assert!(is_virtual_fs_type("tmpfs"));
    assert!(is_virtual_fs_type("devtmpfs"));
    assert!(is_virtual_fs_type("proc"));
    assert!(is_virtual_fs_type("sysfs"));
    assert!(is_virtual_fs_type("cgroup"));
    assert!(is_virtual_fs_type("devpts"));
    assert!(is_virtual_fs_type("fuseblk"));
    assert!(is_virtual_fs_type("fuse.sshfs"));
    assert!(!is_virtual_fs_type("ext4"));
    assert!(!is_virtual_fs_type("btrfs"));
    assert!(!is_virtual_fs_type("xfs"));
}

#[test]
fn mount_record_from_block_stats() {
    let m = mount_from_stats(
        String::from("/dev/sda1"),
        String::from("/"),
        String::from("ext4"),
        4096,
        1000,
        500,
        400,
    );
    assert_eq!(m.total, 4096000);
    assert_eq!(m.used, 2048000);
    assert_eq!(m.available, 1638400);
    assert_eq!(m.device, "/dev/sda1");
    assert_eq!(m.mount_point, "/");
    assert_eq!(m.fs_type, "ext4");
}

#[test]
fn used_percentage_bounds() {
    let m = MountPoint {
        device: String::from("d"),
        mount_point: String::from("/"),
        fs_type: String::from("ext4"),
        total: 1000,
        used: 250,
        available: 700,
    };
    assert_eq!(m.used_percentage(), 25);
    let empty = MountPoint {
        device: String::from("d"),
        mount_point: String::from("/"),
        fs_type: String::from("ext4"),
        total: 0,
        used: 0,
        available: 0,
    };
    assert_eq!(empty.used_percentage(), 0);
    let full = MountPoint {
        device: String::from("d"),
        mount_point: String::from("/"),
        fs_type: String::from("ext4"),
        total: 1000,
        used: 1000,
        available: 0,
    };
    assert_eq!(full.used_percentage(), 100);
}

#[test]
fn mount_enumeration_from_table_text() {
    assert_eq!(get_mount_points("").len(), 0);
    assert_eq!(get_mount_points("mangled line\n").len(), 0);
    // A virtual filesystem type is excluded before any capacity query.
    assert_eq!(get_mount_points("tmpfs /run tmpfs rw 0 0\n").len(), 0);
    // A mount path that does not exist fails its capacity query and is
    // silently omitted.
    assert_eq!(
        get_mount_points("x /no-such-path-for-sure-9f3a ext4 rw 0 0\n").len(),
        0
    );
    // The root filesystem exists, so its query succeeds.
    let mounts = get_mount_points("rootdev / ext4 rw 0 0\n");
    assert_eq!(mounts.len(), 1);
    let m = &mounts[0];
    assert_eq!(m.device, "rootdev");
    assert_eq!(m.mount_point, "/");
    assert_eq!(m.fs_type, "ext4");
    assert!(m.used <= m.total);
    assert!(m.used_percentage() <= 100);
}

#[test]
fn mount_enumeration_keeps_table_order() {
    let table = "first / ext4 rw 0 0\ntmpfs /run tmpfs rw 0 0\nsecond / btrfs rw 0 0\n";
    let mounts = get_mount_points(table);
    assert_eq!(mounts.len(), 2);
    assert_eq!(mounts[0].device, "first");
    assert_eq!(mounts[0].fs_type, "ext4");
    assert_eq!(mounts[1].device, "second");
    assert_eq!(mounts[1].fs_type, "btrfs");
}
