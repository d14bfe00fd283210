use syshealth::bytesize::{format_cleaner_size, format_memory, format_mount_size, format_uptime};
use syshealth::cleaner;
use syshealth::folders::FolderInfo;
use syshealth::mounts::MountPoint;
use syshealth::strutil::{to_decimal, to_two_digits};

#[test]
fn decimal_rendering() {
    assert_eq!(to_decimal(0), "0");
    assert_eq!(to_decimal(7), "7");
    assert_eq!(to_decimal(10), "10");
    assert_eq!(to_decimal(12034), "12034");
    assert_eq!(to_decimal(u64::MAX), "18446744073709551615");
    assert_eq!(to_two_digits(0), "00");
    assert_eq!(to_two_digits(5), "05");
    assert_eq!(to_two_digits(42), "42");
}

#[test]
fn mount_variant_small_values() {
    assert_eq!(format_mount_size(0), "0 KB");
    assert_eq!(format_mount_size(500), "0 KB");
    assert_eq!(format_mount_size(1024), "1 KB");
    assert_eq!(format_mount_size(1500), "1 KB");
    assert_eq!(format_mount_size(1048575), "1023 KB");
}

#[test]
fn mount_variant_two_mib() {
    assert_eq!(format_mount_size(2097152), "2.00 MB");
}

#[test]
fn mount_variant_three_gib() {
    assert_eq!(format_mount_size(3221225472), "3.00 GB");
}

#[test]
fn mount_variant_fractions() {
    assert_eq!(format_mount_size(1572864), "1.50 MB");
    assert_eq!(format_mount_size(1610612736), "1.50 GB");
}

#[test]
fn cleaner_variant_bytes() {
    assert_eq!(cleaner::format_size(0), "0 B");
    assert_eq!(cleaner::format_size(500), "500 B");
    assert_eq!(cleaner::format_size(1023), "1023 B");
}

#[test]
fn cleaner_variant_kb_with_decimals() {
    assert_eq!(cleaner::format_size(1024), "1.00 KB");
    assert_eq!(cleaner::format_size(1536), "1.50 KB");
}

#[test]
fn cleaner_variant_larger_units() {
    assert_eq!(cleaner::format_size(2097152), "2.00 MB");
    assert_eq!(cleaner::format_size(3221225472), "3.00 GB");
}

#[test]
fn formatter_variants_agree_with_struct_methods() {
    assert_eq!(MountPoint::format_size(2097152), "2.00 MB");
    let folder = FolderInfo {
        path: String::from("/tmp/example"),
        size: 3221225472,
        file_count: 1,
        dir_count: 0,
    };
    assert_eq!(folder.format_size(), "3.00 GB");
}

#[test]
fn memory_formatting() {
    assert_eq!(format_memory(1073741824), "1.00 GB");
    assert_eq!(format_memory(536870912), "512.00 MB");
    assert_eq!(format_memory(0), "0.00 MB");
}

#[test]
fn uptime_formatting() {
    assert_eq!(format_uptime(120), "2 minutes");
    assert_eq!(format_uptime(0), "0 minutes");
    assert_eq!(format_uptime(3700), "1 hours, 1 minutes");
    assert_eq!(format_uptime(90061), "1 days, 1 hours");
    assert_eq!(format_uptime(86400), "1 days, 0 hours");
}
