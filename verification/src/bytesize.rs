//! Byte-size and uptime formatters.
//!
//! All sizes use binary (1024-based) units. Two formatting policies exist:
//! the mount/folder policy renders sub-mebibyte sizes as a whole number of
//! kibibytes, while the cleaner policy renders them with two decimal places
//! down to one kibibyte and as plain bytes below that. Fractional parts are
//! rounded half up to two decimal places.

use vstd::prelude::*;
use vstd::string::StringExecFns;

use crate::strutil::{dec_str, to_decimal, to_two_digits, two_digit_str};
use crate::{GIB, KIB, MIB};

verus! {

/// `bytes` scaled to hundredths of `unit`, rounded half up.
pub open spec fn scaled_hundredths(bytes: nat, unit: nat) -> nat {
    (bytes * 100 + unit / 2) / unit
}

/// A size rendered with two decimal places in units of `unit`: the whole
/// part, a point, and a zero-padded two-digit fractional part.
pub open spec fn two_dec_str(bytes: nat, unit: nat) -> Seq<char> {
    let h = scaled_hundredths(bytes, unit);
    dec_str(h / 100) + seq!['.'] + two_digit_str(h % 100)
}

/// Renders `bytes` with two decimal places in units of `unit`.
fn format_two_dec(bytes: u64, unit: u64) -> (s: String)
    requires
        unit == KIB || unit == MIB || unit == GIB,
    ensures
        s@ == two_dec_str(bytes as nat, unit as nat),
{
    let h128: u128 = ((bytes as u128) * 100 + (unit as u128) / 2) / (unit as u128);
    proof {
        assert(h128 <= u64::MAX as u128);
    }
    let h: u64 = h128 as u64;
    let mut s = to_decimal(h / 100);
    s.append(".");
    let frac = to_two_digits(h % 100);
    s.append(frac.as_str());
    proof {
        reveal_strlit(".");
        assert((".")@ =~= seq!['.']);
        assert(s@ =~= two_dec_str(bytes as nat, unit as nat));
    }
    s
}

/// The mount/folder size string: gibibytes or mebibytes with two decimals,
/// and below one mebibyte a whole number of kibibytes.
pub open spec fn mount_size_str(bytes: nat) -> Seq<char> {
    if bytes >= GIB {
        two_dec_str(bytes, GIB as nat) + " GB"@
    } else if bytes >= MIB {
        two_dec_str(bytes, MIB as nat) + " MB"@
    } else {
        dec_str(bytes / (KIB as nat)) + " KB"@
    }
}

/// Renders a size under the mount/folder policy, exactly as
/// `mount_size_str` describes.
pub fn format_mount_size(bytes: u64) -> (s: String)
    ensures
        s@ == mount_size_str(bytes as nat),
{
    if bytes >= GIB {
        let mut s = format_two_dec(bytes, GIB);
        s.append(" GB");
        s
    } else if bytes >= MIB {
        let mut s = format_two_dec(bytes, MIB);
        s.append(" MB");
        s
    } else {
        let mut s = to_decimal(bytes / KIB);
        s.append(" KB");
        s
    }
}

/// The cleaner size string: gibibytes, mebibytes or kibibytes with two
/// decimals, and below one kibibyte a whole number of bytes.
pub open spec fn cleaner_size_str(bytes: nat) -> Seq<char> {
    if bytes >= GIB {
        two_dec_str(bytes, GIB as nat) + " GB"@
    } else if bytes >= MIB {
        two_dec_str(bytes, MIB as nat) + " MB"@
    } else if bytes >= KIB {
        two_dec_str(bytes, KIB as nat) + " KB"@
    } else {
        dec_str(bytes) + " B"@
    }
}

/// Renders a size under the cleaner policy, exactly as `cleaner_size_str`
/// describes.
pub fn format_cleaner_size(bytes: u64) -> (s: String)
    ensures
        s@ == cleaner_size_str(bytes as nat),
{
    if bytes >= GIB {
        let mut s = format_two_dec(bytes, GIB);
        s.append(" GB");
        s
    } else if bytes >= MIB {
        let mut s = format_two_dec(bytes, MIB);
        s.append(" MB");
        s
    } else if bytes >= KIB {
        let mut s = format_two_dec(bytes, KIB);
        s.append(" KB");
        s
    } else {
        let mut s = to_decimal(bytes);
        s.append(" B");
        s
    }
}

/// The memory size string: gibibytes with two decimals at one gibibyte and
/// above, mebibytes with two decimals below.
pub open spec fn memory_size_str(bytes: nat) -> Seq<char> {
    if bytes >= GIB {
        two_dec_str(bytes, GIB as nat) + " GB"@
    } else {
        two_dec_str(bytes, MIB as nat) + " MB"@
    }
}

/// Renders a memory size, exactly as `memory_size_str` describes.
pub fn format_memory(bytes: u64) -> (s: String)
    ensures
        s@ == memory_size_str(bytes as nat),
{
    if bytes >= GIB {
        let mut s = format_two_dec(bytes, GIB);
        s.append(" GB");
        s
    } else {
        let mut s = format_two_dec(bytes, MIB);
        s.append(" MB");
        s
    }
}

/// The uptime string: whole days and hours when at least a day has passed,
/// whole hours and minutes when at least an hour has, and whole minutes
/// otherwise.
pub open spec fn uptime_str(secs: nat) -> Seq<char> {
    let days = secs / 86400;
    let hours = (secs % 86400) / 3600;
    let minutes = (secs % 3600) / 60;
    if days > 0 {
        dec_str(days) + " days, "@ + dec_str(hours) + " hours"@
    } else if hours > 0 {
        dec_str(hours) + " hours, "@ + dec_str(minutes) + " minutes"@
    } else {
        dec_str(minutes) + " minutes"@
    }
}

/// Renders an uptime given in seconds, exactly as `uptime_str` describes.
pub fn format_uptime(secs: u64) -> (s: String)
    ensures
        s@ == uptime_str(secs as nat),
{
    let days = secs / 86400;
    let hours = (secs % 86400) / 3600;
    let minutes = (secs % 3600) / 60;
    if days > 0 {
        let mut s = to_decimal(days);
        s.append(" days, ");
        let h = to_decimal(hours);
        s.append(h.as_str());
        s.append(" hours");
        s
    } else if hours > 0 {
        let mut s = to_decimal(hours);
        s.append(" hours, ");
        let m = to_decimal(minutes);
        s.append(m.as_str());
        s.append(" minutes");
        s
    } else {
        let mut s = to_decimal(minutes);
        s.append(" minutes");
        s
    }
}

} // verus!
