//! Mount table parsing and per-mount capacity statistics.
//!
//! The caller reads the process-wide mount table and hands its text here.
//! Each line is parsed into device, mount path and filesystem type; entries
//! of known pseudo/virtual filesystem types are skipped; for each surviving
//! mount the block-level capacity statistics are queried and folded into a
//! [`MountPoint`]. A mount whose capacity query fails is silently omitted,
//! and an unreadable mount table yields an empty result, never an error.

use vstd::prelude::*;
use vstd::string::StringExecFns;

use crate::bytesize::{format_mount_size, mount_size_str};
use crate::fstree::sat_u64;
use crate::strutil::{
    spec_starts_with, split_into_lines, split_lines, split_whitespace_fields, split_ws, str_eq,
    str_starts_with,
};

verus! {

/// One mounted filesystem with its capacity statistics, all in bytes.
///
/// `used` is computed as total minus free, not total minus available:
/// "available" already excludes filesystem-reserved space while "used" does
/// not, so `used + available` may legitimately be less than `total`.
#[derive(Debug, Clone)]
pub struct MountPoint {
    pub device: String,
    pub mount_point: String,
    pub fs_type: String,
    pub total: u64,
    pub used: u64,
    pub available: u64,
}

impl MountPoint {
    /// Well-formedness: the used byte count never exceeds the total.
    pub open spec fn wf(self) -> bool {
        self.used <= self.total
    }

    /// The integer percentage of the total that is used, zero when the
    /// total is zero, clamped to the largest `u64`.
    pub open spec fn spec_used_percentage(self) -> u64 {
        if self.total == 0 {
            0
        } else {
            sat_u64(((self.used * 100) / (self.total as int)) as nat)
        }
    }

    /// Calculates the percentage of the capacity that is used: zero when
    /// the total is zero, and between 0 and 100 for a well-formed record.
    pub fn used_percentage(&self) -> (r: u64)
        ensures
            r == self.spec_used_percentage(),
            self.total == 0 ==> r == 0,
            self.wf() ==> r <= 100,
    {
        if self.total == 0 {
            0
        } else {
            let q: u128 = (self.used as u128) * 100 / (self.total as u128);
            proof {
                if self.wf() {
                    assert((self.used * 100) / (self.total as int) <= 100) by (nonlinear_arith)
                        requires
                            self.used <= self.total,
                            self.total > 0,
                    ;
                }
            }
            if q > u64::MAX as u128 {
                u64::MAX
            } else {
                q as u64
            }
        }
    }

    /// Formats a byte count under the mount/folder policy.
    pub fn format_size(bytes: u64) -> (s: String)
        ensures
            s@ == mount_size_str(bytes as nat),
    {
        format_mount_size(bytes)
    }
}

/// For every well-formed mount record the used percentage lies in
/// [0, 100] when the total is positive, and is exactly 0 when the total is
/// zero.
pub proof fn lemma_used_percentage_bounds(m: MountPoint)
    requires
        m.wf(),
    ensures
        m.total > 0 ==> m.spec_used_percentage() <= 100,
        m.total == 0 ==> m.spec_used_percentage() == 0,
{
    if m.total > 0 {
        assert((m.used * 100) / (m.total as int) <= 100) by (nonlinear_arith)
            requires
                m.used <= m.total,
                m.total > 0,
        ;
    }
}

/// The closed exclusion set of pseudo/virtual filesystem types: any
/// FUSE-backed type, and the temporary-file, device-node, process-info,
/// system-info, control-group and pseudo-terminal filesystems.
pub open spec fn spec_is_virtual_fs(t: Seq<char>) -> bool {
    spec_starts_with(t, "fuse"@) || t == "tmpfs"@ || t == "devtmpfs"@ || t == "proc"@
        || t == "sysfs"@ || t == "cgroup"@ || t == "devpts"@
}

/// Executable test for the exclusion set, equal to `spec_is_virtual_fs`.
pub fn is_virtual_fs_type(t: &str) -> (r: bool)
    ensures
        r == spec_is_virtual_fs(t@),
{
    str_starts_with(t, "fuse") || str_eq(t, "tmpfs") || str_eq(t, "devtmpfs") || str_eq(
        t,
        "proc",
    ) || str_eq(t, "sysfs") || str_eq(t, "cgroup") || str_eq(t, "devpts")
}

/// What parsing one mount-table line yields: the first three
/// whitespace-separated fields (device, mount path, filesystem type), or
/// nothing for a line with fewer fields.
pub open spec fn spec_parse_mount_line(line: Seq<char>) -> Option<(Seq<char>, Seq<char>, Seq<char>)> {
    let f = split_ws(line);
    if f.len() < 3 {
        None
    } else {
        Some((f[0], f[1], f[2]))
    }
}

/// Parses one mount-table line, exactly as `spec_parse_mount_line`
/// describes.
pub fn parse_mount_line(line: &str) -> (r: Option<(String, String, String)>)
    ensures
        match r {
            None => spec_parse_mount_line(line@) is None,
            Some(t) => spec_parse_mount_line(line@) == Some((t.0@, t.1@, t.2@)),
        },
{
    let mut fields = split_whitespace_fields(line);
    if fields.len() < 3 {
        None
    } else {
        let ghost f = split_ws(line@);
        let device = fields.remove(0);
        let mount_point = fields.remove(0);
        let fs_type = fields.remove(0);
        proof {
            assert(device@ == f[0]);
            assert(mount_point@ == f[1]);
            assert(fs_type@ == f[2]);
        }
        Some((device, mount_point, fs_type))
    }
}

/// Relies on `nix::sys::statvfs::statvfs`: a successful query yields the
/// filesystem's block size and its total, free and available block counts,
/// in that order; any failure is collapsed to `None`. Nothing is assumed
/// about the values, which depend on the machine's state.
#[verifier::external_body]
fn query_statvfs(path: &str) -> (r: Option<(u64, u64, u64, u64)>) {
    match nix::sys::statvfs::statvfs(path) {
        Ok(st) => Some(
            (
                st.block_size() as u64,
                st.blocks() as u64,
                st.blocks_free() as u64,
                st.blocks_available() as u64,
            ),
        ),
        Err(_) => None,
    }
}

/// A product of two byte quantities clamped to the largest `u64`.
fn sat_mul_u64(a: u64, b: u64) -> (r: u64)
    ensures
        r == sat_u64((a * b) as nat),
{
    proof {
        assert(a * b <= u64::MAX * u64::MAX) by (nonlinear_arith)
            requires
                a <= u64::MAX,
                b <= u64::MAX,
        ;
    }
    let p: u128 = (a as u128) * (b as u128);
    if p > u64::MAX as u128 {
        u64::MAX
    } else {
        p as u64
    }
}

/// The used byte count derived from block statistics: total bytes minus
/// free bytes, clamped below at zero, each product clamped to `u64`.
pub open spec fn spec_used_bytes(blocks: u64, blocks_free: u64, block_size: u64) -> u64 {
    let total = sat_u64((blocks * block_size) as nat);
    let free = sat_u64((blocks_free * block_size) as nat);
    if free > total {
        0
    } else {
        (total - free) as u64
    }
}

/// Builds a mount record from the raw block statistics of a capacity
/// query: total = blocks x block size, available = available blocks x
/// block size, used = total - free bytes. The result is well-formed.
pub fn mount_from_stats(
    device: String,
    mount_point: String,
    fs_type: String,
    block_size: u64,
    blocks: u64,
    blocks_free: u64,
    blocks_available: u64,
) -> (m: MountPoint)
    ensures
        m.device == device,
        m.mount_point == mount_point,
        m.fs_type == fs_type,
        m.total == sat_u64((blocks * block_size) as nat),
        m.available == sat_u64((blocks_available * block_size) as nat),
        m.used == spec_used_bytes(blocks, blocks_free, block_size),
        m.wf(),
{
    let total = sat_mul_u64(blocks, block_size);
    let available = sat_mul_u64(blocks_available, block_size);
    let free = sat_mul_u64(blocks_free, block_size);
    let used = total.saturating_sub(free);
    MountPoint { device, mount_point, fs_type, total, used, available }
}

/// Whether some line of the mount table parses to exactly this record's
/// device, mount path and filesystem type.
pub open spec fn mount_from_table(m: MountPoint, table: Seq<char>) -> bool {
    exists|j: int|
        0 <= j < split_lines(table).len() && #[trigger] spec_parse_mount_line(
            split_lines(table)[j],
        ) == Some((m.device@, m.mount_point@, m.fs_type@))
}

/// Whether `idxs` maps each mount record, in order, to a strictly later
/// line of the table that parses to its device, mount path and filesystem
/// type: the records follow the table's own ordering, with no additional
/// sort.
pub open spec fn mounts_follow_table(
    mounts: Seq<MountPoint>,
    table: Seq<char>,
    idxs: Seq<int>,
) -> bool {
    &&& idxs.len() == mounts.len()
    &&& forall|a: int, b: int| 0 <= a < b < idxs.len() ==> #[trigger] idxs[a] < #[trigger] idxs[b]
    &&& forall|a: int|
        0 <= a < idxs.len() ==> 0 <= #[trigger] idxs[a] < split_lines(table).len()
            && spec_parse_mount_line(split_lines(table)[idxs[a]]) == Some(
            (mounts[a].device@, mounts[a].mount_point@, mounts[a].fs_type@),
        )
}

/// Enumerates the mounted filesystems described by the given mount-table
/// text. Each line is parsed by `spec_parse_mount_line`; entries in the
/// virtual-filesystem exclusion set are skipped; each surviving mount is
/// completed with a live capacity query and folded by `mount_from_stats`,
/// or silently omitted if the query fails. Every returned record is
/// well-formed, of a non-virtual filesystem type, and names the device,
/// path and type of one of the table's lines. An empty or unparseable
/// table yields an empty result, never an error.
pub fn get_mount_points(mount_table: &str) -> (mounts: Vec<MountPoint>)
    ensures
        forall|i: int|
            0 <= i < mounts@.len() ==> (#[trigger] mounts@[i]).wf() && !spec_is_virtual_fs(
                mounts@[i].fs_type@,
            ) && mount_from_table(mounts@[i], mount_table@),
        exists|idxs: Seq<int>| #[trigger] mounts_follow_table(mounts@, mount_table@, idxs),
{
    let lines = split_into_lines(mount_table);
    let mut mounts: Vec<MountPoint> = Vec::new();
    let mut i: usize = 0;
    let ghost mut idxs: Seq<int> = Seq::empty();
    while i < lines.len()
        invariant
            0 <= i <= lines@.len(),
            lines.deep_view() == split_lines(mount_table@),
            forall|k: int|
                0 <= k < mounts@.len() ==> (#[trigger] mounts@[k]).wf() && !spec_is_virtual_fs(
                    mounts@[k].fs_type@,
                ) && mount_from_table(mounts@[k], mount_table@),
            mounts_follow_table(mounts@, mount_table@, idxs),
            forall|a: int| 0 <= a < idxs.len() ==> #[trigger] idxs[a] < i,
        decreases lines@.len() - i,
    {
        match parse_mount_line(lines[i].as_str()) {
            None => {},
            Some(t) => {
                let (device, mount_point, fs_type) = t;
                if !is_virtual_fs_type(fs_type.as_str()) {
                    match query_statvfs(mount_point.as_str()) {
                        None => {},
                        Some(q) => {
                            let ghost dv = device@;
                            let ghost mv = mount_point@;
                            let ghost fv = fs_type@;
                            let m = mount_from_stats(
                                device,
                                mount_point,
                                fs_type,
                                q.0,
                                q.1,
                                q.2,
                                q.3,
                            );
                            proof {
                                assert(lines@[i as int]@ == split_lines(mount_table@)[i as int]);
                                assert(spec_parse_mount_line(split_lines(mount_table@)[i as int])
                                    == Some((m.device@, m.mount_point@, m.fs_type@)));
                                assert(mount_from_table(m, mount_table@));
                                idxs = idxs.push(i as int);
                            }
                            mounts.push(m);
                        },
                    }
                }
            },
        }
        i += 1;
    }
    proof {
        assert(mounts_follow_table(mounts@, mount_table@, idxs));
    }
    mounts
}

} // verus!
