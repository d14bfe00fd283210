//! Filesystem usage and cleanup analysis engine.
//!
//! Enumerates mounted volumes and their capacity, measures directory trees
//! under depth and path constraints, collects and deduplicates hardware
//! temperature sensors, and scans a fixed catalogue of cache/trash/log
//! locations to produce a reclaimable-space report.
//!
//! The engine never reads the filesystem itself: the caller reads the mount
//! table, snapshots directory trees (see [`fstree`]) and reads the thermal
//! pseudo-filesystems, then hands the plain values here. Every computation
//! over them — parsing, aggregation, ranking, deduplication, formatting and
//! the category-to-action mapping — is specified and verified. The one
//! outside call made from the engine is the per-mount capacity query.

pub mod bytesize;
pub mod cleaner;
pub mod folders;
pub mod fstree;
pub mod mounts;
pub mod mset;
pub mod sensors;
pub mod services;
pub mod strutil;

use vstd::prelude::*;

verus! {

/// Number of bytes in one binary kibibyte.
pub const KIB: u64 = 1024;

/// Number of bytes in one binary mebibyte.
pub const MIB: u64 = 1048576;

/// Number of bytes in one binary gibibyte.
pub const GIB: u64 = 1073741824;

} // verus!
