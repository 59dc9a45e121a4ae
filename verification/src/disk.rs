//! Data model of the disk widget: what it shows per mount point, the I/O
//! metrics it publishes, and which mount points are virtual filesystems the
//! usage view skips.

use vstd::prelude::*;

use crate::text::str_eq;

verus! {

/// What the disk widget currently shows.
#[derive(Debug, Clone, Copy, PartialEq, Eq, Structural)]
pub enum ViewMode {
    /// I/O statistics with read/write rates.
    IOStats,
    /// Usage per mount point.
    Usage,
}

/// One mount point's capacity figures.
#[derive(Debug, Clone)]
pub struct DiskInfo {
    /// Device name (e.g. `/dev/sda1`).
    pub name: String,
    /// Mount point path (e.g. `/`).
    pub mount_point: String,
    /// Total space in bytes.
    pub total_space: u64,
    /// Available space in bytes.
    pub available_space: u64,
}

impl DiskInfo {
    /// Space in use: total minus available, never below zero.
    pub fn used_space(&self) -> (r: u64)
        ensures
            r as int == if self.available_space <= self.total_space {
                self.total_space - self.available_space
            } else {
                0int
            },
    {
        self.total_space.saturating_sub(self.available_space)
    }
}

/// Disk I/O metrics published on the bus.
#[derive(Debug, Clone)]
pub struct DiskIOMetrics {
    /// Current read rate in bytes per second.
    pub read_rate: u64,
    /// Current write rate in bytes per second.
    pub write_rate: u64,
    /// Total bytes read since boot.
    pub total_read: u64,
    /// Total bytes written since boot.
    pub total_write: u64,
}

/// Whether `s` starts with `prefix`.
pub open spec fn starts_with(s: Seq<char>, prefix: Seq<char>) -> bool {
    s.len() >= prefix.len() && s.take(prefix.len() as int) == prefix
}

/// The mount points the usage view treats as virtual filesystems.
pub open spec fn is_virtual_mount(s: Seq<char>) -> bool {
    ||| s == "/proc"@
    ||| s == "/sys"@
    ||| s == "/dev"@
    ||| s == "/run"@
    ||| s == "/tmp"@
    ||| s == "/var/run"@
    ||| s == "/var/tmp"@
    ||| starts_with(s, "/proc/"@)
    ||| starts_with(s, "/sys/"@)
    ||| starts_with(s, "/dev/"@)
    ||| starts_with(s, "/run/"@)
}

/// Whether `s` starts with `prefix`, character-wise.
fn str_starts_with(s: &str, prefix: &str) -> (r: bool)
    ensures
        r == starts_with(s@, prefix@),
{
    let n = s.unicode_len();
    let p = prefix.unicode_len();
    if n < p {
        proof {
            assert(!starts_with(s@, prefix@));
        }
        return false;
    }
    let head = s.substring_char(0, p);
    let r = str_eq(head, prefix);
    proof {
        assert(head@ == s@.take(p as int));
    }
    r
}

/// Whether a mount point is a virtual filesystem, skipped by the usage
/// view.
pub fn is_virtual_filesystem(mount_point: &str) -> (r: bool)
    ensures
        r == is_virtual_mount(mount_point@),
{
    str_eq(mount_point, "/proc") || str_eq(mount_point, "/sys") || str_eq(mount_point, "/dev")
        || str_eq(mount_point, "/run") || str_eq(mount_point, "/tmp") || str_eq(
        mount_point,
        "/var/run",
    ) || str_eq(mount_point, "/var/tmp") || str_starts_with(mount_point, "/proc/")
        || str_starts_with(mount_point, "/sys/") || str_starts_with(mount_point, "/dev/")
        || str_starts_with(mount_point, "/run/")
}

} // verus!
