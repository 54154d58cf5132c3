//! On-disk identity of a file.
use vstd::prelude::*;

verus! {

/// On-disk identity cheap enough to stat on demand: the modification time,
/// in nanoseconds from the Unix epoch (negative before it), and the length
/// in bytes. mtime granularity is filesystem-dependent, so a same-length
/// rewrite inside one tick can slip past a comparison.
#[derive(Debug, Clone, Copy, PartialEq, Eq, Structural)]
pub struct DiskStamp {
    pub mtime: i128,
    pub len: u64,
}

} // verus!
