//! The units system metrics are reported in.
use vstd::prelude::*;

verus! {

/// Bytes per megabyte, as memory sizes are reported.
pub const BYTES_PER_MB: u64 = 1048576;

/// A memory size in whole megabytes: the bytes divided by 1024 twice,
/// rounding down.
pub fn megabytes(bytes: u64) -> (r: u64)
    ensures
        r == bytes / 1024 / 1024,
        r == bytes / BYTES_PER_MB,
{
    let r = bytes / 1024 / 1024;
    assert(bytes / 1024 / 1024 == bytes / 1048576) by (nonlinear_arith);
    r
}

/// Traffic of one network interface since boot.
#[derive(Clone, Debug)]
pub struct NetworkSnapshot {
    pub interface: String,
    pub bytes_sent: u64,
    pub bytes_recv: u64,
}

} // verus!
