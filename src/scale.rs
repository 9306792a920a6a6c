//! The unit in which a byte count is shown.

use vstd::prelude::*;

verus! {

pub const KIB: u64 = 1024;
pub const MIB: u64 = 1048576;
pub const GIB: u64 = 1073741824;

/// Display unit of a byte count.
#[derive(Clone, Copy, Debug, PartialEq, Eq)]
pub enum ByteScale {
    Bytes,
    Kilo,
    Mega,
    Giga,
}

/// The largest binary unit that the count reaches (bytes below one KiB).
pub open spec fn scale_spec(bytes: u64) -> ByteScale {
    if bytes >= GIB {
        ByteScale::Giga
    } else if bytes >= MIB {
        ByteScale::Mega
    } else if bytes >= KIB {
        ByteScale::Kilo
    } else {
        ByteScale::Bytes
    }
}

pub fn scale_of(bytes: u64) -> (r: ByteScale)
    ensures
        r == scale_spec(bytes),
{
    if bytes >= GIB {
        ByteScale::Giga
    } else if bytes >= MIB {
        ByteScale::Mega
    } else if bytes >= KIB {
        ByteScale::Kilo
    } else {
        ByteScale::Bytes
    }
}

} // verus!
