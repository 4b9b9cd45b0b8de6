//! Shared movement rules used by both client and server.
use vstd::prelude::*;

verus! {

/// Whether a mounted player must be dismounted (entering water while mounted).
pub fn should_dismount(swimming: bool, mounted: bool) -> (r: bool)
    ensures
        r == (swimming && mounted),
{
    swimming && mounted
}

/// WMO group flag marking an outdoor group.
pub const WMO_FLAG_OUTDOOR: u32 = 0x08;

/// WMO group flag marking an indoor group.
pub const WMO_FLAG_INDOOR: u32 = 0x2000;

/// Whether a WMO group with the given flags is indoors: the indoor flag is set
/// and the outdoor flag is not (neither or both default to outdoor).
pub open spec fn spec_is_indoor(flags: u32) -> bool {
    flags & WMO_FLAG_INDOOR != 0 && flags & WMO_FLAG_OUTDOOR == 0
}

pub fn is_indoor(wmo_group_flags: u32) -> (r: bool)
    ensures
        r == spec_is_indoor(wmo_group_flags),
{
    let indoor = wmo_group_flags & WMO_FLAG_INDOOR != 0;
    let outdoor = wmo_group_flags & WMO_FLAG_OUTDOOR != 0;
    indoor && !outdoor
}

} // verus!
