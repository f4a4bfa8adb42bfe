//! Resource pack status updates sent by the client.

use vstd::prelude::*;
use crate::varint::varint_bytes;
use crate::varint::encode_varint_u32;

verus! {

/// A resource pack status update.
#[derive(Clone, Copy, PartialEq, Eq, Structural, Hash, Debug)]
pub enum PackStatus {
    /// The client has successfully loaded the resource pack.
    Loaded,
    /// The client explicitly declined the resource pack.
    Declined,
    /// The client failed to download the resource pack.
    DownloadFailed,
    /// The client accepted the resource pack but has not yet loaded it.
    Accepted,
    /// The client downloaded the resource pack but has not yet loaded it.
    Downloaded,
    /// The resource pack URL was invalid.
    InvalidUrl,
    /// The client failed to reload its resource packs.
    FailedToReload,
    /// The client has discarded the resource pack.
    Discarded,
}

/// The wire ordinal of a pack status.
pub open spec fn pack_status_ordinal(s: PackStatus) -> u32 {
    match s {
        PackStatus::Loaded => 0,
        PackStatus::Declined => 1,
        PackStatus::DownloadFailed => 2,
        PackStatus::Accepted => 3,
        PackStatus::Downloaded => 4,
        PackStatus::InvalidUrl => 5,
        PackStatus::FailedToReload => 6,
        PackStatus::Discarded => 7,
    }
}

impl PackStatus {
    /// The wire ordinal of this status.
    pub fn ordinal(self) -> (r: u32)
        ensures
            r == pack_status_ordinal(self),
    {
        match self {
            PackStatus::Loaded => 0,
            PackStatus::Declined => 1,
            PackStatus::DownloadFailed => 2,
            PackStatus::Accepted => 3,
            PackStatus::Downloaded => 4,
            PackStatus::InvalidUrl => 5,
            PackStatus::FailedToReload => 6,
            PackStatus::Discarded => 7,
        }
    }

    /// The status of a wire ordinal, for ordinals below 8.
    pub fn from_ordinal(v: u32) -> (r: Option<Self>)
        ensures
            v < 8 <==> r is Some,
            r matches Some(s) ==> pack_status_ordinal(s) == v,
    {
        match v {
            0 => Some(PackStatus::Loaded),
            1 => Some(PackStatus::Declined),
            2 => Some(PackStatus::DownloadFailed),
            3 => Some(PackStatus::Accepted),
            4 => Some(PackStatus::Downloaded),
            5 => Some(PackStatus::InvalidUrl),
            6 => Some(PackStatus::FailedToReload),
            7 => Some(PackStatus::Discarded),
            _ => None,
        }
    }

    /// Appends the variable-width ordinal wire form.
    pub fn encode(self, out: &mut Vec<u8>)
        ensures
            final(out)@ == old(out)@ + varint_bytes(pack_status_ordinal(self) as nat),
    {
        encode_varint_u32(self.ordinal(), out);
    }
}

} // verus!
