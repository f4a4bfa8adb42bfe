//! Player selected hotbar slots.

use vstd::prelude::*;
use crate::decode::DecodeCursor;
use crate::scalar::{be_u16, decode_u16, encode_u16};

verus! {

/// The hotbar slot was out of range.
#[derive(Clone, Copy, PartialEq, Eq, Structural, Debug)]
pub struct BadHotbarSlot(pub u16);

/// A player's selected hotbar slot, in the range 0 to 8.
#[derive(Clone, Copy, PartialEq, Eq, Structural, Hash, Debug)]
pub struct SelectedHotbar {
    slot: u8,
}

impl Default for SelectedHotbar {
    /// The default selection is slot 0.
    fn default() -> (r: Self)
        ensures
            r@ == 0,
    {
        SelectedHotbar { slot: 0 }
    }
}

impl SelectedHotbar {
    /// The held slot index.
    pub closed spec fn view(self) -> u8 {
        self.slot
    }

    /// Wraps a slot index below 9, and rejects anything higher.
    pub fn new(slot: u8) -> (r: Option<Self>)
        ensures
            slot < 9 <==> r is Some,
            r matches Some(s) ==> s@ == slot,
    {
        if slot < 9 {
            Some(SelectedHotbar { slot })
        } else {
            None
        }
    }

    /// The slot index as a primitive.
    pub fn get(self) -> (r: u8)
        ensures
            r == self@,
    {
        self.slot
    }

    /// Appends the two-byte big-endian wire form.
    pub fn encode(self, out: &mut Vec<u8>)
        ensures
            final(out)@ == old(out)@ + be_u16(self@ as u16),
    {
        encode_u16(self.slot as u16, out);
    }

    /// Reads the two-byte wire form, rejecting slots outside 0 to 8.
    pub fn decode(cur: &mut DecodeCursor) -> (r: Result<Self, BadHotbarSlot>)
        requires
            old(cur).wf(),
        ensures
            final(cur).wf(),
            final(cur).all_bytes() == old(cur).all_bytes(),
            match r {
                Ok(s) => old(cur).rest().len() >= 2 && s@ < 9 && be_u16(s@ as u16) == old(
                    cur,
                ).rest().take(2) && final(cur).rest() == old(cur).rest().skip(2),
                Err(e) => (old(cur).rest().len() < 2 && e == BadHotbarSlot(0)) || (old(
                    cur,
                ).rest().len() >= 2 && e.0 >= 9 && be_u16(e.0) == old(cur).rest().take(
                    2,
                )),
            },
    {
        let v = match decode_u16(cur) {
            Ok(v) => v,
            Err(e) => {
                return Err(BadHotbarSlot(0));
            },
        };
        if v >= 9 {
            return Err(BadHotbarSlot(v));
        }
        Ok(SelectedHotbar { slot: v as u8 })
    }
}

} // verus!
