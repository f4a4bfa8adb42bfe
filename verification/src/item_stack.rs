//! Stacks of items.

use vstd::prelude::*;
use crate::ident::Ident;

verus! {

/// A stack of items.
#[derive(Clone, Debug)]
pub struct ItemStack {
    /// The type of item.
    pub id: Ident,
    /// The number of items in this stack.
    pub count: u32,
}

impl ItemStack {
    /// Builds a stack of `count` items of the type `id`.
    pub fn new(id: Ident, count: u32) -> (r: Self)
        ensures
            r.id == id && r.count == count,
    {
        ItemStack { id, count }
    }
}

} // verus!
