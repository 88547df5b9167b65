//! Values that fill whole blocks of a device.

use vstd::prelude::*;

verus! {

/// A value that starts on a block boundary.
#[derive(Debug, Clone, Copy, PartialEq, Eq)]
pub struct BlockAligned<T>(pub T);

/// A value that fills whole blocks.
#[derive(Debug, Clone, Copy, PartialEq, Eq)]
pub struct Block<T> {
    /// The value
    pub data: BlockAligned<T>,
}

impl<T> Block<T> {
    /// A block that holds `data`.
    pub fn new(data: T) -> (r: Self)
        ensures
            r.data.0 == data,
    {
        Block { data: BlockAligned(data) }
    }

    /// The value held by the block.
    pub fn into_inner(self) -> (r: T)
        ensures
            r == self.data.0,
    {
        self.data.0
    }
}

} // verus!
