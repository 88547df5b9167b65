//! The identity of a processor core.

use vstd::prelude::*;

verus! {

/// contains the id for a given core
#[derive(Debug, Clone, Copy, PartialEq, Eq, Structural, Hash, Default)]
pub struct CoreId(pub u8);

impl CoreId {
    /// Whether this core is used as the bootstrap processor used for initialization of
    /// global systems
    pub fn is_bsp(&self) -> (r: bool)
        ensures
            r == (self.0 == 0),
    {
        self.0 == 0
    }

    /// The raw id of this core.
    pub fn get(self) -> (r: u8)
        ensures
            r == self.0,
    {
        self.0
    }
}

impl From<u8> for CoreId {
    fn from(value: u8) -> (r: Self)
        ensures
            r.0 == value,
    {
        Self(value)
    }
}

impl vstd::std_specs::convert::FromSpecImpl<u8> for CoreId {
    open spec fn obeys_from_spec() -> bool {
        true
    }

    open spec fn from_spec(v: u8) -> Self {
        CoreId(v)
    }
}

} // verus!
