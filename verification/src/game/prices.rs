use vstd::prelude::*;

verus! {

/// An amount of money.
#[derive(Clone, Copy, Debug, PartialEq, Eq, Structural)]
pub struct Money(pub u32);

impl Money {
    pub fn as_u32(&self) -> (r: u32)
        ensures
            r == self.0,
    {
        self.0
    }
}

} // verus!
