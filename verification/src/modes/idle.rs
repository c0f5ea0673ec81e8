use vstd::prelude::*;

use crate::modes::ModeTrait;

verus! {

/// The mode in which the buttons do nothing.
#[derive(Clone, Copy, Debug, PartialEq, Eq, Structural)]
pub struct IdleMode {}

impl IdleMode {
    pub fn create() -> (mode: IdleMode)
        ensures
            mode == (IdleMode {}),
    {
        IdleMode {}
    }
}

impl ModeTrait for IdleMode {
    open spec fn ready(&self) -> bool {
        true
    }
}

} // verus!
