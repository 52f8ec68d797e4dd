//! Settings that hold for all contracts.

use vstd::prelude::*;

verus! {

/// Settings that hold for all contracts.
#[derive(Clone, Copy, Debug)]
pub struct Settings {
    /// The number of the workchain in which an account is looked for when its address names none.
    pub default_workchain: Option<i32>,
}

impl Settings {
    /// Settings without a default workchain.
    pub fn new() -> (settings: Self)
        ensures
            settings.default_workchain is None,
    {
        Settings { default_workchain: None }
    }
}

} // verus!
