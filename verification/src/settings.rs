//! Settings kept by the surrounding editor shell.

use vstd::prelude::*;

verus! {

/// Whether the settings dialog is open.
#[derive(Clone, Debug, PartialEq, Eq, Structural)]
pub struct Settings {
    /// Is the settings dialog open.
    pub open: bool,
}

impl Settings {
    /// Fresh settings: the dialog starts closed.
    pub fn new() -> (r: Settings)
        ensures
            !r.open,
    {
        Settings { open: false }
    }
}

impl Default for Settings {
    /// The same state `new` gives.
    fn default() -> (r: Settings)
        ensures
            !r.open,
    {
        Settings { open: false }
    }
}

} // verus!
