//! Persisted UI settings.

use vstd::prelude::*;

verus! {

/// Settings the frontend persists between sessions.
#[derive(Debug, Clone, Copy, PartialEq, Eq, Structural)]
pub struct UiSettings {
    pub hide_whitespace: bool,
}

impl Default for UiSettings {
    /// Hiding whitespace-only changes is on by default.
    fn default() -> (res: Self)
        ensures
            res.hide_whitespace,
    {
        UiSettings { hide_whitespace: true }
    }
}

} // verus!
