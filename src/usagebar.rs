use vstd::prelude::*;

use crate::app::AppState;

verus! {

/// The keys that the current view takes.
pub open spec fn usage_text(state: AppState) -> Seq<char> {
    match state {
        AppState::PathList => "j,k: Move | Enter: Details | q: Quit | h: Help"@,
        AppState::Details(_) => "j,k: Move | Enter: Back to list | d: Delete | q: Quit | h: Help"@,
    }
}

/// The top line: the keys of the current view.
pub struct UsageBar;

impl UsageBar {
    pub fn text(&self, state: &AppState) -> (r: &'static str)
        ensures
            r@ == usage_text(*state),
    {
        match state {
            AppState::PathList => "j,k: Move | Enter: Details | q: Quit | h: Help",
            AppState::Details(_) => "j,k: Move | Enter: Back to list | d: Delete | q: Quit | h: Help",
        }
    }
}

} // verus!
