use vstd::prelude::*;

use vstd::string::StringExecFns;

verus! {

/// The frame of the spinner at `phase`.
pub open spec fn spinner_frame(phase: int) -> Seq<char> {
    if phase % 4 == 0 {
        "◡◡"@
    } else if phase % 4 == 1 {
        "⊙⊙"@
    } else if phase % 4 == 2 {
        "◠◠"@
    } else {
        "⊙⊙"@
    }
}

/// What the status bar says: that the search is over, or a spinner and
/// where the search goes on.
pub open spec fn status_text(done: bool, phase: int, root_path: Seq<char>) -> Seq<char> {
    if done {
        "Done."@
    } else {
        spinner_frame(phase) + " Searching under "@ + root_path
    }
}

/// The bottom line: whether the search is over, and a spinner while it is
/// not.
pub struct StatusBar {
    pub done: bool,
    pub spinner_phase: usize,
}

impl StatusBar {
    /// The spinner's next frame.
    pub fn advance_spinner(&mut self)
        ensures
            final(self).done == old(self).done,
            final(self).spinner_phase == (old(self).spinner_phase + 1) % 4,
    {
        self.spinner_phase = (self.spinner_phase % 4 + 1) % 4;
    }

    /// The line to show while searching under `root_path`.
    pub fn text(&self, root_path: &String) -> (r: String)
        ensures
            r@ == status_text(self.done, self.spinner_phase as int, root_path@),
    {
        if self.done {
            return String::from_str("Done.");
        }
        let phase = self.spinner_phase % 4;
        let mut line = if phase == 0 {
            String::from_str("◡◡")
        } else if phase == 1 {
            String::from_str("⊙⊙")
        } else if phase == 2 {
            String::from_str("◠◠")
        } else {
            String::from_str("⊙⊙")
        };
        line.append(" Searching under ");
        line.append(root_path.as_str());
        line
    }
}

} // verus!
