use vstd::prelude::*;

use crate::window::{laid_out, texts, Frame, Window, WindowError};

verus! {

/// The lines of the help.
pub open spec fn help_lines() -> Seq<Seq<char>> {
    seq![
        "  j,k: Move up, down"@,
        "  g,G: Go to top, bottom"@,
        "Enter: Show details of the selected repository"@,
        "    d: Delete selected resources"@,
        "    h: Show this message"@,
    ]
}

/// The keys, in a window that `h` shows and hides.
pub struct HelpWindow {
    pub show: bool,
    pub window: Window,
}

impl HelpWindow {
    /// The help, hidden.
    pub fn new() -> (r: Self)
        ensures
            !r.show,
            texts(r.window.message@) == help_lines(),
    {
        let mut message: Vec<String> = Vec::new();
        message.push(String::from_str("  j,k: Move up, down"));
        message.push(String::from_str("  g,G: Go to top, bottom"));
        message.push(String::from_str("Enter: Show details of the selected repository"));
        message.push(String::from_str("    d: Delete selected resources"));
        message.push(String::from_str("    h: Show this message"));
        proof {
            assert(texts(message@) =~= help_lines());
        }
        Self { show: false, window: Window { message } }
    }

    /// Lays the help out on a terminal of `terminal_width` by
    /// `terminal_height`.
    pub fn draw(&self, terminal_width: usize, terminal_height: usize) -> (r: Result<
        Option<Frame>,
        WindowError,
    >)
        ensures
            laid_out(texts(self.window.message@), terminal_width as int, terminal_height as int, r),
    {
        self.window.draw(terminal_width, terminal_height)
    }
}

} // verus!
