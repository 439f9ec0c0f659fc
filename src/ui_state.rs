//! Plain state of the user interface that the views share.
use vstd::prelude::*;

verus! {

/// The tabs of the main view, in display order.
#[derive(Clone, Copy, Debug, PartialEq, Eq, Structural)]
pub enum SelectedTab {
    MonitorTab,
    BandsConfigTab,
    TerminalTab,
}

impl SelectedTab {
    pub open spec fn index(self) -> int {
        match self {
            SelectedTab::MonitorTab => 0,
            SelectedTab::BandsConfigTab => 1,
            SelectedTab::TerminalTab => 2,
        }
    }

    /// The tab after this one, wrapping to the first.
    pub fn next(self) -> (r: SelectedTab)
        ensures
            r.index() == (self.index() + 1) % 3,
    {
        match self {
            SelectedTab::MonitorTab => SelectedTab::BandsConfigTab,
            SelectedTab::BandsConfigTab => SelectedTab::TerminalTab,
            SelectedTab::TerminalTab => SelectedTab::MonitorTab,
        }
    }

    /// The tab before this one, wrapping to the last.
    pub fn previous(self) -> (r: SelectedTab)
        ensures
            r.index() == (self.index() + 2) % 3,
    {
        match self {
            SelectedTab::MonitorTab => SelectedTab::TerminalTab,
            SelectedTab::BandsConfigTab => SelectedTab::MonitorTab,
            SelectedTab::TerminalTab => SelectedTab::BandsConfigTab,
        }
    }

    /// The tab's name.
    pub fn title(self) -> (r: &'static str)
        ensures
            r@ == match self {
                SelectedTab::MonitorTab => "Signal monitor"@,
                SelectedTab::BandsConfigTab => "Select bands"@,
                SelectedTab::TerminalTab => "Terminal"@,
            },
    {
        match self {
            SelectedTab::MonitorTab => "Signal monitor",
            SelectedTab::BandsConfigTab => "Select bands",
            SelectedTab::TerminalTab => "Terminal",
        }
    }
}

/// Where the cursor of the terminal input stands.
pub struct CursorPosition {
    pub x: u16,
    pub y: u16,
}

impl Default for CursorPosition {
    /// Just inside the input box's border.
    fn default() -> (r: CursorPosition)
        ensures
            r.x == 1,
            r.y == 0,
    {
        CursorPosition { x: 1, y: 0 }
    }
}

/// The text of the interactive terminal.
pub struct TerminalData {
    pub input: String,
    pub output: String,
}

/// The line the user types into the terminal tab, with its cursor.
pub struct LineEditor {
    pub input: Vec<char>,
    /// The number of characters before the cursor.
    pub cursor: usize,
}

impl LineEditor {
    pub open spec fn wf(&self) -> bool {
        self.cursor <= self.input@.len()
    }

    pub fn new() -> (r: LineEditor)
        ensures
            r.wf(),
            r.input@.len() == 0,
            r.cursor == 0,
    {
        LineEditor { input: Vec::new(), cursor: 0 }
    }

    /// `pos` held within the line.
    pub fn clamp_cursor(&self, pos: usize) -> (r: usize)
        ensures
            r == if pos <= self.input@.len() {
                pos as int
            } else {
                self.input@.len() as int
            },
    {
        if pos <= self.input.len() {
            pos
        } else {
            self.input.len()
        }
    }

    pub fn move_cursor_left(&mut self)
        requires
            old(self).wf(),
        ensures
            final(self).wf(),
            final(self).input@ == old(self).input@,
            final(self).cursor == if old(self).cursor == 0 {
                0
            } else {
                old(self).cursor - 1
            },
    {
        if self.cursor > 0 {
            self.cursor = self.cursor - 1;
        }
    }

    pub fn move_cursor_right(&mut self)
        requires
            old(self).wf(),
        ensures
            final(self).wf(),
            final(self).input@ == old(self).input@,
            final(self).cursor == if old(self).cursor < old(self).input@.len() {
                old(self).cursor + 1
            } else {
                old(self).cursor as int
            },
    {
        if self.cursor < self.input.len() {
            self.cursor = self.cursor + 1;
        }
    }

    /// Inserts `c` at the cursor and moves the cursor past it.
    pub fn enter_char(&mut self, c: char)
        requires
            old(self).wf(),
        ensures
            final(self).wf(),
            final(self).input@ == old(self).input@.insert(old(self).cursor as int, c),
            final(self).cursor == old(self).cursor + 1,
    {
        self.input.insert(self.cursor, c);
        let n = self.input.len();
        assert(self.cursor < n);
        self.cursor = self.cursor + 1;
    }

    /// Deletes the character before the cursor, if there is one.
    pub fn delete_char(&mut self)
        requires
            old(self).wf(),
        ensures
            final(self).wf(),
            old(self).cursor == 0 ==> *final(self) == *old(self),
            old(self).cursor > 0 ==> {
                &&& final(self).input@ == old(self).input@.remove(old(self).cursor - 1)
                &&& final(self).cursor == old(self).cursor - 1
            },
    {
        if self.cursor > 0 {
            self.input.remove(self.cursor - 1);
            self.cursor = self.cursor - 1;
        }
    }

    /// Empties the line.
    pub fn clear(&mut self)
        ensures
            final(self).wf(),
            final(self).input@.len() == 0,
            final(self).cursor == 0,
    {
        self.input.clear();
        self.cursor = 0;
    }
}

} // verus!
