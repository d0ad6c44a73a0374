use vstd::prelude::*;

use crate::key::Key;
use vstd::math::min;

verus! {

/// A window of `height` rows over a list: `offset` is the first item shown,
/// `pos` the row of the cursor, so that item `offset + pos` is selected.
#[derive(Clone, Copy, Debug, PartialEq, Eq, Structural)]
pub struct List {
    pub pos: usize,
    pub offset: usize,
    pub height: usize,
}

impl List {
    /// The cursor one row up, or the window one item up once the cursor is
    /// on the top row.
    pub open spec fn moved_up(self) -> List {
        if self.pos > 0 {
            List { pos: (self.pos - 1) as usize, ..self }
        } else if self.offset > 0 {
            List { offset: (self.offset - 1) as usize, ..self }
        } else {
            self
        }
    }

    /// The cursor one row down, or the window one item down once the cursor
    /// is on the last row, never past the last of `list_len` items.
    pub open spec fn moved_down(self, list_len: int) -> List {
        if self.pos + 1 < min(self.height as int, list_len) {
            List { pos: (self.pos + 1) as usize, ..self }
        } else if self.offset + self.pos + 1 < list_len {
            List { offset: (self.offset + 1) as usize, ..self }
        } else {
            self
        }
    }

    /// The first item selected, in the first row.
    pub open spec fn at_top(self) -> List {
        List { pos: 0, offset: 0, ..self }
    }

    /// The last of `list_len` items selected, with as many items above it
    /// in the window as fit. An empty list has no last item: the cursor goes
    /// to the top.
    pub open spec fn at_bottom(self, list_len: int) -> List {
        if list_len == 0 {
            self.at_top()
        } else if list_len < self.height {
            List { pos: (list_len - 1) as usize, offset: 0, ..self }
        } else if self.height > 0 {
            List {
                pos: (self.height - 1) as usize,
                offset: (list_len - self.height) as usize,
                ..self
            }
        } else {
            List { pos: 0, offset: (list_len - 1) as usize, ..self }
        }
    }

    /// Where a key leaves the window over `list_len` items: `j` or Down moves
    /// down, `k` or Up moves up, `g` goes to the top, `G` to the bottom.
    pub open spec fn after_key(self, key: Key, list_len: int) -> List {
        match key {
            Key::Char('j') | Key::Down => self.moved_down(list_len),
            Key::Char('k') | Key::Up => self.moved_up(),
            Key::Char('g') => self.at_top(),
            Key::Char('G') => self.at_bottom(list_len),
            _ => self,
        }
    }

    /// Whether the key moves the cursor.
    pub open spec fn is_move(key: Key) -> bool {
        match key {
            Key::Char('j') | Key::Down | Key::Char('k') | Key::Up | Key::Char('g') | Key::Char(
                'G',
            ) => true,
            _ => false,
        }
    }

    pub fn go_up(&mut self)
        ensures
            *final(self) == old(self).moved_up(),
            final(self).offset <= old(self).offset,
            final(self).offset + final(self).pos <= old(self).offset + old(self).pos,
    {
        if self.pos > 0 {
            self.pos = self.pos - 1;
        } else if self.offset > 0 {
            self.offset = self.offset - 1;
        }
    }

    /// From a selected item inside the list, the cursor stays inside it,
    /// except where the last item is selected while the window shows blank
    /// rows under it (a list that shrank under a scrolled window): the cursor
    /// then moves down onto a blank row.
    pub fn go_down(&mut self, list_len: usize)
        ensures
            *final(self) == old(self).moved_down(list_len as int),
            old(self).offset + old(self).pos < list_len && !(old(self).pos + 1 < min(
                old(self).height as int,
                list_len as int,
            ) && old(self).offset + old(self).pos + 1 == list_len)
                ==> final(self).offset + final(self).pos < list_len,
    {
        let shown = if self.height < list_len {
            self.height
        } else {
            list_len
        };
        if shown > 0 && self.pos < shown - 1 {
            self.pos = self.pos + 1;
        } else if self.offset < list_len && self.pos < list_len - self.offset - 1 {
            self.offset = self.offset + 1;
        }
    }

    pub fn go_to_top(&mut self)
        ensures
            *final(self) == old(self).at_top(),
    {
        self.pos = 0;
        self.offset = 0;
    }

    pub fn go_to_bottom(&mut self, list_len: usize)
        ensures
            *final(self) == old(self).at_bottom(list_len as int),
            0 < list_len < old(self).height ==> final(self).offset == 0 && final(self).pos
                == list_len - 1,
            list_len > 0 ==> final(self).offset + final(self).pos == list_len - 1,
    {
        if list_len == 0 {
            self.pos = 0;
            self.offset = 0;
        } else if list_len < self.height {
            self.pos = list_len - 1;
            self.offset = 0;
        } else if self.height > 0 {
            self.pos = self.height - 1;
            self.offset = list_len - self.height;
        } else {
            self.pos = 0;
            self.offset = list_len - 1;
        }
    }

    /// Moves through a list of `list_len` items as the key asks.
    pub fn input(&mut self, key: Key, list_len: usize)
        ensures
            *final(self) == old(self).after_key(key, list_len as int),
    {
        match key {
            Key::Char('j') | Key::Down => self.go_down(list_len),
            Key::Char('k') | Key::Up => self.go_up(),
            Key::Char('g') => self.go_to_top(),
            Key::Char('G') => self.go_to_bottom(list_len),
            _ => {},
        }
    }

    /// What each of the `height` rows shows of a list of `list_len` items:
    /// the index of its item, or nothing past the end of the list. The row
    /// at `pos` is the selected one.
    pub fn visible_rows(&self, list_len: usize) -> (r: Vec<Option<usize>>)
        ensures
            r@.len() == self.height,
            forall|i: int|
                0 <= i < self.height ==> #[trigger] r@[i] == if self.offset + i < list_len {
                    Some((self.offset + i) as usize)
                } else {
                    None
                },
    {
        let mut rows: Vec<Option<usize>> = Vec::new();
        let mut i: usize = 0;
        while i < self.height
            invariant
                i <= self.height,
                rows@.len() == i,
                forall|j: int|
                    0 <= j < i ==> #[trigger] rows@[j] == if self.offset + j < list_len {
                        Some((self.offset + j) as usize)
                    } else {
                        None
                    },
            decreases self.height - i,
        {
            if self.offset < list_len && i < list_len - self.offset {
                rows.push(Some(self.offset + i));
            } else {
                rows.push(None);
            }
            i = i + 1;
        }
        rows
    }
}

} // verus!
