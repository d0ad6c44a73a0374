use vstd::prelude::*;

use crate::key::Key;
use crate::list::List;
use crate::repository::{nonempty, stable_sort_of, repository_views, Repository, RepositoryStore};

verus! {

/// The most a selected path scrolls.
pub const MAX_SCROLL_AMOUNT: usize = 1000;

/// The list of repositories that take some space, larger first.
pub struct PathList {
    pub list: List,
    /// How far the selected path has scrolled, in characters.
    pub path_scroll_amount: usize,
}

/// What the list asks of the application.
pub enum Event {
    /// Show the details of this repository.
    Open(Repository),
}

/// The `width` characters of `line` that show once it has scrolled by
/// `amount`: the whole line when it fits, else the window at `amount`, held
/// at the end of the line.
pub open spec fn scrolled(line: Seq<char>, width: int, amount: int) -> Seq<char> {
    if line.len() < width {
        line
    } else if line.len() - amount < width {
        line.subrange(line.len() - width, line.len() as int)
    } else {
        line.subrange(amount, amount + width)
    }
}

/// The part of `line` shown in `width` columns once it has scrolled by
/// `path_scroll_amount` characters.
pub fn scroll_line_if_needed(line: String, width: usize, path_scroll_amount: usize) -> (r: String)
    ensures
        r@ == scrolled(line@, width as int, path_scroll_amount as int),
        width <= line@.len() ==> r@.len() == width,
        width <= line@.len() ==> scrolled(line@, width as int, 0) == line@.subrange(
            0,
            width as int,
        ),
        width <= line@.len() && path_scroll_amount >= line@.len() - width ==> r@ == line@.subrange(
            line@.len() - width,
            line@.len() as int,
        ),
{
    let len = line.as_str().unicode_len();
    if len < width {
        return line;
    }
    if path_scroll_amount > len - width {
        line.as_str().substring_char(len - width, len).to_owned()
    } else {
        line.as_str().substring_char(path_scroll_amount, path_scroll_amount + width).to_owned()
    }
}

impl PathList {
    /// The repository at row `offset + pos` of the displayed list, if there
    /// is one.
    pub fn get_selected_repository(&self, repositories: &RepositoryStore) -> (r: Option<Repository>)
        ensures
            r is Some <==> self.list.offset + self.list.pos < nonempty(repositories@).len(),
            r matches Some(found) ==> exists|sorted: Seq<crate::repository::RepositoryView>|
                stable_sort_of(sorted, repositories@) && found@ == sorted[self.list.offset
                    + self.list.pos],
    {
        let shown = repositories.filtered_len();
        if self.list.offset >= shown || self.list.pos >= shown - self.list.offset {
            return None;
        }
        let index = self.list.offset + self.list.pos;
        let sorted = repositories.repositories_sorted();
        proof {
            crate::repository::lemma_nonempty_len(repositories@);
            assert(repository_views(sorted@)[index as int] == sorted@[index as int]@);
        }
        Some(sorted[index].clone())
    }

    /// Moves through the displayed repositories as the key asks; a move
    /// starts the selected path from its beginning again, and Enter opens
    /// the selected repository.
    pub fn input(&mut self, key: Key, repositories: &RepositoryStore) -> (r: Option<Event>)
        ensures
            final(self).list == old(self).list.after_key(key, nonempty(repositories@).len() as int),
            final(self).path_scroll_amount == if List::is_move(key) {
                0
            } else {
                old(self).path_scroll_amount
            },
            r is Some <==> key == Key::Enter && old(self).list.offset + old(self).list.pos
                < nonempty(repositories@).len(),
            r matches Some(Event::Open(found)) ==> exists|sorted: Seq<crate::repository::RepositoryView>|
                stable_sort_of(sorted, repositories@) && found@ == sorted[old(self).list.offset
                    + old(self).list.pos],
    {
        let shown = repositories.filtered_len();
        self.list.input(key, shown);
        match key {
            Key::Char('j') | Key::Char('k') | Key::Char('g') | Key::Char('G') | Key::Up
            | Key::Down => {
                self.path_scroll_amount = 0;
            },
            Key::Enter => {
                return match self.get_selected_repository(repositories) {
                    Some(found) => Some(Event::Open(found)),
                    None => None,
                };
            },
            _ => {},
        }
        None
    }

    /// One more tick of the selected path's scrolling, up to its limit.
    pub fn advance_scroll(&mut self)
        ensures
            final(self).list == old(self).list,
            final(self).path_scroll_amount == if old(self).path_scroll_amount < MAX_SCROLL_AMOUNT {
                old(self).path_scroll_amount + 1
            } else {
                old(self).path_scroll_amount as int
            },
    {
        if self.path_scroll_amount < MAX_SCROLL_AMOUNT {
            self.path_scroll_amount = self.path_scroll_amount + 1;
        }
    }

    /// The path of the repository at `index` of the displayed list, as it
    /// shows in `width` columns: only the selected one scrolls.
    pub fn render_path(&self, repository: &Repository, index: usize, width: usize) -> (r: String)
        ensures
            r@ == scrolled(
                repository@.path,
                width as int,
                if index == self.list.offset + self.list.pos {
                    self.path_scroll_amount as int
                } else {
                    0
                },
            ),
    {
        let selected = self.list.offset <= index && index - self.list.offset == self.list.pos;
        let amount = if selected {
            self.path_scroll_amount
        } else {
            0
        };
        scroll_line_if_needed(repository.path().clone(), width, amount)
    }
}

} // verus!
