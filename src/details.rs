use vstd::prelude::*;

use crate::key::Key;
use crate::list::List;
use vstd::math::min;
use crate::repository::{views_of, IgnoredPathInfo, IgnoredPathView, Repository, RepositoryView};

verus! {

/// The ignored paths of a repository that take some space: the ones shown
/// under its summary row.
pub open spec fn shown_ignored(r: RepositoryView) -> Seq<IgnoredPathView> {
    r.ignored.filter(|i: IgnoredPathView| i.size > 0)
}

/// How many rows the details of a repository have: its summary row and one
/// for each ignored path shown, counted up to the largest `usize`.
pub open spec fn detail_rows(r: RepositoryView) -> int {
    min(1 + shown_ignored(r).len() as int, usize::MAX as int)
}

/// The ignored paths of `repository` that take some space, in their order.
pub fn shown_ignored_path_infos(repository: &Repository) -> (r: Vec<IgnoredPathInfo>)
    ensures
        views_of(r@) == shown_ignored(repository@),
{
    let infos = repository.ignored_path_infos();
    let ghost all = repository@.ignored;
    let mut shown: Vec<IgnoredPathInfo> = Vec::new();
    let mut k: usize = 0;
    while k < infos.len()
        invariant
            all == views_of(infos@),
            k <= all.len(),
            views_of(shown@) == all.subrange(0, k as int).filter(
                |i: IgnoredPathView| i.size > 0,
            ),
        decreases all.len() - k,
    {
        proof {
            assert(all.subrange(0, k + 1) =~= all.subrange(0, k as int).push(all[k as int]));
            all.subrange(0, k as int).lemma_filter_push(
                all[k as int],
                |i: IgnoredPathView| i.size > 0,
            );
        }
        if infos[k].size() > 0 {
            let c = infos[k].clone();
            let ghost before = shown@;
            shown.push(c);
            proof {
                assert(views_of(shown@) =~= views_of(before).push(c@));
            }
        }
        k = k + 1;
    }
    proof {
        assert(all.subrange(0, k as int) =~= all);
    }
    shown
}

/// The details of one repository: a summary row, then one row for each of
/// its ignored paths that takes some space.
pub struct Details {
    pub list: List,
}

/// What the details ask of the application.
pub enum Event {
    /// Go back to the list of repositories.
    Close,
    /// Remove every ignored path of the repository.
    DeleteAll,
    /// Remove this ignored path.
    Delete(String),
}

impl Details {
    /// Moves through the rows as the key asks. Enter closes the details and
    /// puts the cursor back on the first row; `d` removes what the selected
    /// row stands for: everything on the summary row, else its ignored path.
    pub fn input(&mut self, key: Key, repository: &Repository) -> (r: Option<Event>)
        ensures
            key != Key::Enter ==> final(self).list == old(self).list.after_key(
                key,
                detail_rows(repository@),
            ),
            key == Key::Enter ==> final(self).list == (List { pos: 0, ..old(self).list }),
            key == Key::Enter ==> r matches Some(Event::Close),
            key == Key::Char('d') ==> match r {
                Some(Event::DeleteAll) => old(self).list.offset + old(self).list.pos == 0,
                Some(Event::Delete(path)) => 1 <= old(self).list.offset + old(self).list.pos
                    <= shown_ignored(repository@).len() && path@ == shown_ignored(
                    repository@,
                )[old(self).list.offset + old(self).list.pos - 1].path,
                Some(Event::Close) => false,
                None => old(self).list.offset + old(self).list.pos > shown_ignored(
                    repository@,
                ).len(),
            },
            key != Key::Enter && key != Key::Char('d') ==> r is None,
    {
        let shown = shown_ignored_path_infos(repository);
        let rows = shown.len().saturating_add(1);
        proof {
            assert(shown@.len() == views_of(shown@).len());
        }
        self.list.input(key, rows);
        match key {
            Key::Char('d') => {
                if self.list.offset == 0 && self.list.pos == 0 {
                    Some(Event::DeleteAll)
                } else if self.list.offset <= shown.len() && self.list.pos <= shown.len()
                    - self.list.offset && self.list.offset + self.list.pos >= 1 {
                    let index = self.list.offset + self.list.pos - 1;
                    proof {
                        assert(views_of(shown@)[index as int] == shown@[index as int]@);
                    }
                    Some(Event::Delete(shown[index].path().clone()))
                } else {
                    None
                }
            },
            Key::Enter => {
                self.list.pos = 0;
                Some(Event::Close)
            },
            _ => None,
        }
    }
}

} // verus!
