use vstd::prelude::*;

use crate::details::{self, detail_rows, shown_ignored, Details};
use crate::helpwindow::HelpWindow;
use crate::key::Key;
use crate::list::List;
use crate::pathlist::{self, PathList};
use crate::repository::{
    nonempty, stable_sort_of, views_of, IgnoredPathInfo, IgnoredPathView, Repository,
    RepositoryStore, RepositoryView,
};
use crate::statusbar::StatusBar;
use crate::usagebar::UsageBar;

verus! {

/// Which view is shown.
pub enum AppState {
    /// The list of repositories.
    PathList,
    /// The details of the repository at this root. The repository is looked
    /// up again each time, so that the view follows the store.
    Details(String),
}

/// A request to remove an ignored path of a repository from disk, and then
/// to record that it is gone.
pub struct CleanRequest {
    pub repository: Repository,
    pub ignored_path_info: IgnoredPathInfo,
}

/// What a key asks of the program.
pub enum Command {
    Nothing,
    Quit,
    /// Perform these removals, without waiting for them.
    Clean(Vec<CleanRequest>),
}

/// One request for each ignored path of `repository`, in their order.
pub open spec fn cleans_all(requests: Seq<CleanRequest>, repository: RepositoryView) -> bool {
    &&& requests.len() == repository.ignored.len()
    &&& forall|i: int|
        0 <= i < requests.len() ==> (#[trigger] requests[i]).repository@ == repository
            && requests[i].ignored_path_info@ == repository.ignored[i]
}

/// `j` is the first entry of `s` under `path`.
pub open spec fn first_under(s: Seq<IgnoredPathView>, path: Seq<char>, j: int) -> bool {
    &&& 0 <= j < s.len()
    &&& s[j].path == path
    &&& forall|k: int| 0 <= k < j ==> s[k].path != path
}

/// The keys that end the program.
pub open spec fn is_quit(key: Key) -> bool {
    key == Key::Char('q') || key == Key::Ctrl('c')
}

/// How the details of `repository` take a key: `before` and `after` are the
/// details, the state and the command.
pub open spec fn details_step(
    before: Details,
    after: Details,
    key: Key,
    repository: RepositoryView,
    state_before: AppState,
    state_after: AppState,
    r: Command,
) -> bool {
    let row = before.list.offset + before.list.pos;
    let shown = shown_ignored(repository);
    &&& key != Key::Enter ==> after.list == before.list.after_key(key, detail_rows(repository))
    &&& key != Key::Enter ==> state_after == state_before
    &&& key == Key::Enter ==> after.list == (List { pos: 0, ..before.list })
        && state_after is PathList && r is Nothing
    &&& key == Key::Char('d') && row == 0 ==> (r matches Command::Clean(requests) && cleans_all(
        requests@,
        repository,
    ))
    &&& key == Key::Char('d') && 1 <= row <= shown.len() ==> (r matches Command::Clean(requests)
        && requests@.len() == 1 && requests@[0].repository@ == repository && exists|j: int|
        first_under(repository.ignored, shown[row - 1].path, j)
            && requests@[0].ignored_path_info@ == repository.ignored[j])
    &&& key == Key::Char('d') && row > shown.len() ==> r is Nothing
    &&& key != Key::Char('d') && key != Key::Enter ==> r is Nothing
}

/// The first ignored path of `repository` under `path`.
fn find_ignored_path(repository: &Repository, path: &String) -> (r: Option<IgnoredPathInfo>)
    ensures
        match r {
            Some(info) => exists|j: int|
                first_under(repository@.ignored, path@, j) && info@ == repository@.ignored[j],
            None => forall|j: int|
                0 <= j < repository@.ignored.len() ==> repository@.ignored[j].path != path@,
        },
{
    let infos = repository.ignored_path_infos();
    let mut k: usize = 0;
    while k < infos.len()
        invariant
            views_of(infos@) == repository@.ignored,
            k <= infos@.len(),
            forall|j: int| 0 <= j < k ==> repository@.ignored[j].path != path@,
        decreases infos@.len() - k,
    {
        proof {
            assert(repository@.ignored[k as int] == infos@[k as int]@);
        }
        if *infos[k].path() == *path {
            return Some(infos[k].clone());
        }
        k = k + 1;
    }
    None
}

/// The views and what the user toggled.
pub struct App {
    pub root_path: String,
    pub path_list: PathList,
    pub usage_bar: UsageBar,
    pub status_bar: StatusBar,
    pub details: Details,
    pub help_window: HelpWindow,
    pub state: AppState,
}

impl App {
    /// The list of repositories under `root_path`, searching, in lists of
    /// `list_height` rows.
    pub fn new(root_path: String, list_height: usize) -> (r: Self)
        ensures
            r.root_path == root_path,
            r.path_list.list == (List { pos: 0, offset: 0, height: list_height }),
            r.path_list.path_scroll_amount == 0,
            r.details.list == (List { pos: 0, offset: 0, height: list_height }),
            !r.status_bar.done,
            r.status_bar.spinner_phase == 0,
            !r.help_window.show,
            r.state is PathList,
    {
        App {
            root_path,
            path_list: PathList {
                list: List { pos: 0, offset: 0, height: list_height },
                path_scroll_amount: 0,
            },
            usage_bar: UsageBar,
            status_bar: StatusBar { done: false, spinner_phase: 0 },
            details: Details { list: List { pos: 0, offset: 0, height: list_height } },
            help_window: HelpWindow::new(),
            state: AppState::PathList,
        }
    }

    /// Gives both lists `list_height` rows.
    pub fn set_height(&mut self, list_height: usize)
        ensures
            final(self).path_list.list == (List { height: list_height, ..old(self).path_list.list }),
            final(self).details.list == (List { height: list_height, ..old(self).details.list }),
            final(self).path_list.path_scroll_amount == old(self).path_list.path_scroll_amount,
            final(self).state == old(self).state,
            final(self).help_window == old(self).help_window,
    {
        self.path_list.list.height = list_height;
        self.details.list.height = list_height;
    }

    /// Requests the removal of each ignored path of `repository`.
    pub fn clean_repository(&self, repository: &Repository) -> (r: Vec<CleanRequest>)
        ensures
            cleans_all(r@, repository@),
    {
        let infos = repository.ignored_path_infos();
        let mut requests: Vec<CleanRequest> = Vec::new();
        let mut k: usize = 0;
        while k < infos.len()
            invariant
                views_of(infos@) == repository@.ignored,
                k <= infos@.len(),
                requests@.len() == k,
                forall|i: int|
                    0 <= i < k ==> (#[trigger] requests@[i]).repository@ == repository@
                        && requests@[i].ignored_path_info@ == repository@.ignored[i],
            decreases infos@.len() - k,
        {
            proof {
                assert(repository@.ignored[k as int] == infos@[k as int]@);
            }
            requests.push(
                CleanRequest { repository: repository.clone(), ignored_path_info: infos[k].clone() },
            );
            k = k + 1;
        }
        requests
    }

    /// Takes a key: `q` and Ctrl-C quit, `h` shows or hides the help, and
    /// while the help is hidden the current view takes the key.
    pub fn input(&mut self, key: Key, repositories: &RepositoryStore) -> (r: Command)
        requires
            repositories.well_formed(),
        ensures
            is_quit(key) ==> r is Quit && *final(self) == *old(self),
            !is_quit(key) ==> !(r is Quit),
            !is_quit(key) ==> final(self).help_window.show
                == (old(self).help_window.show != (key == Key::Char('h'))),
            !is_quit(key) ==> final(self).root_path == old(self).root_path,
            !is_quit(key) ==> final(self).status_bar == old(self).status_bar,
            !is_quit(key) ==> final(self).help_window.window == old(self).help_window.window,
            !is_quit(key) && final(self).help_window.show ==> r is Nothing,
            !is_quit(key) && final(self).help_window.show ==> final(self).path_list
                == old(self).path_list,
            !is_quit(key) && final(self).help_window.show ==> final(self).details
                == old(self).details,
            !is_quit(key) && final(self).help_window.show ==> final(self).state
                == old(self).state,
            !is_quit(key) && !final(self).help_window.show && old(self).state is PathList ==> {
                let row = old(self).path_list.list.offset + old(self).path_list.list.pos;
                &&& r is Nothing
                &&& final(self).details == old(self).details
                &&& final(self).path_list.list == old(self).path_list.list.after_key(
                    key,
                    nonempty(repositories@).len() as int,
                )
                &&& final(self).path_list.path_scroll_amount == if List::is_move(key) {
                    0
                } else {
                    old(self).path_list.path_scroll_amount
                }
                &&& final(self).state is Details <==> key == Key::Enter && row < nonempty(
                    repositories@,
                ).len()
                &&& final(self).state matches AppState::Details(path) ==> exists|
                    sorted: Seq<RepositoryView>,
                | stable_sort_of(sorted, repositories@) && path@ == sorted[row].path
            },
            !is_quit(key) && !final(self).help_window.show ==> forall|path: String|
                old(self).state == AppState::Details(path) ==> {
                    &&& final(self).path_list == old(self).path_list
                    &&& (forall|i: int|
                        0 <= i < repositories@.len() ==> repositories@[i].path != path@)
                        ==> final(self).state is PathList && r is Nothing && final(self).details
                        == old(self).details
                    &&& forall|i: int|
                        0 <= i < repositories@.len() && repositories@[i].path == path@
                            ==> details_step(
                            old(self).details,
                            final(self).details,
                            key,
                            #[trigger] repositories@[i],
                            old(self).state,
                            final(self).state,
                            r,
                        )
                },
    {
        match key {
            Key::Char('q') | Key::Ctrl('c') => {
                return Command::Quit;
            },
            Key::Char('h') => {
                self.help_window.show = !self.help_window.show;
            },
            _ => {},
        }
        if self.help_window.show {
            return Command::Nothing;
        }
        match &self.state {
            AppState::PathList => {
                match self.path_list.input(key, repositories) {
                    Some(pathlist::Event::Open(repository)) => {
                        self.state = AppState::Details(repository.path().clone());
                    },
                    None => {},
                }
                Command::Nothing
            },
            AppState::Details(path) => {
                let path = path.clone();
                let repository = match repositories.find_by_path(&path) {
                    Some(repository) => repository,
                    None => {
                        self.state = AppState::PathList;
                        return Command::Nothing;
                    },
                };
                proof {
                    let i = choose|i: int|
                        0 <= i < repositories@.len() && repositories@[i].path == path@
                            && repository@ == repositories@[i];
                    assert forall|j: int|
                        0 <= j < repositories@.len() && repositories@[j].path == path@ implies j
                        == i by {
                        if j != i {
                            assert(repositories@[j].path != repositories@[i].path);
                        }
                    }
                }
                match self.details.input(key, &repository) {
                    Some(details::Event::Close) => {
                        self.state = AppState::PathList;
                        Command::Nothing
                    },
                    Some(details::Event::DeleteAll) => Command::Clean(
                        self.clean_repository(&repository),
                    ),
                    Some(details::Event::Delete(ignored)) => {
                        proof {
                            let row = old(self).details.list.offset + old(self).details.list.pos;
                            let p = ignored@;
                            let shown = shown_ignored(repository@);
                            repository@.ignored.lemma_filter_contains_rev(
                                |i: IgnoredPathView| i.size > 0,
                                shown[row - 1],
                            );
                        }
                        match find_ignored_path(&repository, &ignored) {
                            Some(info) => {
                                let mut requests: Vec<CleanRequest> = Vec::new();
                                requests.push(
                                    CleanRequest { repository: repository.clone(), ignored_path_info: info },
                                );
                                Command::Clean(requests)
                            },
                            None => Command::Nothing,
                        }
                    },
                    None => Command::Nothing,
                }
            },
        }
    }
}

} // verus!
