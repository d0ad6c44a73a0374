use vstd::prelude::*;

use crate::repository::{
    lemma_total_size_push, total_size, views_of, IgnoredPathInfo, IgnoredPathView, Repository,
    RepositoryView,
};

verus! {

/// An entry met while walking a directory tree, as the scanner reads it.
pub struct WalkEntry {
    pub path: String,
    /// The directory that holds the entry, where it has one.
    pub parent: Option<String>,
    /// The entry's own name, where it reads as text.
    pub file_name: Option<String>,
    /// How far below the walk's root the entry is; the root is at 0.
    pub depth: usize,
    pub is_dir: bool,
    pub is_symlink: bool,
}

/// The name of the directory that marks a repository.
pub open spec fn marker_name() -> Seq<char> {
    seq!['.', 'g', 'i', 't']
}

/// The entry's name is `name`.
pub open spec fn named(entry: WalkEntry, name: Seq<char>) -> bool {
    entry.file_name matches Some(n) && n@ == name
}

/// The entry's name starts with a dot.
pub open spec fn dot_named(entry: WalkEntry) -> bool {
    entry.file_name matches Some(n) && n@.len() > 0 && n@[0] == '.'
}

/// Whether a name is the marker's name.
fn is_marker_name(name: &String) -> (r: bool)
    ensures
        r == (name@ == marker_name()),
{
    let s = name.as_str();
    if s.unicode_len() != 4 {
        return false;
    }
    let r = s.get_char(0) == '.' && s.get_char(1) == 'g' && s.get_char(2) == 'i' && s.get_char(3)
        == 't';
    proof {
        if r {
            assert(name@ =~= marker_name());
        }
    }
    r
}

/// A directory named `.git`: its parent is a repository.
pub fn is_repository_mark_directory(entry: &WalkEntry) -> (r: bool)
    ensures
        r == (entry.is_dir && named(*entry, marker_name())),
{
    match &entry.file_name {
        Some(name) => entry.is_dir && is_marker_name(name),
        None => false,
    }
}

/// A directory whose name starts with a dot.
pub fn is_hidden_directory(entry: &WalkEntry) -> (r: bool)
    ensures
        r == (entry.is_dir && dot_named(*entry)),
{
    match &entry.file_name {
        Some(name) => {
            let s = name.as_str();
            entry.is_dir && s.unicode_len() > 0 && s.get_char(0) == '.'
        },
        None => false,
    }
}

/// What the search for repositories does with an entry.
pub struct ScanStep {
    /// The root of a repository that the entry marks.
    pub repository: Option<String>,
    /// Whether to leave the entry's subtree unvisited.
    pub skip_dir: bool,
}

/// Reads one entry of the search for repositories: a `.git` directory marks
/// its parent as a repository, and no hidden directory below the root is
/// entered, `.git` included.
pub fn scan_entry(entry: &WalkEntry) -> (r: ScanStep)
    ensures
        r.repository is Some <==> entry.is_dir && named(*entry, marker_name())
            && entry.parent is Some,
        r.repository matches Some(root) ==> entry.parent matches Some(parent) && root@ == parent@,
        r.skip_dir == (entry.is_dir && dot_named(*entry) && entry.depth > 0),
{
    let repository = if is_repository_mark_directory(entry) {
        match &entry.parent {
            Some(parent) => Some(parent.clone()),
            None => None,
        }
    } else {
        None
    };
    ScanStep { repository, skip_dir: entry.depth > 0 && is_hidden_directory(entry) }
}

/// What measuring an ignored path does with an entry under it.
pub struct SizeStep {
    /// Whether the entry's length counts.
    pub counted: bool,
    /// Whether to leave the entry's subtree unvisited.
    pub skip_dir: bool,
}

/// Reads one entry under an ignored path: links are not followed nor
/// counted, and a `.git` directory is neither counted nor entered.
pub fn size_entry(entry: &WalkEntry) -> (r: SizeStep)
    ensures
        r.counted == (!entry.is_symlink && !named(*entry, marker_name())),
        r.skip_dir == (!entry.is_symlink && entry.is_dir && named(*entry, marker_name())),
{
    let marker = match &entry.file_name {
        Some(name) => is_marker_name(name),
        None => false,
    };
    SizeStep { counted: !entry.is_symlink && !marker, skip_dir: !entry.is_symlink && entry.is_dir && marker }
}

/// Adds the length of a counted entry to a running size, which stops at the
/// largest `u64`.
pub fn add_size(total: u64, len: u64) -> (r: u64)
    ensures
        r == vstd::math::min(total + len, u64::MAX as int),
{
    total.saturating_add(len)
}

/// The ignored paths of one repository, gathered while its tree is walked.
pub struct IgnoredPathCollector {
    infos: Vec<IgnoredPathInfo>,
    total: u64,
    failed: bool,
}

impl View for IgnoredPathCollector {
    type V = (Seq<IgnoredPathView>, bool);

    /// The paths gathered so far, and whether the ignore rules failed.
    closed spec fn view(&self) -> (Seq<IgnoredPathView>, bool) {
        (views_of(self.infos@), self.failed)
    }
}

impl IgnoredPathCollector {
    /// The running total is the size of what was gathered.
    pub closed spec fn well_formed(&self) -> bool {
        self.total == total_size(views_of(self.infos@))
    }

    pub fn new() -> (r: Self)
        ensures
            r@.0 == Seq::<IgnoredPathView>::empty(),
            !r@.1,
            r.well_formed(),
    {
        let r = Self { infos: Vec::new(), total: 0, failed: false };
        proof {
            assert(views_of(r.infos@) =~= Seq::<IgnoredPathView>::empty());
        }
        r
    }

    /// Records an ignored path and its size. A path whose size would take
    /// the repository's total past the largest `u64` is left out.
    pub fn record(&mut self, path: String, size: u64)
        requires
            old(self).well_formed(),
        ensures
            final(self).well_formed(),
            final(self)@.1 == old(self)@.1,
            final(self)@.0 == if total_size(old(self)@.0) + size <= u64::MAX {
                old(self)@.0.push(IgnoredPathView { path: path@, size })
            } else {
                old(self)@.0
            },
    {
        if size <= u64::MAX - self.total {
            let info = IgnoredPathInfo::new(path, size);
            let ghost before = self.infos@;
            self.infos.push(info);
            self.total = self.total + size;
            proof {
                assert(views_of(self.infos@) =~= views_of(before).push(info@));
                lemma_total_size_push(views_of(before), info@);
            }
        }
    }

    /// Records that the ignore rules could not be evaluated.
    pub fn fail(&mut self)
        requires
            old(self).well_formed(),
        ensures
            final(self).well_formed(),
            final(self)@ == (old(self)@.0, true),
    {
        self.failed = true;
    }

    /// The repository at `repository_path` with the ignored paths gathered;
    /// with none at all where the ignore rules failed.
    pub fn finish(self, repository_path: String) -> (r: Repository)
        requires
            self.well_formed(),
        ensures
            r@ == (RepositoryView {
                path: repository_path@,
                ignored: if self@.1 {
                    Seq::<IgnoredPathView>::empty()
                } else {
                    self@.0
                },
            }),
    {
        if self.failed {
            let none: Vec<IgnoredPathInfo> = Vec::new();
            proof {
                assert(views_of(none@) =~= Seq::<IgnoredPathView>::empty());
            }
            Repository::new(repository_path, none)
        } else {
            Repository::new(repository_path, self.infos)
        }
    }
}

} // verus!
