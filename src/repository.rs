use vstd::prelude::*;

verus! {

/// What an ignored path is, as contracts see it.
pub struct IgnoredPathView {
    pub path: Seq<char>,
    pub size: u64,
}

/// What a repository is, as contracts see it.
pub struct RepositoryView {
    pub path: Seq<char>,
    pub ignored: Seq<IgnoredPathView>,
}

/// Total size of a sequence of ignored paths.
pub open spec fn total_size(s: Seq<IgnoredPathView>) -> int
    decreases s.len(),
{
    if s.len() == 0 {
        0
    } else {
        total_size(s.drop_last()) + s.last().size
    }
}

/// The ignored paths that remain after `path` was removed from disk: the
/// entries of `path` become empty, and empty entries are dropped.
pub open spec fn without_path(s: Seq<IgnoredPathView>, path: Seq<char>) -> Seq<IgnoredPathView> {
    s.filter(|i: IgnoredPathView| i.path != path && i.size != 0)
}

impl RepositoryView {
    /// The space that the repository's ignored paths take.
    pub open spec fn size(self) -> int {
        total_size(self.ignored)
    }

    /// The repository after `path` was removed from disk.
    pub open spec fn cleaned(self, path: Seq<char>) -> RepositoryView {
        RepositoryView { path: self.path, ignored: without_path(self.ignored, path) }
    }
}

/// A path that a repository's ignore rules exclude, with the space it takes.
pub struct IgnoredPathInfo {
    path: String,
    size: u64,
}

impl View for IgnoredPathInfo {
    type V = IgnoredPathView;

    closed spec fn view(&self) -> IgnoredPathView {
        IgnoredPathView { path: self.path@, size: self.size }
    }
}

impl IgnoredPathInfo {
    pub fn new(path: String, size: u64) -> (r: Self)
        ensures
            r@ == (IgnoredPathView { path: path@, size }),
    {
        Self { path, size }
    }

    pub fn path(&self) -> (r: &String)
        ensures
            r@ == self@.path,
    {
        &self.path
    }

    pub fn size(&self) -> (r: u64)
        ensures
            r == self@.size,
    {
        self.size
    }
}

impl Clone for IgnoredPathInfo {
    fn clone(&self) -> (r: Self)
        ensures
            r@ == self@,
    {
        Self { path: self.path.clone(), size: self.size }
    }
}

/// The views of a sequence of ignored paths.
pub open spec fn views_of(s: Seq<IgnoredPathInfo>) -> Seq<IgnoredPathView> {
    s.map_values(|i: IgnoredPathInfo| i@)
}

/// A repository root and the ignored paths found in it.
pub struct Repository {
    path: String,
    ignored_path_infos: Vec<IgnoredPathInfo>,
}

impl View for Repository {
    type V = RepositoryView;

    closed spec fn view(&self) -> RepositoryView {
        RepositoryView { path: self.path@, ignored: views_of(self.ignored_path_infos@) }
    }
}

/// A prefix of a sequence never weighs more than the whole.
pub proof fn lemma_total_size_prefix(s: Seq<IgnoredPathView>, n: int)
    requires
        0 <= n <= s.len(),
    ensures
        0 <= total_size(s.subrange(0, n)) <= total_size(s),
    decreases s.len(),
{
    if s.len() > 0 {
        if n == s.len() {
            assert(s.subrange(0, n) =~= s);
            lemma_total_size_prefix(s.drop_last(), s.len() - 1);
            assert(s.drop_last().subrange(0, s.len() - 1) =~= s.drop_last());
        } else {
            lemma_total_size_prefix(s.drop_last(), n);
            assert(s.drop_last().subrange(0, n) =~= s.subrange(0, n));
        }
    }
}

/// Appending an entry adds its size.
pub proof fn lemma_total_size_push(s: Seq<IgnoredPathView>, e: IgnoredPathView)
    ensures
        total_size(s.push(e)) == total_size(s) + e.size,
{
    assert(s.push(e).drop_last() =~= s);
}

/// No sequence weighs less than nothing.
pub proof fn lemma_total_size_nonnegative(s: Seq<IgnoredPathView>)
    ensures
        total_size(s) >= 0,
    decreases s.len(),
{
    if s.len() > 0 {
        lemma_total_size_nonnegative(s.drop_last());
    }
}

/// The size of a sequence is what `without_path` keeps, plus what it holds
/// under `path`: the other entries it drops are empty.
pub proof fn lemma_size_split(s: Seq<IgnoredPathView>, path: Seq<char>)
    ensures
        total_size(s) == total_size(without_path(s, path)) + total_size(
            s.filter(|i: IgnoredPathView| i.path == path),
        ),
    decreases s.len(),
{
    let keep = |i: IgnoredPathView| i.path != path && i.size != 0;
    let under = |i: IgnoredPathView| i.path == path;
    if s.len() > 0 {
        let rest = s.drop_last();
        let e = s.last();
        lemma_size_split(rest, path);
        assert(rest.push(e) =~= s);
        rest.lemma_filter_push(e, keep);
        rest.lemma_filter_push(e, under);
        lemma_total_size_push(rest, e);
        lemma_total_size_push(rest.filter(keep), e);
        lemma_total_size_push(rest.filter(under), e);
    } else {
        reveal(Seq::filter);
    }
}

impl Repository {
    /// The size of every repository fits in a `u64`.
    #[verifier::type_invariant]
    spec fn size_fits(self) -> bool {
        self@.size() <= u64::MAX
    }

    pub fn new(path: String, ignored_path_infos: Vec<IgnoredPathInfo>) -> (r: Self)
        requires
            total_size(views_of(ignored_path_infos@)) <= u64::MAX,
        ensures
            r@ == (RepositoryView { path: path@, ignored: views_of(ignored_path_infos@) }),
    {
        Self { path, ignored_path_infos }
    }

    pub fn path(&self) -> (r: &String)
        ensures
            r@ == self@.path,
    {
        &self.path
    }

    pub fn ignored_path_infos(&self) -> (r: &Vec<IgnoredPathInfo>)
        ensures
            views_of(r@) == self@.ignored,
    {
        &self.ignored_path_infos
    }

    /// The space that the ignored paths take, summed.
    pub fn size(&self) -> (r: u64)
        ensures
            r == self@.size(),
    {
        proof {
            use_type_invariant(self);
        }
        let ghost all = self@.ignored;
        let mut total: u64 = 0;
        let mut k: usize = 0;
        while k < self.ignored_path_infos.len()
            invariant
                all == views_of(self.ignored_path_infos@),
                total_size(all) <= u64::MAX,
                k <= all.len(),
                total == total_size(all.subrange(0, k as int)),
            decreases all.len() - k,
        {
            proof {
                assert(all.subrange(0, k + 1).drop_last() =~= all.subrange(0, k as int));
                lemma_total_size_prefix(all, k + 1);
            }
            total = total + self.ignored_path_infos[k].size;
            k = k + 1;
        }
        proof {
            assert(all.subrange(0, k as int) =~= all);
        }
        total
    }

    /// Forgets the entries of `ignored_path_info`'s path, once that path is
    /// gone from disk, and every entry that is empty.
    pub(crate) fn clean_ignored_path(&mut self, ignored_path_info: &IgnoredPathInfo)
        ensures
            final(self)@ == old(self)@.cleaned(ignored_path_info@.path),
    {
        proof {
            use_type_invariant(&*self);
        }
        let ghost all = self@.ignored;
        let ghost p = ignored_path_info@.path;
        let mut kept: Vec<IgnoredPathInfo> = Vec::new();
        let mut k: usize = 0;
        while k < self.ignored_path_infos.len()
            invariant
                all == views_of(self.ignored_path_infos@),
                p == ignored_path_info@.path,
                k <= all.len(),
                views_of(kept@) == without_path(all.subrange(0, k as int), p),
            decreases all.len() - k,
        {
            let info = &self.ignored_path_infos[k];
            proof {
                assert(all.subrange(0, k + 1) =~= all.subrange(0, k as int).push(all[k as int]));
                all.subrange(0, k as int).lemma_filter_push(
                    all[k as int],
                    |i: IgnoredPathView| i.path != p && i.size != 0,
                );
            }
            if info.size != 0 && !(info.path == ignored_path_info.path) {
                let c = info.clone();
                let ghost before = kept@;
                kept.push(c);
                proof {
                    assert(views_of(kept@) =~= views_of(before).push(c@));
                }
            }
            k = k + 1;
        }
        proof {
            assert(all.subrange(0, k as int) =~= all);
            lemma_size_split(all, p);
            lemma_total_size_nonnegative(all.filter(|i: IgnoredPathView| i.path == p));
        }
        self.ignored_path_infos = kept;
    }
}

impl Clone for Repository {
    fn clone(&self) -> (r: Self)
        ensures
            r@ == self@,
    {
        proof {
            use_type_invariant(self);
        }
        let mut infos: Vec<IgnoredPathInfo> = Vec::new();
        let mut k: usize = 0;
        while k < self.ignored_path_infos.len()
            invariant
                k <= self.ignored_path_infos.len(),
                views_of(infos@) == views_of(self.ignored_path_infos@).subrange(0, k as int),
            decreases self.ignored_path_infos.len() - k,
        {
            let c = self.ignored_path_infos[k].clone();
            let ghost before = infos@;
            infos.push(c);
            proof {
                assert(views_of(infos@) =~= views_of(before).push(c@));
                assert(views_of(self.ignored_path_infos@).subrange(0, k + 1) =~= views_of(
                    self.ignored_path_infos@,
                ).subrange(0, k as int).push(c@));
                assert(views_of(infos@) =~= views_of(self.ignored_path_infos@).subrange(
                    0,
                    k + 1,
                ));
            }
            k = k + 1;
        }
        proof {
            assert(views_of(infos@) =~= views_of(self.ignored_path_infos@));
        }
        Self { path: self.path.clone(), ignored_path_infos: infos }
    }
}

/// The views of a sequence of repositories.
pub open spec fn repository_views(s: Seq<Repository>) -> Seq<RepositoryView> {
    s.map_values(|r: Repository| r@)
}

/// No two repositories share a root path.
pub open spec fn paths_unique(s: Seq<RepositoryView>) -> bool {
    forall|i: int, j: int| 0 <= i < j < s.len() ==> s[i].path != s[j].path
}

/// Every repository's size fits in a `u64`.
pub open spec fn sizes_fit(s: Seq<RepositoryView>) -> bool {
    forall|i: int| 0 <= i < s.len() ==> #[trigger] s[i].size() <= u64::MAX
}

/// The repositories that take some space: the ones that are displayed.
pub open spec fn nonempty(s: Seq<RepositoryView>) -> Seq<RepositoryView> {
    s.filter(|r: RepositoryView| r.size() > 0)
}

/// Whether a repository has the given size.
pub open spec fn has_size(size: int) -> spec_fn(RepositoryView) -> bool {
    |r: RepositoryView| r.size() == size
}

/// The repositories of a given size, in their order.
pub open spec fn of_size(s: Seq<RepositoryView>, size: int) -> Seq<RepositoryView> {
    s.filter(has_size(size))
}

/// Larger repositories come first.
pub open spec fn sorted_by_size(s: Seq<RepositoryView>) -> bool {
    forall|i: int, j: int| 0 <= i < j < s.len() ==> s[i].size() >= s[j].size()
}

/// `r` is `s` sorted by decreasing size, repositories of equal size kept in
/// their order in `s`. Only one sequence is such for a given `s`
/// (`lemma_stable_sort_unique`).
pub open spec fn stable_sort_of(r: Seq<RepositoryView>, s: Seq<RepositoryView>) -> bool {
    &&& r.len() == s.len()
    &&& sorted_by_size(r)
    &&& forall|size: int| #[trigger] of_size(r, size) == of_size(s, size)
}

/// Inserting `e` after every repository at least as large, and before every
/// smaller one, sorts `s.push(e)` when `v` sorts `s`.
pub proof fn lemma_insert_sorted(
    v: Seq<RepositoryView>,
    s: Seq<RepositoryView>,
    k: int,
    e: RepositoryView,
)
    requires
        stable_sort_of(v, s),
        0 <= k <= v.len(),
        forall|j: int| 0 <= j < k ==> v[j].size() >= e.size(),
        k < v.len() ==> v[k].size() < e.size(),
    ensures
        stable_sort_of(v.insert(k, e), s.push(e)),
{
    let n = v.insert(k, e);
    let a = v.subrange(0, k);
    let b = v.subrange(k, v.len() as int);
    assert(v =~= a + b);
    assert forall|x: int, y: int| 0 <= x < y < n.len() implies n[x].size() >= n[y].size() by {
        if y > k {
            assert(n[y] == v[y - 1]);
            if x < k {
                assert(n[x] == v[x]);
            } else if x == k {
                assert(v[k].size() >= v[y - 1].size());
            } else {
                assert(n[x] == v[x - 1]);
            }
        } else if y == k {
            assert(n[x] == v[x]);
        } else {
            assert(n[x] == v[x]);
            assert(n[y] == v[y]);
        }
    }
    assert forall|size: int| #[trigger] of_size(n, size) == of_size(s.push(e), size) by {
        Seq::filter_distributes_over_add(a.push(e), b, has_size(size));
        Seq::filter_distributes_over_add(a, b, has_size(size));
        a.lemma_filter_push(e, has_size(size));
        s.lemma_filter_push(e, has_size(size));
        assert(of_size(v, size) == of_size(s, size));
        if e.size() == size {
            assert forall|j: int| 0 <= j < b.len() implies !has_size(size)(#[trigger] b[j]) by {
                assert(b[j] == v[k + j]);
                assert(v[k].size() >= v[k + j].size());
            }
            b.lemma_all_neg_filter_empty(has_size(size));
            assert(b.filter(has_size(size)) =~= Seq::<RepositoryView>::empty());
            assert(a.filter(has_size(size)) + b.filter(has_size(size)) =~= a.filter(
                has_size(size),
            ));
            assert(a.filter(has_size(size)).push(e) + b.filter(has_size(size)) =~= a.filter(
                has_size(size),
            ).push(e));
        }
    }
}

/// No more repositories are displayed than there are.
pub proof fn lemma_nonempty_len(s: Seq<RepositoryView>)
    ensures
        nonempty(s).len() <= s.len(),
{
    s.lemma_filter_len(|r: RepositoryView| r.size() > 0);
}

/// A sorted sequence holding a repository of size `size` ends with one no
/// larger.
proof fn lemma_last_is_smallest(r: Seq<RepositoryView>, size: int)
    requires
        sorted_by_size(r),
        of_size(r, size).len() > 0,
    ensures
        r.len() > 0,
        r.last().size() <= size,
{
    let x = of_size(r, size)[0];
    r.lemma_filter_pred(has_size(size), 0);
    assert(of_size(r, size).contains(x));
    r.lemma_filter_contains_rev(has_size(size), x);
    let j = choose|j: int| 0 <= j < r.len() && r[j] == x;
    assert(r[j].size() >= r[r.len() - 1].size() || j == r.len() - 1);
}

/// Two stable sorts of one sequence are the same sequence: the sorted view
/// of the repositories is determined.
pub proof fn lemma_stable_sort_unique(a: Seq<RepositoryView>, b: Seq<RepositoryView>, s: Seq<RepositoryView>)
    requires
        stable_sort_of(a, s),
        stable_sort_of(b, s),
    ensures
        a == b,
    decreases a.len(),
{
    if a.len() == 0 {
        assert(a =~= b);
    } else {
        let m = a.last().size();
        let ra = a.drop_last();
        let rb = b.drop_last();
        assert(ra.push(a.last()) =~= a);
        ra.lemma_filter_push(a.last(), has_size(m));
        assert(of_size(a, m).len() > 0);
        assert(of_size(b, m) == of_size(s, m));
        lemma_last_is_smallest(b, m);
        let n = b.last().size();
        assert(rb.push(b.last()) =~= b);
        rb.lemma_filter_push(b.last(), has_size(n));
        assert(of_size(b, n).len() > 0);
        assert(of_size(a, n) == of_size(s, n));
        lemma_last_is_smallest(a, n);
        assert(m == n);
        rb.lemma_filter_push(b.last(), has_size(m));
        assert(of_size(a, m).last() == a.last());
        assert(of_size(b, m).last() == b.last());
        assert(a.last() == b.last());
        assert(sorted_by_size(ra));
        assert(sorted_by_size(rb));
        assert forall|size: int| #[trigger] of_size(rb, size) == of_size(ra, size) by {
            ra.lemma_filter_push(a.last(), has_size(size));
            rb.lemma_filter_push(b.last(), has_size(size));
            assert(of_size(a, size) == of_size(s, size));
            assert(of_size(b, size) == of_size(s, size));
            if size == m {
                assert(of_size(a, size).drop_last() =~= of_size(ra, size));
                assert(of_size(b, size).drop_last() =~= of_size(rb, size));
            }
        }
        lemma_stable_sort_unique(ra, rb, ra);
        assert(a =~= b);
    }
}

/// The repositories once `path` of the repository at `repository_path` is
/// gone from disk.
pub open spec fn clean_in(
    s: Seq<RepositoryView>,
    repository_path: Seq<char>,
    path: Seq<char>,
) -> Seq<RepositoryView> {
    s.map_values(
        |r: RepositoryView|
            if r.path == repository_path {
                r.cleaned(path)
            } else {
                r
            },
    )
}

/// Why a repository was not added to a store.
#[derive(Debug, PartialEq, Eq, Structural)]
pub enum StoreError {
    /// A repository with the same root path is already there.
    DuplicatePath,
}

/// The repositories found so far, in the order of discovery.
pub struct RepositoryStore {
    repositories: Vec<Repository>,
}

impl View for RepositoryStore {
    type V = Seq<RepositoryView>;

    closed spec fn view(&self) -> Seq<RepositoryView> {
        repository_views(self.repositories@)
    }
}

impl RepositoryStore {
    /// No two repositories share a root path, and each size fits in a `u64`.
    pub open spec fn well_formed(&self) -> bool {
        &&& paths_unique(self@)
        &&& sizes_fit(self@)
    }

    pub fn new() -> (r: Self)
        ensures
            r@ == Seq::<RepositoryView>::empty(),
            r.well_formed(),
    {
        let r = Self { repositories: Vec::new() };
        proof {
            assert(r@ =~= Seq::<RepositoryView>::empty());
        }
        r
    }

    /// Appends a newly found repository, unless one with its root path is
    /// already there.
    pub fn add(&mut self, repository: Repository) -> (r: Result<(), StoreError>)
        requires
            old(self).well_formed(),
        ensures
            final(self).well_formed(),
            match r {
                Ok(()) => final(self)@ == old(self)@.push(repository@),
                Err(e) => e == StoreError::DuplicatePath && final(self)@ == old(self)@,
            },
            r is Ok <==> forall|i: int| 0 <= i < old(self)@.len() ==> old(self)@[i].path != repository@.path,
    {
        proof {
            use_type_invariant(&repository);
        }
        let mut k: usize = 0;
        while k < self.repositories.len()
            invariant
                k <= self@.len(),
                self@.len() == self.repositories@.len(),
                forall|i: int| 0 <= i < k ==> self@[i].path != repository@.path,
                self.well_formed(),
                repository@.size() <= u64::MAX,
            decreases self@.len() - k,
        {
            proof {
                assert(self@[k as int] == self.repositories@[k as int]@);
            }
            if *self.repositories[k].path() == *repository.path() {
                return Err(StoreError::DuplicatePath);
            }
            k = k + 1;
        }
        let ghost before = self@;
        self.repositories.push(repository);
        proof {
            assert(self@ =~= before.push(repository@));
        }
        Ok(())
    }

    /// A copy of the repositories, in the order of discovery.
    pub fn repositories(&self) -> (r: Vec<Repository>)
        ensures
            repository_views(r@) == self@,
    {
        let mut out: Vec<Repository> = Vec::new();
        let mut k: usize = 0;
        while k < self.repositories.len()
            invariant
                k <= self@.len(),
                self@.len() == self.repositories@.len(),
                repository_views(out@) == self@.subrange(0, k as int),
            decreases self@.len() - k,
        {
            let c = self.repositories[k].clone();
            let ghost before = out@;
            out.push(c);
            proof {
                assert(repository_views(out@) =~= repository_views(before).push(c@));
                assert(self@.subrange(0, k + 1) =~= self@.subrange(0, k as int).push(c@));
            }
            k = k + 1;
        }
        proof {
            assert(self@.subrange(0, k as int) =~= self@);
        }
        out
    }

    /// The repositories, larger first; repositories of equal size in the
    /// order of discovery.
    pub fn repositories_sorted(&self) -> (r: Vec<Repository>)
        ensures
            stable_sort_of(repository_views(r@), self@),
    {
        let ghost all = self@;
        let mut out: Vec<Repository> = Vec::new();
        let mut sizes: Vec<u64> = Vec::new();
        let mut i: usize = 0;
        proof {
            assert(repository_views(out@) =~= all.subrange(0, 0));
        }
        while i < self.repositories.len()
            invariant
                all == self@,
                i <= all.len(),
                all.len() == self.repositories@.len(),
                sizes@.len() == out@.len(),
                forall|j: int| 0 <= j < out@.len() ==> sizes@[j] as int == #[trigger] out@[j]@.size(),
                stable_sort_of(repository_views(out@), all.subrange(0, i as int)),
            decreases all.len() - i,
        {
            let e = self.repositories[i].clone();
            let size = e.size();
            let ghost v = repository_views(out@);
            let mut k: usize = 0;
            while k < sizes.len() && sizes[k] >= size
                invariant
                    k <= sizes@.len(),
                    sizes@.len() == out@.len(),
                    v == repository_views(out@),
                    forall|j: int| 0 <= j < out@.len() ==> sizes@[j] as int == #[trigger] out@[j]@.size(),
                    forall|j: int| 0 <= j < k ==> v[j].size() >= size,
                decreases sizes@.len() - k,
            {
                proof {
                    assert(v[k as int] == out@[k as int]@);
                }
                k = k + 1;
            }
            proof {
                if k < v.len() {
                    assert(v[k as int] == out@[k as int]@);
                }
                assert(all.subrange(0, i + 1) =~= all.subrange(0, i as int).push(e@));
                lemma_insert_sorted(v, all.subrange(0, i as int), k as int, e@);
            }
            let ghost before = out@;
            let ghost sizes_before = sizes@;
            out.insert(k, e);
            sizes.insert(k, size);
            proof {
                assert(repository_views(out@) =~= v.insert(k as int, e@));
                assert forall|j: int| 0 <= j < out@.len() implies sizes@[j] as int
                    == #[trigger] out@[j]@.size() by {
                    if j > k {
                        assert(out@[j] == before[j - 1]);
                        assert(sizes@[j] == sizes_before[j - 1]);
                    } else if j < k {
                        assert(out@[j] == before[j]);
                        assert(sizes@[j] == sizes_before[j]);
                    }
                }
            }
            i = i + 1;
        }
        proof {
            assert(all.subrange(0, i as int) =~= all);
        }
        out
    }

    /// How many repositories take some space.
    pub fn filtered_len(&self) -> (r: usize)
        ensures
            r == nonempty(self@).len(),
    {
        let ghost all = self@;
        let mut count: usize = 0;
        let mut k: usize = 0;
        while k < self.repositories.len()
            invariant
                all == self@,
                k <= all.len(),
                all.len() == self.repositories@.len(),
                count == nonempty(all.subrange(0, k as int)).len(),
                count <= k,
            decreases all.len() - k,
        {
            proof {
                assert(all.subrange(0, k + 1) =~= all.subrange(0, k as int).push(all[k as int]));
                all.subrange(0, k as int).lemma_filter_push(
                    all[k as int],
                    |r: RepositoryView| r.size() > 0,
                );
            }
            if self.repositories[k].size() > 0 {
                count = count + 1;
            }
            k = k + 1;
        }
        proof {
            assert(all.subrange(0, k as int) =~= all);
        }
        count
    }

    /// The repository whose root is `path`, if one was found.
    pub fn find_by_path(&self, path: &String) -> (r: Option<Repository>)
        ensures
            match r {
                Some(found) => exists|i: int|
                    0 <= i < self@.len() && self@[i].path == path@ && found@ == self@[i],
                None => forall|i: int| 0 <= i < self@.len() ==> self@[i].path != path@,
            },
    {
        let mut k: usize = 0;
        while k < self.repositories.len()
            invariant
                k <= self@.len(),
                self@.len() == self.repositories@.len(),
                forall|i: int| 0 <= i < k ==> self@[i].path != path@,
            decreases self@.len() - k,
        {
            proof {
                assert(self@[k as int] == self.repositories@[k as int]@);
            }
            if *self.repositories[k].path() == *path {
                let found = self.repositories[k].clone();
                proof {
                    assert(self@[k as int] == self.repositories@[k as int]@);
                }
                return Some(found);
            }
            k = k + 1;
        }
        None
    }

    /// Records that `ignored_path_info`'s path of `repository` is gone from
    /// disk. Recording it again changes nothing.
    pub fn clean_ignored_path(&mut self, repository: &Repository, ignored_path_info: &IgnoredPathInfo)
        requires
            old(self).well_formed(),
        ensures
            final(self).well_formed(),
            final(self)@ == clean_in(old(self)@, repository@.path, ignored_path_info@.path),
    {
        let ghost all = self@;
        let ghost rp = repository@.path;
        let ghost p = ignored_path_info@.path;
        let mut k: usize = 0;
        while k < self.repositories.len()
            invariant
                k <= all.len(),
                rp == repository@.path,
                p == ignored_path_info@.path,
                self@.len() == all.len(),
                self@.len() == self.repositories@.len(),
                forall|i: int| 0 <= i < k ==> #[trigger] self@[i] == clean_in(all, rp, p)[i],
                forall|i: int| k <= i < all.len() ==> #[trigger] self@[i] == all[i],
                paths_unique(all),
                sizes_fit(self@),
            decreases all.len() - k,
        {
            proof {
                assert(self@[k as int] == self.repositories@[k as int]@);
                assert(clean_in(all, rp, p)[k as int] == (if all[k as int].path == rp {
                    all[k as int].cleaned(p)
                } else {
                    all[k as int]
                }));
            }
            if *self.repositories[k].path() == *repository.path() {
                let mut r = self.repositories[k].clone();
                r.clean_ignored_path(ignored_path_info);
                proof {
                    use_type_invariant(&r);
                }
                let ghost before = self@;
                self.repositories.set(k, r);
                proof {
                    assert(self@ =~= before.update(k as int, r@));
                }
            }
            k = k + 1;
        }
        proof {
            assert(self@ =~= clean_in(all, rp, p));
        }
        assert(paths_unique(self@)) by {
            assert forall|i: int, j: int| 0 <= i < j < self@.len() implies self@[i].path
                != self@[j].path by {
                assert(self@[i].path == all[i].path);
                assert(self@[j].path == all[j].path);
            }
        }
    }
}

/// Filtering twice keeps what both predicates keep.
pub proof fn lemma_filter_filter<A>(s: Seq<A>, f: spec_fn(A) -> bool, g: spec_fn(A) -> bool)
    ensures
        s.filter(f).filter(g) == s.filter(|x: A| f(x) && g(x)),
    decreases s.len(),
{
    reveal(Seq::filter);
    if s.len() > 0 {
        let rest = s.drop_last();
        lemma_filter_filter(rest, f, g);
        rest.lemma_filter_push(s.last(), f);
        rest.filter(f).lemma_filter_push(s.last(), g);
        rest.lemma_filter_push(s.last(), |x: A| f(x) && g(x));
        assert(rest.push(s.last()) =~= s);
    }
}

/// When the entry at `k` is the only one under `path`, the entries under
/// `path` weigh what it weighs.
proof fn lemma_only_entry(s: Seq<IgnoredPathView>, k: int, path: Seq<char>)
    requires
        0 <= k < s.len(),
        s[k].path == path,
        forall|j: int| 0 <= j < s.len() && j != k ==> s[j].path != path,
    ensures
        total_size(s.filter(|i: IgnoredPathView| i.path == path)) == s[k].size,
    decreases s.len(),
{
    let under = |i: IgnoredPathView| i.path == path;
    let rest = s.drop_last();
    assert(rest.push(s.last()) =~= s);
    rest.lemma_filter_push(s.last(), under);
    if k == s.len() - 1 {
        assert forall|j: int| 0 <= j < rest.len() implies !under(#[trigger] rest[j]) by {
            assert(rest[j] == s[j]);
        }
        rest.lemma_all_neg_filter_empty(under);
        assert(rest.filter(under) =~= Seq::<IgnoredPathView>::empty());
        lemma_total_size_push(rest.filter(under), s.last());
    } else {
        lemma_only_entry(rest, k, path);
    }
}

/// Removing the one ignored path recorded under `r.ignored[k]`'s path lowers
/// the repository's size by exactly that entry's size, and leaves no entry
/// under that path.
pub proof fn lemma_clean_lowers_size(r: RepositoryView, k: int)
    requires
        0 <= k < r.ignored.len(),
        forall|j: int|
            0 <= j < r.ignored.len() && j != k ==> r.ignored[j].path != r.ignored[k].path,
    ensures
        r.cleaned(r.ignored[k].path).size() == r.size() - r.ignored[k].size,
        forall|j: int|
            0 <= j < r.cleaned(r.ignored[k].path).ignored.len() ==> (#[trigger] r.cleaned(
                r.ignored[k].path,
            ).ignored[j]).path != r.ignored[k].path,
{
    let p = r.ignored[k].path;
    lemma_size_split(r.ignored, p);
    lemma_only_entry(r.ignored, k, p);
    assert forall|j: int| 0 <= j < r.cleaned(p).ignored.len() implies (#[trigger] r.cleaned(
        p,
    ).ignored[j]).path != p by {
        r.ignored.lemma_filter_pred(|i: IgnoredPathView| i.path != p && i.size != 0, j);
    }
}

/// Removing a path a second time changes nothing.
pub proof fn lemma_clean_idempotent(
    s: Seq<RepositoryView>,
    repository_path: Seq<char>,
    path: Seq<char>,
)
    ensures
        clean_in(clean_in(s, repository_path, path), repository_path, path) == clean_in(
            s,
            repository_path,
            path,
        ),
{
    let once = clean_in(s, repository_path, path);
    let twice = clean_in(once, repository_path, path);
    let keep = |i: IgnoredPathView| i.path != path && i.size != 0;
    assert forall|j: int| 0 <= j < s.len() implies #[trigger] twice[j] == once[j] by {
        if s[j].path == repository_path {
            lemma_filter_filter(s[j].ignored, keep, keep);
            assert(keep =~= |i: IgnoredPathView| keep(i) && keep(i));
        }
    }
    assert(twice =~= once);
}

/// Removes, one after the other, each of `paths` from the repository at
/// `repository_path`.
pub open spec fn clean_all(
    s: Seq<RepositoryView>,
    repository_path: Seq<char>,
    paths: Seq<Seq<char>>,
) -> Seq<RepositoryView>
    decreases paths.len(),
{
    if paths.len() == 0 {
        s
    } else {
        clean_in(clean_all(s, repository_path, paths.drop_last()), repository_path, paths.last())
    }
}

/// The root paths of a repository's ignored paths.
pub open spec fn ignored_paths_of(r: RepositoryView) -> Seq<Seq<char>> {
    r.ignored.map_values(|i: IgnoredPathView| i.path)
}

/// The entries of `s` that survive removing each of `paths`, for at least one.
spec fn surviving(s: Seq<IgnoredPathView>, paths: Seq<Seq<char>>) -> Seq<IgnoredPathView> {
    s.filter(|i: IgnoredPathView| !paths.contains(i.path) && i.size != 0)
}

proof fn lemma_clean_all_other(
    s: Seq<RepositoryView>,
    repository_path: Seq<char>,
    paths: Seq<Seq<char>>,
)
    ensures
        clean_all(s, repository_path, paths).len() == s.len(),
        forall|j: int|
            0 <= j < s.len() && s[j].path != repository_path ==> #[trigger] clean_all(
                s,
                repository_path,
                paths,
            )[j] == s[j],
        forall|j: int|
            0 <= j < s.len() && s[j].path == repository_path && paths.len() > 0 ==> #[trigger] clean_all(
                s,
                repository_path,
                paths,
            )[j] == (RepositoryView { path: s[j].path, ignored: surviving(s[j].ignored, paths) }),
    decreases paths.len(),
{
    if paths.len() > 0 {
        let prev = paths.drop_last();
        let p = paths.last();
        lemma_clean_all_other(s, repository_path, prev);
        let t = clean_all(s, repository_path, prev);
        assert forall|j: int|
            0 <= j < s.len() && s[j].path == repository_path implies #[trigger] clean_all(
            s,
            repository_path,
            paths,
        )[j] == (RepositoryView { path: s[j].path, ignored: surviving(s[j].ignored, paths) }) by {
            let keep = |i: IgnoredPathView| i.path != p && i.size != 0;
            let now = |i: IgnoredPathView| !paths.contains(i.path) && i.size != 0;
            if prev.len() == 0 {
                assert(t[j] == s[j]);
                assert forall|i: IgnoredPathView| #[trigger] keep(i) == now(i) by {
                    assert(paths =~= seq![p]);
                    if i.path == p {
                        assert(paths[0] == i.path);
                    }
                }
                assert(keep =~= now);
            } else {
                let before = |i: IgnoredPathView| !prev.contains(i.path) && i.size != 0;
                lemma_filter_filter(s[j].ignored, before, keep);
                assert forall|i: IgnoredPathView| #[trigger] now(i) == (before(i) && keep(i)) by {
                    assert(paths =~= prev.push(p));
                    if prev.contains(i.path) {
                        let x = choose|x: int| 0 <= x < prev.len() && prev[x] == i.path;
                        assert(paths[x] == i.path);
                    }
                    if paths.contains(i.path) && i.path != p {
                        let x = choose|x: int| 0 <= x < paths.len() && paths[x] == i.path;
                        assert(prev[x] == i.path);
                    }
                    if i.path == p {
                        assert(paths[paths.len() - 1] == i.path);
                    }
                }
                assert(now =~= |i: IgnoredPathView| before(i) && keep(i));
            }
        }
    }
}

/// How many repositories take some space, after one of them was replaced.
proof fn lemma_nonempty_update(s: Seq<RepositoryView>, k: int, r: RepositoryView)
    requires
        0 <= k < s.len(),
    ensures
        nonempty(s.update(k, r)).len() == nonempty(s).len() - (if s[k].size() > 0 {
            1int
        } else {
            0int
        }) + (if r.size() > 0 {
            1int
        } else {
            0int
        }),
    decreases s.len(),
{
    let pos = |x: RepositoryView| x.size() > 0;
    let rest = s.drop_last();
    assert(rest.push(s.last()) =~= s);
    rest.lemma_filter_push(s.last(), pos);
    if k == s.len() - 1 {
        assert(rest.push(r) =~= s.update(k, r));
        rest.lemma_filter_push(r, pos);
    } else {
        lemma_nonempty_update(rest, k, r);
        assert(rest.update(k, r).push(s.last()) =~= s.update(k, r));
        rest.update(k, r).lemma_filter_push(s.last(), pos);
    }
}

/// Removing every ignored path of the repository at `k`, one after the
/// other, brings its size to 0, leaves it no ignored path, leaves the other
/// repositories as they were, and takes it out of the displayed ones.
pub proof fn lemma_clean_all_empties(s: Seq<RepositoryView>, k: int)
    requires
        0 <= k < s.len(),
        paths_unique(s),
    ensures
        clean_all(s, s[k].path, ignored_paths_of(s[k])).len() == s.len(),
        clean_all(s, s[k].path, ignored_paths_of(s[k]))[k].ignored.len() == 0,
        clean_all(s, s[k].path, ignored_paths_of(s[k]))[k].size() == 0,
        forall|j: int|
            0 <= j < s.len() && j != k ==> #[trigger] clean_all(
                s,
                s[k].path,
                ignored_paths_of(s[k]),
            )[j] == s[j],
        nonempty(clean_all(s, s[k].path, ignored_paths_of(s[k]))).len() == nonempty(s).len() - (
        if s[k].size() > 0 {
            1int
        } else {
            0int
        }),
{
    let rp = s[k].path;
    let paths = ignored_paths_of(s[k]);
    let t = clean_all(s, rp, paths);
    lemma_clean_all_other(s, rp, paths);
    let gone = |i: IgnoredPathView| !paths.contains(i.path) && i.size != 0;
    if paths.len() > 0 {
        assert forall|j: int| 0 <= j < s[k].ignored.len() implies !gone(
            #[trigger] s[k].ignored[j],
        ) by {
            assert(paths[j] == s[k].ignored[j].path);
        }
        s[k].ignored.lemma_all_neg_filter_empty(gone);
    } else {
        assert(s[k].ignored =~= Seq::<IgnoredPathView>::empty());
    }
    assert(t[k].ignored =~= Seq::<IgnoredPathView>::empty());
    assert(t =~= s.update(k, t[k]));
    lemma_nonempty_update(s, k, t[k]);
}

} // verus!
