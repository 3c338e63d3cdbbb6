use vstd::prelude::*;
use vstd::multiset::Multiset;
use vstd::relations::{sorted_by, total_ordering};
use crate::bytes::copy_bytes;
use crate::order::{bytes_le, bytes_order, le_bytes, lemma_bytes_le_total, lemma_bytes_le_total_ordering, lemma_bytes_le_transitive};
use crate::repository::{Repository, RepositoryView};

verus! {

broadcast use vstd::seq_lib::group_to_multiset_ensures, vstd::seq_lib::to_multiset_insert;

/// One entry of the `worktrees/` directory below a common directory.
#[derive(Clone, Debug)]
pub struct WorktreeEntry {
    /// The entry's full path.
    pub path: Vec<u8>,
    /// Whether a regular file named `gitdir` exists directly inside it.
    pub has_gitdir_file: bool,
}

/// Why the `worktrees/` directory could not be read.
#[derive(Clone, Debug, PartialEq, Eq)]
pub enum ReadDirError {
    /// The directory does not exist.
    NotFound,
    /// Any other failure, with the system's description of it.
    Other { message: String },
}

/// A linked worktree as discovered, not yet validated: its private git
/// directory, which held a `gitdir` file when it was found.
#[derive(Debug)]
pub struct Proxy<'repo> {
    pub parent: &'repo Repository,
    pub git_dir: Vec<u8>,
}

/// The paths of the entries that qualify as linked worktrees, in listing order.
pub open spec fn candidate_dirs(entries: Seq<WorktreeEntry>) -> Seq<Seq<u8>>
    decreases entries.len(),
{
    if entries.len() == 0 {
        Seq::empty()
    } else {
        let rest = candidate_dirs(entries.drop_last());
        if entries.last().has_gitdir_file {
            rest.push(entries.last().path@)
        } else {
            rest
        }
    }
}

/// The private git directories of `ps`, in order.
pub open spec fn proxy_dirs<'repo>(ps: Seq<Proxy<'repo>>) -> Seq<Seq<u8>> {
    ps.map_values(|p: Proxy<'repo>| p.git_dir@)
}

/// `dirs` lists exactly the qualifying entries, in ascending byte order.
pub open spec fn is_listing(entries: Seq<WorktreeEntry>, dirs: Seq<Seq<u8>>) -> bool {
    &&& sorted_by(dirs, bytes_order())
    &&& dirs.to_multiset() == candidate_dirs(entries).to_multiset()
}

/// Every qualifying entry, and nothing else, is among the candidates.
pub proof fn lemma_candidate_dirs_members(entries: Seq<WorktreeEntry>)
    ensures
        forall|k: int|
            0 <= k < entries.len() && (#[trigger] entries[k]).has_gitdir_file ==> candidate_dirs(
                entries,
            ).contains(entries[k].path@),
        forall|d: Seq<u8>|
            #[trigger] candidate_dirs(entries).contains(d) ==> exists|k: int|
                0 <= k < entries.len() && (#[trigger] entries[k]).has_gitdir_file && entries[k].path@
                    == d,
    decreases entries.len(),
{
    if entries.len() > 0 {
        let init = entries.drop_last();
        lemma_candidate_dirs_members(init);
        let rest = candidate_dirs(init);
        assert forall|k: int|
            0 <= k < entries.len() && (#[trigger] entries[k]).has_gitdir_file implies candidate_dirs(
                entries,
            ).contains(entries[k].path@) by {
            if k < entries.len() - 1 {
                assert(init[k] == entries[k]);
                let w = choose|w: int| 0 <= w < rest.len() && rest[w] == entries[k].path@;
                assert(candidate_dirs(entries)[w] == entries[k].path@);
            } else {
                assert(candidate_dirs(entries).last() == entries[k].path@);
            }
        }
        assert forall|d: Seq<u8>| #[trigger] candidate_dirs(entries).contains(d) implies exists|k: int|
            0 <= k < entries.len() && (#[trigger] entries[k]).has_gitdir_file && entries[k].path@
                == d by {
            let w = choose|w: int|
                0 <= w < candidate_dirs(entries).len() && candidate_dirs(entries)[w] == d;
            if w < rest.len() {
                assert(rest.contains(d));
                let k = choose|k: int|
                    0 <= k < init.len() && (#[trigger] init[k]).has_gitdir_file && init[k].path@ == d;
                assert(entries[k] == init[k]);
            } else {
                assert(entries[entries.len() - 1].path@ == d);
            }
        }
    }
}

/// A listing holds as many paths as there are qualifying entries; each
/// qualifying entry's path is in it, and each path in it is a qualifying entry's.
pub proof fn lemma_listing_exact(entries: Seq<WorktreeEntry>, dirs: Seq<Seq<u8>>)
    requires
        is_listing(entries, dirs),
    ensures
        dirs.len() == candidate_dirs(entries).len(),
        forall|k: int|
            0 <= k < entries.len() && (#[trigger] entries[k]).has_gitdir_file ==> dirs.contains(
                entries[k].path@,
            ),
        forall|d: Seq<u8>|
            #[trigger] dirs.contains(d) ==> exists|k: int|
                0 <= k < entries.len() && (#[trigger] entries[k]).has_gitdir_file && entries[k].path@
                    == d,
{
    lemma_candidate_dirs_members(entries);
    assert(dirs.len() == dirs.to_multiset().len());
    assert(candidate_dirs(entries).len() == candidate_dirs(entries).to_multiset().len());
    assert forall|d: Seq<u8>| #[trigger] dirs.contains(d) <==> candidate_dirs(entries).contains(d) by {
        assert(dirs.to_multiset().count(d) == candidate_dirs(entries).to_multiset().count(d));
    }
}

/// What enumeration reads of each entry: its path and whether it holds a
/// `gitdir` file.
pub open spec fn entry_views(entries: Seq<WorktreeEntry>) -> Seq<(Seq<u8>, bool)> {
    entries.map_values(|e: WorktreeEntry| (e.path@, e.has_gitdir_file))
}

/// A path is a candidate as many times as a qualifying entry has it.
pub proof fn lemma_candidate_count(entries: Seq<WorktreeEntry>, d: Seq<u8>)
    ensures
        candidate_dirs(entries).to_multiset().count(d) == entry_views(entries).to_multiset().count(
            (d, true),
        ),
    decreases entries.len(),
{
    if entries.len() == 0 {
        assert(candidate_dirs(entries).to_multiset() =~= Multiset::empty());
        assert(entry_views(entries).to_multiset() =~= Multiset::empty());
    } else {
        let init = entries.drop_last();
        lemma_candidate_count(init, d);
        assert(entry_views(entries) =~= entry_views(init).push(
            (entries.last().path@, entries.last().has_gitdir_file),
        ));
    }
}

/// Enumeration is deterministic: two reads of the directory that list the
/// same entries, in any order, give the same paths in the same order.
pub proof fn lemma_listing_deterministic(
    first_read: Seq<WorktreeEntry>,
    second_read: Seq<WorktreeEntry>,
    first: Seq<Seq<u8>>,
    second: Seq<Seq<u8>>,
)
    requires
        entry_views(first_read).to_multiset() == entry_views(second_read).to_multiset(),
        is_listing(first_read, first),
        is_listing(second_read, second),
    ensures
        first == second,
{
    assert forall|d: Seq<u8>|
        candidate_dirs(first_read).to_multiset().count(d) == #[trigger] candidate_dirs(
            second_read,
        ).to_multiset().count(d) by {
        lemma_candidate_count(first_read, d);
        lemma_candidate_count(second_read, d);
    }
    assert(candidate_dirs(first_read).to_multiset() =~= candidate_dirs(second_read).to_multiset());
    lemma_bytes_le_total_ordering();
    vstd::seq_lib::lemma_sorted_unique(first, second, bytes_order());
}

/// A linked worktree's git directory and, if it could be reached, its checkout.
#[derive(Clone, Debug)]
pub struct LinkedCheckout {
    pub git_dir: Vec<u8>,
    pub checkout: Option<Vec<u8>>,
}

/// The repositories of the reachable checkouts in `linked`, in the same order.
pub open spec fn linked_repos(parent: RepositoryView, linked: Seq<LinkedCheckout>) -> Seq<
    RepositoryView,
>
    decreases linked.len(),
{
    if linked.len() == 0 {
        Seq::empty()
    } else {
        let rest = linked_repos(parent, linked.drop_last());
        match linked.last().checkout {
            Some(path) => rest.push(
                RepositoryView {
                    git_dir: linked.last().git_dir@,
                    common_dir: parent.common_dir,
                    work_dir: Some(path@),
                    config: parent.config,
                    object_hash: parent.object_hash,
                },
            ),
            None => rest,
        }
    }
}

/// The views of `rs`, in order.
pub open spec fn repo_views(rs: Seq<Repository>) -> Seq<RepositoryView> {
    rs.map_values(|r: Repository| r@)
}

impl Repository {
    /// All linked worktrees as proxies, sorted by their private git directory.
    /// `listing` is what reading `worktrees/` in the common directory gave. A
    /// missing directory means no linked worktree; any other failure is handed
    /// on. Entries without a `gitdir` file are left out.
    pub fn worktrees(&self, listing: Result<Vec<WorktreeEntry>, ReadDirError>) -> (r: Result<
        Vec<Proxy<'_>>,
        ReadDirError,
    >)
        ensures
            match listing {
                Ok(entries) => r matches Ok(ps) && is_listing(entries@, proxy_dirs(ps@)) && forall|
                    k: int,
                | 0 <= k < ps@.len() ==> (#[trigger] ps@[k]).parent == self,
                Err(ReadDirError::NotFound) => r matches Ok(ps) && ps@.len() == 0,
                Err(e) => r == Err::<Vec<Proxy<'_>>, ReadDirError>(e),
            },
    {
        let entries = match listing {
            Ok(entries) => entries,
            Err(ReadDirError::NotFound) => return Ok(Vec::new()),
            Err(e) => return Err(e),
        };
        let mut res: Vec<Proxy<'_>> = Vec::new();
        proof {
            lemma_bytes_le_total_ordering();
        }
        let mut i: usize = 0;
        assert(entries@.take(0) =~= Seq::<WorktreeEntry>::empty());
        assert(proxy_dirs(res@) =~= Seq::<Seq<u8>>::empty());
        while i < entries.len()
            invariant
                i <= entries.len(),
                total_ordering(bytes_order()),
                is_listing(entries@.take(i as int), proxy_dirs(res@)),
                forall|k: int| 0 <= k < res@.len() ==> (#[trigger] res@[k]).parent == self,
            decreases entries.len() - i,
        {
            assert(entries@.take(i + 1).drop_last() =~= entries@.take(i as int));
            if entries[i].has_gitdir_file {
                let path = copy_bytes(&entries[i].path);
                let ghost d = proxy_dirs(res@);
                let mut j: usize = 0;
                while j < res.len() && le_bytes(&res[j].git_dir, &path)
                    invariant
                        j <= res.len(),
                        d == proxy_dirs(res@),
                        forall|k: int| 0 <= k < j ==> bytes_le(#[trigger] d[k], path@),
                    decreases res.len() - j,
                {
                    j = j + 1;
                }
                proof {
                    if j < res.len() {
                        lemma_bytes_le_total(d[j as int], path@);
                    }
                }
                res.insert(j, Proxy { parent: self, git_dir: path });
                proof {
                    let n = proxy_dirs(res@);
                    assert(n =~= d.insert(j as int, path@));
                    assert(sorted_by(d, bytes_order()));
                    assert forall|a: int, b: int| 0 <= a < b < n.len() implies #[trigger] bytes_order()(
                        n[a],
                        n[b],
                    ) by {
                        if b < j {
                            assert(bytes_order()(d[a], d[b]));
                        } else if a > j {
                            assert(bytes_order()(d[a - 1], d[b - 1]));
                        } else if a == j {
                            assert(bytes_le(path@, d[j as int]));
                            if b - 1 > j {
                                assert(bytes_order()(d[j as int], d[b - 1]));
                                lemma_bytes_le_transitive(path@, d[j as int], d[b - 1]);
                            }
                        } else if b == j {
                            assert(bytes_le(d[a], path@));
                        } else {
                            assert(bytes_order()(d[a], d[b - 1]));
                        }
                    }
                    assert(forall|k: int|
                        0 <= k < res@.len() ==> (#[trigger] res@[k]).parent == self);
                }
            }
            i = i + 1;
        }
        assert(entries@.take(entries.len() as int) =~= entries@);
        Ok(res)
    }

    /// The linked worktrees with a reachable checkout, as repositories whose
    /// worktree is that checkout, in the order given; the others are skipped.
    /// They share this repository's common directory and configuration.
    pub fn worktree_repos(&self, linked: &Vec<LinkedCheckout>) -> (r: Vec<Repository>)
        ensures
            repo_views(r@) == linked_repos(self@, linked@),
    {
        let mut res: Vec<Repository> = Vec::new();
        let mut i: usize = 0;
        while i < linked.len()
            invariant
                i <= linked.len(),
                repo_views(res@) == linked_repos(self@, linked@.take(i as int)),
            decreases linked.len() - i,
        {
            assert(linked@.take(i + 1).drop_last() =~= linked@.take(i as int));
            match &linked[i].checkout {
                Some(path) => {
                    let ghost before = repo_views(res@);
                    res.push(
                        Repository {
                            git_dir: copy_bytes(&linked[i].git_dir),
                            common_dir: copy_bytes(&self.common_dir),
                            work_dir: Some(copy_bytes(path)),
                            config: self.config.duplicate(),
                            object_hash: self.object_hash,
                        },
                    );
                    assert(repo_views(res@) =~= before.push(res@.last()@));
                },
                None => {},
            }
            i = i + 1;
        }
        assert(linked@.take(linked.len() as int) =~= linked@);
        res
    }
}

} // verus!
