//! Git status of the files in the current repository.
use vstd::prelude::*;
use crate::pathname::{join, join_paths};
use crate::text::eq_str;

verus! {

/// The status shown next to a file.
#[derive(Debug, Clone, Copy, PartialEq, Eq, Structural)]
pub enum GitStatus {
    Added,
    Modified,
    Untracked,
    Unchanged,
}

/// `git2::Status` bits the file list distinguishes.
pub const STATUS_INDEX_NEW: u32 = 1;
pub const STATUS_INDEX_MODIFIED: u32 = 2;
pub const STATUS_INDEX_RENAMED: u32 = 8;
pub const STATUS_WT_NEW: u32 = 128;
pub const STATUS_WT_MODIFIED: u32 = 256;

/// The status a set of `git2::Status` bits is shown as: new in the index is
/// added; modified (index or work tree) or renamed in the index is modified;
/// new in the work tree only is untracked; anything else is unchanged.
pub open spec fn status_of_bits(bits: u32) -> GitStatus {
    if bits & STATUS_INDEX_NEW != 0 {
        GitStatus::Added
    } else if bits & STATUS_INDEX_MODIFIED != 0 || bits & STATUS_WT_MODIFIED != 0 || bits
        & STATUS_INDEX_RENAMED != 0 {
        GitStatus::Modified
    } else if bits & STATUS_WT_NEW != 0 {
        GitStatus::Untracked
    } else {
        GitStatus::Unchanged
    }
}

/// Maps the bits of a `git2::Status` to the status shown.
pub fn map_status(bits: u32) -> (r: GitStatus)
    ensures
        r == status_of_bits(bits),
{
    if bits & STATUS_INDEX_NEW != 0 {
        GitStatus::Added
    } else if bits & STATUS_INDEX_MODIFIED != 0 || bits & STATUS_WT_MODIFIED != 0 || bits
        & STATUS_INDEX_RENAMED != 0 {
        GitStatus::Modified
    } else if bits & STATUS_WT_NEW != 0 {
        GitStatus::Untracked
    } else {
        GitStatus::Unchanged
    }
}

/// How the bits of a status show: a file new in the index shows as added
/// whatever else is set; otherwise a file modified in the work tree, or
/// modified or renamed in the index, shows as modified; a file new in the work
/// tree only shows as untracked; and a file with none of these bits shows as
/// unchanged. Only an index-new file shows as added.
pub proof fn law_status_marks(bits: u32)
    ensures
        bits & STATUS_INDEX_NEW != 0 ==> status_of_bits(bits) == GitStatus::Added,
        status_of_bits(bits) == GitStatus::Added ==> bits & STATUS_INDEX_NEW != 0,
        bits & STATUS_INDEX_NEW == 0 && bits & STATUS_WT_MODIFIED != 0 ==> status_of_bits(bits)
            == GitStatus::Modified,
        bits & STATUS_INDEX_NEW == 0 && bits & STATUS_INDEX_MODIFIED != 0 ==> status_of_bits(bits)
            == GitStatus::Modified,
        bits & STATUS_INDEX_NEW == 0 && bits & STATUS_INDEX_RENAMED != 0 ==> status_of_bits(bits)
            == GitStatus::Modified,
        status_of_bits(bits) == GitStatus::Untracked ==> bits & STATUS_WT_NEW != 0,
        bits & STATUS_INDEX_NEW == 0 && bits & STATUS_INDEX_MODIFIED == 0 && bits & STATUS_WT_MODIFIED == 0
            && bits & STATUS_INDEX_RENAMED == 0 && bits & STATUS_WT_NEW != 0 ==> status_of_bits(bits)
            == GitStatus::Untracked,
        status_of_bits(bits) == GitStatus::Unchanged <==> (bits & STATUS_INDEX_NEW == 0 && bits
            & STATUS_INDEX_MODIFIED == 0 && bits & STATUS_WT_MODIFIED == 0 && bits & STATUS_INDEX_RENAMED == 0
            && bits & STATUS_WT_NEW == 0),
{
}

/// The statuses of a list of (path, status) pairs; a later pair for the same
/// path replaces an earlier one.
pub open spec fn status_map(entries: Seq<(Seq<char>, GitStatus)>) -> Map<Seq<char>, GitStatus>
    decreases entries.len(),
{
    if entries.len() == 0 {
        Map::empty()
    } else {
        status_map(entries.drop_last()).insert(entries.last().0, entries.last().1)
    }
}

/// The paths of a list of (path, status) pairs, as values.
pub open spec fn status_views(entries: Seq<(String, GitStatus)>) -> Seq<(Seq<char>, GitStatus)> {
    entries.map_values(|e: (String, GitStatus)| (e.0@, e.1))
}

/// The repository the current directory is in, and the statuses of its files.
pub struct GitCache {
    repo_path: Option<String>,
    statuses: Vec<(String, GitStatus)>,
}

impl GitCache {
    /// Whether the cache knows a repository.
    pub closed spec fn in_repo(&self) -> bool {
        self.repo_path is Some
    }

    /// The repository's root, if any.
    pub closed spec fn root(&self) -> Option<Seq<char>> {
        match self.repo_path {
            Some(p) => Some(p@),
            None => None,
        }
    }

    /// The status recorded for each path.
    pub closed spec fn status_view(&self) -> Map<Seq<char>, GitStatus> {
        status_map(status_views(self.statuses@))
    }

    pub fn new() -> (c: Self)
        ensures
            !c.in_repo(),
            c.status_view() == Map::<Seq<char>, GitStatus>::empty(),
    {
        GitCache { repo_path: None, statuses: Vec::new() }
    }

    /// Replaces what the cache knows: the repository root found above the current
    /// directory (if any), and the statuses git reports for it as (path relative
    /// to the root, status bits) pairs, recorded under root-joined paths.
    pub fn refresh_with(&mut self, repo_root: Option<String>, entries: Vec<(String, u32)>)
        ensures
            final(self).in_repo() == (repo_root is Some),
            final(self).root() == match repo_root {
                Some(p) => Some(p@),
                None => None,
            },
            final(self).status_view() == match repo_root {
                Some(p) => status_map(
                    entries@.map_values(|e: (String, u32)| (join_paths(p@, e.0@), status_of_bits(e.1))),
                ),
                None => Map::<Seq<char>, GitStatus>::empty(),
            },
    {
        self.statuses = Vec::new();
        match &repo_root {
            Some(root) => {
                let ghost target = entries@.map_values(|e: (String, u32)| (join_paths(root@, e.0@), status_of_bits(e.1)));
                let mut i: usize = 0;
                while i < entries.len()
                    invariant
                        i <= entries.len(),
                        target == entries@.map_values(|e: (String, u32)| (join_paths(root@, e.0@), status_of_bits(e.1))),
                        status_views(self.statuses@) =~= target.subrange(0, i as int),
                    decreases entries.len() - i,
                {
                    let full = join(root.as_str(), entries[i].0.as_str());
                    let st = map_status(entries[i].1);
                    let ghost before = self.statuses@;
                    self.statuses.push((full, st));
                    assert(status_views(self.statuses@) =~= status_views(before).push((full@, st)));
                    assert(target.subrange(0, i + 1) =~= target.subrange(0, i as int).push(target[i as int]));
                    i = i + 1;
                }
                assert(target.subrange(0, entries.len() as int) =~= target);
            },
            None => {},
        }
        self.repo_path = repo_root;
    }

    /// The status of a path; unchanged when git reported nothing for it.
    pub fn get_status(&self, path: &str) -> (r: GitStatus)
        ensures
            r == if self.status_view().contains_key(path@) {
                self.status_view()[path@]
            } else {
                GitStatus::Unchanged
            },
    {
        let ghost sv = status_views(self.statuses@);
        let mut j: usize = self.statuses.len();
        assert(sv.subrange(0, j as int) =~= sv);
        while j > 0
            invariant
                j <= self.statuses@.len(),
                sv == status_views(self.statuses@),
                forall|k: int| j <= k < sv.len() ==> sv[k].0 != path@,
                status_map(sv).contains_key(path@) == status_map(sv.subrange(0, j as int)).contains_key(path@),
                status_map(sv).contains_key(path@) ==> status_map(sv)[path@] == status_map(
                    sv.subrange(0, j as int),
                )[path@],
            decreases j,
        {
            assert(sv.subrange(0, j as int).drop_last() =~= sv.subrange(0, j - 1));
            if eq_str(self.statuses[j - 1].0.as_str(), path) {
                return self.statuses[j - 1].1;
            }
            j = j - 1;
        }
        GitStatus::Unchanged
    }

    pub fn is_repo(&self) -> (r: bool)
        ensures
            r == self.in_repo(),
    {
        self.repo_path.is_some()
    }
}

proof fn lemma_status_map_keys(entries: Seq<(Seq<char>, GitStatus)>, i: int)
    requires
        0 <= i < entries.len(),
        forall|j: int| i < j < entries.len() ==> (#[trigger] entries[j]).0 != entries[i].0,
    ensures
        status_map(entries).contains_key(entries[i].0),
        status_map(entries)[entries[i].0] == entries[i].1,
    decreases entries.len(),
{
    if i < entries.len() - 1 {
        lemma_status_map_keys(entries.drop_last(), i);
        assert(entries.drop_last()[i] == entries[i]);
        assert(entries.last() == entries[entries.len() - 1]);
    }
}

proof fn lemma_status_map_missing(entries: Seq<(Seq<char>, GitStatus)>, p: Seq<char>)
    requires
        forall|j: int| 0 <= j < entries.len() ==> (#[trigger] entries[j]).0 != p,
    ensures
        !status_map(entries).contains_key(p),
    decreases entries.len(),
{
    if entries.len() > 0 {
        assert forall|j: int| 0 <= j < entries.drop_last().len() implies (#[trigger] entries.drop_last()[j]).0 != p by {
            assert(entries.drop_last()[j] == entries[j]);
        }
        lemma_status_map_missing(entries.drop_last(), p);
        assert(entries.last() == entries[entries.len() - 1]);
    }
}

/// After a refresh under the root `root`, a file git reported has the status of
/// its last report, and a file it did not report has no recorded status (it
/// shows as unchanged).
pub proof fn law_refresh_then_status(root: Seq<char>, entries: Seq<(String, u32)>, i: int, p: Seq<char>)
    requires
        0 <= i < entries.len(),
    ensures
        ({
            let view = status_map(
                entries.map_values(|e: (String, u32)| (join_paths(root, e.0@), status_of_bits(e.1))),
            );
            &&& (forall|j: int| i < j < entries.len() ==> join_paths(root, (#[trigger] entries[j]).0@)
                != join_paths(root, entries[i].0@)) ==> view.contains_key(join_paths(root, entries[i].0@))
                && view[join_paths(root, entries[i].0@)] == status_of_bits(entries[i].1)
            &&& (forall|j: int| 0 <= j < entries.len() ==> join_paths(root, (#[trigger] entries[j]).0@) != p)
                ==> !view.contains_key(p)
        }),
{
    let mapped = entries.map_values(|e: (String, u32)| (join_paths(root, e.0@), status_of_bits(e.1)));
    if forall|j: int| i < j < entries.len() ==> join_paths(root, (#[trigger] entries[j]).0@) != join_paths(
        root,
        entries[i].0@,
    ) {
        assert forall|j: int| i < j < mapped.len() implies (#[trigger] mapped[j]).0 != mapped[i].0 by {
            assert(mapped[j].0 == join_paths(root, entries[j].0@));
        }
        lemma_status_map_keys(mapped, i);
    }
    if forall|j: int| 0 <= j < entries.len() ==> join_paths(root, (#[trigger] entries[j]).0@) != p {
        assert forall|j: int| 0 <= j < mapped.len() implies (#[trigger] mapped[j]).0 != p by {
            assert(mapped[j].0 == join_paths(root, entries[j].0@));
        }
        lemma_status_map_missing(mapped, p);
    }
}

} // verus!
