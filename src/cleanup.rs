//! Cleanup: removing symlinks whose destination is gone, from the library and
//! from target directories, without ever touching what is not this tool's.
use vstd::prelude::*;
use crate::paths::{join, join_path, path_starts_with, resolve_symlink_target, resolve_target, starts_with, texts};

verus! {

/// An entry directly inside a directory, as observed.
#[derive(Debug)]
pub struct DirEntry {
    /// The entry's name within the directory.
    pub name: String,
    pub kind: EntryKind,
}

/// What kind of entry it is.
#[derive(Debug)]
pub enum EntryKind {
    /// A symlink: its stored target, and whether the path it resolves to exists.
    Symlink { raw_target: String, target_exists: bool },
    /// Anything that is not a symlink.
    Other,
}

/// A directory as observed: whether it is a directory at all, and its entries.
#[derive(Debug)]
pub struct DirListing {
    pub is_dir: bool,
    pub entries: Vec<DirEntry>,
}

/// Whether the entry is a symlink whose destination is gone and, when
/// `library_dir` is given, whose resolved destination lies inside it.
pub open spec fn is_stale(dir: Seq<char>, library_dir: Option<Seq<char>>, e: DirEntry) -> bool {
    match e.kind {
        EntryKind::Symlink { raw_target, target_exists } => {
            &&& !target_exists
            &&& match library_dir {
                Some(lib) => path_starts_with(resolve_target(join(dir, e.name@), raw_target@), lib),
                None => true,
            }
        },
        EntryKind::Other => false,
    }
}

/// The paths of the stale entries among the first `n`, in order.
pub open spec fn stale_paths(dir: Seq<char>, library_dir: Option<Seq<char>>, entries: Seq<DirEntry>, n: int) -> Seq<Seq<char>>
    decreases n,
{
    if n <= 0 {
        Seq::empty()
    } else {
        stale_paths(dir, library_dir, entries, n - 1) + if is_stale(dir, library_dir, entries[n - 1]) {
            seq![join(dir, entries[n - 1].name@)]
        } else {
            Seq::empty()
        }
    }
}

/// A cleanup: how many links are (or would be) removed, and the links to
/// remove (none on a dry run).
#[derive(Debug)]
pub struct CleanupPlan {
    pub removed: usize,
    pub removals: Vec<String>,
}

/// The result of cleaning the library.
#[derive(Debug, Default, Clone, Copy, PartialEq, Eq, Structural)]
pub struct CleanupResult {
    pub removed_from_library: usize,
}

/// Whether one entry is stale.
pub fn entry_is_stale(dir: &str, library_dir: Option<&str>, e: &DirEntry) -> (r: bool)
    ensures
        r == is_stale(dir@, match library_dir {
            Some(l) => Some(l@),
            None => None,
        }, *e),
{
    match &e.kind {
        EntryKind::Symlink { raw_target, target_exists } => {
            if *target_exists {
                return false;
            }
            match library_dir {
                Some(lib) => {
                    let link = join_path(dir, e.name.as_str());
                    let resolved = resolve_symlink_target(link.as_str(), raw_target.as_str());
                    starts_with(resolved.as_str(), lib)
                },
                None => true,
            }
        },
        EntryKind::Other => false,
    }
}

/// Collects the stale entries of `listing` (inside `dir`).
pub fn stale_entries(dir: &str, library_dir: Option<&str>, listing: &DirListing, dry_run: bool) -> (r: CleanupPlan)
    ensures
        !listing.is_dir ==> r.removed == 0 && r.removals@.len() == 0,
        listing.is_dir ==> r.removed == stale_paths(dir@, match library_dir {
            Some(l) => Some(l@),
            None => None,
        }, listing.entries@, listing.entries@.len() as int).len(),
        listing.is_dir && !dry_run ==> texts(r.removals@) == stale_paths(dir@, match library_dir {
            Some(l) => Some(l@),
            None => None,
        }, listing.entries@, listing.entries@.len() as int),
        dry_run ==> r.removals@.len() == 0,
{
    let ghost lib = match library_dir {
        Some(l) => Some(l@),
        None => None,
    };
    let mut removals: Vec<String> = Vec::new();
    let mut removed: usize = 0;
    if !listing.is_dir {
        return CleanupPlan { removed, removals };
    }
    let entries = &listing.entries;
    let mut i: usize = 0;
    assert(texts(removals@) =~= Seq::<Seq<char>>::empty());
    while i < entries.len()
        invariant
            i <= entries@.len(),
            lib == match library_dir {
                Some(l) => Some(l@),
                None => None::<Seq<char>>,
            },
            removed == stale_paths(dir@, lib, entries@, i as int).len(),
            removed <= i,
            !dry_run ==> texts(removals@) == stale_paths(dir@, lib, entries@, i as int),
            dry_run ==> removals@.len() == 0,
        decreases entries@.len() - i,
    {
        let e = &entries[i];
        if entry_is_stale(dir, library_dir, e) {
            removed = removed + 1;
            if !dry_run {
                let ghost prev = texts(removals@);
                removals.push(join_path(dir, e.name.as_str()));
                assert(texts(removals@) =~= prev.push(join(dir@, e.name@)));
            }
        }
        assert(stale_paths(dir@, lib, entries@, i as int + 1) =~= stale_paths(dir@, lib, entries@, i as int) + if is_stale(dir@, lib, entries@[i as int]) {
            seq![join(dir@, entries@[i as int].name@)]
        } else {
            Seq::<Seq<char>>::empty()
        });
        i = i + 1;
    }
    CleanupPlan { removed, removals }
}

/// Cleans the library: every symlink directly inside `library_dir` whose
/// destination no longer exists is removed (only counted on a dry run). A
/// missing library is nothing to clean.
pub fn cleanup_library(library_dir: &str, listing: &DirListing, dry_run: bool) -> (r: (CleanupResult, Vec<String>))
    ensures
        !listing.is_dir ==> r.0.removed_from_library == 0 && r.1@.len() == 0,
        listing.is_dir ==> r.0.removed_from_library == stale_paths(library_dir@, None, listing.entries@, listing.entries@.len() as int).len(),
        listing.is_dir && !dry_run ==> texts(r.1@) == stale_paths(library_dir@, None, listing.entries@, listing.entries@.len() as int),
        dry_run ==> r.1@.len() == 0,
{
    let plan = stale_entries(library_dir, None, listing, dry_run);
    (CleanupResult { removed_from_library: plan.removed }, plan.removals)
}

/// Cleans a target directory: a symlink is removed only when it resolves
/// inside `library_dir` and its destination no longer exists. Broken links
/// that lead elsewhere are not this tool's and stay.
pub fn cleanup_target(target_dir: &str, library_dir: &str, listing: &DirListing, dry_run: bool) -> (r: (usize, Vec<String>))
    ensures
        !listing.is_dir ==> r.0 == 0 && r.1@.len() == 0,
        listing.is_dir ==> r.0 == stale_paths(target_dir@, Some(library_dir@), listing.entries@, listing.entries@.len() as int).len(),
        listing.is_dir && !dry_run ==> texts(r.1@) == stale_paths(target_dir@, Some(library_dir@), listing.entries@, listing.entries@.len() as int),
        dry_run ==> r.1@.len() == 0,
{
    let plan = stale_entries(target_dir, Some(library_dir), listing, dry_run);
    (plan.removed, plan.removals)
}

proof fn lemma_stale_paths_from(dir: Seq<char>, lib: Option<Seq<char>>, entries: Seq<DirEntry>, n: int, p: Seq<char>)
    requires
        0 <= n <= entries.len(),
        stale_paths(dir, lib, entries, n).contains(p),
    ensures
        exists|i: int| 0 <= i < n && is_stale(dir, lib, #[trigger] entries[i]) && p == join(dir, entries[i].name@),
    decreases n,
{
    let prev = stale_paths(dir, lib, entries, n - 1);
    if prev.contains(p) {
        lemma_stale_paths_from(dir, lib, entries, n - 1, p);
    } else {
        let k = choose|k: int| 0 <= k < stale_paths(dir, lib, entries, n).len() && stale_paths(dir, lib, entries, n)[k] == p;
        assert(k >= prev.len());
        assert(is_stale(dir, lib, entries[n - 1]));
    }
}

/// Cleanup conservatism: an entry of a target directory is removed only if
/// it is a symlink whose destination is gone and resolves inside the library;
/// a broken symlink leading outside the library, and anything that is not a
/// symlink, stays (given that entry names, and so their paths, are distinct).
pub proof fn lemma_target_cleanup_conservative(target_dir: Seq<char>, library_dir: Seq<char>, entries: Seq<DirEntry>, i: int)
    requires
        0 <= i < entries.len(),
        !is_stale(target_dir, Some(library_dir), entries[i]),
        forall|j: int| 0 <= j < entries.len() && j != i ==> join(target_dir, #[trigger] entries[j].name@) != join(target_dir, entries[i].name@),
    ensures
        !stale_paths(target_dir, Some(library_dir), entries, entries.len() as int).contains(join(target_dir, entries[i].name@)),
{
    if stale_paths(target_dir, Some(library_dir), entries, entries.len() as int).contains(join(target_dir, entries[i].name@)) {
        lemma_stale_paths_from(target_dir, Some(library_dir), entries, entries.len() as int, join(target_dir, entries[i].name@));
    }
}

proof fn lemma_stale_included(dir: Seq<char>, lib: Option<Seq<char>>, entries: Seq<DirEntry>, n: int, i: int)
    requires
        0 <= i < n <= entries.len(),
        is_stale(dir, lib, entries[i]),
    ensures
        stale_paths(dir, lib, entries, n).contains(join(dir, entries[i].name@)),
    decreases n,
{
    let prev = stale_paths(dir, lib, entries, n - 1);
    let cur = stale_paths(dir, lib, entries, n);
    if i < n - 1 {
        lemma_stale_included(dir, lib, entries, n - 1, i);
        let k = choose|k: int| 0 <= k < prev.len() && prev[k] == join(dir, entries[i].name@);
        assert(cur[k] == prev[k]);
    } else {
        assert(cur[prev.len() as int] == join(dir, entries[i].name@));
    }
}

/// The other half of cleanup conservatism: a broken symlink of a target
/// directory that resolves inside the library is removed.
pub proof fn lemma_target_cleanup_removes_stale(target_dir: Seq<char>, library_dir: Seq<char>, entries: Seq<DirEntry>, i: int)
    requires
        0 <= i < entries.len(),
        is_stale(target_dir, Some(library_dir), entries[i]),
    ensures
        stale_paths(target_dir, Some(library_dir), entries, entries.len() as int).contains(join(target_dir, entries[i].name@)),
{
    lemma_stale_included(target_dir, Some(library_dir), entries, entries.len() as int, i);
}

} // verus!
