//! Figures for the status summary.
use vstd::prelude::*;
use crate::cleanup::{stale_entries, stale_paths, DirEntry, DirListing, EntryKind};

verus! {

/// The number of symlinks among the first `n` entries.
pub open spec fn link_count(entries: Seq<DirEntry>, n: int) -> nat
    decreases n,
{
    if n <= 0 {
        0
    } else {
        link_count(entries, n - 1) + if entries[n - 1].kind is Symlink {
            1nat
        } else {
            0nat
        }
    }
}

/// The skills in the library: its symlinks (other entries are not counted).
pub fn count_entries(listing: &DirListing) -> (r: usize)
    ensures
        r == link_count(listing.entries@, listing.entries@.len() as int),
{
    let entries = &listing.entries;
    let mut n: usize = 0;
    let mut i: usize = 0;
    while i < entries.len()
        invariant
            i <= entries@.len(),
            n == link_count(entries@, i as int),
            n <= i,
        decreases entries@.len() - i,
    {
        if let EntryKind::Symlink { .. } = &entries[i].kind {
            n = n + 1;
        }
        i = i + 1;
    }
    n
}

/// The symlinks in `dir` whose destination does not exist.
pub fn count_broken_symlinks(dir: &str, listing: &DirListing) -> (r: usize)
    ensures
        listing.is_dir ==> r == stale_paths(dir@, None, listing.entries@, listing.entries@.len() as int).len(),
        !listing.is_dir ==> r == 0,
{
    stale_entries(dir, None, listing, true).removed
}

} // verus!
