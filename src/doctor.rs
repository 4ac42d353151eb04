//! The doctor: a read-only audit of the library, the enabled symlink targets
//! and the configured sources, which may then call for the cleanup repair.
use vstd::prelude::*;
use crate::cleanup::{is_stale, stale_paths, DirListing};
use crate::text::{concat3, decimal, decimal_text};

verus! {

/// The number of stale entries among the first `n` (see [`is_stale`]).
pub open spec fn stale_count(dir: Seq<char>, lib: Option<Seq<char>>, listing: DirListing) -> nat {
    stale_paths(dir, lib, listing.entries@, listing.entries@.len() as int).len()
}

/// The issues of a directory: 1 when it is not a directory, else its stale entries.
pub open spec fn dir_issues(dir: Seq<char>, lib: Option<Seq<char>>, listing: DirListing) -> nat {
    if !listing.is_dir {
        1
    } else {
        stale_count(dir, lib, listing)
    }
}

fn count_stale(dir: &str, lib: Option<&str>, listing: &DirListing) -> (r: usize)
    ensures
        r == dir_issues(dir@, match lib {
            Some(l) => Some(l@),
            None => None,
        }, *listing),
{
    if !listing.is_dir {
        return 1;
    }
    let plan = crate::cleanup::stale_entries(dir, lib, listing, true);
    plan.removed
}

/// Library check: 1 issue when the library directory is missing, else one per
/// broken symlink directly inside it.
pub fn check_library(library_dir: &str, listing: &DirListing) -> (r: usize)
    ensures
        r == dir_issues(library_dir@, None, *listing),
{
    count_stale(library_dir, None, listing)
}

/// Target check: 1 issue when the target directory is missing, else one per
/// symlink that resolves inside the library and whose destination is gone.
pub fn check_target_dir(skills_dir: &str, library_dir: &str, listing: &DirListing) -> (r: usize)
    ensures
        r == dir_issues(skills_dir@, Some(library_dir@), *listing),
{
    count_stale(skills_dir, Some(library_dir), listing)
}

/// The number of sources among the first `n` whose path does not exist.
pub open spec fn missing_sources(exists: Seq<bool>, n: int) -> nat
    decreases n,
{
    if n <= 0 {
        0
    } else {
        missing_sources(exists, n - 1) + if exists[n - 1] {
            0nat
        } else {
            1nat
        }
    }
}

/// Config check: one issue per source whose path does not exist
/// (`source_exists[i]` for the `i`-th source). These need the user: the
/// doctor never repairs them.
pub fn check_config(source_exists: &Vec<bool>) -> (r: usize)
    ensures
        r == missing_sources(source_exists@, source_exists@.len() as int),
{
    let mut n: usize = 0;
    let mut i: usize = 0;
    while i < source_exists.len()
        invariant
            i <= source_exists@.len(),
            n == missing_sources(source_exists@, i as int),
            n <= i,
        decreases source_exists@.len() - i,
    {
        if !source_exists[i] {
            n = n + 1;
        }
        i = i + 1;
    }
    n
}

/// An enabled symlink target as the doctor sees it.
#[derive(Debug)]
pub struct TargetAudit {
    pub name: String,
    pub skills_dir: String,
    pub listing: DirListing,
}

/// The doctor's findings.
#[derive(Debug)]
pub struct DoctorReport {
    pub library_issues: usize,
    /// Issues per audited target, in order.
    pub target_issues: Vec<usize>,
    pub config_issues: usize,
    pub total: usize,
    /// Whether the cleanup repair should run: issues were found and this is no dry run.
    pub repair: bool,
}

pub open spec fn target_issue_sum(library_dir: Seq<char>, targets: Seq<TargetAudit>, n: int) -> nat
    decreases n,
{
    if n <= 0 {
        0
    } else {
        target_issue_sum(library_dir, targets, n - 1) + dir_issues(targets[n - 1].skills_dir@, Some(library_dir), targets[n - 1].listing)
    }
}

impl DoctorReport {
    /// The closing line of the audit.
    pub fn summary(&self) -> (r: String)
        ensures
            self.total == 0 ==> r@ == "No issues found."@,
            self.total > 0 ==> r@ == "Found "@ + decimal(self.total as nat) + " issue(s)."@,
    {
        if self.total == 0 {
            "No issues found.".to_owned()
        } else {
            concat3("Found ", decimal_text(self.total).as_str(), " issue(s).")
        }
    }
}

/// Audits the library (`library`), the enabled symlink targets (`targets`)
/// and the sources (`source_exists`), and totals the issues. The cleanup
/// repair is called for when there are issues and this is no dry run.
pub fn diagnose(
    library_dir: &str,
    library: &DirListing,
    targets: &Vec<TargetAudit>,
    source_exists: &Vec<bool>,
    dry_run: bool,
) -> (r: Option<DoctorReport>)
    ensures
        r matches Some(rep) ==> {
            &&& rep.library_issues == dir_issues(library_dir@, None, *library)
            &&& rep.target_issues@.len() == targets@.len()
            &&& forall|i: int| 0 <= i < targets@.len() ==> rep.target_issues@[i] == dir_issues(
                #[trigger] targets@[i].skills_dir@,
                Some(library_dir@),
                targets@[i].listing,
            )
            &&& rep.config_issues == missing_sources(source_exists@, source_exists@.len() as int)
            &&& rep.total == rep.library_issues + target_issue_sum(library_dir@, targets@, targets@.len() as int) + rep.config_issues
            &&& rep.repair == (rep.total > 0 && !dry_run)
        },
        r is None ==> dir_issues(library_dir@, None, *library) + target_issue_sum(library_dir@, targets@, targets@.len() as int)
            + missing_sources(source_exists@, source_exists@.len() as int) > usize::MAX,
{
    let library_issues = check_library(library_dir, library);
    let mut total: usize = library_issues;
    let mut target_issues: Vec<usize> = Vec::new();
    let mut i: usize = 0;
    while i < targets.len()
        invariant
            i <= targets@.len(),
            target_issues@.len() == i,
            forall|k: int| 0 <= k < i ==> target_issues@[k] == dir_issues(
                #[trigger] targets@[k].skills_dir@,
                Some(library_dir@),
                targets@[k].listing,
            ),
            total == library_issues + target_issue_sum(library_dir@, targets@, i as int),
            library_issues == dir_issues(library_dir@, None, *library),
        decreases targets@.len() - i,
    {
        let t = &targets[i];
        let n = check_target_dir(t.skills_dir.as_str(), library_dir, &t.listing);
        if total > usize::MAX - n {
            proof {
                lemma_sum_grows(library_dir@, targets@, i as int + 1, targets@.len() as int);
            }
            return None;
        }
        total = total + n;
        target_issues.push(n);
        i = i + 1;
    }
    let config_issues = check_config(source_exists);
    if total > usize::MAX - config_issues {
        return None;
    }
    total = total + config_issues;
    Some(DoctorReport { library_issues, target_issues, config_issues, total, repair: total > 0 && !dry_run })
}

proof fn lemma_sum_grows(library_dir: Seq<char>, targets: Seq<TargetAudit>, a: int, b: int)
    requires
        0 <= a <= b <= targets.len(),
    ensures
        target_issue_sum(library_dir, targets, a) <= target_issue_sum(library_dir, targets, b),
    decreases b - a,
{
    if a < b {
        lemma_sum_grows(library_dir, targets, a, b - 1);
    }
}

} // verus!
