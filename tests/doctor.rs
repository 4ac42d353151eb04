use tome::cleanup::{cleanup_library, DirEntry, DirListing, EntryKind};
use tome::doctor::{check_config, check_library, check_target_dir, diagnose, TargetAudit};
use tome::status::{count_broken_symlinks, count_entries};

fn link(name: &str, raw: &str, exists: bool) -> DirEntry {
    DirEntry { name: name.into(), kind: EntryKind::Symlink { raw_target: raw.into(), target_exists: exists } }
}

fn missing() -> DirListing {
    DirListing { is_dir: false, entries: Vec::new() }
}

#[test]
fn check_library_missing_dir() {
    assert_eq!(check_library("/nonexistent/library", &missing()), 1);
}

#[test]
fn check_library_no_issues() {
    let l = DirListing { is_dir: true, entries: vec![link("my-skill", "/x/real-skill", true)] };
    assert_eq!(check_library("/lib", &l), 0);
}

#[test]
fn check_library_broken_symlink() {
    let l = DirListing { is_dir: true, entries: vec![link("broken", "/nonexistent/target", false)] };
    assert_eq!(check_library("/lib", &l), 1);
}

#[test]
fn check_target_dir_missing_dir() {
    assert_eq!(check_target_dir("/nonexistent/target", "/lib", &missing()), 1);
}

#[test]
fn check_target_dir_stale_symlink() {
    let l = DirListing { is_dir: true, entries: vec![link("skill-link", "/lib/deleted-skill", false)] };
    assert_eq!(check_target_dir("/target", "/lib", &l), 1);
}

#[test]
fn check_target_dir_ignores_external_symlinks() {
    let l = DirListing { is_dir: true, entries: vec![link("external", "/some/other/place", false)] };
    assert_eq!(check_target_dir("/target", "/lib", &l), 0);
}

#[test]
fn check_config_missing_source() {
    assert_eq!(check_config(&vec![false]), 1);
}

#[test]
fn check_config_valid_sources() {
    assert_eq!(check_config(&vec![true]), 0);
}

#[test]
fn doctor_dry_run_reports_and_repair_clears_broken_link() {
    let library = || DirListing { is_dir: true, entries: vec![link("broken-skill", "/nonexistent/path", false)] };
    let report = diagnose("/lib", &library(), &Vec::new(), &Vec::new(), true).unwrap();
    assert_eq!(report.total, 1);
    assert!(report.summary().contains("1 issue(s)"));
    assert!(!report.repair);

    let report = diagnose("/lib", &library(), &Vec::new(), &Vec::new(), false).unwrap();
    assert!(report.repair);
    let (cleaned, removals) = cleanup_library("/lib", &library(), false);
    assert_eq!(cleaned.removed_from_library, 1);
    assert_eq!(removals, vec!["/lib/broken-skill"]);

    let after = DirListing { is_dir: true, entries: Vec::new() };
    let follow_up = diagnose("/lib", &after, &Vec::new(), &Vec::new(), true).unwrap();
    assert_eq!(follow_up.total, 0);
    assert_eq!(follow_up.summary(), "No issues found.");
}

#[test]
fn doctor_totals_library_targets_and_config() {
    let library = DirListing { is_dir: true, entries: vec![link("a", "/gone", false)] };
    let targets = vec![
        TargetAudit { name: "agent".into(), skills_dir: "/c".into(), listing: missing() },
        TargetAudit {
            name: "antigravity".into(),
            skills_dir: "/g".into(),
            listing: DirListing { is_dir: true, entries: vec![link("a", "/lib/a", false), link("b", "/x/b", false)] },
        },
    ];
    let report = diagnose("/lib", &library, &targets, &vec![true, false, false], false).unwrap();
    assert_eq!(report.library_issues, 1);
    assert_eq!(report.target_issues, vec![1, 1]);
    assert_eq!(report.config_issues, 2);
    assert_eq!(report.total, 5);
    assert_eq!(report.summary(), "Found 5 issue(s).");
}

#[test]
fn count_entries_empty_dir() {
    assert_eq!(count_entries(&DirListing { is_dir: true, entries: Vec::new() }), 0);
}

#[test]
fn count_entries_counts_only_symlinks() {
    let l = DirListing {
        is_dir: true,
        entries: vec![link("link_a", "/a", true), link("link_b", "/b", true), DirEntry { name: "regular".into(), kind: EntryKind::Other }],
    };
    assert_eq!(count_entries(&l), 2);
}

#[test]
fn count_broken_symlinks_empty_dir() {
    assert_eq!(count_broken_symlinks("/d", &DirListing { is_dir: true, entries: Vec::new() }), 0);
}

#[test]
fn count_broken_symlinks_detects_broken() {
    let l = DirListing {
        is_dir: true,
        entries: vec![link("valid", "/x", true), link("broken", "/nonexistent/target", false), DirEntry { name: "regular".into(), kind: EntryKind::Other }],
    };
    assert_eq!(count_broken_symlinks("/d", &l), 1);
}
