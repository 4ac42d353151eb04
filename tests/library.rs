use tome::library::consolidate;
use tome::links::{EntryState, LinkAction, LinkSlot, Outcome};
use tome::skill::{DiscoveredSkill, SkillName};

fn skill(name: &str, path: &str) -> DiscoveredSkill {
    DiscoveredSkill { name: SkillName::new(name).unwrap(), path: path.into(), source_name: "test".into() }
}

fn absent() -> LinkSlot {
    LinkSlot { state: EntryState::Absent, target_canonical: None }
}

/// A slot holding a symlink to `current` (which exists), observed for a skill at `wanted`.
fn link_to(current: &str, wanted: &str) -> LinkSlot {
    LinkSlot {
        state: EntryState::Symlink { raw_target: current.into(), canonical: Some(current.into()) },
        target_canonical: Some(wanted.into()),
    }
}

/// The slot after a real run linked `target` there (the target exists).
fn linked(target: &str) -> LinkSlot {
    link_to(target, target)
}

#[test]
fn consolidate_creates_symlinks() {
    let plan = consolidate(&vec![skill("my-skill", "/src/my-skill")], "/lib", &vec![absent()], false);
    assert_eq!(plan.result.created, 1);
    assert_eq!(plan.result.unchanged, 0);
    assert_eq!(plan.actions.len(), 2);
    assert!(matches!(&plan.actions[0], LinkAction::CreateDir { path } if path == "/lib"));
    assert!(matches!(&plan.actions[1], LinkAction::Create { link, target } if link == "/lib/my-skill" && target == "/src/my-skill"));
}

#[test]
fn consolidate_idempotent() {
    let skills = vec![skill("my-skill", "/src/my-skill")];
    consolidate(&skills, "/lib", &vec![absent()], false);
    let result = consolidate(&skills, "/lib", &vec![linked("/src/my-skill")], false).result;
    assert_eq!(result.created, 0);
    assert_eq!(result.unchanged, 1);
}

#[test]
fn consolidate_idempotent_with_relative_symlink() {
    let slot = LinkSlot {
        state: EntryState::Symlink {
            raw_target: "../sources/my-skill".into(),
            canonical: Some("/tmp/t/sources/my-skill".into()),
        },
        target_canonical: Some("/tmp/t/sources/my-skill".into()),
    };
    let plan = consolidate(&vec![skill("my-skill", "/tmp/t/sources/my-skill")], "/tmp/t/library", &vec![slot], false);
    assert_eq!(plan.result.unchanged, 1, "relative symlink should be recognized as matching");
    assert_eq!(plan.result.updated, 0);
    assert_eq!(plan.result.created, 0);
}

#[test]
fn consolidate_dry_run_no_changes() {
    let plan = consolidate(&vec![skill("my-skill", "/src/my-skill")], "/lib", &vec![absent()], true);
    assert_eq!(plan.result.created, 1);
    assert!(plan.actions.is_empty());
}

#[test]
fn consolidate_updates_changed_target() {
    let plan = consolidate(&vec![skill("my-skill", "/src2/my-skill")], "/lib", &vec![link_to("/src1/my-skill", "/src2/my-skill")], false);
    assert_eq!(plan.result.updated, 1);
    assert!(matches!(&plan.actions[1], LinkAction::Replace { link, target } if link == "/lib/my-skill" && target == "/src2/my-skill"));
}

#[test]
fn consolidate_dry_run_doesnt_create_dir() {
    let plan = consolidate(&vec![skill("my-skill", "/src/my-skill")], "/tmp/does-not-exist", &vec![absent()], true);
    assert_eq!(plan.result.created, 1);
    assert!(!plan.actions.iter().any(|a| matches!(a, LinkAction::CreateDir { .. })));
}

#[test]
fn consolidate_skips_non_symlink_collision() {
    let slot = LinkSlot { state: EntryState::Occupied, target_canonical: Some("/src/my-skill".into()) };
    let plan = consolidate(&vec![skill("my-skill", "/src/my-skill")], "/lib", &vec![slot], false);
    assert_eq!(plan.result.created, 0);
    assert_eq!(plan.result.unchanged, 0);
    assert_eq!(plan.result.updated, 0);
    assert_eq!(plan.result.skipped, 1);
    assert_eq!(plan.outcomes, vec![Outcome::Skipped]);
    assert!(!plan.actions.iter().any(|a| match a {
        LinkAction::Create { link, .. } | LinkAction::Replace { link, .. } => link == "/lib/my-skill",
        LinkAction::CreateDir { .. } => false,
    }));
}

#[test]
fn consolidate_dangling_link_to_same_path_is_unchanged() {
    let slot = LinkSlot {
        state: EntryState::Symlink { raw_target: "/src/gone".into(), canonical: None },
        target_canonical: None,
    };
    let plan = consolidate(&vec![skill("gone", "/src/gone")], "/lib", &vec![slot], false);
    assert_eq!(plan.result.unchanged, 1);
}

#[test]
fn dry_run_reports_what_real_run_does() {
    let skills = vec![skill("a", "/s/a"), skill("b", "/s/b"), skill("c", "/s/c")];
    let slots = || vec![absent(), link_to("/elsewhere/b", "/s/b"), linked("/s/c")];
    let dry = consolidate(&skills, "/lib", &slots(), true);
    let live = consolidate(&skills, "/lib", &slots(), false);
    assert_eq!(dry.result, live.result);
    assert_eq!((live.result.created, live.result.updated, live.result.unchanged), (1, 1, 1));
    assert!(dry.actions.is_empty());
    assert_eq!(live.actions.len(), 3);
}

#[test]
fn second_run_reports_zero_created() {
    let skills = vec![skill("stable-skill", "/s/stable-skill")];
    let first = consolidate(&skills, "/lib", &vec![absent()], false);
    assert_eq!(first.result.summary(), "Library: 1 created, 0 unchanged, 0 updated");
    let second = consolidate(&skills, "/lib", &vec![linked("/s/stable-skill")], false);
    let line = second.result.summary();
    assert!(line.contains("0 created") && line.contains("1 unchanged"), "{line}");
}

#[test]
fn summary_notes_skipped_names() {
    let slot = LinkSlot { state: EntryState::Occupied, target_canonical: None };
    let plan = consolidate(&vec![skill("x", "/s/x")], "/lib", &vec![slot], false);
    assert_eq!(plan.result.summary(), "Library: 0 created, 0 unchanged, 0 updated, 1 skipped (path conflict)");
}
