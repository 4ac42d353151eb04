use tome::config::{TargetConfig, TargetMethod};
use tome::distribute::{distribute_mcp, distribute_to_target, register_server, DistributeError, TargetObservation};
use tome::links::{EntryState, LinkAction, LinkSlot};

fn symlink_target(dir: &str, enabled: bool) -> TargetConfig {
    TargetConfig { enabled, method: TargetMethod::Symlink { skills_dir: dir.into() } }
}

fn absent() -> LinkSlot {
    LinkSlot { state: EntryState::Absent, target_canonical: None }
}

fn mirrored(target: &str) -> LinkSlot {
    LinkSlot {
        state: EntryState::Symlink { raw_target: target.into(), canonical: Some("/real".into()) },
        target_canonical: Some("/real".into()),
    }
}

fn links(names: &[&str], slots: Vec<LinkSlot>) -> TargetObservation {
    TargetObservation::Links { library_entries: names.iter().map(|n| n.to_string()).collect(), slots }
}

#[test]
fn distribute_symlinks_creates_links() {
    let target = symlink_target("/target", true);
    let obs = links(&["skill-a", "skill-b"], vec![absent(), absent()]);
    let plan = distribute_to_target("/lib", "test", &target, &obs, false).unwrap();
    assert_eq!(plan.result.linked, 2);
    assert!(matches!(&plan.actions[1], LinkAction::Create { link, target } if link == "/target/skill-a" && target == "/lib/skill-a"));
    assert!(matches!(&plan.actions[2], LinkAction::Create { link, target } if link == "/target/skill-b" && target == "/lib/skill-b"));
}

#[test]
fn distribute_symlinks_idempotent() {
    let target = symlink_target("/target", true);
    distribute_to_target("/lib", "test", &target, &links(&["skill-a"], vec![absent()]), false).unwrap();
    let plan = distribute_to_target("/lib", "test", &target, &links(&["skill-a"], vec![mirrored("/lib/skill-a")]), false).unwrap();
    assert_eq!(plan.result.linked, 0);
    assert_eq!(plan.result.unchanged, 1);
}

#[test]
fn distribute_idempotent_with_canonicalized_paths() {
    let target = symlink_target("/tmp/t/target", true);
    let slot = LinkSlot {
        state: EntryState::Symlink { raw_target: "../library/skill-a".into(), canonical: Some("/tmp/t/source/skill-a".into()) },
        target_canonical: Some("/tmp/t/source/skill-a".into()),
    };
    let plan = distribute_to_target("/tmp/t/library", "test", &target, &links(&["skill-a"], vec![slot]), false).unwrap();
    assert_eq!(plan.result.unchanged, 1, "relative symlink should be recognized as matching");
    assert_eq!(plan.result.linked, 0);
}

#[test]
fn distribute_disabled_target_is_noop() {
    let target = symlink_target("/target", false);
    let plan = distribute_to_target("/lib", "test", &target, &TargetObservation::Nothing, false).unwrap();
    assert_eq!(plan.result.linked, 0);
    assert!(plan.actions.is_empty());
}

#[test]
fn distribute_symlinks_dry_run_doesnt_create_dir() {
    let target = symlink_target("/tmp/does-not-exist", true);
    let plan = distribute_to_target("/lib", "test", &target, &links(&["skill-a"], vec![absent()]), true).unwrap();
    assert_eq!(plan.result.linked, 1);
    assert!(plan.actions.is_empty());
}

#[test]
fn distribute_symlinks_skips_non_symlink_collision() {
    let target = symlink_target("/target", true);
    let slot = LinkSlot { state: EntryState::Occupied, target_canonical: None };
    let plan = distribute_to_target("/lib", "test", &target, &links(&["skill-a"], vec![slot]), false).unwrap();
    assert_eq!(plan.result.linked, 0);
    assert_eq!(plan.result.unchanged, 0);
    assert_eq!(plan.result.skipped, 1);
    assert_eq!(plan.actions.len(), 1);
}

#[test]
fn distribute_mcp_creates_config() {
    let plan = distribute_mcp("codex", &None, false).unwrap();
    assert_eq!(plan.result.linked, 1);
    let parsed: serde_json::Value = serde_json::from_str(plan.document.as_ref().unwrap()).unwrap();
    assert!(parsed["mcpServers"]["tome"]["command"].as_str() == Some("tome-mcp"));
    assert!(parsed["mcpServers"]["tome"]["args"].as_array().unwrap().is_empty());
}

#[test]
fn distribute_mcp_preserves_existing_servers() {
    let existing = r#"{"mcpServers": {"other-server": {"command": "other-cmd", "args": ["--flag"]}}}"#;
    let plan = distribute_mcp("codex", &Some(existing.into()), false).unwrap();
    assert_eq!(plan.result.linked, 1);
    let written = plan.document.unwrap();
    let parsed: serde_json::Value = serde_json::from_str(&written).unwrap();
    assert!(parsed["mcpServers"]["other-server"]["command"].as_str() == Some("other-cmd"));
    assert!(parsed["mcpServers"]["tome"]["command"].as_str() == Some("tome-mcp"));

    let plan2 = distribute_mcp("codex", &Some(written.clone()), false).unwrap();
    assert_eq!(plan2.result.unchanged, 1);
    assert!(plan2.document.is_none());
    let parsed2: serde_json::Value = serde_json::from_str(&written).unwrap();
    assert!(parsed2["mcpServers"]["other-server"]["command"].as_str() == Some("other-cmd"));
}

#[test]
fn mcp_registration_keeps_sibling_entry() {
    let existing = r#"{"mcpServers":{"other":{"command":"x"}}}"#;
    let plan = distribute_mcp("codex", &Some(existing.into()), false).unwrap();
    let written = plan.document.unwrap();
    let parsed: serde_json::Value = serde_json::from_str(&written).unwrap();
    assert_eq!(parsed["mcpServers"]["other"]["command"].as_str(), Some("x"));
    assert_eq!(parsed["mcpServers"]["tome"]["command"].as_str(), Some("tome-mcp"));
    let again = distribute_mcp("codex", &Some(written), false).unwrap();
    assert_eq!(again.result.unchanged, 1);
    assert_eq!(again.result.linked, 0);
}

#[test]
fn distribute_mcp_rejects_non_object_mcp_servers() {
    let err = distribute_mcp("test", &Some(r#"{ "mcpServers": "not-an-object" }"#.into()), false).unwrap_err();
    assert_eq!(err, DistributeError::ServersNotObject);
    assert!(err.message().contains("not a JSON object"), "unexpected error: {:?}", err);
}

#[test]
fn distribute_mcp_rejects_bad_documents() {
    assert_eq!(distribute_mcp("t", &Some("[1, 2]".into()), false).unwrap_err(), DistributeError::DocumentNotObject);
    assert_eq!(distribute_mcp("t", &Some("{ not json".into()), false).unwrap_err(), DistributeError::InvalidJson);
}

#[test]
fn distribute_mcp_dry_run_writes_nothing() {
    let plan = distribute_mcp("t", &Some("{}".into()), true).unwrap();
    assert_eq!(plan.result.linked, 1);
    assert!(plan.document.is_none());
}

#[test]
fn register_server_leaves_other_top_level_members() {
    let mut doc: serde_json::Value = serde_json::from_str(r#"{"theme": "dark", "mcpServers": {}}"#).unwrap();
    assert_eq!(register_server(&mut doc), Ok(true));
    assert_eq!(doc["theme"].as_str(), Some("dark"));
    assert_eq!(register_server(&mut doc), Ok(false));
}

#[test]
fn distribute_mcp_through_target() {
    let target = TargetConfig { enabled: true, method: TargetMethod::Mcp { mcp_config: "/x/.mcp.json".into() } };
    let plan = distribute_to_target("/lib", "codex", &target, &TargetObservation::Document { text: None }, false).unwrap();
    assert_eq!(plan.result.linked, 1);
    assert_eq!(plan.result.target_name, "codex");
    assert!(plan.document.is_some());
}

#[test]
fn distribution_summary_line() {
    let target = symlink_target("/target", true);
    let plan = distribute_to_target("/lib", "antigravity", &target, &links(&["a", "b"], vec![absent(), mirrored("/lib/b")]), false).unwrap();
    assert_eq!(plan.result.summary(), "antigravity: 1 linked, 1 unchanged");
}
