use tome::config::{Source, SourceType};
use tome::discover::{
    choose_records_file, discover_all, RecordsFile, discover_source, plugins_file_candidates, read_install_records, scan_for_skills, ManifestDir,
    SourceListing,
};
use tome::library::consolidate;
use tome::links::{EntryState, LinkAction, LinkSlot};
use tome::skill::{DiscoveredSkill, SkillName};

fn found(name: &str, path: &str, source: &str) -> DiscoveredSkill {
    DiscoveredSkill { name: SkillName::new(name).unwrap(), path: path.into(), source_name: source.into() }
}

fn dir(name: &str, parent: &str) -> ManifestDir {
    ManifestDir { name: name.into(), path: format!("{parent}/{name}") }
}

#[test]
fn discover_discover_directory_finds_skills() {
    let source = Source { name: "test".into(), path: "/tmp/d".into(), source_type: SourceType::Directory };
    let listing = SourceListing::Found(vec![dir("skill-a", "/tmp/d"), dir("skill-b", "/tmp/d")]);
    let scan = discover_source(&source, &listing);
    assert_eq!(scan.skills.len(), 2);
}

#[test]
fn discover_discover_directory_warns_on_missing_path() {
    let source = Source { name: "missing".into(), path: "/nonexistent/path".into(), source_type: SourceType::Directory };
    let scan = discover_source(&source, &SourceListing::Missing);
    assert!(scan.skills.is_empty());
    assert_eq!(scan.warnings.len(), 1);
    assert!(scan.warnings[0].contains("/nonexistent/path"));
}

#[test]
fn discover_discover_all_deduplicates_first_wins() {
    let all = vec![
        found("shared-skill", "/t1/shared-skill", "first"),
        found("shared-skill", "/t2/shared-skill", "second"),
        found("unique-skill", "/t2/unique-skill", "second"),
    ];
    let d = discover_all(&all, &Vec::new());
    assert_eq!(d.skills.len(), 2);
    let shared = d.skills.iter().find(|s| s.name.as_str() == "shared-skill").unwrap();
    assert_eq!(shared.source_name, "first");
    assert_eq!(d.conflicts.len(), 1);
    let warning = d.conflicts[0].message();
    assert!(warning.contains("'first'") && warning.contains("'second'"), "{warning}");
}

#[test]
fn discover_discover_all_applies_exclusions() {
    let all = vec![found("keep-me", "/t/keep-me", "test"), found("exclude-me", "/t/exclude-me", "test")];
    let d = discover_all(&all, &vec![SkillName::new("exclude-me").unwrap()]);
    assert_eq!(d.skills.len(), 1);
    assert_eq!(d.skills[0].name.as_str(), "keep-me");
}

#[test]
fn later_source_adds_only_new_names() {
    let all = vec![found("foo", "/a/foo", "A"), found("foo", "/b/foo", "B"), found("bar", "/b/bar", "B")];
    let d = discover_all(&all, &Vec::new());
    let got: Vec<(&str, &str)> = d.skills.iter().map(|s| (s.name.as_str(), s.source_name.as_str())).collect();
    assert_eq!(got, vec![("foo", "A"), ("bar", "B")]);
    assert_eq!(d.skills[0].path, "/a/foo");
}

#[test]
fn excluded_name_never_conflicts_or_appears() {
    let all = vec![found("x", "/a/x", "A"), found("x", "/b/x", "B")];
    let d = discover_all(&all, &vec![SkillName::new("x").unwrap()]);
    assert!(d.skills.is_empty());
    assert!(d.conflicts.is_empty());
}

#[test]
fn scan_drops_invalid_names_with_warning() {
    let dirs = vec![dir("good", "/s"), ManifestDir { name: "".into(), path: "/s/".into() }, dir("Odd Name", "/s")];
    let scan = scan_for_skills(&dirs, "src");
    let names: Vec<&str> = scan.skills.iter().map(|s| s.name.as_str()).collect();
    assert_eq!(names, vec!["good", "Odd Name"]);
    assert_eq!(scan.warnings.len(), 2);
    assert_eq!(scan.skills[0].path, "/s/good");
    assert_eq!(scan.skills[0].source_name, "src");
}

#[test]
fn discover_plugin_cache_reads_json() {
    let json = r#"[{ "installPath": "/tmp/p/my-plugin" }]"#;
    let paths = read_install_records(json).unwrap().unwrap();
    assert_eq!(paths, vec!["/tmp/p/my-plugin"]);
}

#[test]
fn discover_plugin_cache_reads_v2_json() {
    let json = r#"{
        "version": 2,
        "plugins": {
            "swift-skill@swift-registry": [
                { "scope": "user", "installPath": "/tmp/plugin-a-install", "version": "1.0.0", "installedAt": "2025-12-15T02:47:14.944Z" }
            ],
            "rust-skill@rust-registry": [
                { "scope": "user", "installPath": "/tmp/plugin-b-install", "version": "2.0.0", "installedAt": "2026-01-05T04:13:51.923Z" }
            ]
        }
    }"#;
    let paths = read_install_records(json).unwrap().unwrap();
    assert_eq!(paths.len(), 2);
    assert!(paths.contains(&"/tmp/plugin-a-install".to_string()));
    assert!(paths.contains(&"/tmp/plugin-b-install".to_string()));
}

#[test]
fn discover_plugin_cache_unknown_format() {
    let json = r#"{ "version": 99, "something_else": "unexpected" }"#;
    assert!(read_install_records(json).unwrap().is_none());
}

#[test]
fn install_records_must_be_json() {
    assert!(read_install_records("not json at all").is_err());
}

#[test]
fn install_records_skip_entries_without_path() {
    let json = r#"[{ "installPath": 7 }, { "name": "x" }, { "installPath": "/ok" }]"#;
    assert_eq!(read_install_records(json).unwrap().unwrap(), vec!["/ok"]);
}

#[test]
fn plugins_file_is_looked_for_in_parent_too() {
    let (primary, fallback) = plugins_file_candidates("/home/u/.tool/plugins/cache");
    assert_eq!(primary, "/home/u/.tool/plugins/cache/installed_plugins.json");
    assert_eq!(fallback, Some("/home/u/.tool/plugins/installed_plugins.json".to_string()));
}

#[test]
fn records_file_prefers_source_directory() {
    let fallback = Some("/p/installed_plugins.json".to_string());
    assert_eq!(choose_records_file("/p/c/installed_plugins.json", true, &fallback, true), RecordsFile::Primary("/p/c/installed_plugins.json".into()));
    assert_eq!(choose_records_file("/p/c/installed_plugins.json", false, &fallback, true), RecordsFile::Fallback("/p/installed_plugins.json".into()));
    assert_eq!(choose_records_file("/p/c/installed_plugins.json", false, &fallback, false), RecordsFile::Missing);
    assert_eq!(choose_records_file("/x", false, &None, true), RecordsFile::Missing);
}

#[test]
fn scan_warns_once_per_dropped_name() {
    let dirs = vec![ManifestDir { name: "a/b".into(), path: "/s/a/b".into() }, dir("ok", "/s")];
    let scan = scan_for_skills(&dirs, "src");
    assert_eq!(scan.warnings, vec!["skipping skill in /s/a/b: skill name contains path separator: 'a/b'"]);
}

#[test]
fn library_link_for_shared_name_leads_to_first_source() {
    let all = vec![found("shared-skill", "/a/shared-skill", "first"), found("shared-skill", "/b/shared-skill", "second")];
    let d = discover_all(&all, &Vec::new());
    let slots = vec![LinkSlot { state: EntryState::Absent, target_canonical: None }];
    let plan = consolidate(&d.skills, "/lib", &slots, false);
    assert_eq!(plan.result.created, 1);
    assert!(plan.actions.iter().any(|a| matches!(a, LinkAction::Create { link, target } if link == "/lib/shared-skill" && target == "/a/shared-skill")));
}

#[test]
fn excluded_name_is_never_linked() {
    let all = vec![found("keep-me", "/t/keep-me", "test"), found("exclude-me", "/t/exclude-me", "test")];
    let d = discover_all(&all, &vec![SkillName::new("exclude-me").unwrap()]);
    let slots = vec![LinkSlot { state: EntryState::Absent, target_canonical: None }];
    let plan = consolidate(&d.skills, "/lib", &slots, false);
    assert!(!plan.actions.iter().any(|a| matches!(a, LinkAction::Create { link, .. } | LinkAction::Replace { link, .. } if link == "/lib/exclude-me")));
}
