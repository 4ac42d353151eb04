use tome::config::{Source, SourceType, TargetConfig, TargetMethod, Targets};
use tome::wizard::{find_source_target_overlaps, known_source_candidates};

fn dir_source(name: &str, path: &str) -> Source {
    Source { name: name.into(), path: path.into(), source_type: SourceType::Directory }
}

fn symlink(dir: &str) -> Option<TargetConfig> {
    Some(TargetConfig { enabled: true, method: TargetMethod::Symlink { skills_dir: dir.into() } })
}

#[test]
fn detects_source_target_overlap() {
    let sources = vec![dir_source("antigravity-skills", "/home/user/.gemini/antigravity/skills")];
    let targets = Targets { antigravity: symlink("/home/user/.gemini/antigravity/skills"), claude: None, codex: None, openclaw: None };
    let overlaps = find_source_target_overlaps(&sources, &targets, &Vec::new());
    assert_eq!(overlaps.len(), 1);
    assert_eq!(overlaps[0].0, "antigravity-skills");
    assert_eq!(overlaps[0].1, "/home/user/.gemini/antigravity/skills");
}

#[test]
fn no_overlap_when_paths_differ() {
    let sources = vec![dir_source("agent-skills", "/home/user/.agent/skills")];
    let targets = Targets { antigravity: symlink("/home/user/.gemini/antigravity/skills"), claude: None, codex: None, openclaw: None };
    assert!(find_source_target_overlaps(&sources, &targets, &Vec::new()).is_empty());
}

#[test]
fn detects_claude_source_target_overlap() {
    let sources = vec![dir_source("agent-skills", "/home/user/.agent/skills")];
    let targets = Targets { antigravity: None, claude: symlink("/home/user/.agent/skills"), codex: None, openclaw: None };
    let overlaps = find_source_target_overlaps(&sources, &targets, &Vec::new());
    assert_eq!(overlaps.len(), 1);
    assert_eq!(overlaps[0].0, "agent-skills");
}

#[test]
fn no_overlap_with_mcp_targets() {
    let sources = vec![dir_source("codex-skills", "/home/user/.codex/.mcp.json")];
    let targets = Targets {
        antigravity: None,
        claude: None,
        codex: Some(TargetConfig { enabled: true, method: TargetMethod::Mcp { mcp_config: "/home/user/.codex/.mcp.json".into() } }),
        openclaw: None,
    };
    assert!(find_source_target_overlaps(&sources, &targets, &Vec::new()).is_empty());
}

#[test]
fn overlap_found_through_canonical_forms() {
    let sources = vec![dir_source("s", "/home/u/link-to-skills")];
    let targets = Targets { antigravity: None, claude: symlink("/home/u/.agent/skills"), codex: None, openclaw: None };
    let canonical = vec![
        ("/home/u/link-to-skills".to_string(), "/data/skills".to_string()),
        ("/home/u/.agent/skills".to_string(), "/data/skills".to_string()),
    ];
    assert_eq!(find_source_target_overlaps(&sources, &targets, &canonical).len(), 1);
}

#[test]
fn known_sources_live_under_home() {
    let known = known_source_candidates("/home/u");
    let got: Vec<(&str, &str)> = known.iter().map(|s| (s.name.as_str(), s.path.as_str())).collect();
    assert_eq!(got[0], ("codex-skills", "/home/u/.codex/skills"));
    assert_eq!(known.len(), 2);
    assert_eq!(known[1].source_type, SourceType::Directory);
}
