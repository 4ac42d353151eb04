use tome::config::{
    expand_tilde, resolve_config_path, Config, ConfigError, DistributionMethod, PathState,
    RawTargetConfig, RawTargets, Source, SourceType, TargetConfig, TargetKey, TargetMethod, Targets,
};
use tome::skill::SkillName;

fn source(name: &str, path: &str) -> Source {
    Source { name: name.into(), path: path.into(), source_type: SourceType::Directory }
}

fn no_raw_targets() -> RawTargets {
    RawTargets { antigravity: None, claude: None, codex: None, openclaw: None }
}

#[test]
fn config_default_config_has_empty_sources() {
    let config = Config::default();
    assert!(config.sources.is_empty());
    assert!(config.exclude.is_empty());
}

#[test]
fn default_config_has_empty_sources() {
    let config = Config::default();
    assert!(config.sources.is_empty());
    assert!(config.exclude.is_empty());
    assert!(config.targets.iter().is_empty());
}

#[test]
fn validate_rejects_empty_source_name() {
    let config = Config { sources: vec![source("ok", "/tmp/a"), source("", "/tmp")], ..Config::default() };
    let err = config.validate(PathState::Directory).unwrap_err();
    assert!(err.message().contains("cannot be empty"), "unexpected error: {:?}", err);
}

#[test]
fn validate_rejects_duplicate_source_names() {
    let config = Config {
        sources: vec![source("dupe", "/tmp/a"), source("dupe", "/tmp/b")],
        ..Config::default()
    };
    let err = config.validate(PathState::Directory).unwrap_err();
    assert!(err.message().contains("duplicate source name: 'dupe'"), "unexpected error: {:?}", err);
}

#[test]
fn config_validate_passes_for_valid_config() {
    let config = Config {
        library_dir: "/tmp/nonexistent-lib".into(),
        exclude: Vec::new(),
        sources: vec![source("test", "/tmp/source")],
        targets: Targets {
            antigravity: Some(TargetConfig {
                enabled: true,
                method: TargetMethod::Symlink { skills_dir: "/tmp/target".into() },
            }),
            ..Targets::none()
        },
    };
    config.validate(PathState::Missing).unwrap();
}

#[test]
fn config_validate_rejects_empty_source_name() {
    let config = Config { sources: vec![source("", "/tmp")], ..Config::default() };
    let err = config.validate(PathState::Missing).unwrap_err();
    assert!(err.message().contains("cannot be empty"), "unexpected error: {:?}", err);
}

#[test]
fn config_validate_rejects_duplicate_source_names() {
    let config = Config {
        sources: vec![source("dupe", "/tmp/a"), source("dupe", "/tmp/b")],
        ..Config::default()
    };
    let err = config.validate(PathState::Missing).unwrap_err();
    assert!(err.message().contains("duplicate source name"), "unexpected error: {:?}", err);
    assert_eq!(err, ConfigError::DuplicateSourceName { name: "dupe".into() });
}

#[test]
fn config_validate_rejects_library_dir_that_is_a_file() {
    let config = Config { library_dir: "/tmp/x/not-a-dir".into(), ..Config::default() };
    let err = config.validate(PathState::NotDirectory).unwrap_err();
    assert!(err.message().contains("not a directory"), "unexpected error: {:?}", err);
}

#[test]
fn validate_checks_library_before_sources() {
    let config = Config { library_dir: "/f".into(), sources: vec![source("", "/a")], ..Config::default() };
    assert_eq!(
        config.validate(PathState::NotDirectory),
        Err(ConfigError::LibraryDirNotDirectory { path: "/f".into() })
    );
    assert_eq!(config.validate(PathState::Directory), Err(ConfigError::EmptySourceName));
}

#[test]
fn validate_names_first_repeated_source() {
    let config = Config {
        sources: vec![source("a", "/1"), source("b", "/2"), source("b", "/3"), source("a", "/4")],
        ..Config::default()
    };
    assert_eq!(
        config.validate(PathState::Directory),
        Err(ConfigError::DuplicateSourceName { name: "b".into() })
    );
}

#[test]
fn validate_rejects_symlink_target_without_skills_dir() {
    let raw = RawTargets {
        antigravity: Some(RawTargetConfig {
            enabled: true,
            method: DistributionMethod::Symlink,
            skills_dir: None,
            mcp_config: None,
        }),
        ..no_raw_targets()
    };
    let err = Targets::try_from_raw(raw).unwrap_err();
    assert!(err.message().contains("skills_dir is not set"), "unexpected error: {:?}", err);
}

#[test]
fn validate_rejects_mcp_target_without_mcp_config() {
    let raw = RawTargets {
        codex: Some(RawTargetConfig {
            enabled: true,
            method: DistributionMethod::Mcp,
            skills_dir: None,
            mcp_config: None,
        }),
        ..no_raw_targets()
    };
    let err = Targets::try_from_raw(raw).unwrap_err();
    assert!(err.message().contains("mcp_config is not set"), "unexpected error: {:?}", err);
    assert_eq!(err, ConfigError::MissingMcpConfig { target: Some(TargetKey::Codex) });
}

#[test]
fn try_from_raw_rejects_symlink_without_skills_dir() {
    let raw = RawTargetConfig { enabled: true, method: DistributionMethod::Symlink, skills_dir: None, mcp_config: None };
    let err = TargetConfig::try_from_raw(raw).unwrap_err();
    assert!(err.message().contains("requires skills_dir"), "unexpected error: {:?}", err);
}

#[test]
fn try_from_raw_rejects_mcp_without_mcp_config() {
    let raw = RawTargetConfig { enabled: true, method: DistributionMethod::Mcp, skills_dir: None, mcp_config: None };
    let err = TargetConfig::try_from_raw(raw).unwrap_err();
    assert!(err.message().contains("requires mcp_config"), "unexpected error: {:?}", err);
}

#[test]
fn target_config_roundtrip_symlink() {
    let tc = TargetConfig { enabled: true, method: TargetMethod::Symlink { skills_dir: "/tmp/skills".into() } };
    let parsed = TargetConfig::try_from_raw(tc.to_raw()).unwrap();
    assert!(parsed.enabled);
    assert_eq!(parsed.skills_dir(), Some("/tmp/skills"));
    assert!(parsed.mcp_config().is_none());
}

#[test]
fn target_config_roundtrip_mcp() {
    let tc = TargetConfig { enabled: true, method: TargetMethod::Mcp { mcp_config: "/tmp/.mcp.json".into() } };
    let parsed = TargetConfig::try_from_raw(tc.to_raw()).unwrap();
    assert!(parsed.enabled);
    assert_eq!(parsed.mcp_config(), Some("/tmp/.mcp.json"));
    assert!(parsed.skills_dir().is_none());
}

#[test]
fn raw_target_ignores_the_other_path() {
    let raw = RawTargetConfig {
        enabled: false,
        method: DistributionMethod::Symlink,
        skills_dir: Some("/s".into()),
        mcp_config: Some("/m.json".into()),
    };
    let t = TargetConfig::try_from_raw(raw).unwrap();
    assert!(!t.enabled);
    assert_eq!(t.skills_dir(), Some("/s"));
    assert_eq!(t.mcp_config(), None);
}

#[test]
fn targets_iter_includes_claude() {
    let targets = Targets {
        antigravity: None,
        claude: Some(TargetConfig {
            enabled: true,
            method: TargetMethod::Symlink { skills_dir: "/tmp/agent-skills".into() },
        }),
        codex: None,
        openclaw: None,
    };
    let names: Vec<TargetKey> = targets.iter().iter().map(|(key, _)| *key).collect();
    assert_eq!(names, vec![TargetKey::Claude]);
}

#[test]
fn targets_iter_keeps_fixed_order() {
    let t = |d: &str| Some(TargetConfig { enabled: true, method: TargetMethod::Symlink { skills_dir: d.into() } });
    let targets = Targets { antigravity: t("/a"), claude: None, codex: t("/c"), openclaw: t("/o") };
    let names: Vec<TargetKey> = targets.iter().iter().map(|(key, _)| *key).collect();
    assert_eq!(names, vec![TargetKey::Antigravity, TargetKey::Codex, TargetKey::Openclaw]);
}

#[test]
fn config_expand_tilde_expands_home() {
    let result = expand_tilde("~/foo/bar", Some("/home/user")).unwrap();
    assert!(result.starts_with('/'));
    assert!(result.ends_with("foo/bar"));
    assert_eq!(result, "/home/user/foo/bar");
}

#[test]
fn config_expand_tilde_leaves_absolute_unchanged() {
    assert_eq!(expand_tilde("/absolute/path", Some("/home/user")).unwrap(), "/absolute/path");
}

#[test]
fn config_expand_tilde_leaves_relative_unchanged() {
    assert_eq!(expand_tilde("relative/path", Some("/home/user")).unwrap(), "relative/path");
}

#[test]
fn expand_tilde_needs_home_only_for_tilde() {
    assert_eq!(expand_tilde("~/x", None), Err(ConfigError::NoHomeDirectory));
    assert_eq!(expand_tilde("/x", None).unwrap(), "/x");
    assert_eq!(expand_tilde("~user/x", None).unwrap(), "~user/x");
}

#[test]
fn expand_tildes_rewrites_every_path() {
    let mut config = Config {
        library_dir: "~/lib".into(),
        exclude: vec![SkillName::new("old").unwrap()],
        sources: vec![source("s", "~/src")],
        targets: Targets {
            codex: Some(TargetConfig { enabled: true, method: TargetMethod::Mcp { mcp_config: "~/.codex/.mcp.json".into() } }),
            ..Targets::none()
        },
    };
    config.expand_tildes(Some("/h")).unwrap();
    assert_eq!(config.library_dir, "/h/lib");
    assert_eq!(config.sources[0].path, "/h/src");
    assert_eq!(config.targets.codex.as_ref().unwrap().mcp_config(), Some("/h/.codex/.mcp.json"));
    assert_eq!(config.exclude.len(), 1);
}

#[test]
fn load_or_default_errors_when_parent_dir_missing() {
    let result = resolve_config_path(Some("/nonexistent/config.toml"), false, false, Some("/home/u"));
    assert!(result.is_err());
    let msg = result.unwrap_err().message();
    assert!(msg.contains("config file not found"), "got: {msg}");
}

#[test]
fn load_or_default_returns_defaults_when_parent_exists() {
    let path = resolve_config_path(Some("/tmp/t/config.toml"), false, true, None).unwrap();
    assert_eq!(path, "/tmp/t/config.toml");
}

#[test]
fn default_config_path_is_under_home() {
    assert_eq!(resolve_config_path(None, false, false, Some("/home/u")).unwrap(), "/home/u/.config/tome/config.toml");
    assert_eq!(resolve_config_path(None, false, false, None), Err(ConfigError::NoHomeDirectory));
}

#[test]
fn default_library_dir_is_under_home() {
    assert_eq!(tome::config::default_library_dir(Some("/home/u")), "/home/u/.local/share/tome/skills");
    assert_eq!(tome::config::default_library_dir(None), "~/.local/share/tome/skills");
}

#[test]
fn every_command_but_init_needs_config() {
    assert!(!tome::cli::Command::Init.needs_config());
    assert!(tome::cli::Command::Sync.needs_config());
    assert!(tome::cli::Command::Config { path: true }.needs_config());
}

#[test]
fn targets_conversion_names_first_incomplete_target() {
    let incomplete = |m| Some(RawTargetConfig { enabled: true, method: m, skills_dir: None, mcp_config: None });
    let raw = RawTargets {
        antigravity: Some(RawTargetConfig { enabled: true, method: DistributionMethod::Symlink, skills_dir: Some("/a".into()), mcp_config: None }),
        claude: None,
        codex: incomplete(DistributionMethod::Mcp),
        openclaw: incomplete(DistributionMethod::Symlink),
    };
    assert_eq!(
        Targets::try_from_raw(raw).unwrap_err(),
        ConfigError::MissingMcpConfig { target: Some(TargetKey::Codex) }
    );
}

#[test]
fn default_library_is_placed_by_the_given_home() {
    let mut config = Config::default();
    assert_eq!(config.library_dir, "~/.local/share/tome/skills");
    config.expand_tildes(Some("/home/u")).unwrap();
    assert_eq!(config.library_dir, "/home/u/.local/share/tome/skills");
}

#[test]
fn expand_tildes_fails_only_when_home_is_needed() {
    let mut plain = Config { library_dir: "/lib".into(), sources: vec![source("s", "/src")], ..Config::default() };
    assert!(plain.expand_tildes(None).is_ok());
    let mut tilde = Config { library_dir: "/lib".into(), sources: vec![source("s", "~/src")], ..Config::default() };
    assert_eq!(tilde.expand_tildes(None), Err(ConfigError::NoHomeDirectory));
}
