use tome::server::{check_manifest, find_skill, list_skills, manifest_path, not_found_message, ManifestLink, ReadSkillError};
use tome::skill::{DiscoveredSkill, SkillName};

fn skill(name: &str, path: &str) -> DiscoveredSkill {
    DiscoveredSkill { name: SkillName::new(name).unwrap(), path: path.into(), source_name: "test".into() }
}

#[test]
fn list_skills_with_no_sources() {
    let text = list_skills(&Vec::new());
    assert!(text.contains("No skills found"), "unexpected: {text}");
}

#[test]
fn list_skills_returns_skills() {
    let text = list_skills(&vec![skill("my-skill", "/tmp/my-skill")]);
    assert!(text.contains("my-skill"), "unexpected: {text}");
    assert!(text.contains("1 skill(s) found"), "unexpected: {text}");
    assert_eq!(text, "1 skill(s) found:\n\n- my-skill (source: test, path: /tmp/my-skill)");
}

#[test]
fn read_skill_not_found() {
    let skills = vec![skill("my-skill", "/tmp/my-skill")];
    assert_eq!(find_skill(&skills, "nonexistent"), None);
    let text = not_found_message("nonexistent");
    assert!(text.contains("not found"), "unexpected: {text}");
}

#[test]
fn read_skill_finds_manifest() {
    let skills = vec![skill("a", "/s/a"), skill("my-skill", "/tmp/my-skill")];
    let i = find_skill(&skills, "my-skill").unwrap();
    assert_eq!(i, 1);
    assert_eq!(manifest_path(&skills[i]), "/tmp/my-skill/SKILL.md");
    assert_eq!(check_manifest(&skills[i], &ManifestLink::Plain), Ok(()));
}

#[test]
fn read_skill_rejects_skill_md_symlink_escape() {
    let s = skill("my-skill", "/tmp/t/my-skill");
    let link = ManifestLink::Symlink {
        resolved: Some("/tmp/t/sensitive.txt".into()),
        skill_dir: Some("/tmp/t/my-skill".into()),
    };
    let err = check_manifest(&s, &link).unwrap_err();
    assert!(format!("{err:?}").contains("Escapes"), "unexpected error: {err:?}");
    assert!(err.message().contains("escapes"));
    assert_eq!(err, ReadSkillError::Escapes { name: "my-skill".into() });
}

#[test]
fn read_skill_accepts_symlink_inside_skill_dir() {
    let s = skill("my-skill", "/tmp/t/my-skill");
    let link = ManifestLink::Symlink {
        resolved: Some("/tmp/t/my-skill/docs/SKILL.md".into()),
        skill_dir: Some("/tmp/t/my-skill".into()),
    };
    assert_eq!(check_manifest(&s, &link), Ok(()));
    let dangling = ManifestLink::Symlink { resolved: None, skill_dir: Some("/tmp/t/my-skill".into()) };
    assert!(check_manifest(&s, &dangling).is_err());
}
