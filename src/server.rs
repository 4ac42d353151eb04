//! The two tool handlers of the skill server: listing the discovered skills
//! and reading one skill's manifest, refusing a manifest that escapes its
//! skill directory.
use vstd::prelude::*;
use crate::discover::MANIFEST_FILE;
use crate::paths::{join, join_path, path_starts_with, starts_with};
use crate::skill::DiscoveredSkill;
use crate::text::{concat2, concat3, decimal, decimal_text};

verus! {

/// The reply when there is nothing to list.
pub const NO_SKILLS: &'static str = "No skills found. Run `tome init` to configure sources.";

/// One line of the listing.
pub open spec fn skill_line(s: DiscoveredSkill) -> Seq<char> {
    "- "@ + s.name@ + " (source: "@ + s.source_name@ + ", path: "@ + s.path@ + ")"@
}

/// The listing's lines for the first `n` skills, each after a line break.
pub open spec fn skill_lines(skills: Seq<DiscoveredSkill>, n: int) -> Seq<char>
    decreases n,
{
    if n <= 0 {
        Seq::empty()
    } else {
        skill_lines(skills, n - 1) + "\n"@ + skill_line(skills[n - 1])
    }
}

/// The text of `list_skills`.
pub open spec fn listing_text(skills: Seq<DiscoveredSkill>) -> Seq<char> {
    if skills.len() == 0 {
        NO_SKILLS@
    } else {
        decimal(skills.len()) + " skill(s) found:\n"@ + skill_lines(skills, skills.len() as int)
    }
}

fn line_of(s: &DiscoveredSkill) -> (r: String)
    ensures
        r@ == skill_line(*s),
{
    let mut l = concat3("- ", s.name.as_str(), " (source: ");
    l.append(s.source_name.as_str());
    l.append(", path: ");
    l.append(s.path.as_str());
    l.append(")");
    l
}

/// Lists the skills, one line each with name, source and path, under a count.
pub fn list_skills(skills: &Vec<DiscoveredSkill>) -> (r: String)
    ensures
        r@ == listing_text(skills@),
{
    if skills.len() == 0 {
        return NO_SKILLS.to_owned();
    }
    let mut out = concat2(decimal_text(skills.len()).as_str(), " skill(s) found:\n");
    let ghost head = out@;
    let mut i: usize = 0;
    while i < skills.len()
        invariant
            i <= skills@.len(),
            out@ == head + skill_lines(skills@, i as int),
        decreases skills@.len() - i,
    {
        out.append("\n");
        out.append(line_of(&skills[i]).as_str());
        assert(out@ =~= head + skill_lines(skills@, i as int + 1));
        i = i + 1;
    }
    out
}

/// The first skill named `name`.
pub fn find_skill(skills: &Vec<DiscoveredSkill>, name: &str) -> (r: Option<usize>)
    ensures
        r matches Some(i) ==> i < skills@.len() && skills@[i as int].name@ == name@ && forall|k: int|
            0 <= k < i ==> (#[trigger] skills@[k]).name@ != name@,
        r is None ==> forall|k: int| 0 <= k < skills@.len() ==> (#[trigger] skills@[k]).name@ != name@,
{
    let wanted = name.to_owned();
    let mut i: usize = 0;
    while i < skills.len()
        invariant
            i <= skills@.len(),
            wanted@ == name@,
            forall|k: int| 0 <= k < i ==> (#[trigger] skills@[k]).name@ != name@,
        decreases skills@.len() - i,
    {
        if skills[i].name.as_str().to_owned() == wanted {
            return Some(i);
        }
        i = i + 1;
    }
    None
}

/// The reply for an unknown skill.
pub fn not_found_message(name: &str) -> (r: String)
    ensures
        r@ == "Skill '"@ + name@ + "' not found. Use list_skills to see available skills."@,
{
    concat3("Skill '", name, "' not found. Use list_skills to see available skills.")
}

/// The manifest file of a skill.
pub fn manifest_path(skill: &DiscoveredSkill) -> (r: String)
    ensures
        r@ == join(skill.path@, MANIFEST_FILE@),
{
    join_path(skill.path.as_str(), MANIFEST_FILE)
}

/// What was observed of a skill's manifest before reading it.
#[derive(Debug)]
pub enum ManifestLink {
    /// The manifest is not a symlink.
    Plain,
    /// The manifest is a symlink: the canonical forms of the manifest and of
    /// the skill directory, each none when it could not be resolved.
    Symlink { resolved: Option<String>, skill_dir: Option<String> },
}

/// Why a manifest is not served.
#[derive(Debug, PartialEq, Eq)]
pub enum ReadSkillError {
    /// A symlinked manifest, or its skill directory, could not be resolved.
    Unresolvable { path: String },
    /// A symlinked manifest resolves outside its skill directory.
    Escapes { name: String },
}

impl ReadSkillError {
    /// A human-readable description.
    pub fn message(&self) -> (r: String)
        ensures
            r@ == match *self {
                ReadSkillError::Unresolvable { path } => "failed to resolve "@ + path@,
                ReadSkillError::Escapes { name } => "SKILL.md in '"@ + name@ + "' is a symlink that escapes the skill directory"@,
            },
    {
        match self {
            ReadSkillError::Unresolvable { path } => concat2("failed to resolve ", path.as_str()),
            ReadSkillError::Escapes { name } => concat3(
                "SKILL.md in '",
                name.as_str(),
                "' is a symlink that escapes the skill directory",
            ),
        }
    }
}

/// Decides whether a skill's manifest may be read: a plain file may; a
/// symlink may only when its canonical form lies inside the canonical skill
/// directory.
pub fn check_manifest(skill: &DiscoveredSkill, link: &ManifestLink) -> (r: Result<(), ReadSkillError>)
    ensures
        link is Plain ==> r is Ok,
        link matches ManifestLink::Symlink { resolved: Some(m), skill_dir: Some(d) } ==> (r is Ok <==> path_starts_with(m@, d@)),
        link matches ManifestLink::Symlink { resolved: Some(m), skill_dir: Some(d) } && !path_starts_with(m@, d@)
            ==> (r matches Err(ReadSkillError::Escapes { name }) && name@ == skill.name@),
        link matches ManifestLink::Symlink { resolved: None, skill_dir: _ } ==> (r matches Err(ReadSkillError::Unresolvable { path })
            && path@ == join(skill.path@, MANIFEST_FILE@)),
        link matches ManifestLink::Symlink { resolved: Some(_), skill_dir: None } ==> (r matches Err(ReadSkillError::Unresolvable { path })
            && path@ == skill.path@),
{
    match link {
        ManifestLink::Plain => Ok(()),
        ManifestLink::Symlink { resolved, skill_dir } => match (resolved, skill_dir) {
            (Some(m), Some(d)) => {
                if starts_with(m.as_str(), d.as_str()) {
                    Ok(())
                } else {
                    Err(ReadSkillError::Escapes { name: skill.name.as_str().to_owned() })
                }
            },
            (None, _) => Err(ReadSkillError::Unresolvable { path: manifest_path(skill) }),
            (_, None) => Err(ReadSkillError::Unresolvable { path: skill.path.clone() }),
        },
    }
}

} // verus!
