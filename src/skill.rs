//! Skill names and discovered skills.
use vstd::prelude::*;

verus! {

/// A character that separates path segments on some platform.
pub open spec fn is_separator(c: char) -> bool {
    c == '/' || c == '\\'
}

/// A usable skill name: not empty, and free of path separators, so that it can
/// name exactly one entry of a directory.
pub open spec fn valid_skill_name(s: Seq<char>) -> bool {
    s.len() > 0 && forall|i: int| 0 <= i < s.len() ==> !is_separator(#[trigger] s[i])
}

/// The recommended spelling: lowercase ASCII letters, digits and hyphens.
pub open spec fn is_conventional_char(c: char) -> bool {
    ('a' <= c && c <= 'z') || ('0' <= c && c <= '9') || c == '-'
}

pub open spec fn conventional_name(s: Seq<char>) -> bool {
    forall|i: int| 0 <= i < s.len() ==> is_conventional_char(#[trigger] s[i])
}

/// A validated skill name, the key for deduplication and the name of the
/// library entry.
#[derive(Debug)]
pub struct SkillName {
    name: String,
}

impl View for SkillName {
    type V = Seq<char>;

    closed spec fn view(&self) -> Seq<char> {
        self.name@
    }
}

/// Why a string is not a skill name.
#[derive(Debug, PartialEq, Eq)]
pub enum SkillNameError {
    Empty,
    PathSeparator { name: String },
}

impl SkillNameError {
    /// A human-readable description.
    pub fn message(&self) -> (r: String)
        ensures
            r@ == match *self {
                SkillNameError::Empty => "skill name cannot be empty"@,
                SkillNameError::PathSeparator { name } => "skill name contains path separator: '"@ + name@ + "'"@,
            },
    {
        match self {
            SkillNameError::Empty => "skill name cannot be empty".to_owned(),
            SkillNameError::PathSeparator { name } => {
                crate::text::concat3("skill name contains path separator: '", name.as_str(), "'")
            },
        }
    }
}

impl PartialEq for SkillName {
    fn eq(&self, other: &SkillName) -> (r: bool)
        ensures
            r == (self@ == other@),
    {
        self.name == other.name
    }
}

impl vstd::std_specs::cmp::PartialEqSpecImpl for SkillName {
    open spec fn obeys_eq_spec() -> bool {
        true
    }

    open spec fn eq_spec(&self, other: &SkillName) -> bool {
        self@ == other@
    }
}

/// Whether every character of `s` is of the recommended spelling.
pub fn is_conventional(s: &str) -> (r: bool)
    ensures
        r == conventional_name(s@),
{
    let n = s.unicode_len();
    let mut i: usize = 0;
    while i < n
        invariant
            n == s@.len(),
            i <= n,
            forall|j: int| 0 <= j < i ==> is_conventional_char(#[trigger] s@[j]),
        decreases n - i,
    {
        let c = s.get_char(i);
        if !(('a' <= c && c <= 'z') || ('0' <= c && c <= '9') || c == '-') {
            return false;
        }
        i = i + 1;
    }
    true
}

impl SkillName {
    /// Every skill name is a valid one.
    #[verifier::type_invariant]
    pub open spec fn well_formed(&self) -> bool {
        valid_skill_name(self@)
    }

    /// Validates `name`: it must be non-empty and hold no path separator.
    pub fn new(name: &str) -> (r: Result<SkillName, SkillNameError>)
        ensures
            r is Ok <==> valid_skill_name(name@),
            r matches Ok(n) ==> n@ == name@ && n.well_formed(),
            r matches Err(e) ==> (e is Empty <==> name@.len() == 0),
            r matches Err(SkillNameError::PathSeparator { name: n }) ==> n@ == name@,
    {
        let n = name.unicode_len();
        if n == 0 {
            return Err(SkillNameError::Empty);
        }
        let mut i: usize = 0;
        while i < n
            invariant
                n == name@.len(),
                i <= n,
                forall|j: int| 0 <= j < i ==> !is_separator(#[trigger] name@[j]),
            decreases n - i,
        {
            let c = name.get_char(i);
            if c == '/' || c == '\\' {
                return Err(SkillNameError::PathSeparator { name: name.to_owned() });
            }
            i = i + 1;
        }
        Ok(SkillName { name: name.to_owned() })
    }

    /// The name as text.
    pub fn as_str(&self) -> (r: &str)
        ensures
            r@ == self@,
    {
        self.name.as_str()
    }

    /// A copy of this name.
    pub fn copy(&self) -> (r: SkillName)
        ensures
            r@ == self@,
    {
        proof {
            use_type_invariant(self);
        }
        SkillName { name: self.name.clone() }
    }

    /// Whether the name follows the recommended spelling (lowercase letters,
    /// digits, hyphens). Other names are accepted, with a warning.
    pub fn is_conventional(&self) -> (r: bool)
        ensures
            r == conventional_name(self@),
    {
        is_conventional(self.name.as_str())
    }
}

/// A skill found in a source: a directory holding the manifest file.
#[derive(Debug)]
pub struct DiscoveredSkill {
    /// The skill's name (its directory's name).
    pub name: SkillName,
    /// The skill's directory.
    pub path: String,
    /// The source it came from.
    pub source_name: String,
}

impl DiscoveredSkill {
    /// A copy of this record.
    pub fn copy(&self) -> (r: DiscoveredSkill)
        ensures
            r.name@ == self.name@,
            r.path@ == self.path@,
            r.source_name@ == self.source_name@,
    {
        DiscoveredSkill {
            name: self.name.copy(),
            path: self.path.clone(),
            source_name: self.source_name.clone(),
        }
    }
}

} // verus!
