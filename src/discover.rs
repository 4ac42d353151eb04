//! Discovery: turning what the sources hold into one list of skills, first
//! source first, without excluded or repeated names.
use vstd::prelude::*;
use crate::config::{Source, SourceType};
use crate::json::{
    json_as_array, json_as_str, json_get, json_items, json_member_values, json_text, json_values,
    json_is_object, member, parse_json, parsed_json, json_accepts,
};
use crate::paths::{join, join_path, parent, parent_of, texts};
use crate::skill::{conventional_name, valid_skill_name, DiscoveredSkill, SkillName};
use crate::text::concat3;

verus! {

/// The name of a skill's manifest file.
pub const MANIFEST_FILE: &'static str = "SKILL.md";

/// The name of the plugin install-record file.
pub const PLUGINS_FILE: &'static str = "installed_plugins.json";

/// A discovered skill as (name, path, source name).
pub type SkillView = (Seq<char>, Seq<char>, Seq<char>);

pub open spec fn skill_view(s: DiscoveredSkill) -> SkillView {
    (s.name@, s.path@, s.source_name@)
}

pub open spec fn skills_view(v: Seq<DiscoveredSkill>) -> Seq<SkillView> {
    v.map_values(|s: DiscoveredSkill| skill_view(s))
}

pub open spec fn names_view(v: Seq<SkillName>) -> Set<Seq<char>> {
    Set::new(|n: Seq<char>| exists|i: int| 0 <= i < v.len() && (#[trigger] v[i])@ == n)
}

/// Whether some kept skill is named `name`.
pub open spec fn has_name(kept: Seq<SkillView>, name: Seq<char>) -> bool {
    exists|i: int| 0 <= i < kept.len() && (#[trigger] kept[i]).0 == name
}

/// The skills kept from the first `n` found ones: excluded names are dropped,
/// and of several skills with one name only the first stays.
pub open spec fn kept_skills(found: Seq<SkillView>, exclude: Set<Seq<char>>, n: int) -> Seq<SkillView>
    decreases n,
{
    if n <= 0 {
        Seq::empty()
    } else {
        let prev = kept_skills(found, exclude, n - 1);
        let s = found[n - 1];
        if exclude.contains(s.0) || has_name(prev, s.0) {
            prev
        } else {
            prev.push(s)
        }
    }
}

/// The source of the first kept skill named `name` (empty when there is none).
pub open spec fn winner_source(kept: Seq<SkillView>, name: Seq<char>) -> Seq<char>
    decreases kept.len(),
{
    if kept.len() == 0 {
        Seq::empty()
    } else if has_name(kept.drop_last(), name) {
        winner_source(kept.drop_last(), name)
    } else if kept.last().0 == name {
        kept.last().2
    } else {
        Seq::empty()
    }
}

/// The conflicts among the first `n` found skills, as (name, winning source,
/// losing source): each skill, not excluded, whose name an earlier skill
/// already supplied.
pub open spec fn conflicts_of(found: Seq<SkillView>, exclude: Set<Seq<char>>, n: int) -> Seq<(Seq<char>, Seq<char>, Seq<char>)>
    decreases n,
{
    if n <= 0 {
        Seq::empty()
    } else {
        let prev = kept_skills(found, exclude, n - 1);
        let s = found[n - 1];
        conflicts_of(found, exclude, n - 1) + if !exclude.contains(s.0) && has_name(prev, s.0) {
            seq![(s.0, winner_source(prev, s.0), s.2)]
        } else {
            Seq::empty()
        }
    }
}

proof fn lemma_winner_is_first(kept: Seq<SkillView>, name: Seq<char>, k: int)
    requires
        0 <= k < kept.len(),
        kept[k].0 == name,
        forall|j: int| 0 <= j < k ==> (#[trigger] kept[j]).0 != name,
    ensures
        winner_source(kept, name) == kept[k].2,
    decreases kept.len(),
{
    let d = kept.drop_last();
    if k < kept.len() - 1 {
        assert(d[k] == kept[k]);
        assert(has_name(d, name));
        assert forall|j: int| 0 <= j < k implies (#[trigger] d[j]).0 != name by {
            assert(d[j] == kept[j]);
        }
        lemma_winner_is_first(d, name, k);
    } else {
        assert(!has_name(d, name)) by {
            if has_name(d, name) {
                let j = choose|j: int| 0 <= j < d.len() && (#[trigger] d[j]).0 == name;
                assert(d[j] == kept[j]);
            }
        }
    }
}

pub open spec fn conflicts_view(v: Seq<Conflict>) -> Seq<(Seq<char>, Seq<char>, Seq<char>)> {
    v.map_values(|c: Conflict| (c.name@, c.winner@, c.loser@))
}

/// A name found again after an earlier source supplied it.
#[derive(Debug)]
pub struct Conflict {
    pub name: String,
    /// The source whose skill was kept.
    pub winner: String,
    /// The source whose skill was dropped.
    pub loser: String,
}

impl Conflict {
    /// The warning to show.
    pub fn message(&self) -> (r: String)
        ensures
            r@ == "skill '"@ + self.name@ + "' found in both '"@ + self.winner@ + "' and '"@ + self.loser@ + "', using '"@
                + self.winner@ + "'"@,
    {
        let mut m = concat3("skill '", self.name.as_str(), "' found in both '");
        m.append(self.winner.as_str());
        m.append("' and '");
        m.append(self.loser.as_str());
        m.append("', using '");
        m.append(self.winner.as_str());
        m.append("'");
        m
    }
}

/// The result of discovery: the skills, and the conflicts that were resolved
/// in favour of the earlier source.
#[derive(Debug)]
pub struct Discovery {
    pub skills: Vec<DiscoveredSkill>,
    pub conflicts: Vec<Conflict>,
}

fn is_excluded(exclude: &Vec<SkillName>, name: &SkillName) -> (r: bool)
    ensures
        r == names_view(exclude@).contains(name@),
{
    let mut i: usize = 0;
    while i < exclude.len()
        invariant
            i <= exclude@.len(),
            forall|j: int| 0 <= j < i ==> (#[trigger] exclude@[j])@ != name@,
        decreases exclude@.len() - i,
    {
        if exclude[i] == *name {
            assert(names_view(exclude@).contains(name@)) by {
                assert(exclude@[i as int]@ == name@);
            }
            return true;
        }
        i = i + 1;
    }
    false
}

fn find_kept(kept: &Vec<DiscoveredSkill>, name: &SkillName) -> (r: Option<usize>)
    ensures
        r matches Some(i) ==> i < kept@.len() && kept@[i as int].name@ == name@ && forall|j: int|
            0 <= j < i ==> (#[trigger] kept@[j]).name@ != name@,
        r is None <==> !has_name(skills_view(kept@), name@),
{
    let mut i: usize = 0;
    while i < kept.len()
        invariant
            i <= kept@.len(),
            forall|j: int| 0 <= j < i ==> (#[trigger] kept@[j]).name@ != name@,
        decreases kept@.len() - i,
    {
        if kept[i].name == *name {
            assert(skills_view(kept@)[i as int].0 == name@);
            return Some(i);
        }
        i = i + 1;
    }
    assert(!has_name(skills_view(kept@), name@)) by {
        if has_name(skills_view(kept@), name@) {
            let j = choose|j: int| 0 <= j < kept@.len() && (#[trigger] skills_view(kept@)[j]).0 == name@;
            assert(kept@[j].name@ == name@);
        }
    }
    None
}

/// Deduplicates and filters the skills found across all sources, given in
/// source order: a skill whose name is excluded is dropped; of several skills
/// with one name the first is kept and each later one is recorded as a
/// conflict (name, winning source, losing source).
pub fn discover_all(found: &Vec<DiscoveredSkill>, exclude: &Vec<SkillName>) -> (r: Discovery)
    ensures
        skills_view(r.skills@) == kept_skills(skills_view(found@), names_view(exclude@), found@.len() as int),
        conflicts_view(r.conflicts@) == conflicts_of(skills_view(found@), names_view(exclude@), found@.len() as int),
        forall|i: int| 0 <= i < found@.len() ==> valid_skill_name(#[trigger] skills_view(found@)[i].0),
        forall|i: int| 0 <= i < r.skills@.len() ==> valid_skill_name((#[trigger] r.skills@[i]).name@),
{
    let mut skills: Vec<DiscoveredSkill> = Vec::new();
    let mut conflicts: Vec<Conflict> = Vec::new();
    let mut i: usize = 0;
    assert(skills_view(skills@) =~= Seq::<SkillView>::empty());
    while i < found.len()
        invariant
            i <= found@.len(),
            skills_view(skills@) == kept_skills(skills_view(found@), names_view(exclude@), i as int),
            conflicts_view(conflicts@) == conflicts_of(skills_view(found@), names_view(exclude@), i as int),
            forall|k: int| 0 <= k < i ==> valid_skill_name(#[trigger] skills_view(found@)[k].0),
            forall|k: int| 0 <= k < skills@.len() ==> valid_skill_name((#[trigger] skills@[k]).name@),
        decreases found@.len() - i,
    {
        let s = &found[i];
        proof {
            use_type_invariant(&s.name);
        }
        let ghost prev = skills_view(skills@);
        let ghost prev_conflicts = conflicts_view(conflicts@);
        assert(skills_view(found@)[i as int] == skill_view(*s));
        if !is_excluded(exclude, &s.name) {
            match find_kept(&skills, &s.name) {
                Some(k) => {
                    proof {
                        assert(prev[k as int] == skill_view(skills@[k as int]));
                        assert forall|j: int| 0 <= j < k implies (#[trigger] prev[j]).0 != s.name@ by {
                            assert(prev[j] == skill_view(skills@[j]));
                        }
                        lemma_winner_is_first(prev, s.name@, k as int);
                    }
                    conflicts.push(Conflict {
                        name: s.name.as_str().to_owned(),
                        winner: skills[k].source_name.clone(),
                        loser: s.source_name.clone(),
                    });
                    assert(conflicts_view(conflicts@) =~= prev_conflicts.push((s.name@, winner_source(prev, s.name@), s.source_name@)));
                },
                None => {
                    let c = s.copy();
                    skills.push(c);
                    assert(skills_view(skills@) =~= prev.push(skill_view(*s)));
                },
            }
        }
        assert(conflicts_view(conflicts@) =~= conflicts_of(skills_view(found@), names_view(exclude@), i as int + 1));
        i = i + 1;
    }
    Discovery { skills, conflicts }
}

/// No skill found before position `j` and not excluded has the name of `found[j]`.
pub open spec fn first_of_name(found: Seq<SkillView>, exclude: Set<Seq<char>>, j: int) -> bool {
    forall|k: int| 0 <= k < j ==> (#[trigger] found[k]).0 != found[j].0 || exclude.contains(found[k].0)
}

proof fn lemma_kept_props(found: Seq<SkillView>, exclude: Set<Seq<char>>, n: int)
    requires
        0 <= n <= found.len(),
    ensures
        forall|i: int| 0 <= i < kept_skills(found, exclude, n).len() ==> !exclude.contains(
            #[trigger] kept_skills(found, exclude, n)[i].0,
        ),
        forall|i: int, j: int|
            0 <= i < j < kept_skills(found, exclude, n).len() ==> #[trigger] kept_skills(found, exclude, n)[i].0
                != #[trigger] kept_skills(found, exclude, n)[j].0,
        forall|i: int| 0 <= i < kept_skills(found, exclude, n).len() ==> exists|j: int|
            0 <= j < n && #[trigger] found[j] == #[trigger] kept_skills(found, exclude, n)[i] && first_of_name(found, exclude, j),
        forall|j: int| 0 <= j < n && !exclude.contains(#[trigger] found[j].0) ==> has_name(
            kept_skills(found, exclude, n),
            found[j].0,
        ),
    decreases n,
{
    if n > 0 {
        lemma_kept_props(found, exclude, n - 1);
        let prev = kept_skills(found, exclude, n - 1);
        let cur = kept_skills(found, exclude, n);
        let s = found[n - 1];
        if !(exclude.contains(s.0) || has_name(prev, s.0)) {
            assert(cur == prev.push(s));
            assert forall|i: int| 0 <= i < cur.len() implies exists|j: int|
                0 <= j < n && #[trigger] found[j] == #[trigger] cur[i] && first_of_name(found, exclude, j) by {
                if i == cur.len() - 1 {
                    assert(found[n - 1] == cur[i]);
                    assert forall|k: int| 0 <= k < n - 1 implies (#[trigger] found[k]).0 != found[n - 1].0 || exclude.contains(found[k].0) by {
                        if found[k].0 == s.0 && !exclude.contains(found[k].0) {
                            assert(has_name(prev, found[k].0));
                        }
                    }
                } else {
                    assert(cur[i] == prev[i]);
                }
            }
            assert forall|j: int| 0 <= j < n && !exclude.contains(#[trigger] found[j].0) implies has_name(cur, found[j].0) by {
                if j < n - 1 {
                    let w = choose|w: int| 0 <= w < prev.len() && (#[trigger] prev[w]).0 == found[j].0;
                    assert(cur[w] == prev[w]);
                } else {
                    assert(cur[cur.len() - 1] == s);
                }
            }
        }
    }
}

/// Exclusion and first-source-wins: no kept skill has an excluded name; kept
/// names are distinct; each kept skill is the first found skill (in source
/// order, among those not excluded) with its name; and every found name that
/// is not excluded is kept.
pub proof fn lemma_discovery_laws(found: Seq<SkillView>, exclude: Set<Seq<char>>)
    ensures
        forall|i: int| 0 <= i < kept_skills(found, exclude, found.len() as int).len() ==> !exclude.contains(
            #[trigger] kept_skills(found, exclude, found.len() as int)[i].0,
        ),
        forall|i: int, j: int|
            0 <= i < j < kept_skills(found, exclude, found.len() as int).len() ==> #[trigger] kept_skills(
                found,
                exclude,
                found.len() as int,
            )[i].0 != #[trigger] kept_skills(found, exclude, found.len() as int)[j].0,
        forall|i: int| 0 <= i < kept_skills(found, exclude, found.len() as int).len() ==> exists|j: int|
            0 <= j < found.len() && #[trigger] found[j] == #[trigger] kept_skills(found, exclude, found.len() as int)[i]
                && first_of_name(found, exclude, j),
        forall|j: int| 0 <= j < found.len() && !exclude.contains(#[trigger] found[j].0) ==> has_name(
            kept_skills(found, exclude, found.len() as int),
            found[j].0,
        ),
{
    lemma_kept_props(found, exclude, found.len() as int);
}

/// A directory that holds the manifest file: a skill candidate.
#[derive(Debug)]
pub struct ManifestDir {
    /// The directory's own name.
    pub name: String,
    /// The directory's path.
    pub path: String,
}

/// What a source yielded: its skills, and warnings about what was left out.
#[derive(Debug)]
pub struct SourceScan {
    pub skills: Vec<DiscoveredSkill>,
    pub warnings: Vec<String>,
}

/// The skills among the first `n` candidate directories: those whose name
/// is a valid skill name, in order.
pub open spec fn scanned(dirs: Seq<ManifestDir>, source: Seq<char>, n: int) -> Seq<SkillView>
    decreases n,
{
    if n <= 0 {
        Seq::empty()
    } else {
        let prev = scanned(dirs, source, n - 1);
        let d = dirs[n - 1];
        if valid_skill_name(d.name@) {
            prev.push((d.name@, d.path@, source))
        } else {
            prev
        }
    }
}

/// Why a directory name is not a skill name.
pub open spec fn invalid_name_text(name: Seq<char>) -> Seq<char> {
    if name.len() == 0 {
        "skill name cannot be empty"@
    } else {
        "skill name contains path separator: '"@ + name + "'"@
    }
}

/// The warnings for the first `n` candidate directories: one per directory
/// left out for its name, and one per kept name outside the recommended spelling.
pub open spec fn scan_warnings(dirs: Seq<ManifestDir>, n: int) -> Seq<Seq<char>>
    decreases n,
{
    if n <= 0 {
        Seq::empty()
    } else {
        let d = dirs[n - 1];
        scan_warnings(dirs, n - 1) + if !valid_skill_name(d.name@) {
            seq!["skipping skill in "@ + d.path@ + ": "@ + invalid_name_text(d.name@)]
        } else if !conventional_name(d.name@) {
            seq!["skill name '"@ + d.name@ + "' should be lowercase letters, digits, or hyphens"@]
        } else {
            Seq::empty()
        }
    }
}

/// Turns candidate directories into skills of the source `source_name`. A
/// directory whose name is not a valid skill name is left out with a warning;
/// a valid name outside the recommended spelling is kept, with a warning.
pub fn scan_for_skills(dirs: &Vec<ManifestDir>, source_name: &str) -> (r: SourceScan)
    ensures
        skills_view(r.skills@) == scanned(dirs@, source_name@, dirs@.len() as int),
        texts(r.warnings@) == scan_warnings(dirs@, dirs@.len() as int),
        forall|i: int| 0 <= i < r.skills@.len() ==> valid_skill_name((#[trigger] r.skills@[i]).name@),
{
    let mut skills: Vec<DiscoveredSkill> = Vec::new();
    let mut warnings: Vec<String> = Vec::new();
    let mut i: usize = 0;
    assert(skills_view(skills@) =~= Seq::<SkillView>::empty());
    assert(texts(warnings@) =~= Seq::<Seq<char>>::empty());
    while i < dirs.len()
        invariant
            i <= dirs@.len(),
            skills_view(skills@) == scanned(dirs@, source_name@, i as int),
            texts(warnings@) == scan_warnings(dirs@, i as int),
            forall|k: int| 0 <= k < skills@.len() ==> valid_skill_name((#[trigger] skills@[k]).name@),
        decreases dirs@.len() - i,
    {
        let d = &dirs[i];
        let ghost prev = skills_view(skills@);
        let ghost prev_w = texts(warnings@);
        match SkillName::new(d.name.as_str()) {
            Ok(name) => {
                if !name.is_conventional() {
                    warnings.push(concat3(
                        "skill name '",
                        d.name.as_str(),
                        "' should be lowercase letters, digits, or hyphens",
                    ));
                    assert(texts(warnings@) =~= prev_w.push("skill name '"@ + d.name@ + "' should be lowercase letters, digits, or hyphens"@));
                } else {
                    assert(texts(warnings@) =~= prev_w);
                }
                skills.push(DiscoveredSkill { name, path: d.path.clone(), source_name: source_name.to_owned() });
                assert(skills_view(skills@) =~= prev.push((d.name@, d.path@, source_name@)));
            },
            Err(e) => {
                let mut w = concat3("skipping skill in ", d.path.as_str(), ": ");
                w.append(e.message().as_str());
                warnings.push(w);
                assert(texts(warnings@) =~= prev_w.push("skipping skill in "@ + d.path@ + ": "@ + invalid_name_text(d.name@)));
            },
        }
        assert(scan_warnings(dirs@, i as int + 1) == prev_w + if !valid_skill_name(d.name@) {
            seq!["skipping skill in "@ + d.path@ + ": "@ + invalid_name_text(d.name@)]
        } else if !conventional_name(d.name@) {
            seq!["skill name '"@ + d.name@ + "' should be lowercase letters, digits, or hyphens"@]
        } else {
            Seq::<Seq<char>>::empty()
        });
        i = i + 1;
    }
    SourceScan { skills, warnings }
}

/// What was found where a source points.
#[derive(Debug)]
pub enum SourceListing {
    /// Nothing usable: the directory is missing, or no install-record file was found.
    Missing,
    /// The candidate skill directories.
    Found(Vec<ManifestDir>),
}

/// The warning for a source whose location holds nothing usable.
pub open spec fn missing_source_text(source: Source) -> Seq<char> {
    match source.source_type {
        SourceType::Directory => "source '"@ + source.name@ + "' path does not exist: "@ + source.path@,
        SourceType::ClaudePlugins => "no installed_plugins.json found for source '"@ + source.name@ + "'"@,
    }
}

/// Discovers the skills of one source from what its location holds. A
/// missing location yields no skills and a warning, never an error.
pub fn discover_source(source: &Source, listing: &SourceListing) -> (r: SourceScan)
    ensures
        listing is Missing ==> r.skills@.len() == 0 && texts(r.warnings@) == seq![missing_source_text(*source)],
        listing matches SourceListing::Found(dirs) ==> skills_view(r.skills@) == scanned(dirs@, source.name@, dirs@.len() as int)
            && texts(r.warnings@) == scan_warnings(dirs@, dirs@.len() as int),
{
    match listing {
        SourceListing::Missing => {
            let w = match source.source_type {
                SourceType::Directory => {
                    let mut w = concat3("source '", source.name.as_str(), "' path does not exist: ");
                    w.append(source.path.as_str());
                    w
                },
                SourceType::ClaudePlugins => concat3(
                    "no installed_plugins.json found for source '",
                    source.name.as_str(),
                    "'",
                ),
            };
            let mut warnings = Vec::new();
            warnings.push(w);
            assert(texts(warnings@) =~= seq![missing_source_text(*source)]);
            SourceScan { skills: Vec::new(), warnings }
        },
        SourceListing::Found(dirs) => scan_for_skills(dirs, source.name.as_str()),
    }
}

/// Where to look for a plugin source's install records: inside the source
/// directory, and else in its parent directory.
pub fn plugins_file_candidates(source_path: &str) -> (r: (String, Option<String>))
    ensures
        r.0@ == join(source_path@, PLUGINS_FILE@),
        parent(source_path@) matches Some(p) ==> (r.1 matches Some(f) && f@ == join(p, PLUGINS_FILE@)),
        parent(source_path@) is None ==> r.1 is None,
{
    let primary = join_path(source_path, PLUGINS_FILE);
    let fallback = match parent_of(source_path) {
        Some(p) => Some(join_path(p.as_str(), PLUGINS_FILE)),
        None => None,
    };
    (primary, fallback)
}

/// The directory holding a plugin's skills.
pub fn plugin_skills_dir(install_path: &str) -> (r: String)
    ensures
        r@ == join(install_path@, "skills"@),
{
    join_path(install_path, "skills")
}

/// The install path of one record, when it has a string `installPath`.
pub open spec fn record_path(rec: serde_json::Value) -> Option<Seq<char>> {
    match member(rec, "installPath"@) {
        Some(p) => json_text(p),
        None => None,
    }
}

/// The install paths of the first `n` records.
pub open spec fn record_paths(items: Seq<serde_json::Value>, n: int) -> Seq<Seq<char>>
    decreases n,
{
    if n <= 0 {
        Seq::empty()
    } else {
        record_paths(items, n - 1) + match record_path(items[n - 1]) {
            Some(t) => seq![t],
            None => Seq::empty(),
        }
    }
}

/// The install paths under the first `n` plugin entries of the second shape.
pub open spec fn grouped_paths(groups: Seq<serde_json::Value>, n: int) -> Seq<Seq<char>>
    decreases n,
{
    if n <= 0 {
        Seq::empty()
    } else {
        grouped_paths(groups, n - 1) + match json_items(groups[n - 1]) {
            Some(items) => record_paths(items, items.len() as int),
            None => Seq::empty(),
        }
    }
}

/// The install paths an install-record document lists: a flat array of
/// records, or an object whose `plugins` member maps plugin keys to arrays of
/// records. Any other shape is unrecognized (none).
pub open spec fn install_paths_of(doc: serde_json::Value) -> Option<Seq<Seq<char>>> {
    match json_items(doc) {
        Some(items) => Some(record_paths(items, items.len() as int)),
        None => match member(doc, "plugins"@) {
            Some(p) => if json_is_object(p) {
                Some(grouped_paths(json_member_values(p), json_member_values(p).len() as int))
            } else {
                None
            },
            None => None,
        },
    }
}

fn push_record_paths(items: &Vec<serde_json::Value>, out: &mut Vec<String>)
    ensures
        texts(final(out)@) == texts(old(out)@) + record_paths(items@, items@.len() as int),
{
    let ghost start = texts(out@);
    let mut i: usize = 0;
    while i < items.len()
        invariant
            i <= items@.len(),
            texts(out@) == start + record_paths(items@, i as int),
        decreases items@.len() - i,
    {
        let ghost prev = texts(out@);
        match json_get(&items[i], "installPath") {
            Some(p) => match json_as_str(p) {
                Some(t) => {
                    out.push(t.to_owned());
                    assert(texts(out@) =~= prev.push(t@));
                },
                None => {},
            },
            None => {},
        }
        assert(start + record_paths(items@, i as int + 1) =~= (start + record_paths(items@, i as int)) + match record_path(items@[i as int]) {
            Some(t) => seq![t],
            None => Seq::<Seq<char>>::empty(),
        });
        i = i + 1;
    }
}

/// Reads the install paths out of an install-record document; none when the
/// document has neither recognized shape.
pub fn plugin_install_paths(doc: &serde_json::Value) -> (r: Option<Vec<String>>)
    ensures
        r matches Some(v) ==> install_paths_of(*doc) == Some(texts(v@)),
        r is None ==> install_paths_of(*doc) is None,
{
    let mut out: Vec<String> = Vec::new();
    assert(texts(out@) =~= Seq::<Seq<char>>::empty());
    if let Some(items) = json_as_array(doc) {
        push_record_paths(items, &mut out);
        return Some(out);
    }
    let p = match json_get(doc, "plugins") {
        Some(p) => p,
        None => return None,
    };
    let groups = match json_values(p) {
        Some(g) => g,
        None => return None,
    };
    let mut i: usize = 0;
    while i < groups.len()
        invariant
            i <= groups@.len(),
            texts(out@) == grouped_paths(groups@, i as int),
        decreases groups@.len() - i,
    {
        match json_as_array(&groups[i]) {
            Some(items) => push_record_paths(items, &mut out),
            None => {
                assert(texts(out@) =~= grouped_paths(groups@, i as int) + Seq::<Seq<char>>::empty());
            },
        }
        i = i + 1;
    }
    Some(out)
}

/// Why discovery cannot go on.
#[derive(Debug, PartialEq, Eq)]
pub enum DiscoverError {
    /// An install-record file exists but is not JSON: a corrupt cache is not trusted.
    InvalidRecords,
}

/// Reads an install-record file's text: an error when it is not JSON, none
/// (with a warning to give) when its shape is not recognized, and else the
/// install paths it lists.
pub fn read_install_records(text: &str) -> (r: Result<Option<Vec<String>>, DiscoverError>)
    ensures
        r is Err <==> !json_accepts(text@),
        r matches Ok(Some(v)) ==> install_paths_of(parsed_json(text@)) == Some(texts(v@)),
        r matches Ok(None) ==> install_paths_of(parsed_json(text@)) is None,
{
    match parse_json(text) {
        Ok(doc) => Ok(plugin_install_paths(&doc)),
        Err(_) => Err(DiscoverError::InvalidRecords),
    }
}

/// Which install-record file a plugin source uses.
#[derive(Debug, PartialEq, Eq)]
pub enum RecordsFile {
    /// The file inside the source directory.
    Primary(String),
    /// The file in the parent directory, used when the first is absent (worth a warning).
    Fallback(String),
    /// Neither exists: the source contributes nothing, with a warning.
    Missing,
}

/// Chooses the install-record file: the one in the source directory when it
/// exists, else the one in the parent directory when there is one and it
/// exists.
pub fn choose_records_file(
    primary: &str,
    primary_exists: bool,
    fallback: &Option<String>,
    fallback_exists: bool,
) -> (r: RecordsFile)
    ensures
        primary_exists ==> (r matches RecordsFile::Primary(p) && p@ == primary@),
        !primary_exists && fallback is Some && fallback_exists ==> (r matches RecordsFile::Fallback(f) && Some(f@) == match *fallback {
            Some(x) => Some(x@),
            None => None,
        }),
        !primary_exists && !(fallback is Some && fallback_exists) ==> r is Missing,
{
    if primary_exists {
        return RecordsFile::Primary(primary.to_owned());
    }
    match fallback {
        Some(f) => {
            if fallback_exists {
                RecordsFile::Fallback(f.clone())
            } else {
                RecordsFile::Missing
            }
        },
        None => RecordsFile::Missing,
    }
}

proof fn lemma_conflicts_prefix(found: Seq<SkillView>, exclude: Set<Seq<char>>, m: int, n: int, k: int)
    requires
        0 <= m <= n <= found.len(),
        0 <= k < conflicts_of(found, exclude, m).len(),
    ensures
        k < conflicts_of(found, exclude, n).len(),
        conflicts_of(found, exclude, n)[k] == conflicts_of(found, exclude, m)[k],
    decreases n - m,
{
    if m < n {
        lemma_conflicts_prefix(found, exclude, m, n - 1, k);
    }
}

/// Conflicts are reported: a found skill, not excluded, whose name an earlier
/// found skill (not excluded) already had, appears among the conflicts with
/// its name, the source that supplied the name first among the kept skills,
/// and its own source.
pub proof fn lemma_conflict_reported(found: Seq<SkillView>, exclude: Set<Seq<char>>, j: int)
    requires
        0 <= j < found.len(),
        !exclude.contains(found[j].0),
        !first_of_name(found, exclude, j),
    ensures
        exists|k: int|
            0 <= k < conflicts_of(found, exclude, found.len() as int).len() && #[trigger] conflicts_of(
                found,
                exclude,
                found.len() as int,
            )[k] == (found[j].0, winner_source(kept_skills(found, exclude, j), found[j].0), found[j].2),
{
    let i = choose|i: int| 0 <= i < j && (#[trigger] found[i]).0 == found[j].0 && !exclude.contains(found[i].0);
    lemma_kept_props(found, exclude, j);
    assert(has_name(kept_skills(found, exclude, j), found[i].0));
    let before = conflicts_of(found, exclude, j);
    let entry = (found[j].0, winner_source(kept_skills(found, exclude, j), found[j].0), found[j].2);
    assert(conflicts_of(found, exclude, j + 1) == before + seq![entry]);
    assert(conflicts_of(found, exclude, j + 1)[before.len() as int] == entry);
    lemma_conflicts_prefix(found, exclude, j + 1, found.len() as int, before.len() as int);
}

} // verus!
