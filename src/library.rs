//! The library consolidator: one symlink per discovered skill, named after it,
//! inside the library directory.
use vstd::prelude::*;
use crate::links::{
    change_for, change_link, lemma_change_included, lemma_changes_at_wanted, lemma_rerun_unchanged, outcome_at, settled,
    changes_view, count_of, count_outcome, link_changes, outcomes_of, plan_links, planned_changes, slots_view,
    wanted_view, LinkAction, LinkChange, LinkSlot, LinkSpec, Outcome, SlotView, WantedLink,
};
use crate::discover::{first_of_name, kept_skills, lemma_discovery_laws, skills_view, SkillView};
use crate::paths::{is_abs, join, lemma_join_injective, lemma_join_longer};
use crate::skill::valid_skill_name;
use crate::skill::DiscoveredSkill;
use crate::text::{concat3, decimal, decimal_text};

verus! {

/// Counters of a consolidation.
#[derive(Debug, Default, Clone, Copy, PartialEq, Eq, Structural)]
pub struct ConsolidateResult {
    pub created: usize,
    pub unchanged: usize,
    pub updated: usize,
    /// Names occupied by something that is not a symlink; left alone.
    pub skipped: usize,
}

/// A consolidation: its counters, the outcome for each skill, and the
/// filesystem changes that a real run makes (none on a dry run).
#[derive(Debug)]
pub struct ConsolidatePlan {
    pub result: ConsolidateResult,
    pub outcomes: Vec<Outcome>,
    pub actions: Vec<LinkAction>,
}

/// The library links the skills call for: `name -> path`.
pub open spec fn skill_links(skills: Seq<DiscoveredSkill>) -> Seq<LinkSpec> {
    skills.map_values(|s: DiscoveredSkill| (s.name@, s.path@))
}

/// The counters for a set of outcomes.
pub open spec fn tally(os: Seq<Outcome>) -> (nat, nat, nat, nat) {
    (
        count_of(os, Outcome::Created),
        count_of(os, Outcome::Unchanged),
        count_of(os, Outcome::Updated),
        count_of(os, Outcome::Skipped),
    )
}

impl ConsolidateResult {
    pub open spec fn counts(&self) -> (nat, nat, nat, nat) {
        (self.created as nat, self.unchanged as nat, self.updated as nat, self.skipped as nat)
    }
}

/// The changes a consolidation of `links` into `dir` makes.
pub open spec fn consolidation_changes(
    dir: Seq<char>,
    links: Seq<LinkSpec>,
    slots: Seq<SlotView>,
    dry_run: bool,
) -> Seq<LinkChange> {
    if dry_run {
        Seq::empty()
    } else {
        planned_changes(dir, true, links, slots)
    }
}

fn wanted_links(skills: &Vec<DiscoveredSkill>) -> (r: Vec<WantedLink>)
    ensures
        wanted_view(r@) == skill_links(skills@),
{
    let mut v: Vec<WantedLink> = Vec::new();
    let mut i: usize = 0;
    while i < skills.len()
        invariant
            i <= skills@.len(),
            wanted_view(v@) =~= skill_links(skills@).subrange(0, i as int),
        decreases skills@.len() - i,
    {
        let s = &skills[i];
        let ghost before = wanted_view(v@);
        v.push(WantedLink { name: s.name.as_str().to_owned(), target: s.path.clone() });
        assert(wanted_view(v@) =~= before.push((s.name@, s.path@)));
        assert(skill_links(skills@).subrange(0, i as int + 1) =~= skill_links(skills@).subrange(0, i as int).push((s.name@, s.path@)));
        i = i + 1;
    }
    v
}

/// What `consolidate` promises of its plan `r`.
pub open spec fn consolidated(
    skills: Seq<DiscoveredSkill>,
    library_dir: Seq<char>,
    slots: Seq<LinkSlot>,
    dry_run: bool,
    r: ConsolidatePlan,
) -> bool {
    &&& r.outcomes@ == outcomes_of(library_dir, skill_links(skills), slots_view(slots))
    &&& r.result.counts() == tally(r.outcomes@)
    &&& changes_view(r.actions@) == consolidation_changes(library_dir, skill_links(skills), slots_view(slots), dry_run)
}

/// Plans the library: for each skill, `library_dir/name` should be a symlink
/// to the skill's path. `slots[i]` is what occupies the link path of
/// `skills[i]` now. An equivalent symlink is unchanged, another symlink is
/// replaced, a non-symlink entry is skipped and never touched, and a free name
/// gets a new link. A real run first ensures `library_dir` exists; a dry run
/// reports the same counters and plans no change at all.
pub fn consolidate(
    skills: &Vec<DiscoveredSkill>,
    library_dir: &str,
    slots: &Vec<LinkSlot>,
    dry_run: bool,
) -> (r: ConsolidatePlan)
    requires
        skills@.len() == slots@.len(),
    ensures
        consolidated(skills@, library_dir@, slots@, dry_run, r),
{
    let wanted = wanted_links(skills);
    let plan = plan_links(library_dir, true, &wanted, slots, dry_run);
    let result = ConsolidateResult {
        created: count_outcome(&plan.outcomes, Outcome::Created),
        unchanged: count_outcome(&plan.outcomes, Outcome::Unchanged),
        updated: count_outcome(&plan.outcomes, Outcome::Updated),
        skipped: count_outcome(&plan.outcomes, Outcome::Skipped),
    };
    proof {
        if dry_run {
            assert(changes_view(plan.actions@) =~= Seq::<LinkChange>::empty());
        }
    }
    ConsolidatePlan { result, outcomes: plan.outcomes, actions: plan.actions }
}

/// Dry-run purity: over the same skills and observations, a dry run reports
/// the counters of a real run and plans no filesystem change (not even the
/// library directory).
pub proof fn lemma_dry_run_predicts(
    skills: Seq<DiscoveredSkill>,
    library_dir: Seq<char>,
    slots: Seq<LinkSlot>,
    dry: ConsolidatePlan,
    live: ConsolidatePlan,
)
    requires
        consolidated(skills, library_dir, slots, true, dry),
        consolidated(skills, library_dir, slots, false, live),
    ensures
        dry.result == live.result,
        dry.actions@.len() == 0,
{
}

/// ", N skipped (path conflict)" when `n` is positive, else nothing.
pub open spec fn skipped_note(n: nat) -> Seq<char> {
    if n > 0 {
        ", "@ + decimal(n) + " skipped (path conflict)"@
    } else {
        Seq::empty()
    }
}

/// The note on skipped entries.
pub fn skipped_text(n: usize) -> (r: String)
    ensures
        r@ == skipped_note(n as nat),
{
    if n > 0 {
        concat3(", ", decimal_text(n).as_str(), " skipped (path conflict)")
    } else {
        String::new()
    }
}

impl ConsolidateResult {
    /// The report line: "Library: C created, U unchanged, P updated", with a
    /// note on skipped names when there are any.
    pub fn summary(&self) -> (r: String)
        ensures
            r@ == "Library: "@ + decimal(self.created as nat) + " created, "@ + decimal(self.unchanged as nat)
                + " unchanged, "@ + decimal(self.updated as nat) + " updated"@ + skipped_note(self.skipped as nat),
    {
        let mut s = concat3("Library: ", decimal_text(self.created).as_str(), " created, ");
        s.append(decimal_text(self.unchanged).as_str());
        s.append(" unchanged, ");
        s.append(decimal_text(self.updated).as_str());
        s.append(" updated");
        s.append(skipped_text(self.skipped).as_str());
        s
    }
}

/// Idempotence of consolidation: after a real run applied its changes (each
/// created or replaced link now stores the skill's absolute path), a second
/// run over the same skills creates and replaces nothing, and plans no change
/// beyond making sure the library directory exists.
pub proof fn lemma_consolidation_idempotent(
    skills: Seq<DiscoveredSkill>,
    library_dir: Seq<char>,
    first: Seq<SlotView>,
    second: Seq<SlotView>,
)
    requires
        skills.len() == first.len(),
        skills.len() == second.len(),
        forall|i: int| 0 <= i < skills.len() ==> is_abs((#[trigger] skills[i]).path@),
        forall|i: int| 0 <= i < skills.len() ==> settled(
            join(library_dir, (#[trigger] skills[i]).name@),
            skills[i].path@,
            first[i],
            second[i],
        ),
    ensures
        tally(outcomes_of(library_dir, skill_links(skills), second)).0 == 0,
        tally(outcomes_of(library_dir, skill_links(skills), second)).2 == 0,
        consolidation_changes(library_dir, skill_links(skills), second, false) == seq![LinkChange::CreateDir(library_dir)],
        (forall|i: int| 0 <= i < skills.len() ==> first[i].state !is Occupied) ==> tally(
            outcomes_of(library_dir, skill_links(skills), second),
        ).1 == skills.len(),
{
    let links = skill_links(skills);
    assert forall|i: int| 0 <= i < links.len() implies is_abs(#[trigger] links[i].1) by {
        assert(links[i].1 == skills[i].path@);
    }
    assert forall|i: int| 0 <= i < links.len() implies settled(join(library_dir, links[i].0), links[i].1, #[trigger] first[i], second[i]) by {
        assert(links[i] == (skills[i].name@, skills[i].path@));
    }
    lemma_rerun_unchanged(library_dir, links, first, second);
    assert(consolidation_changes(library_dir, links, second, false) =~= seq![LinkChange::CreateDir(library_dir)]);
}

/// Exclusion reaches the library: when the skills are what discovery kept
/// (all found names being valid skill names, as `discover_all` ensures of
/// its input), consolidation plans no change at
/// `library_dir/name` for an excluded `name`.
pub proof fn lemma_excluded_never_linked(
    found: Seq<SkillView>,
    exclude: Set<Seq<char>>,
    skills: Seq<DiscoveredSkill>,
    library_dir: Seq<char>,
    slots: Seq<SlotView>,
    name: Seq<char>,
)
    requires
        skills_view(skills) == kept_skills(found, exclude, found.len() as int),
        skills.len() == slots.len(),
        forall|i: int| 0 <= i < found.len() ==> valid_skill_name(#[trigger] found[i].0),
        exclude.contains(name),
        valid_skill_name(name),
    ensures
        forall|k: int| 0 <= k < planned_changes(library_dir, true, skill_links(skills), slots).len() ==> change_link(
            #[trigger] planned_changes(library_dir, true, skill_links(skills), slots)[k],
        ) != join(library_dir, name),
{
    let links = skill_links(skills);
    let kept = kept_skills(found, exclude, found.len() as int);
    let changes = link_changes(library_dir, links, slots, links.len() as int);
    let all = planned_changes(library_dir, true, links, slots);
    lemma_discovery_laws(found, exclude);
    lemma_changes_at_wanted(library_dir, links, slots, links.len() as int);
    assert(!is_abs(name)) by {
        assert(name.len() > 0 && name[0] != '/');
    }
    lemma_join_longer(library_dir, name);
    assert forall|k: int| 0 <= k < all.len() implies change_link(#[trigger] all[k]) != join(library_dir, name) by {
        if k > 0 {
            assert(all[k] == changes[k - 1]);
            let j = choose|j: int| 0 <= j < links.len() && change_link(#[trigger] changes[k - 1]) == join(library_dir, links[j].0);
            assert(links[j].0 == skills[j].name@);
            assert(skills_view(skills)[j] == kept[j]);
            assert(!exclude.contains(kept[j].0));
            let w = choose|w: int| 0 <= w < found.len() && #[trigger] found[w] == kept[j] && first_of_name(found, exclude, w);
            assert(valid_skill_name(found[w].0));
            assert(!is_abs(links[j].0)) by {
                assert(links[j].0.len() > 0 && links[j].0[0] != '/');
            }
            if join(library_dir, links[j].0) == join(library_dir, name) {
                lemma_join_injective(library_dir, links[j].0, name);
            }
        }
    }
}

/// First source wins at the library: when the skills are what discovery
/// kept, a link that consolidation creates or replaces leads to the path of
/// the first found skill (in source order, not excluded) with that name.
pub proof fn lemma_first_source_linked(
    found: Seq<SkillView>,
    exclude: Set<Seq<char>>,
    skills: Seq<DiscoveredSkill>,
    library_dir: Seq<char>,
    slots: Seq<SlotView>,
    i: int,
)
    requires
        skills_view(skills) == kept_skills(found, exclude, found.len() as int),
        skills.len() == slots.len(),
        0 <= i < skills.len(),
        outcome_at(library_dir, skill_links(skills), slots, i) == Outcome::Created || outcome_at(
            library_dir,
            skill_links(skills),
            slots,
            i,
        ) == Outcome::Updated,
    ensures
        exists|j: int|
            0 <= j < found.len() && first_of_name(found, exclude, j) && #[trigger] found[j].0 == skills[i].name@
                && planned_changes(library_dir, true, skill_links(skills), slots).contains(
                change_for(join(library_dir, found[j].0), found[j].1, outcome_at(library_dir, skill_links(skills), slots, i))[0],
            ),
{
    let links = skill_links(skills);
    let kept = kept_skills(found, exclude, found.len() as int);
    lemma_discovery_laws(found, exclude);
    assert(skills_view(skills)[i] == kept[i]);
    let j = choose|j: int| 0 <= j < found.len() && #[trigger] found[j] == kept[i] && first_of_name(found, exclude, j);
    assert(links[i] == (found[j].0, found[j].1));
    lemma_change_included(library_dir, links, slots, links.len() as int, i);
    let c = change_for(join(library_dir, found[j].0), found[j].1, outcome_at(library_dir, links, slots, i))[0];
    let changes = link_changes(library_dir, links, slots, links.len() as int);
    let all = planned_changes(library_dir, true, links, slots);
    let k = choose|k: int| 0 <= k < changes.len() && changes[k] == c;
    assert(all[k + 1] == changes[k]);
    assert(found[j].0 == skills[i].name@);
}

} // verus!
