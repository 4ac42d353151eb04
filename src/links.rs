//! Planning symlinks into a directory: the three-way idempotency rule shared by
//! the library consolidator and the symlink distributor.
//!
//! For each wanted link `dir/name -> target` the caller reports what occupies
//! `dir/name` now. An equivalent symlink is left alone, a symlink elsewhere is
//! replaced, anything that is not a symlink is never touched, and an empty slot
//! gets a new link.
use vstd::prelude::*;
use crate::paths::{is_abs, join, join_path, opt_text, points_to, resolve_target, symlink_points_to};

verus! {

/// What occupies a would-be link path on disk.
#[derive(Debug)]
pub enum EntryState {
    /// Nothing is there.
    Absent,
    /// A symlink, as stored (`raw_target`), and its canonical form if it has one.
    Symlink { raw_target: String, canonical: Option<String> },
    /// A file or directory that is not a symlink.
    Occupied,
}

/// The observation for one wanted link: the slot's state and the canonical
/// form of the wanted target, if it canonicalizes.
#[derive(Debug)]
pub struct LinkSlot {
    pub state: EntryState,
    pub target_canonical: Option<String>,
}

/// A link to keep in a directory: `dir/name` should lead to `target`.
#[derive(Debug)]
pub struct WantedLink {
    pub name: String,
    pub target: String,
}

/// The meaning of an [`EntryState`].
pub enum SlotState {
    Absent,
    Symlink { raw_target: Seq<char>, canonical: Option<Seq<char>> },
    Occupied,
}

/// The meaning of a [`LinkSlot`].
pub struct SlotView {
    pub state: SlotState,
    pub target_canonical: Option<Seq<char>>,
}

impl View for LinkSlot {
    type V = SlotView;

    open spec fn view(&self) -> SlotView {
        SlotView {
            state: match self.state {
                EntryState::Absent => SlotState::Absent,
                EntryState::Symlink { raw_target, canonical } => SlotState::Symlink {
                    raw_target: raw_target@,
                    canonical: opt_text(canonical),
                },
                EntryState::Occupied => SlotState::Occupied,
            },
            target_canonical: opt_text(self.target_canonical),
        }
    }
}

pub open spec fn slots_view(v: Seq<LinkSlot>) -> Seq<SlotView> {
    v.map_values(|s: LinkSlot| s@)
}

/// What happened, or would happen, to one managed link.
#[derive(Clone, Copy, PartialEq, Eq, Debug, Structural)]
pub enum Outcome {
    Created,
    Unchanged,
    Updated,
    Skipped,
}

/// A filesystem change to perform.
#[derive(Debug)]
pub enum LinkAction {
    /// Create the directory and its parents.
    CreateDir { path: String },
    /// Create a symlink at `link` pointing at `target`.
    Create { link: String, target: String },
    /// Remove the symlink at `link`, then create it again pointing at `target`.
    Replace { link: String, target: String },
}

/// The meaning of a [`LinkAction`].
pub enum LinkChange {
    CreateDir(Seq<char>),
    Create(Seq<char>, Seq<char>),
    Replace(Seq<char>, Seq<char>),
}

impl View for LinkAction {
    type V = LinkChange;

    open spec fn view(&self) -> LinkChange {
        match self {
            LinkAction::CreateDir { path } => LinkChange::CreateDir(path@),
            LinkAction::Create { link, target } => LinkChange::Create(link@, target@),
            LinkAction::Replace { link, target } => LinkChange::Replace(link@, target@),
        }
    }
}

pub open spec fn changes_view(v: Seq<LinkAction>) -> Seq<LinkChange> {
    v.map_values(|a: LinkAction| a@)
}

/// The outcome for a link at `link` that should lead to `target`.
pub open spec fn slot_outcome(link: Seq<char>, target: Seq<char>, slot: SlotView) -> Outcome {
    match slot.state {
        SlotState::Absent => Outcome::Created,
        SlotState::Occupied => Outcome::Skipped,
        SlotState::Symlink { raw_target, canonical } => {
            if points_to(link, raw_target, canonical, target, slot.target_canonical) {
                Outcome::Unchanged
            } else {
                Outcome::Updated
            }
        },
    }
}

/// A wanted link as (name, target).
pub type LinkSpec = (Seq<char>, Seq<char>);

pub open spec fn wanted_view(v: Seq<WantedLink>) -> Seq<LinkSpec> {
    v.map_values(|w: WantedLink| (w.name@, w.target@))
}

/// The outcome for the `i`-th wanted link in `dir`.
pub open spec fn outcome_at(dir: Seq<char>, wanted: Seq<LinkSpec>, slots: Seq<SlotView>, i: int) -> Outcome {
    slot_outcome(join(dir, wanted[i].0), wanted[i].1, slots[i])
}

pub open spec fn outcomes_of(dir: Seq<char>, wanted: Seq<LinkSpec>, slots: Seq<SlotView>) -> Seq<Outcome> {
    Seq::new(wanted.len(), |i: int| outcome_at(dir, wanted, slots, i))
}

/// The change that an outcome calls for.
pub open spec fn change_for(link: Seq<char>, target: Seq<char>, o: Outcome) -> Seq<LinkChange> {
    match o {
        Outcome::Created => seq![LinkChange::Create(link, target)],
        Outcome::Updated => seq![LinkChange::Replace(link, target)],
        _ => Seq::empty(),
    }
}

/// The link changes for the first `n` wanted links, in order.
pub open spec fn link_changes(dir: Seq<char>, wanted: Seq<LinkSpec>, slots: Seq<SlotView>, n: int) -> Seq<LinkChange>
    decreases n,
{
    if n <= 0 {
        Seq::empty()
    } else {
        link_changes(dir, wanted, slots, n - 1) + change_for(
            join(dir, wanted[n - 1].0),
            wanted[n - 1].1,
            outcome_at(dir, wanted, slots, n - 1),
        )
    }
}

/// Everything a real run does: make the directory if asked, then each link change.
pub open spec fn planned_changes(
    dir: Seq<char>,
    make_dir: bool,
    wanted: Seq<LinkSpec>,
    slots: Seq<SlotView>,
) -> Seq<LinkChange> {
    (if make_dir {
        seq![LinkChange::CreateDir(dir)]
    } else {
        Seq::empty()
    }) + link_changes(dir, wanted, slots, wanted.len() as int)
}

/// How many entries of `s` are `k`.
pub open spec fn count_of(s: Seq<Outcome>, k: Outcome) -> nat
    decreases s.len(),
{
    if s.len() == 0 {
        0
    } else {
        count_of(s.drop_last(), k) + if s.last() == k {
            1nat
        } else {
            0nat
        }
    }
}

/// The plan for one directory of links.
#[derive(Debug)]
pub struct LinkPlan {
    /// One outcome per wanted link, in order.
    pub outcomes: Vec<Outcome>,
    /// The changes to perform; empty on a dry run.
    pub actions: Vec<LinkAction>,
}

fn copy_text(s: &String) -> (r: String)
    ensures
        r@ == s@,
{
    s.clone()
}

/// Decides one link.
pub fn decide_link(link: &str, target: &str, slot: &LinkSlot) -> (r: Outcome)
    ensures
        r == slot_outcome(link@, target@, slot@),
{
    match &slot.state {
        EntryState::Absent => Outcome::Created,
        EntryState::Occupied => Outcome::Skipped,
        EntryState::Symlink { raw_target, canonical } => {
            if symlink_points_to(link, raw_target.as_str(), canonical, target, &slot.target_canonical) {
                Outcome::Unchanged
            } else {
                Outcome::Updated
            }
        },
    }
}

/// Plans the links `dir/name -> target` for every wanted link, given what
/// occupies each slot. On a dry run the outcomes are the same and no action is
/// planned. Unless it is a dry run, `make_dir` asks for `dir` to be created first.
pub fn plan_links(
    dir: &str,
    make_dir: bool,
    wanted: &Vec<WantedLink>,
    slots: &Vec<LinkSlot>,
    dry_run: bool,
) -> (r: LinkPlan)
    requires
        wanted@.len() == slots@.len(),
    ensures
        r.outcomes@ == outcomes_of(dir@, wanted_view(wanted@), slots_view(slots@)),
        dry_run ==> r.actions@.len() == 0,
        !dry_run ==> changes_view(r.actions@) == planned_changes(dir@, make_dir, wanted_view(wanted@), slots_view(slots@)),
{
    let mut outcomes: Vec<Outcome> = Vec::new();
    let mut actions: Vec<LinkAction> = Vec::new();
    if !dry_run && make_dir {
        actions.push(LinkAction::CreateDir { path: dir.to_owned() });
    }
    let ghost head: Seq<LinkChange> = if make_dir {
        seq![LinkChange::CreateDir(dir@)]
    } else {
        Seq::empty()
    };
    assert(!dry_run ==> changes_view(actions@) =~= head + link_changes(dir@, wanted_view(wanted@), slots_view(slots@), 0));
    let n = wanted.len();
    let mut i: usize = 0;
    while i < n
        invariant
            n == wanted@.len(),
            wanted@.len() == slots_view(slots@).len(),
            i <= n,
            outcomes@ =~= outcomes_of(dir@, wanted_view(wanted@), slots_view(slots@)).subrange(0, i as int),
            dry_run ==> actions@.len() == 0,
            !dry_run ==> changes_view(actions@) == head + link_changes(dir@, wanted_view(wanted@), slots_view(slots@), i as int),
            head == (if make_dir {
                seq![LinkChange::CreateDir(dir@)]
            } else {
                Seq::<LinkChange>::empty()
            }),
        decreases n - i,
    {
        let w = &wanted[i];
        let link = join_path(dir, w.name.as_str());
        let o = decide_link(link.as_str(), w.target.as_str(), &slots[i]);
        let ghost before = changes_view(actions@);
        outcomes.push(o);
        if !dry_run {
            match o {
                Outcome::Created => {
                    actions.push(LinkAction::Create { link, target: copy_text(&w.target) });
                },
                Outcome::Updated => {
                    actions.push(LinkAction::Replace { link, target: copy_text(&w.target) });
                },
                _ => {},
            }
            proof {
                let step = change_for(
                    join(dir@, wanted_view(wanted@)[i as int].0),
                    wanted_view(wanted@)[i as int].1,
                    outcome_at(dir@, wanted_view(wanted@), slots_view(slots@), i as int),
                );
                assert(changes_view(actions@) =~= before + step);
                assert(head + link_changes(dir@, wanted_view(wanted@), slots_view(slots@), i as int + 1) =~= (head
                    + link_changes(dir@, wanted_view(wanted@), slots_view(slots@), i as int)) + step);
            }
        }
        i = i + 1;
    }
    LinkPlan { outcomes, actions }
}

/// Counts the entries of `outcomes` equal to `k`.
pub fn count_outcome(outcomes: &Vec<Outcome>, k: Outcome) -> (r: usize)
    ensures
        r == count_of(outcomes@, k),
{
    let mut c: usize = 0;
    let mut i: usize = 0;
    while i < outcomes.len()
        invariant
            i <= outcomes@.len(),
            c == count_of(outcomes@.subrange(0, i as int), k),
            c <= i,
        decreases outcomes@.len() - i,
    {
        assert(outcomes@.subrange(0, i as int + 1).drop_last() =~= outcomes@.subrange(0, i as int));
        if outcomes[i] == k {
            c = c + 1;
        }
        i = i + 1;
    }
    assert(outcomes@.subrange(0, outcomes@.len() as int) =~= outcomes@);
    c
}

/// Whether a change acts on the entry at `p`.
pub open spec fn change_touches(c: LinkChange, p: Seq<char>) -> bool {
    match c {
        LinkChange::CreateDir(d) => d == p,
        LinkChange::Create(l, _) => l == p,
        LinkChange::Replace(l, _) => l == p,
    }
}

/// What a slot looks like after a real run applied its change: a created or
/// replaced link stores `target` and canonicalizes as `target` does (or, like
/// it, not at all); every other slot is as it was.
pub open spec fn settled(link: Seq<char>, target: Seq<char>, before: SlotView, after: SlotView) -> bool {
    match slot_outcome(link, target, before) {
        Outcome::Created | Outcome::Updated => after.state matches SlotState::Symlink { raw_target, canonical }
            && raw_target == target && canonical == after.target_canonical,
        _ => after == before,
    }
}

proof fn lemma_count_none(s: Seq<Outcome>, k: Outcome)
    requires
        forall|i: int| 0 <= i < s.len() ==> s[i] != k,
    ensures
        count_of(s, k) == 0,
    decreases s.len(),
{
    if s.len() > 0 {
        lemma_count_none(s.drop_last(), k);
    }
}

proof fn lemma_count_all(s: Seq<Outcome>, k: Outcome)
    requires
        forall|i: int| 0 <= i < s.len() ==> s[i] == k,
    ensures
        count_of(s, k) == s.len(),
    decreases s.len(),
{
    if s.len() > 0 {
        lemma_count_all(s.drop_last(), k);
    }
}

proof fn lemma_no_changes(dir: Seq<char>, wanted: Seq<LinkSpec>, slots: Seq<SlotView>, n: int)
    requires
        0 <= n <= wanted.len(),
        wanted.len() == slots.len(),
        forall|i: int| 0 <= i < n ==> outcome_at(dir, wanted, slots, i) == Outcome::Unchanged
            || outcome_at(dir, wanted, slots, i) == Outcome::Skipped,
    ensures
        link_changes(dir, wanted, slots, n).len() == 0,
    decreases n,
{
    if n > 0 {
        lemma_no_changes(dir, wanted, slots, n - 1);
    }
}

/// Idempotence: once a real run has applied its changes, a second run over
/// the same wanted links (all with absolute targets) creates and replaces
/// nothing. Every link is then unchanged, except the slots that were skipped
/// because something else occupies them; with no such slot, all are unchanged.
pub proof fn lemma_rerun_unchanged(
    dir: Seq<char>,
    wanted: Seq<LinkSpec>,
    first: Seq<SlotView>,
    second: Seq<SlotView>,
)
    requires
        wanted.len() == first.len(),
        wanted.len() == second.len(),
        forall|i: int| 0 <= i < wanted.len() ==> is_abs(#[trigger] wanted[i].1),
        forall|i: int| 0 <= i < wanted.len() ==> settled(join(dir, wanted[i].0), wanted[i].1, #[trigger] first[i], second[i]),
    ensures
        forall|i: int| 0 <= i < wanted.len() ==> #[trigger] outcome_at(dir, wanted, second, i) == if outcome_at(dir, wanted, first, i) == Outcome::Skipped {
            Outcome::Skipped
        } else {
            Outcome::Unchanged
        },
        count_of(outcomes_of(dir, wanted, second), Outcome::Created) == 0,
        count_of(outcomes_of(dir, wanted, second), Outcome::Updated) == 0,
        link_changes(dir, wanted, second, wanted.len() as int).len() == 0,
        (forall|i: int| 0 <= i < wanted.len() ==> first[i].state !is Occupied) ==> count_of(outcomes_of(dir, wanted, second), Outcome::Unchanged) == wanted.len(),
{
    assert forall|i: int| 0 <= i < wanted.len() implies #[trigger] outcome_at(dir, wanted, second, i) == if outcome_at(dir, wanted, first, i) == Outcome::Skipped {
        Outcome::Skipped
    } else {
        Outcome::Unchanged
    } by {
        let link = join(dir, wanted[i].0);
        let target = wanted[i].1;
        assert(settled(link, target, first[i], second[i]));
        let o = slot_outcome(link, target, first[i]);
        if o == Outcome::Created || o == Outcome::Updated {
            assert(resolve_target(link, target) == target);
        }
    }
    let os = outcomes_of(dir, wanted, second);
    assert forall|i: int| 0 <= i < os.len() implies os[i] != Outcome::Created && os[i] != Outcome::Updated by {
        assert(os[i] == outcome_at(dir, wanted, second, i));
    }
    lemma_count_none(os, Outcome::Created);
    lemma_count_none(os, Outcome::Updated);
    lemma_no_changes(dir, wanted, second, wanted.len() as int);
    if forall|i: int| 0 <= i < wanted.len() ==> first[i].state !is Occupied {
        assert forall|i: int| 0 <= i < os.len() implies os[i] == Outcome::Unchanged by {
            assert(os[i] == outcome_at(dir, wanted, second, i));
            assert(first[i].state !is Occupied);
        }
        lemma_count_all(os, Outcome::Unchanged);
    }
}

proof fn lemma_occupied_untouched_upto(dir: Seq<char>, wanted: Seq<LinkSpec>, slots: Seq<SlotView>, i: int, n: int)
    requires
        0 <= i < wanted.len(),
        0 <= n <= wanted.len(),
        wanted.len() == slots.len(),
        slots[i].state is Occupied,
        forall|j: int| 0 <= j < wanted.len() && j != i ==> join(dir, #[trigger] wanted[j].0) != join(dir, wanted[i].0),
    ensures
        forall|k: int| 0 <= k < link_changes(dir, wanted, slots, n).len() ==> !change_touches(
            #[trigger] link_changes(dir, wanted, slots, n)[k],
            join(dir, wanted[i].0),
        ),
    decreases n,
{
    if n > 0 {
        lemma_occupied_untouched_upto(dir, wanted, slots, i, n - 1);
        let prev = link_changes(dir, wanted, slots, n - 1);
        let step = change_for(join(dir, wanted[n - 1].0), wanted[n - 1].1, outcome_at(dir, wanted, slots, n - 1));
        assert(link_changes(dir, wanted, slots, n) == prev + step);
        assert forall|k: int| 0 <= k < (prev + step).len() implies !change_touches(#[trigger] (prev + step)[k], join(dir, wanted[i].0)) by {
            if k >= prev.len() {
                if n - 1 == i {
                    assert(step.len() == 0);
                }
            }
        }
    }
}

/// Collision safety: when something that is not a symlink occupies the slot
/// of the `i`-th link, and no other wanted link shares its path, no planned
/// link change (no creation, no replacement) acts on that entry.
pub proof fn lemma_occupied_untouched(dir: Seq<char>, wanted: Seq<LinkSpec>, slots: Seq<SlotView>, i: int)
    requires
        0 <= i < wanted.len(),
        wanted.len() == slots.len(),
        slots[i].state is Occupied,
        forall|j: int| 0 <= j < wanted.len() && j != i ==> join(dir, #[trigger] wanted[j].0) != join(dir, wanted[i].0),
    ensures
        forall|k: int| 0 <= k < link_changes(dir, wanted, slots, wanted.len() as int).len() ==> !change_touches(
            #[trigger] link_changes(dir, wanted, slots, wanted.len() as int)[k],
            join(dir, wanted[i].0),
        ),
{
    lemma_occupied_untouched_upto(dir, wanted, slots, i, wanted.len() as int);
}

/// Counts the links created or replaced.
pub fn count_changed(outcomes: &Vec<Outcome>) -> (r: usize)
    ensures
        r == count_of(outcomes@, Outcome::Created) + count_of(outcomes@, Outcome::Updated),
{
    let mut c: usize = 0;
    let mut i: usize = 0;
    while i < outcomes.len()
        invariant
            i <= outcomes@.len(),
            c == count_of(outcomes@.subrange(0, i as int), Outcome::Created) + count_of(
                outcomes@.subrange(0, i as int),
                Outcome::Updated,
            ),
            c <= i,
        decreases outcomes@.len() - i,
    {
        assert(outcomes@.subrange(0, i as int + 1).drop_last() =~= outcomes@.subrange(0, i as int));
        if outcomes[i] == Outcome::Created || outcomes[i] == Outcome::Updated {
            c = c + 1;
        }
        i = i + 1;
    }
    assert(outcomes@.subrange(0, outcomes@.len() as int) =~= outcomes@);
    c
}

/// Relative/absolute equivalence: a symlink whose canonical form is that of
/// its wanted target is unchanged, however its stored target is spelled
/// (relative or absolute, through other symlinks or not).
pub proof fn lemma_spelling_irrelevant(link: Seq<char>, target: Seq<char>, raw: Seq<char>, canonical: Seq<char>)
    ensures
        slot_outcome(
            link,
            target,
            SlotView {
                state: SlotState::Symlink { raw_target: raw, canonical: Some(canonical) },
                target_canonical: Some(canonical),
            },
        ) == Outcome::Unchanged,
{
}

/// The entry a change acts on.
pub open spec fn change_link(c: LinkChange) -> Seq<char> {
    match c {
        LinkChange::CreateDir(d) => d,
        LinkChange::Create(l, _) => l,
        LinkChange::Replace(l, _) => l,
    }
}

/// Every link change among the first `n` wanted links acts on the path of
/// one of them.
pub proof fn lemma_changes_at_wanted(dir: Seq<char>, wanted: Seq<LinkSpec>, slots: Seq<SlotView>, n: int)
    requires
        0 <= n <= wanted.len(),
        wanted.len() == slots.len(),
    ensures
        forall|k: int| 0 <= k < link_changes(dir, wanted, slots, n).len() ==> exists|j: int|
            0 <= j < n && change_link(#[trigger] link_changes(dir, wanted, slots, n)[k]) == join(dir, wanted[j].0),
    decreases n,
{
    if n > 0 {
        lemma_changes_at_wanted(dir, wanted, slots, n - 1);
        let prev = link_changes(dir, wanted, slots, n - 1);
        let cur = link_changes(dir, wanted, slots, n);
        assert forall|k: int| 0 <= k < cur.len() implies exists|j: int|
            0 <= j < n && change_link(#[trigger] cur[k]) == join(dir, wanted[j].0) by {
            if k < prev.len() {
                assert(cur[k] == prev[k]);
            } else {
                assert(change_link(cur[k]) == join(dir, wanted[n - 1].0));
            }
        }
    }
}

/// A created or replaced link is among the planned changes, pointing at its target.
pub proof fn lemma_change_included(dir: Seq<char>, wanted: Seq<LinkSpec>, slots: Seq<SlotView>, n: int, i: int)
    requires
        0 <= i < n <= wanted.len(),
        wanted.len() == slots.len(),
        outcome_at(dir, wanted, slots, i) == Outcome::Created || outcome_at(dir, wanted, slots, i) == Outcome::Updated,
    ensures
        link_changes(dir, wanted, slots, n).contains(
            change_for(join(dir, wanted[i].0), wanted[i].1, outcome_at(dir, wanted, slots, i))[0],
        ),
    decreases n,
{
    let c = change_for(join(dir, wanted[i].0), wanted[i].1, outcome_at(dir, wanted, slots, i))[0];
    let prev = link_changes(dir, wanted, slots, n - 1);
    let cur = link_changes(dir, wanted, slots, n);
    if i < n - 1 {
        lemma_change_included(dir, wanted, slots, n - 1, i);
        let k = choose|k: int| 0 <= k < prev.len() && prev[k] == c;
        assert(cur[k] == prev[k]);
    } else {
        assert(cur[prev.len() as int] == c);
    }
}

} // verus!
