//! The distributor: publishing the library to one target, either as mirrored
//! symlinks or as a server registration inside a JSON document.
use vstd::prelude::*;
use crate::config::{TargetConfig, TargetMethod};
use crate::json::{
    json_as_str, json_copy, json_empty_array, json_get, json_is_object, json_items, json_members,
    json_object, json_object_check, json_set, json_string, json_text, member, parse_json, parsed_json,
    json_accepts, render_json, rendered_json,
};
use crate::links::{
    lemma_rerun_unchanged, link_changes, settled,
    changes_view, count_changed, count_of, count_outcome, outcomes_of, plan_links, planned_changes,
    slots_view, wanted_view, LinkAction, LinkSlot, LinkSpec, Outcome, SlotView, WantedLink,
};
use crate::library::{skipped_note, skipped_text};
use crate::paths::{is_abs, join, join_path};
use crate::text::{concat2, decimal, decimal_text};

verus! {

/// The key under which this tool registers its server.
pub const SERVER_KEY: &'static str = "tome";

/// The command that the registration runs.
pub const SERVER_COMMAND: &'static str = "tome-mcp";

/// The member of a target document that holds the server registrations.
pub const SERVERS_MEMBER: &'static str = "mcpServers";

/// Counters of one target's distribution.
#[derive(Debug)]
pub struct DistributeResult {
    /// Links created or replaced; for an mcp target, 1 when the document changes.
    pub linked: usize,
    /// Links already right; for an mcp target, 1 when the registration is current.
    pub unchanged: usize,
    /// Names occupied by something that is not a symlink; left alone.
    pub skipped: usize,
    pub target_name: String,
}

/// What was observed of a target before distributing to it.
#[derive(Debug)]
pub enum TargetObservation {
    /// For a symlink target: the names of the library's entries, and what
    /// occupies each of those names in the target directory.
    Links { library_entries: Vec<String>, slots: Vec<LinkSlot> },
    /// For an mcp target: the document's text, none when the file is absent.
    Document { text: Option<String> },
    /// Nothing (a disabled target needs no observation).
    Nothing,
}

/// A distribution: its counters, the link changes for a symlink target, and
/// for an mcp target the new document text to write (creating parent
/// directories). A dry run plans no change.
#[derive(Debug)]
pub struct DistributePlan {
    pub result: DistributeResult,
    pub actions: Vec<LinkAction>,
    pub document: Option<String>,
}

/// Why a distribution cannot go on.
#[derive(Debug, PartialEq, Eq)]
pub enum DistributeError {
    /// The target document is not valid JSON.
    InvalidJson,
    /// The target document is JSON but not an object.
    DocumentNotObject,
    /// The document's server map exists and is not an object: merging into it
    /// would be a guess.
    ServersNotObject,
}

impl DistributeError {
    /// A human-readable description.
    pub fn message(&self) -> (r: String)
        ensures
            r@ == match *self {
                DistributeError::InvalidJson => "mcp config is not valid JSON"@,
                DistributeError::DocumentNotObject => "mcp config is not an object"@,
                DistributeError::ServersNotObject => "mcpServers is not a JSON object"@,
            },
    {
        match self {
            DistributeError::InvalidJson => "mcp config is not valid JSON".to_owned(),
            DistributeError::DocumentNotObject => "mcp config is not an object".to_owned(),
            DistributeError::ServersNotObject => "mcpServers is not a JSON object".to_owned(),
        }
    }
}

/// The mirror links for a symlink target: `name -> library_dir/name`.
pub open spec fn mirror_links(library_dir: Seq<char>, entries: Seq<String>) -> Seq<LinkSpec> {
    entries.map_values(|n: String| (n@, join(library_dir, n@)))
}

/// Whether `doc` already registers the server with the expected command.
pub open spec fn registration_current(doc: serde_json::Value) -> bool {
    match member(doc, SERVERS_MEMBER@) {
        Some(s) => match member(s, SERVER_KEY@) {
            Some(e) => match member(e, "command"@) {
                Some(c) => json_text(c) == Some(SERVER_COMMAND@),
                None => false,
            },
            None => false,
        },
        None => false,
    }
}

/// The registration entry: `{"command": SERVER_COMMAND, "args": [], "env": {}}`.
pub open spec fn is_registration(e: serde_json::Value) -> bool {
    &&& json_is_object(e)
    &&& json_members(e).dom() == set!["command"@, "args"@, "env"@]
    &&& json_text(json_members(e)["command"@]) == Some(SERVER_COMMAND@)
    &&& json_items(json_members(e)["args"@]) == Some(Seq::<serde_json::Value>::empty())
    &&& json_is_object(json_members(e)["env"@])
    &&& json_members(json_members(e)["env"@]).dom() == Set::<Seq<char>>::empty()
}

/// The server registrations of `doc` before the change (none if it has no server map).
pub open spec fn servers_of(doc: serde_json::Value) -> Map<Seq<char>, serde_json::Value> {
    match member(doc, SERVERS_MEMBER@) {
        Some(s) => json_members(s),
        None => Map::empty(),
    }
}

/// `after` is `before` with the registration inserted: every other top-level
/// member and every other server entry is kept as it was.
pub open spec fn registered(before: serde_json::Value, after: serde_json::Value) -> bool {
    let s = json_members(after)[SERVERS_MEMBER@];
    let e = json_members(s)[SERVER_KEY@];
    &&& json_is_object(after)
    &&& json_members(after) == json_members(before).insert(SERVERS_MEMBER@, s)
    &&& json_is_object(s)
    &&& json_members(s) == servers_of(before).insert(SERVER_KEY@, e)
    &&& is_registration(e)
}

fn registration_entry() -> (r: serde_json::Value)
    ensures
        is_registration(r),
{
    proof {
        reveal_strlit("command");
        reveal_strlit("args");
        reveal_strlit("env");
    }
    let mut e = json_object();
    let c = json_string(SERVER_COMMAND);
    let a = json_empty_array();
    let v = json_object();
    let ghost (gc, ga, gv) = (c, a, v);
    json_set(&mut e, "command", c);
    json_set(&mut e, "args", a);
    json_set(&mut e, "env", v);
    assert("command"@.len() == 7 && "args"@.len() == 4 && "env"@.len() == 3);
    assert("command"@ != "args"@);
    assert("command"@ != "env"@);
    assert("args"@ != "env"@);
    assert(json_members(e)["command"@] == gc);
    assert(json_members(e)["args"@] == ga);
    assert(json_members(e)["env"@] == gv);
    assert(json_members(e).dom() =~= set!["command"@, "args"@, "env"@]);
    e
}

fn text_equals(a: &str, b: &str) -> (r: bool)
    ensures
        r == (a@ == b@),
{
    a.to_owned() == b.to_owned()
}

/// Whether the server map `servers` registers the server with the expected command.
fn entry_current(servers: &serde_json::Value) -> (r: bool)
    ensures
        r == match member(*servers, SERVER_KEY@) {
            Some(e) => match member(e, "command"@) {
                Some(c) => json_text(c) == Some(SERVER_COMMAND@),
                None => false,
            },
            None => false,
        },
{
    match json_get(servers, SERVER_KEY) {
        None => false,
        Some(e) => match json_get(e, "command") {
            None => false,
            Some(c) => match json_as_str(c) {
                None => false,
                Some(t) => text_equals(t, SERVER_COMMAND),
            },
        },
    }
}

/// Registers the server in `doc`, keeping every other member. A document that
/// is not an object, or whose server map is not an object, is refused and left
/// as it is; a current registration is left as it is. Returns whether the
/// document changed.
pub fn register_server(doc: &mut serde_json::Value) -> (r: Result<bool, DistributeError>)
    ensures
        !json_is_object(*old(doc)) ==> r == Err::<bool, DistributeError>(DistributeError::DocumentNotObject),
        json_is_object(*old(doc)) && registration_current(*old(doc)) ==> r == Ok::<bool, DistributeError>(false),
        json_is_object(*old(doc)) && !registration_current(*old(doc)) && (member(*old(doc), SERVERS_MEMBER@) matches Some(s) && !json_is_object(s))
            ==> r == Err::<bool, DistributeError>(DistributeError::ServersNotObject),
        json_is_object(*old(doc)) && !registration_current(*old(doc)) && !(member(*old(doc), SERVERS_MEMBER@) matches Some(s) && !json_is_object(s))
            ==> r == Ok::<bool, DistributeError>(true) && registered(*old(doc), *final(doc)),
        r != Ok::<bool, DistributeError>(true) ==> *final(doc) == *old(doc),
{
    if !json_object_check(doc) {
        return Err(DistributeError::DocumentNotObject);
    }
    let mut servers = match json_get(doc, SERVERS_MEMBER) {
        Some(s) => {
            if entry_current(s) {
                return Ok(false);
            }
            if !json_object_check(s) {
                return Err(DistributeError::ServersNotObject);
            }
            json_copy(s)
        },
        None => json_object(),
    };
    let ghost before = *doc;
    let entry = registration_entry();
    let ghost e = entry;
    json_set(&mut servers, SERVER_KEY, entry);
    let ghost s = servers;
    assert(json_members(s) =~= servers_of(before).insert(SERVER_KEY@, e));
    json_set(doc, SERVERS_MEMBER, servers);
    assert(is_registration(e));
    Ok(true)
}

/// Idempotence for an mcp target: a document into which the server was just
/// registered already holds a current registration, so a second run changes
/// nothing.
pub proof fn lemma_registration_settles(before: serde_json::Value, after: serde_json::Value)
    requires
        registered(before, after),
    ensures
        registration_current(after),
        json_is_object(after),
{
    reveal_strlit("command");
    reveal_strlit("args");
    reveal_strlit("env");
    let s = json_members(after)[SERVERS_MEMBER@];
    let e = json_members(s)[SERVER_KEY@];
    assert(json_members(after).contains_key(SERVERS_MEMBER@));
    assert(json_members(s).contains_key(SERVER_KEY@));
    assert(json_members(e).dom().contains("command"@));
}

/// Foreign data survives: registering changes no top-level member but the
/// server map, and no server entry but this tool's own.
pub proof fn lemma_registration_keeps_others(before: serde_json::Value, after: serde_json::Value, key: Seq<char>)
    requires
        json_is_object(before),
        registered(before, after),
    ensures
        key != SERVERS_MEMBER@ ==> member(after, key) == member(before, key),
        key != SERVER_KEY@ && servers_of(before).contains_key(key) ==> member(
            json_members(after)[SERVERS_MEMBER@],
            key,
        ) == Some(servers_of(before)[key]),
{
}

/// The counters of a target that did nothing.
fn idle_result(target_name: &str) -> (r: DistributeResult)
    ensures
        r.linked == 0 && r.unchanged == 0 && r.skipped == 0,
        r.target_name@ == target_name@,
{
    DistributeResult { linked: 0, unchanged: 0, skipped: 0, target_name: target_name.to_owned() }
}

/// A document without members.
pub open spec fn empty_document(d: serde_json::Value) -> bool {
    json_is_object(d) && json_members(d).dom() == Set::<Seq<char>>::empty()
}

/// `text` is the rendering of `before` with the server registered (see [`registered`]).
pub open spec fn registration_text(before: serde_json::Value, text: Seq<char>) -> bool {
    exists|after: serde_json::Value| #[trigger] registered(before, after) && text == rendered_json(after)
}

/// The outcome for a document that needs the registration: linked, and on a
/// real run the new text for `before` (none on a dry run).
pub open spec fn registration_written(before: serde_json::Value, dry_run: bool, r: Result<DistributePlan, DistributeError>) -> bool {
    &&& r matches Ok(p)
    &&& r->Ok_0.result.linked == 1 && r->Ok_0.result.unchanged == 0
    &&& dry_run ==> r->Ok_0.document is None
    &&& !dry_run ==> (r->Ok_0.document matches Some(t) && registration_text(before, t@))
}

/// What `distribute_mcp` promises when the document's text is `t`.
pub open spec fn mcp_text_outcome(t: Seq<char>, dry_run: bool, r: Result<DistributePlan, DistributeError>) -> bool {
    let d = parsed_json(t);
    if !json_accepts(t) {
        r == Err::<DistributePlan, DistributeError>(DistributeError::InvalidJson)
    } else if !json_is_object(d) {
        r == Err::<DistributePlan, DistributeError>(DistributeError::DocumentNotObject)
    } else if registration_current(d) {
        r matches Ok(p) && p.result.unchanged == 1 && p.result.linked == 0 && p.document is None
    } else if member(d, SERVERS_MEMBER@) matches Some(sv) && !json_is_object(sv) {
        r == Err::<DistributePlan, DistributeError>(DistributeError::ServersNotObject)
    } else {
        registration_written(d, dry_run, r)
    }
}

/// What `distribute_mcp` promises of its result `r` for the document text
/// `existing` (none when the file is absent).
pub open spec fn mcp_distributed(
    target_name: Seq<char>,
    existing: Option<String>,
    dry_run: bool,
    r: Result<DistributePlan, DistributeError>,
) -> bool {
    &&& (r matches Ok(p) ==> p.result.target_name@ == target_name && p.actions@.len() == 0 && p.result.skipped == 0)
    &&& (existing matches Some(t) ==> mcp_text_outcome(t@, dry_run, r))
    &&& (existing is None ==> exists|d: serde_json::Value| empty_document(d) && #[trigger] registration_written(d, dry_run, r))
}

/// Registers the server in an mcp target's document. `existing` is the
/// document's text, none when the file is absent (an empty object is used
/// then). Text that is not JSON, a document that is not an object, or a server
/// map that is not an object is refused. A current registration counts as
/// unchanged and nothing is written; otherwise the new document text is
/// returned for writing, except on a dry run.
pub fn distribute_mcp(target_name: &str, existing: &Option<String>, dry_run: bool) -> (r: Result<DistributePlan, DistributeError>)
    ensures
        mcp_distributed(target_name@, *existing, dry_run, r),
{
    let mut doc = match existing {
        Some(text) => match parse_json(text.as_str()) {
            Ok(v) => v,
            Err(_) => return Err(DistributeError::InvalidJson),
        },
        None => json_object(),
    };
    let ghost d0 = doc;
    proof {
        if existing is None {
            assert(empty_document(d0));
            assert(!registration_current(doc)) by {
                assert(!json_members(doc).contains_key(SERVERS_MEMBER@));
            }
        }
    }
    let changed = register_server(&mut doc)?;
    let mut result = idle_result(target_name);
    if !changed {
        result.unchanged = 1;
        return Ok(DistributePlan { result, actions: Vec::new(), document: None });
    }
    result.linked = 1;
    let document = if dry_run {
        None
    } else {
        match render_json(&doc) {
            Ok(t) => Some(t),
            Err(_) => None,
        }
    };
    let r = Ok(DistributePlan { result, actions: Vec::new(), document });
    proof {
        if !dry_run {
            assert(registered(d0, doc) && document->Some_0@ == rendered_json(doc));
            assert(registration_text(d0, document->Some_0@));
        }
        assert(registration_written(d0, dry_run, r));
    }
    r
}

fn mirror_wanted(library_dir: &str, entries: &Vec<String>) -> (r: Vec<WantedLink>)
    ensures
        wanted_view(r@) == mirror_links(library_dir@, entries@),
{
    let mut v: Vec<WantedLink> = Vec::new();
    let mut i: usize = 0;
    while i < entries.len()
        invariant
            i <= entries@.len(),
            wanted_view(v@) =~= mirror_links(library_dir@, entries@).subrange(0, i as int),
        decreases entries@.len() - i,
    {
        let name = &entries[i];
        let ghost before = wanted_view(v@);
        let target = join_path(library_dir, name.as_str());
        v.push(WantedLink { name: name.clone(), target });
        assert(wanted_view(v@) =~= before.push((name@, join(library_dir@, name@))));
        assert(mirror_links(library_dir@, entries@).subrange(0, i as int + 1) =~= mirror_links(library_dir@, entries@).subrange(0, i as int).push((name@, join(library_dir@, name@))));
        i = i + 1;
    }
    v
}

/// What `distribute_symlinks` promises of its plan `r`.
pub open spec fn mirrored(
    library_dir: Seq<char>,
    skills_dir: Seq<char>,
    entries: Seq<String>,
    slots: Seq<LinkSlot>,
    dry_run: bool,
    r: DistributePlan,
) -> bool {
    let os = outcomes_of(skills_dir, mirror_links(library_dir, entries), slots_view(slots));
    &&& r.result.linked == count_of(os, Outcome::Created) + count_of(os, Outcome::Updated)
    &&& r.result.unchanged == count_of(os, Outcome::Unchanged)
    &&& r.result.skipped == count_of(os, Outcome::Skipped)
    &&& r.document is None
    &&& dry_run ==> r.actions@.len() == 0
    &&& !dry_run ==> changes_view(r.actions@) == planned_changes(skills_dir, true, mirror_links(library_dir, entries), slots_view(slots))
}

/// Mirrors the library into a symlink target: for each library entry `name`,
/// `skills_dir/name` should be a symlink to `library_dir/name`. The same rule
/// as the library's applies: equivalent links are unchanged, stale ones
/// replaced, non-symlinks skipped and never touched, free names linked. A real
/// run first ensures `skills_dir` exists.
pub fn distribute_symlinks(
    library_dir: &str,
    target_name: &str,
    skills_dir: &str,
    entries: &Vec<String>,
    slots: &Vec<LinkSlot>,
    dry_run: bool,
) -> (r: DistributePlan)
    requires
        entries@.len() == slots@.len(),
    ensures
        mirrored(library_dir@, skills_dir@, entries@, slots@, dry_run, r),
        r.result.target_name@ == target_name@,
{
    let wanted = mirror_wanted(library_dir, entries);
    let plan = plan_links(skills_dir, true, &wanted, slots, dry_run);
    let result = DistributeResult {
        linked: count_changed(&plan.outcomes),
        unchanged: count_outcome(&plan.outcomes, Outcome::Unchanged),
        skipped: count_outcome(&plan.outcomes, Outcome::Skipped),
        target_name: target_name.to_owned(),
    };
    DistributePlan { result, actions: plan.actions, document: None }
}

/// Whether an observation is of the kind a target's method needs.
pub open spec fn observation_fits(target: TargetConfig, observed: TargetObservation) -> bool {
    match target.method {
        TargetMethod::Symlink { .. } => observed matches TargetObservation::Links { library_entries, slots }
            && library_entries@.len() == slots@.len(),
        TargetMethod::Mcp { .. } => observed is Document,
    }
}

/// Distributes the library to one target. A disabled target is a no-op with
/// zero counters; an enabled one is mirrored with symlinks or gets the server
/// registration, according to its method.
pub fn distribute_to_target(
    library_dir: &str,
    target_name: &str,
    target: &TargetConfig,
    observed: &TargetObservation,
    dry_run: bool,
) -> (r: Result<DistributePlan, DistributeError>)
    requires
        target.enabled ==> observation_fits(*target, *observed),
    ensures
        !target.enabled ==> (r matches Ok(p) && p.result.linked == 0 && p.result.unchanged == 0 && p.result.skipped == 0
            && p.actions@.len() == 0 && p.document is None),
        r matches Ok(p) ==> p.result.target_name@ == target_name@,
        target.enabled ==> match (target.method, *observed) {
            (TargetMethod::Symlink { skills_dir }, TargetObservation::Links { library_entries, slots }) =>
                (r matches Ok(p) && mirrored(library_dir@, skills_dir@, library_entries@, slots@, dry_run, p)),
            (TargetMethod::Mcp { .. }, TargetObservation::Document { text }) => mcp_distributed(target_name@, text, dry_run, r),
            _ => true,
        },
{
    if !target.enabled {
        return Ok(DistributePlan { result: idle_result(target_name), actions: Vec::new(), document: None });
    }
    match (&target.method, observed) {
        (TargetMethod::Symlink { skills_dir }, TargetObservation::Links { library_entries, slots }) => {
            Ok(distribute_symlinks(library_dir, target_name, skills_dir.as_str(), library_entries, slots, dry_run))
        },
        (TargetMethod::Mcp { .. }, TargetObservation::Document { text }) => distribute_mcp(target_name, text, dry_run),
        _ => Ok(DistributePlan { result: idle_result(target_name), actions: Vec::new(), document: None }),
    }
}

impl DistributeResult {
    /// The report line: "NAME: L linked, U unchanged", with a note on skipped
    /// names when there are any.
    pub fn summary(&self) -> (r: String)
        ensures
            r@ == self.target_name@ + ": "@ + decimal(self.linked as nat) + " linked, "@ + decimal(self.unchanged as nat)
                + " unchanged"@ + skipped_note(self.skipped as nat),
    {
        let mut s = concat2(self.target_name.as_str(), ": ");
        s.append(decimal_text(self.linked).as_str());
        s.append(" linked, ");
        s.append(decimal_text(self.unchanged).as_str());
        s.append(" unchanged");
        s.append(skipped_text(self.skipped).as_str());
        s
    }
}

/// Idempotence of symlink distribution: with an absolute library path, once a
/// real run has applied its changes, a second run over the same library
/// entries links nothing.
pub proof fn lemma_mirror_idempotent(
    library_dir: Seq<char>,
    skills_dir: Seq<char>,
    entries: Seq<String>,
    first: Seq<SlotView>,
    second: Seq<SlotView>,
)
    requires
        is_abs(library_dir),
        entries.len() == first.len(),
        entries.len() == second.len(),
        forall|i: int| 0 <= i < entries.len() ==> settled(
            join(skills_dir, (#[trigger] entries[i])@),
            join(library_dir, entries[i]@),
            first[i],
            second[i],
        ),
    ensures
        count_of(outcomes_of(skills_dir, mirror_links(library_dir, entries), second), Outcome::Created) == 0,
        count_of(outcomes_of(skills_dir, mirror_links(library_dir, entries), second), Outcome::Updated) == 0,
        link_changes(skills_dir, mirror_links(library_dir, entries), second, entries.len() as int).len() == 0,
        (forall|i: int| 0 <= i < entries.len() ==> first[i].state !is Occupied) ==> count_of(
            outcomes_of(skills_dir, mirror_links(library_dir, entries), second),
            Outcome::Unchanged,
        ) == entries.len(),
{
    let links = mirror_links(library_dir, entries);
    assert forall|i: int| 0 <= i < links.len() implies is_abs(#[trigger] links[i].1) by {
        assert(links[i].1 == join(library_dir, entries[i]@));
        assert(library_dir[0] == '/');
    }
    assert forall|i: int| 0 <= i < links.len() implies settled(join(skills_dir, links[i].0), links[i].1, #[trigger] first[i], second[i]) by {
        assert(links[i] == (entries[i]@, join(library_dir, entries[i]@)));
    }
    lemma_rerun_unchanged(skills_dir, links, first, second);
}

} // verus!
