//! Setup helpers that involve no prompting: the well-known source locations
//! and the check that no source is also a symlink target.
use vstd::prelude::*;
use crate::config::{configured, named_view, Source, SourceType, TargetConfig, TargetKey, TargetMethod, Targets};
use crate::paths::{join, join_path, same_path, same_path_text};

verus! {

/// A known place (relative to the home directory) where skills are kept.
pub open spec fn known_sources(home: Seq<char>) -> Seq<(Seq<char>, Seq<char>, SourceType)> {
    seq![
        ("codex-skills"@, join(home, ".codex/skills"@), SourceType::Directory),
        ("antigravity-skills"@, join(home, ".gemini/antigravity/skills"@), SourceType::Directory),
    ]
}

pub open spec fn source_view(s: Source) -> (Seq<char>, Seq<char>, SourceType) {
    (s.name@, s.path@, s.source_type)
}

fn known(home: &str, name: &str, rel: &str, source_type: SourceType) -> (r: Source)
    ensures
        source_view(r) == (name@, join(home@, rel@), source_type),
{
    Source { name: name.to_owned(), path: join_path(home, rel), source_type }
}

/// The well-known source locations under `home`, to be offered when they
/// exist as directories.
pub fn known_source_candidates(home: &str) -> (r: Vec<Source>)
    ensures
        r@.map_values(|s: Source| source_view(s)) == known_sources(home@),
{
    let mut v: Vec<Source> = Vec::new();
    v.push(known(home, "codex-skills", ".codex/skills", SourceType::Directory));
    v.push(known(home, "antigravity-skills", ".gemini/antigravity/skills", SourceType::Directory));
    assert(v@.map_values(|s: Source| source_view(s)) =~= known_sources(home@));
    v
}

/// The canonical form recorded for `p` (the first entry whose path is `p`).
pub open spec fn canonical_in(table: Seq<(String, String)>, p: Seq<char>, n: int) -> Option<Seq<char>>
    decreases n,
{
    if n <= 0 {
        None
    } else if table[n - 1].0@ == p && canonical_in(table, p, n - 1) is None {
        Some(table[n - 1].1@)
    } else {
        canonical_in(table, p, n - 1)
    }
}

pub open spec fn canonical_of(table: Seq<(String, String)>, p: Seq<char>) -> Option<Seq<char>> {
    canonical_in(table, p, table.len() as int)
}

/// Whether two paths are the same location: by canonical form when both have
/// one, else as written.
pub open spec fn same_location(table: Seq<(String, String)>, a: Seq<char>, b: Seq<char>) -> bool {
    match (canonical_of(table, a), canonical_of(table, b)) {
        (Some(x), Some(y)) => x == y,
        _ => same_path(a, b),
    }
}

/// The skills directories of the symlink targets among the first `n`.
pub open spec fn symlink_dirs(ts: Seq<(TargetKey, TargetConfig)>, n: int) -> Seq<Seq<char>>
    decreases n,
{
    if n <= 0 {
        Seq::empty()
    } else {
        symlink_dirs(ts, n - 1) + match ts[n - 1].1.method {
            TargetMethod::Symlink { skills_dir } => seq![skills_dir@],
            TargetMethod::Mcp { .. } => Seq::empty(),
        }
    }
}

/// The (name, path) of the sources among the first `n` that overlap one of `dirs`.
pub open spec fn overlapping(sources: Seq<Source>, table: Seq<(String, String)>, dirs: Seq<Seq<char>>, n: int) -> Seq<(Seq<char>, Seq<char>)>
    decreases n,
{
    if n <= 0 {
        Seq::empty()
    } else {
        overlapping(sources, table, dirs, n - 1) + if matches_any(table, sources[n - 1].path@, dirs) {
            seq![(sources[n - 1].name@, sources[n - 1].path@)]
        } else {
            Seq::empty()
        }
    }
}

fn lookup(table: &Vec<(String, String)>, p: &str) -> (r: Option<String>)
    ensures
        r matches Some(c) ==> canonical_of(table@, p@) == Some(c@),
        r is None ==> canonical_of(table@, p@) is None,
{
    let key = p.to_owned();
    let mut i: usize = 0;
    let mut found: Option<String> = None;
    while i < table.len()
        invariant
            i <= table@.len(),
            key@ == p@,
            found matches Some(c) ==> canonical_in(table@, p@, i as int) == Some(c@),
            found is None ==> canonical_in(table@, p@, i as int) is None,
        decreases table@.len() - i,
    {
        if found.is_none() && table[i].0 == key {
            found = Some(table[i].1.clone());
        }
        i = i + 1;
    }
    found
}

fn same_location_exec(table: &Vec<(String, String)>, a: &str, b: &str) -> (r: bool)
    ensures
        r == same_location(table@, a@, b@),
{
    match (lookup(table, a), lookup(table, b)) {
        (Some(x), Some(y)) => x == y,
        _ => same_path_text(a, b),
    }
}

/// Whether `p` is the same location as one of `dirs`.
pub open spec fn matches_any(table: Seq<(String, String)>, p: Seq<char>, dirs: Seq<Seq<char>>) -> bool {
    exists|i: int| 0 <= i < dirs.len() && same_location(table, p, #[trigger] dirs[i])
}

/// The sources whose path is also the skills directory of a symlink target,
/// as (source name, source path), in source order. `canonical` gives the
/// canonical form of each path that has one; a path without one is compared
/// as written. Mcp targets are not compared: their path is a JSON document,
/// not a skills directory.
pub fn find_source_target_overlaps(
    sources: &Vec<Source>,
    targets: &Targets,
    canonical: &Vec<(String, String)>,
) -> (r: Vec<(String, String)>)
    ensures
        r@.map_values(|p: (String, String)| (p.0@, p.1@)) == overlapping(
            sources@,
            canonical@,
            symlink_dirs(configured(*targets), configured(*targets).len() as int),
            sources@.len() as int,
        ),
{
    let all = targets.iter();
    let ghost ts = named_view(all@);
    let mut dirs: Vec<&str> = Vec::new();
    let mut k: usize = 0;
    assert(dirs@.map_values(|d: &str| d@) =~= Seq::<Seq<char>>::empty());
    while k < all.len()
        invariant
            k <= all@.len(),
            ts == named_view(all@),
            dirs@.map_values(|d: &str| d@) == symlink_dirs(ts, k as int),
        decreases all@.len() - k,
    {
        let ghost before = dirs@.map_values(|d: &str| d@);
        let (_, t) = all[k];
        assert(ts[k as int].1 == *t);
        if let Some(d) = t.skills_dir() {
            dirs.push(d);
            assert(dirs@.map_values(|d: &str| d@) =~= before.push(d@));
        }
        assert(dirs@.map_values(|d: &str| d@) =~= symlink_dirs(ts, k as int + 1));
        k = k + 1;
    }
    let ghost tdirs = symlink_dirs(configured(*targets), configured(*targets).len() as int);
    assert(dirs@.map_values(|d: &str| d@) == tdirs);
    let mut out: Vec<(String, String)> = Vec::new();
    let mut i: usize = 0;
    assert(out@.map_values(|p: (String, String)| (p.0@, p.1@)) =~= Seq::<(Seq<char>, Seq<char>)>::empty());
    while i < sources.len()
        invariant
            i <= sources@.len(),
            dirs@.map_values(|d: &str| d@) == tdirs,
            out@.map_values(|p: (String, String)| (p.0@, p.1@)) == overlapping(sources@, canonical@, tdirs, i as int),
        decreases sources@.len() - i,
    {
        let s = &sources[i];
        let mut hit = false;
        let mut j: usize = 0;
        while j < dirs.len()
            invariant
                j <= dirs@.len(),
                dirs@.map_values(|d: &str| d@) == tdirs,
                hit == exists|m: int| 0 <= m < j && same_location(canonical@, s.path@, #[trigger] tdirs[m]),
            decreases dirs@.len() - j,
        {
            assert(tdirs[j as int] == dirs@[j as int]@);
            if same_location_exec(canonical, s.path.as_str(), dirs[j]) {
                hit = true;
            }
            j = j + 1;
        }
        let ghost before = out@.map_values(|p: (String, String)| (p.0@, p.1@));
        if hit {
            out.push((s.name.clone(), s.path.clone()));
            assert(out@.map_values(|p: (String, String)| (p.0@, p.1@)) =~= before.push((s.name@, s.path@)));
        }
        assert(out@.map_values(|p: (String, String)| (p.0@, p.1@)) =~= overlapping(sources@, canonical@, tdirs, i as int + 1));
        i = i + 1;
    }
    out
}

} // verus!
