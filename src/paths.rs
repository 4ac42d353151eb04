//! Path equivalence: resolving a symlink's raw target and deciding whether two
//! paths denote the same filesystem object.
//!
//! Paths are strings with POSIX separators. Two paths are compared by their
//! components: repeated separators, a trailing separator and `.` segments do
//! not count, and `..` is kept as written. This is how `std::path::Path`
//! compares them, except that `Path` keeps a leading `.` of a relative path
//! (`./a` and `a` differ there, and are the same here).
use vstd::prelude::*;

verus! {

/// A path is absolute when it starts at the root.
pub open spec fn is_abs(p: Seq<char>) -> bool {
    p.len() > 0 && p[0] == '/'
}

/// A segment between separators that names something (not empty, not `.`).
pub open spec fn is_named(seg: Seq<char>) -> bool {
    seg.len() > 0 && seg != seq!['.']
}

pub open spec fn add_segment(acc: Seq<Seq<char>>, seg: Seq<char>) -> Seq<Seq<char>> {
    if is_named(seg) {
        acc.push(seg)
    } else {
        acc
    }
}

/// Splits `s` at separators from position `i` on, where the current segment
/// began at `start` and `acc` holds the segments already closed.
pub open spec fn split_from(s: Seq<char>, start: int, i: int, acc: Seq<Seq<char>>) -> Seq<
    Seq<char>,
>
    decreases s.len() - i,
{
    if i >= s.len() {
        add_segment(acc, s.subrange(start, s.len() as int))
    } else if s[i] == '/' {
        split_from(s, i + 1, i + 1, add_segment(acc, s.subrange(start, i)))
    } else {
        split_from(s, start, i + 1, acc)
    }
}

/// The named components of a path, in order.
pub open spec fn components(p: Seq<char>) -> Seq<Seq<char>> {
    split_from(p, 0, 0, Seq::empty())
}

/// Components joined with single separators.
pub open spec fn join_segments(cs: Seq<Seq<char>>) -> Seq<char>
    decreases cs.len(),
{
    if cs.len() == 0 {
        Seq::empty()
    } else if cs.len() == 1 {
        cs[0]
    } else {
        join_segments(cs.drop_last()) + seq!['/'] + cs.last()
    }
}

/// The text of a path made of a root (or not) and components.
pub open spec fn render(abs: bool, cs: Seq<Seq<char>>) -> Seq<char> {
    if abs {
        seq!['/'] + join_segments(cs)
    } else {
        join_segments(cs)
    }
}

/// Two paths are the same when both or neither are absolute and their components agree.
pub open spec fn same_path(a: Seq<char>, b: Seq<char>) -> bool {
    is_abs(a) == is_abs(b) && components(a) == components(b)
}

/// `p` lies at or below `base`: the components of `base` begin those of `p`.
pub open spec fn path_starts_with(p: Seq<char>, base: Seq<char>) -> bool {
    &&& is_abs(p) == is_abs(base)
    &&& components(base).len() <= components(p).len()
    &&& components(p).subrange(0, components(base).len() as int) == components(base)
}

/// The path without its last component; none for a root or an empty path.
pub open spec fn parent(p: Seq<char>) -> Option<Seq<char>> {
    if components(p).len() == 0 {
        None
    } else {
        Some(render(is_abs(p), components(p).drop_last()))
    }
}

/// `rel` appended to `base`, with a separator between them where needed; an
/// absolute `rel` replaces `base`.
pub open spec fn join(base: Seq<char>, rel: Seq<char>) -> Seq<char> {
    if is_abs(rel) {
        rel
    } else if base.len() == 0 || base.last() == '/' {
        base + rel
    } else {
        base + seq!['/'] + rel
    }
}

/// Where a symlink at `link` with raw target `raw` leads, before any
/// canonicalization: relative targets count from the link's directory.
pub open spec fn resolve_target(link: Seq<char>, raw: Seq<char>) -> Seq<char> {
    if is_abs(raw) {
        raw
    } else {
        match parent(link) {
            Some(dir) => join(dir, raw),
            None => join(link, raw),
        }
    }
}

pub open spec fn texts(v: Seq<String>) -> Seq<Seq<char>> {
    v.map_values(|s: String| s@)
}

/// Whether `p` starts at the root.
pub fn is_absolute(p: &str) -> (r: bool)
    ensures
        r == is_abs(p@),
{
    p.unicode_len() > 0 && p.get_char(0) == '/'
}

/// Splits a path into its named components.
pub fn path_components(p: &str) -> (r: Vec<String>)
    ensures
        texts(r@) == components(p@),
{
    let n = p.unicode_len();
    let mut acc: Vec<String> = Vec::new();
    let mut start: usize = 0;
    let mut i: usize = 0;
    assert(texts(acc@) =~= Seq::<Seq<char>>::empty());
    while i < n
        invariant
            n == p@.len(),
            start <= i <= n,
            split_from(p@, start as int, i as int, texts(acc@)) == components(p@),
        decreases n - i,
    {
        if p.get_char(i) == '/' {
            let seg = p.substring_char(start, i);
            let named = i - start > 1 || (i - start == 1 && seg.get_char(0) != '.');
            proof {
                assert(named == is_named(seg@)) by {
                    if seg@.len() == 1 && seg@[0] == '.' {
                        assert(seg@ =~= seq!['.']);
                    }
                }
            }
            if named {
                let ghost before = texts(acc@);
                acc.push(seg.to_owned());
                assert(texts(acc@) =~= before.push(seg@));
            }
            start = i + 1;
        }
        i = i + 1;
    }
    let seg = p.substring_char(start, n);
    let named = n - start > 1 || (n - start == 1 && seg.get_char(0) != '.');
    proof {
        assert(named == is_named(seg@)) by {
            if seg@.len() == 1 && seg@[0] == '.' {
                assert(seg@ =~= seq!['.']);
            }
        }
    }
    if named {
        let ghost before = texts(acc@);
        acc.push(seg.to_owned());
        assert(texts(acc@) =~= before.push(seg@));
    }
    acc
}

proof fn lemma_join_segments_step(cs: Seq<Seq<char>>, i: int)
    requires
        0 <= i < cs.len(),
    ensures
        join_segments(cs.subrange(0, i + 1)) == if i == 0 {
            cs[0]
        } else {
            join_segments(cs.subrange(0, i)) + seq!['/'] + cs[i]
        },
{
    assert(cs.subrange(0, i + 1).drop_last() =~= cs.subrange(0, i));
}

/// The text of a path with the given root flag and components.
pub fn render_path(abs: bool, cs: &Vec<String>) -> (r: String)
    ensures
        r@ == render(abs, texts(cs@)),
{
    proof {
        reveal_strlit("/");
    }
    let mut out = if abs {
        String::from_str("/")
    } else {
        String::new()
    };
    let ghost head: Seq<char> = if abs {
        seq!['/']
    } else {
        Seq::empty()
    };
    assert(texts(cs@).subrange(0, 0) =~= Seq::<Seq<char>>::empty());
    let mut i: usize = 0;
    while i < cs.len()
        invariant
            i <= cs@.len(),
            out@ == head + join_segments(texts(cs@).subrange(0, i as int)),
        decreases cs@.len() - i,
    {
        proof {
            lemma_join_segments_step(texts(cs@), i as int);
        }
        proof {
            reveal_strlit("/");
        }
        if i > 0 {
            out.append("/");
        }
        out.append(cs[i].as_str());
        proof {
            let js = join_segments(texts(cs@).subrange(0, i as int));
            assert(texts(cs@)[i as int] == cs@[i as int]@);
            if i > 0 {
                assert(out@ =~= head + (js + seq!['/'] + cs@[i as int]@));
            } else {
                assert(js =~= Seq::<char>::empty());
                assert(out@ =~= head + cs@[i as int]@);
            }
        }
        i = i + 1;
    }
    assert(texts(cs@).subrange(0, cs@.len() as int) =~= texts(cs@));
    assert(render(abs, texts(cs@)) =~= head + join_segments(texts(cs@)));
    out
}

/// Whether two component lists are equal.
fn same_components(a: &Vec<String>, b: &Vec<String>, len: usize) -> (r: bool)
    requires
        len <= a@.len(),
        len <= b@.len(),
    ensures
        r == (texts(a@).subrange(0, len as int) == texts(b@).subrange(0, len as int)),
{
    let mut i: usize = 0;
    while i < len
        invariant
            i <= len <= a@.len(),
            len <= b@.len(),
            forall|j: int| 0 <= j < i ==> #[trigger] a@[j]@ == b@[j]@,
        decreases len - i,
    {
        if a[i] != b[i] {
            assert(texts(a@).subrange(0, len as int)[i as int] != texts(b@).subrange(
                0,
                len as int,
            )[i as int]);
            return false;
        }
        i = i + 1;
    }
    assert(texts(a@).subrange(0, len as int) =~= texts(b@).subrange(0, len as int));
    true
}

/// Whether `a` and `b` name the same path, component by component.
pub fn same_path_text(a: &str, b: &str) -> (r: bool)
    ensures
        r == same_path(a@, b@),
{
    if is_absolute(a) != is_absolute(b) {
        return false;
    }
    let ca = path_components(a);
    let cb = path_components(b);
    if ca.len() != cb.len() {
        assert(texts(ca@).len() != texts(cb@).len());
        return false;
    }
    let r = same_components(&ca, &cb, ca.len());
    assert(texts(ca@).subrange(0, ca@.len() as int) =~= texts(ca@));
    assert(texts(cb@).subrange(0, cb@.len() as int) =~= texts(cb@));
    r
}

/// Whether `p` lies at or below `base`.
pub fn starts_with(p: &str, base: &str) -> (r: bool)
    ensures
        r == path_starts_with(p@, base@),
{
    if is_absolute(p) != is_absolute(base) {
        return false;
    }
    let cp = path_components(p);
    let cb = path_components(base);
    if cb.len() > cp.len() {
        return false;
    }
    let r = same_components(&cp, &cb, cb.len());
    assert(texts(cb@).subrange(0, cb@.len() as int) =~= texts(cb@));
    r
}

/// The path without its last component.
pub fn parent_of(p: &str) -> (r: Option<String>)
    ensures
        r matches Some(d) ==> parent(p@) == Some(d@),
        r is None ==> parent(p@) is None,
{
    let mut cs = path_components(p);
    if cs.len() == 0 {
        return None;
    }
    let ghost before = texts(cs@);
    cs.pop();
    assert(texts(cs@) =~= before.drop_last());
    Some(render_path(is_absolute(p), &cs))
}

/// `rel` appended to `base`; an absolute `rel` replaces `base`.
pub fn join_path(base: &str, rel: &str) -> (r: String)
    ensures
        r@ == join(base@, rel@),
{
    proof {
        reveal_strlit("/");
    }
    if is_absolute(rel) {
        return rel.to_owned();
    }
    let n = base.unicode_len();
    let mut out = base.to_owned();
    if n > 0 && base.get_char(n - 1) != '/' {
        out.append("/");
    }
    out.append(rel);
    out
}

/// Where a symlink at `link_path` whose stored target is `raw_target` leads:
/// an absolute target as it stands, a relative one joined to the link's
/// directory.
pub fn resolve_symlink_target(link_path: &str, raw_target: &str) -> (r: String)
    ensures
        r@ == resolve_target(link_path@, raw_target@),
        is_abs(raw_target@) ==> r@ == raw_target@,
{
    if is_absolute(raw_target) {
        return raw_target.to_owned();
    }
    match parent_of(link_path) {
        Some(dir) => join_path(dir.as_str(), raw_target),
        None => join_path(link_path, raw_target),
    }
}

/// The text of an optional path.
pub open spec fn opt_text(o: Option<String>) -> Option<Seq<char>> {
    match o {
        Some(s) => Some(s@),
        None => None,
    }
}

/// Whether a symlink at `link` with raw target `raw` denotes `expected`.
/// When both the link and `expected` canonicalize, their canonical forms decide;
/// otherwise (a dangling link, a vanished source) the syntactically resolved
/// target is compared with `expected` as written.
pub open spec fn points_to(
    link: Seq<char>,
    raw: Seq<char>,
    link_canonical: Option<Seq<char>>,
    expected: Seq<char>,
    expected_canonical: Option<Seq<char>>,
) -> bool {
    match (link_canonical, expected_canonical) {
        (Some(a), Some(b)) => same_path(a, b),
        _ => same_path(resolve_target(link, raw), expected),
    }
}

/// Decides whether the symlink at `link_path`, stored as `raw_target` and
/// canonicalizing to `link_canonical` (none when it cannot be), denotes
/// `expected`, which canonicalizes to `expected_canonical`.
pub fn symlink_points_to(
    link_path: &str,
    raw_target: &str,
    link_canonical: &Option<String>,
    expected: &str,
    expected_canonical: &Option<String>,
) -> (r: bool)
    ensures
        r == points_to(
            link_path@,
            raw_target@,
            opt_text(*link_canonical),
            expected@,
            opt_text(*expected_canonical),
        ),
{
    match (link_canonical, expected_canonical) {
        (Some(a), Some(b)) => same_path_text(a.as_str(), b.as_str()),
        _ => {
            let resolved = resolve_symlink_target(link_path, raw_target);
            same_path_text(resolved.as_str(), expected)
        },
    }
}

/// Joining a relative path onto `base` keeps it recoverable: two relative
/// paths joined onto the same base give the same text only if they are equal.
pub proof fn lemma_join_injective(base: Seq<char>, a: Seq<char>, b: Seq<char>)
    requires
        !is_abs(a),
        !is_abs(b),
        join(base, a) == join(base, b),
    ensures
        a == b,
{
    let head = if base.len() == 0 || base.last() == '/' {
        base
    } else {
        base + seq!['/']
    };
    assert(join(base, a) =~= head + a);
    assert(join(base, b) =~= head + b);
    assert(a =~= (head + a).subrange(head.len() as int, (head + a).len() as int));
    assert(b =~= (head + b).subrange(head.len() as int, (head + b).len() as int));
}

/// Joining a non-empty relative path onto `base` gives a longer path.
pub proof fn lemma_join_longer(base: Seq<char>, a: Seq<char>)
    requires
        !is_abs(a),
        a.len() > 0,
    ensures
        join(base, a).len() > base.len(),
{
}

} // verus!
