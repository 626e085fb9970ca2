//! Paths as text: components, joining, parents and containment.
//!
//! A path is made of components between slashes. Empty components and `.`
//! count for nothing, except that a `.` at the very beginning is a component.

use vstd::prelude::*;
use crate::text::{chars_of, ends_with, opt_text, starts_with, str_eq, string_of};

verus! {

/// Whether the path begins at the root.
pub open spec fn absolute(p: Seq<char>) -> bool {
    p.len() > 0 && p[0] == '/'
}

/// The characters from `i` to `j` are a component of `p`.
pub open spec fn is_component(p: Seq<char>, i: int, j: int) -> bool {
    &&& 0 <= i < j <= p.len()
    &&& i == 0 || p[i - 1] == '/'
    &&& j == p.len() || p[j] == '/'
    &&& forall|k: int| i <= k < j ==> p[k] != '/'
    &&& p.subrange(i, j) != seq!['.'] || i == 0
}

/// The characters from `i` to `j` are the last component of `p` that ends at
/// or before `end`.
pub open spec fn is_last_component(p: Seq<char>, end: int, i: int, j: int) -> bool {
    &&& is_component(p, i, j)
    &&& j <= end
    &&& forall|a: int, b: int| #[trigger] is_component(p, a, b) && b <= end ==> a <= i
}

/// `p` has no component that ends at or before `end`.
pub open spec fn no_component(p: Seq<char>, end: int) -> bool {
    forall|a: int, b: int| #[trigger] is_component(p, a, b) ==> b > end
}

/// Whether the path begins at the root.
pub fn is_absolute(p: &str) -> (r: bool)
    ensures
        r == absolute(p@),
{
    let cs = chars_of(p);
    cs.len() > 0 && cs[0] == '/'
}

/// Two components that begin at the same place are the same.
proof fn lemma_component_end(p: Seq<char>, i: int, j: int, k: int)
    requires
        is_component(p, i, j),
        is_component(p, i, k),
    ensures
        j == k,
{
    if j < k {
        assert(p[j] == '/');
    } else if k < j {
        assert(p[k] == '/');
    }
}

/// The last component that ends at or before `end`, as its two bounds. `end`
/// is the length of the path or the place of a slash.
fn last_component(cs: &Vec<char>, end: usize) -> (r: Option<(usize, usize)>)
    requires
        end <= cs@.len(),
        end == cs@.len() || cs@[end as int] == '/',
    ensures
        match r {
            Some((i, j)) => is_last_component(cs@, end as int, i as int, j as int),
            None => no_component(cs@, end as int),
        },
{
    let ghost p = cs@;
    let mut e: usize = end;
    loop
        invariant
            p == cs@,
            e <= end <= p.len(),
            e == p.len() || p[e as int] == '/',
            forall|a: int, b: int| #[trigger] is_component(p, a, b) && b <= end ==> b <= e,
        decreases e,
    {
        if e == 0 {
            return None;
        }
        if cs[e - 1] == '/' {
            assert forall|a: int, b: int| #[trigger] is_component(p, a, b) && b <= end implies b <= e
                - 1 by {
                if b == e {
                    assert(p[e - 1] != '/');
                }
            }
            e = e - 1;
            continue;
        }
        let mut i: usize = e - 1;
        while i > 0 && cs[i - 1] != '/'
            invariant
                p == cs@,
                i < e <= p.len(),
                forall|k: int| i <= k < e ==> p[k] != '/',
            decreases i,
        {
            i = i - 1;
        }
        // Every component ends at `e`, where it is this one, or before `i`.
        assert forall|a: int, b: int| #[trigger] is_component(p, a, b) && b <= e implies a == i && b
            == e || b <= i by {
            if b > i && a < i {
                assert(p[i - 1] != '/');
            }
            if b > i && a > i {
                assert(p[a - 1] != '/');
            }
            if a == i && b < e {
                assert(p[b] != '/');
            }
        }
        if i != 0 && e - i == 1 && cs[i] == '.' {
            assert(p.subrange(i as int, e as int) =~= seq!['.']);
            assert forall|a: int, b: int| #[trigger] is_component(p, a, b) && b <= end implies b
                <= i - 1 by {
                if b == i {
                    assert(p[i - 1] != '/');
                }
            }
            e = i - 1;
        } else {
            assert(p.subrange(i as int, e as int) != seq!['.'] || i == 0) by {
                if i != 0 && p.subrange(i as int, e as int) == seq!['.'] {
                    assert(p.subrange(i as int, e as int).len() == 1);
                    assert(p.subrange(i as int, e as int)[0] == p[i as int]);
                }
            }
            return Some((i, e));
        }
    }
}

/// `t` is the name of the file at `p`: the last component, where it is not a
/// step within the tree.
pub open spec fn is_file_name(p: Seq<char>, t: Seq<char>) -> bool {
    exists|i: int, j: int| #[trigger]
        is_last_component(p, p.len() as int, i, j) && t == p.subrange(i, j) && t != seq!['.'] && t
            != seq!['.', '.']
}

/// The name of the file at `p`, if the path ends in one.
pub fn file_name(p: &str) -> (r: Option<String>)
    ensures
        match r {
            Some(t) => is_file_name(p@, t@),
            None => forall|t: Seq<char>| !is_file_name(p@, t),
        },
        opt_text(r) == file_name_of(p@),
{
    let r = find_file_name(p);
    proof {
        match &r {
            Some(t) => {
                let u = choose|u: Seq<char>| is_file_name(p@, u);
                lemma_file_name_unique(p@, t@, u);
            },
            None => {},
        }
    }
    r
}

fn find_file_name(p: &str) -> (r: Option<String>)
    ensures
        match r {
            Some(t) => is_file_name(p@, t@),
            None => forall|t: Seq<char>| !is_file_name(p@, t),
        },
{
    let cs = chars_of(p);
    let n: usize = cs.len();
    match last_component(&cs, n) {
        None => None,
        Some((i, j)) => {
            let part = part_of(&cs, i, j);
            proof {
                assert forall|t: Seq<char>| #[trigger] is_file_name(p@, t) implies t == part@ by {
                    let (a, b) = choose|a: int, b: int| #[trigger]
                        is_last_component(p@, p@.len() as int, a, b) && t == p@.subrange(a, b) && t
                            != seq!['.'] && t != seq!['.', '.'];
                    assert(a == i);
                    lemma_component_end(p@, a, b, j as int);
                }
            }
            if part.len() == 1 && part[0] == '.' {
                assert(part@ =~= seq!['.']);
                None
            } else if part.len() == 2 && part[0] == '.' && part[1] == '.' {
                assert(part@ =~= seq!['.', '.']);
                None
            } else {
                assert(part@ != seq!['.'] && part@ != seq!['.', '.']);
                assert(is_last_component(p@, p@.len() as int, i as int, j as int));
                Some(string_of(part.as_slice()))
            }
        },
    }
}

/// A path has at most one file name.
pub proof fn lemma_file_name_unique(p: Seq<char>, t: Seq<char>, u: Seq<char>)
    requires
        is_file_name(p, t),
        is_file_name(p, u),
    ensures
        t == u,
{
    let n = p.len() as int;
    let (a, b) = choose|a: int, b: int| #[trigger]
        is_last_component(p, n, a, b) && t == p.subrange(a, b) && t != seq!['.'] && t != seq![
            '.',
            '.',
        ];
    let (c, d) = choose|c: int, d: int| #[trigger]
        is_last_component(p, n, c, d) && u == p.subrange(c, d) && u != seq!['.'] && u != seq![
            '.',
            '.',
        ];
    assert(a == c);
    lemma_component_end(p, a, b, d);
}

/// The place behind the last slash of `p`.
spec fn tail_start(p: Seq<char>) -> int
    decreases p.len(),
{
    if p.len() == 0 || p.last() == '/' {
        p.len() as int
    } else {
        tail_start(p.drop_last())
    }
}

proof fn lemma_tail_start(p: Seq<char>)
    ensures
        0 <= tail_start(p) <= p.len(),
        tail_start(p) > 0 ==> p[tail_start(p) - 1] == '/',
        forall|k: int| tail_start(p) <= k < p.len() ==> p[k] != '/',
    decreases p.len(),
{
    if p.len() > 0 && p.last() != '/' {
        let d = p.drop_last();
        lemma_tail_start(d);
        assert forall|k: int| tail_start(p) <= k < p.len() implies p[k] != '/' by {
            if k < d.len() {
                assert(d[k] == p[k]);
            }
        }
    }
}

/// A path with three or more characters at its end that are no slashes has a
/// file name, which ends in them.
pub proof fn lemma_file_name_of_suffixed(p: Seq<char>, x: Seq<char>) -> (t: Seq<char>)
    requires
        x.len() > 2,
        !x.contains('/'),
    ensures
        is_file_name(p + x, t + x),
{
    let n = p.len() as int;
    let q = p + x;
    let m = q.len() as int;
    let i = tail_start(p);
    lemma_tail_start(p);
    let t = p.skip(i);
    assert(q.subrange(i, m) =~= t + x);
    assert forall|k: int| i <= k < m implies q[k] != '/' by {
        if k >= n {
            assert(q[k] == x[k - n]);
            assert(x.contains(x[k - n]));
        }
    }
    assert(i > 0 ==> q[i - 1] == p[i - 1]);
    assert((t + x).len() > 2);
    assert(is_component(q, i, m));
    assert forall|a: int, b: int| #[trigger] is_component(q, a, b) && b <= m implies a <= i by {
        if a > i {
            assert(q[a - 1] == '/');
        }
    }
    assert(is_last_component(q, m, i, m));
    t
}

/// The characters from `i` to `j`.
fn part_of(cs: &Vec<char>, i: usize, j: usize) -> (r: Vec<char>)
    requires
        i <= j <= cs@.len(),
    ensures
        r@ == cs@.subrange(i as int, j as int),
{
    let mut out: Vec<char> = Vec::new();
    let mut k: usize = i;
    while k < j
        invariant
            i <= k <= j <= cs@.len(),
            out@ == cs@.subrange(i as int, k as int),
        decreases j - k,
    {
        out.push(cs[k]);
        k = k + 1;
        assert(out@ =~= cs@.subrange(i as int, k as int));
    }
    out
}

/// `t` is the path of the directory that holds `p`: `p` up to the end of the
/// component before the last one, or the root, or nothing.
pub open spec fn is_parent(p: Seq<char>, t: Seq<char>) -> bool {
    exists|i: int, j: int| #[trigger]
        is_last_component(p, p.len() as int, i, j) && is_prefix_before(p, i, t)
}

/// `t` is `p` up to the end of the last component before place `i`, or the
/// root, or nothing.
pub open spec fn is_prefix_before(p: Seq<char>, i: int, t: Seq<char>) -> bool {
    ||| exists|a: int, b: int| #[trigger] is_last_component(p, i - 1, a, b) && t == p.take(b)
    ||| no_component(p, i - 1) && t == (if absolute(p) {
        seq!['/']
    } else {
        Seq::empty()
    })
}

/// The directory that holds `p`; `None` for the root and for nothing.
pub open spec fn parent_of(p: Seq<char>) -> Option<Seq<char>> {
    if no_component(p, p.len() as int) {
        None
    } else {
        Some(choose|t: Seq<char>| is_parent(p, t))
    }
}

/// A path has at most one parent.
pub proof fn lemma_parent_unique(p: Seq<char>, t: Seq<char>, u: Seq<char>)
    requires
        is_parent(p, t),
        is_parent(p, u),
    ensures
        t == u,
{
    let n = p.len() as int;
    let (i, j) = choose|i: int, j: int| #[trigger]
        is_last_component(p, n, i, j) && is_prefix_before(p, i, t);
    let (k, l) = choose|k: int, l: int| #[trigger]
        is_last_component(p, n, k, l) && is_prefix_before(p, k, u);
    assert(i == k);
    if no_component(p, i - 1) {
        assert forall|a: int, b: int| !(#[trigger] is_last_component(p, i - 1, a, b)) by {}
    } else {
        let (a, b) = choose|a: int, b: int| #[trigger]
            is_last_component(p, i - 1, a, b) && t == p.take(b);
        let (c, d) = choose|c: int, d: int| #[trigger]
            is_last_component(p, i - 1, c, d) && u == p.take(d);
        assert(a == c);
        lemma_component_end(p, a, b, d);
    }
}

/// The name of the file at `p`, if the path ends in one.
pub open spec fn file_name_of(p: Seq<char>) -> Option<Seq<char>> {
    if exists|t: Seq<char>| is_file_name(p, t) {
        Some(choose|t: Seq<char>| is_file_name(p, t))
    } else {
        None
    }
}

/// The directory that holds `p`; `None` for the root and for nothing.
pub fn parent(p: &str) -> (r: Option<String>)
    ensures
        match r {
            Some(t) => is_parent(p@, t@) && t@.len() < p@.len(),
            None => no_component(p@, p@.len() as int),
        },
        opt_text(r) == parent_of(p@),
{
    let r = find_parent(p);
    proof {
        match &r {
            Some(t) => {
                let (i, j) = choose|i: int, j: int| #[trigger]
                    is_last_component(p@, p@.len() as int, i, j) && is_prefix_before(p@, i, t@);
                assert(is_component(p@, i, j));
                assert(!no_component(p@, p@.len() as int));
                let u = choose|u: Seq<char>| is_parent(p@, u);
                lemma_parent_unique(p@, t@, u);
            },
            None => {},
        }
    }
    r
}

fn find_parent(p: &str) -> (r: Option<String>)
    ensures
        match r {
            Some(t) => is_parent(p@, t@) && t@.len() < p@.len(),
            None => no_component(p@, p@.len() as int),
        },
{
    let cs = chars_of(p);
    let n: usize = cs.len();
    match last_component(&cs, n) {
        None => None,
        Some((i, j)) => {
            assert(is_last_component(p@, p@.len() as int, i as int, j as int));
            if i == 0 {
                assert(no_component(p@, -1));
                let out = String::new();
                assert(out@ =~= Seq::<char>::empty());
                return Some(out);
            }
            match last_component(&cs, i - 1) {
                Some((a, b)) => {
                    assert(is_last_component(p@, i - 1, a as int, b as int));
                    let head = part_of(&cs, 0, b);
                    assert(head@ =~= p@.take(b as int));
                    Some(string_of(head.as_slice()))
                },
                None => {
                    let mut out = String::new();
                    if cs[0] == '/' {
                        out.push('/');
                        assert(out@ =~= seq!['/']);
                    } else {
                        assert(out@ =~= Seq::<char>::empty());
                    }
                    Some(out)
                },
            }
        },
    }
}

/// `rel` taken below `base`: an absolute `rel` stands for itself.
pub open spec fn joined_path(base: Seq<char>, rel: Seq<char>) -> Seq<char> {
    if absolute(rel) {
        rel
    } else if base.len() == 0 || base.last() == '/' {
        base + rel
    } else {
        base + "/"@ + rel
    }
}

/// `rel` taken below `base`.
pub fn join(base: &str, rel: &str) -> (r: String)
    ensures
        r@ == joined_path(base@, rel@),
{
    if is_absolute(rel) {
        return rel.to_owned();
    }
    let bs = chars_of(base);
    let mut out = base.to_owned();
    if bs.len() > 0 && bs[bs.len() - 1] != '/' {
        out.append("/");
    }
    out.append(rel);
    out
}

// ─── Names of files ─────────────────────────────────────────────

/// The place of the last point of `t` that is not its first character.
pub open spec fn is_extension_point(t: Seq<char>, d: int) -> bool {
    0 < d < t.len() && t[d] == '.' && forall|k: int| d < k < t.len() ==> t[k] != '.'
}

/// What follows the last point of the file name `t`, unless the name begins
/// with that point.
pub open spec fn extension_of(t: Seq<char>) -> Option<Seq<char>> {
    if exists|d: int| is_extension_point(t, d) {
        let d = choose|d: int| is_extension_point(t, d);
        Some(t.skip(d + 1))
    } else {
        None
    }
}

/// The file name `t` without its extension.
pub open spec fn stem_of(t: Seq<char>) -> Seq<char> {
    if exists|d: int| is_extension_point(t, d) {
        let d = choose|d: int| is_extension_point(t, d);
        t.take(d)
    } else {
        t
    }
}

/// The file name `t` without its extension, and the extension.
pub fn split_extension(t: &str) -> (r: (String, Option<String>))
    ensures
        r.0@ == stem_of(t@),
        match r.1 {
            Some(e) => extension_of(t@) == Some(e@),
            None => extension_of(t@) is None,
        },
{
    let cs = chars_of(t);
    let n: usize = cs.len();
    let mut d: usize = n;
    while d > 1
        invariant
            cs@ == t@,
            n == cs@.len(),
            d <= n,
            forall|k: int| d <= k < n ==> cs@[k] != '.',
        decreases d,
    {
        if cs[d - 1] == '.' {
            let ghost at = d - 1;
            proof {
                assert(is_extension_point(t@, at));
                let c = choose|c: int| is_extension_point(t@, c);
                assert(c == at);
            }
            let stem = part_of(&cs, 0, d - 1);
            let ext = part_of(&cs, d, n);
            assert(stem@ =~= t@.take(at));
            assert(ext@ =~= t@.skip(at + 1));
            return (string_of(stem.as_slice()), Some(string_of(ext.as_slice())));
        }
        d = d - 1;
    }
    assert(!exists|c: int| is_extension_point(t@, c));
    (t.to_owned(), None)
}

// ─── Containment ────────────────────────────────────────────────

/// Every component of the relative path `p` leads downward.
pub open spec fn leads_downward(p: Seq<char>) -> bool {
    &&& !absolute(p)
    &&& forall|i: int, j: int| #[trigger]
        is_component(p, i, j) ==> p.subrange(i, j) != seq!['.'] && p.subrange(i, j) != seq!['.', '.']
}

/// The path of `name` below `base`, for a `name` whose components all lead
/// downward; any other name is refused.
pub fn child(base: &str, name: &str) -> (r: Result<String, String>)
    ensures
        match r {
            Ok(p) => leads_downward(name@) && p@ == joined_path(base@, name@),
            Err(m) => !leads_downward(name@) && m@ == "Invalid path component in '"@ + name@
                + "': path traversal detected"@,
        },
{
    let cs = chars_of(name);
    let n: usize = cs.len();
    let mut bad = is_absolute(name);
    let mut e: usize = n;
    loop
        invariant
            cs@ == name@,
            n == cs@.len(),
            e <= n,
            e == n || cs@[e as int] == '/',
            absolute(name@) ==> bad,
            bad ==> !leads_downward(name@),
            !bad ==> forall|i: int, j: int| #[trigger]
                is_component(name@, i, j) && j > e ==> name@.subrange(i, j) != seq!['.']
                    && name@.subrange(i, j) != seq!['.', '.'],
        ensures
            bad == !leads_downward(name@),
        decreases e,
    {
        match last_component(&cs, e) {
            None => {
                break;
            },
            Some((i, j)) => {
                let part = part_of(&cs, i, j);
                let dots = (part.len() == 1 && part[0] == '.') || (part.len() == 2 && part[0] == '.'
                    && part[1] == '.');
                proof {
                    assert(dots == (part@ == seq!['.'] || part@ == seq!['.', '.'])) by {
                        if part@.len() == 1 && part@[0] == '.' {
                            assert(part@ =~= seq!['.']);
                        }
                        if part@.len() == 2 && part@[0] == '.' && part@[1] == '.' {
                            assert(part@ =~= seq!['.', '.']);
                        }
                    }
                    assert(is_component(name@, i as int, j as int));
                    assert forall|a: int, b: int| #[trigger]
                        is_component(name@, a, b) && b > i - 1 && b <= e implies a == i && b
                        == j by {
                        assert(a <= i);
                        if a < i {
                            assert(name@[i - 1] == '/');
                            assert(b >= i);
                            if b > i - 1 {
                                assert(a <= i - 1 < b);
                                assert(name@[i - 1] != '/');
                            }
                        } else {
                            lemma_component_end(name@, a, b, j as int);
                        }
                    }
                }
                if dots {
                    bad = true;
                }
                if i == 0 {
                    break;
                }
                e = i - 1;
            },
        }
    }
    if bad {
        let mut m = "Invalid path component in '".to_owned();
        m.append(name);
        m.append("': path traversal detected");
        Err(m)
    } else {
        Ok(join(base, name))
    }
}

/// The canonical path `p` is `base` or lies below it.
pub open spec fn lies_within(base: Seq<char>, p: Seq<char>) -> bool {
    p == base || (if base.len() > 0 && base.last() == '/' {
        base
    } else {
        base + "/"@
    }).is_prefix_of(p)
}

/// Refuses a path that leads out of its base directory; both are canonical.
pub fn check_contained(base_canonical: &str, canonical: &str, name: &str) -> (r: Result<
    (),
    String,
>)
    ensures
        match r {
            Ok(_) => lies_within(base_canonical@, canonical@),
            Err(m) => !lies_within(base_canonical@, canonical@) && m@ == "Path '"@ + name@
                + "' escapes base directory"@,
        },
{
    let mut stem = base_canonical.to_owned();
    if !ends_with(base_canonical, "/") {
        stem.append("/");
    }
    proof {
        reveal_strlit("/");
        assert("/"@ =~= seq!['/']);
        let b = base_canonical@;
        assert("/"@.is_suffix_of(b) <==> b.len() > 0 && b.last() == '/') by {
            if b.len() > 0 {
                assert(b.skip(b.len() - 1) =~= seq![b.last()]);
                assert(b.last() == seq![b.last()][0]);
            }
        }
    }
    if str_eq(canonical, base_canonical) || starts_with(canonical, stem.as_str()) {
        return Ok(());
    }
    let mut m = "Path '".to_owned();
    m.append(name);
    m.append("' escapes base directory");
    Err(m)
}

/// `p` and the directories above it, from the inside out.
pub open spec fn ancestors(p: Seq<char>) -> Seq<Seq<char>>
    decreases p.len(),
{
    match parent_of(p) {
        Some(t) => if t.len() < p.len() {
            seq![p] + ancestors(t)
        } else {
            seq![p]
        },
        None => seq![p],
    }
}

/// `p` and the directories above it, from the inside out.
pub fn list_ancestors(p: &str) -> (r: Vec<String>)
    ensures
        crate::text::texts(r@) == ancestors(p@),
{
    let mut out: Vec<String> = Vec::new();
    let mut cur = p.to_owned();
    assert(crate::text::texts(out@) + ancestors(cur@) =~= ancestors(p@));
    loop
        invariant_except_break
            crate::text::texts(out@) + ancestors(cur@) == ancestors(p@),
        ensures
            crate::text::texts(out@) == ancestors(p@),
        decreases cur@.len(),
    {
        let up = parent(cur.as_str());
        let ghost before = crate::text::texts(out@);
        let ghost c = cur@;
        out.push(cur);
        assert(crate::text::texts(out@) =~= before + seq![c]);
        match up {
            Some(t) => {
                assert(ancestors(c) == seq![c] + ancestors(t@));
                assert(before + (seq![c] + ancestors(t@)) =~= (before + seq![c]) + ancestors(t@));
                cur = t;
            },
            None => {
                break;
            },
        }
    }
    out
}

} // verus!
