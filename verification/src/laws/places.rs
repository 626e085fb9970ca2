//! How paths are joined, split and contained.

use vstd::prelude::*;
use crate::install::{is_default_name, repository_name};
use crate::laws::texts::{law_suffixes_are_taken_away, law_what_follows_the_last_mark};
use crate::paths::{
    absolute, ancestors, extension_of, file_name_of, is_component, is_extension_point, is_file_name,
    is_last_component, is_parent, is_prefix_before, joined_path, leads_downward,
    lemma_file_name_unique, lemma_parent_unique, lies_within, no_component, parent_of, stem_of,
};
use crate::source::InstallSource;
use crate::text::{after_last, trimmed_end_of};

verus! {

/// The text names one file: it is a single component that is no step in the tree.
pub open spec fn is_plain_name(t: Seq<char>) -> bool {
    t.len() > 0 && !t.contains('/') && t != seq!['.'] && t != seq!['.', '.']
}

/// A relative path is taken below the base with one slash between them; an absolute
/// one stands for itself.
pub proof fn law_how_paths_are_joined(base: Seq<char>, rel: Seq<char>)
    ensures
        absolute(rel) <==> rel.len() > 0 && rel[0] == '/',
        absolute(rel) ==> joined_path(base, rel) == rel,
        !absolute(rel) && base.len() == 0 ==> joined_path(base, rel) == rel,
        !absolute(rel) && base.len() > 0 && base.last() == '/' ==> joined_path(base, rel) == base
            + rel,
        !absolute(rel) && base.len() > 0 && base.last() != '/' ==> joined_path(base, rel) == base
            + seq!['/'] + rel,
{
    reveal_strlit("/");
    assert("/"@ =~= seq!['/']);
    assert(Seq::<char>::empty() + rel =~= rel);
    if base.len() == 0 {
        assert(base + rel =~= rel);
    }
}

/// What is joined below a base lies within it; what only begins like the base does
/// not; and what lies within something that lies within a base lies within the base.
pub proof fn law_what_lies_within(
    base: Seq<char>,
    rel: Seq<char>,
    a: Seq<char>,
    b: Seq<char>,
    c: Seq<char>,
)
    ensures
        base.len() > 0 && !absolute(rel) ==> lies_within(base, joined_path(base, rel)),
        lies_within(base, base),
        base.len() > 0 && base.last() != '/' && rel.len() > 0 && rel[0] != '/' ==> !lies_within(
            base,
            base + rel,
        ),
        lies_within(a, b) && lies_within(b, c) ==> lies_within(a, c),
        lies_within(a, b) ==> a.is_prefix_of(b),
{
    reveal_strlit("/");
    assert("/"@ =~= seq!['/']);
    if base.len() > 0 && !absolute(rel) {
        let p = joined_path(base, rel);
        let q = if base.last() == '/' {
            base
        } else {
            base + "/"@
        };
        assert(p =~= q + rel);
        assert(q =~= p.take(q.len() as int));
    }
    if base.len() > 0 && base.last() != '/' && rel.len() > 0 && rel[0] != '/' {
        let p = base + rel;
        let q = base + "/"@;
        if q.is_prefix_of(p) {
            assert(q[base.len() as int] == p[base.len() as int]);
        }
        assert(p.len() != base.len());
    }
    if lies_within(a, b) {
        let q = if a.len() > 0 && a.last() == '/' {
            a
        } else {
            a + "/"@
        };
        assert(a =~= q.take(a.len() as int));
        if q.is_prefix_of(b) {
            assert(a =~= b.take(a.len() as int)) by {
                assert(q =~= b.take(q.len() as int));
            }
        } else {
            assert(a =~= b.take(a.len() as int));
        }
        if lies_within(b, c) && a != b && b != c {
            let r = if b.len() > 0 && b.last() == '/' {
                b
            } else {
                b + "/"@
            };
            assert(q =~= b.take(q.len() as int));
            assert(r =~= c.take(r.len() as int));
            assert(b =~= r.take(b.len() as int));
            assert(q =~= c.take(q.len() as int));
        }
    }
}

// ─── Names and parents ──────────────────────────────────────────

proof fn lemma_last_name(p: Seq<char>, name: Seq<char>)
    requires
        is_plain_name(name),
        name.len() <= p.len(),
        p.skip(p.len() - name.len()) == name,
        p.len() == name.len() || p[p.len() - name.len() - 1] == '/',
    ensures
        is_last_component(p, p.len() as int, p.len() - name.len(), p.len() as int),
        is_file_name(p, name),
{
    let i = p.len() - name.len();
    let j = p.len() as int;
    assert forall|k: int| i <= k < j implies p[k] != '/' by {
        assert(p.skip(i)[k - i] == name[k - i]);
        assert(name.contains(name[k - i]));
    }
    assert(p.subrange(i, j) =~= name);
    assert(is_component(p, i, j));
    assert forall|a: int, b: int| #[trigger] is_component(p, a, b) && b <= j implies a <= i by {
        if a > i {
            assert(p[a - 1] == '/');
        }
    }
    assert(is_last_component(p, p.len() as int, i, j));
}

/// The file at a joined path has the name that was joined.
pub proof fn law_the_name_of_a_joined_path(base: Seq<char>, name: Seq<char>)
    requires
        is_plain_name(name),
    ensures
        file_name_of(joined_path(base, name)) == Some(name),
{
    let p = joined_path(base, name);
    assert(!absolute(name)) by {
        assert(name.contains(name[0]));
    }
    law_how_paths_are_joined(base, name);
    assert(p.skip(p.len() - name.len()) =~= name);
    lemma_last_name(p, name);
    let t = choose|t: Seq<char>| is_file_name(p, t);
    lemma_file_name_unique(p, t, name);
}

/// The name of a path is unique, and it is none where the path has none.
pub proof fn law_the_name_of_a_path(p: Seq<char>, t: Seq<char>)
    ensures
        file_name_of(p) == Some(t) <==> is_file_name(p, t),
{
    if is_file_name(p, t) {
        let u = choose|u: Seq<char>| is_file_name(p, u);
        lemma_file_name_unique(p, t, u);
    }
}

/// A tail of `s` that holds no slash and has one before it, or is all of `s`.
proof fn lemma_tail(s: Seq<char>) -> (a: int)
    ensures
        0 <= a <= s.len(),
        a > 0 ==> s[a - 1] == '/',
        forall|k: int| a <= k < s.len() ==> s[k] != '/',
    decreases s.len(),
{
    if s.len() == 0 || s.last() == '/' {
        s.len() as int
    } else {
        let a = lemma_tail(s.drop_last());
        assert forall|k: int| a <= k < s.len() implies s[k] != '/' by {
            if k < s.len() - 1 {
                assert(s.drop_last()[k] == s[k]);
            }
        }
        a
    }
}

/// The directory of a joined path is the base, where that ends in the name of a
/// directory; the ancestors of the path are then the path and those of the base.
pub proof fn law_the_parent_of_a_joined_path(base: Seq<char>, name: Seq<char>)
    requires
        is_plain_name(name),
        base.len() > 0,
        base.last() != '/',
        !seq!['/', '.'].is_suffix_of(base),
    ensures
        parent_of(joined_path(base, name)) == Some(base),
        ancestors(joined_path(base, name)) == seq![joined_path(base, name)] + ancestors(base),
{
    let p = joined_path(base, name);
    assert(!absolute(name)) by {
        assert(name.contains(name[0]));
    }
    law_how_paths_are_joined(base, name);
    let n = base.len() as int;
    assert(p.skip(p.len() - name.len()) =~= name);
    lemma_last_name(p, name);
    let i = n + 1;
    assert(i == p.len() - name.len());
    let a = lemma_tail(base);
    assert forall|k: int| 0 <= k < n implies p[k] == base[k] by {}
    assert(p[n] == '/');
    if a > 0 && p.subrange(a, n) == seq!['.'] {
        assert(a < n);
        assert(p.subrange(a, n).len() == n - a);
        assert(p.subrange(a, n)[0] == base[a]);
        assert(a == n - 1);
        assert(base.skip(n - 2) =~= seq!['/', '.']);
    }
    assert(is_component(p, a, n));
    assert forall|c: int, d: int| #[trigger] is_component(p, c, d) && d <= n implies c <= a by {
        if c > a {
            assert(p[c - 1] == '/');
        }
    }
    assert(is_last_component(p, i - 1, a, n));
    assert(p.take(n) =~= base);
    assert(is_prefix_before(p, i, base));
    assert(is_parent(p, base));
    let t = choose|t: Seq<char>| is_parent(p, t);
    lemma_parent_unique(p, t, base);
}

/// A name alone stands in no directory that is named, and one at the root stands in
/// the root; the root itself and nothing stand nowhere.
pub proof fn law_the_parent_of_a_name(name: Seq<char>)
    requires
        is_plain_name(name),
    ensures
        parent_of(name) == Some(Seq::<char>::empty()),
        parent_of(seq!['/'] + name) == Some(seq!['/']),
        parent_of(seq!['/']) is None,
        parent_of(Seq::empty()) is None,
        ancestors(seq!['/']) == seq![seq!['/']],
{
    assert(!absolute(name)) by {
        assert(name.contains(name[0]));
    }
    assert(name.skip(0) =~= name);
    lemma_last_name(name, name);
    assert(no_component(name, -1));
    assert(is_prefix_before(name, 0, Seq::empty()));
    assert(is_parent(name, Seq::empty()));
    let t = choose|t: Seq<char>| is_parent(name, t);
    lemma_parent_unique(name, t, Seq::empty());
    let p = seq!['/'] + name;
    assert(p.skip(1) =~= name);
    lemma_last_name(p, name);
    assert(no_component(p, 0));
    assert(is_prefix_before(p, 1, seq!['/']));
    assert(is_parent(p, seq!['/']));
    let u = choose|u: Seq<char>| is_parent(p, u);
    lemma_parent_unique(p, u, seq!['/']);
    let root = seq!['/'];
    assert forall|a: int, b: int| #[trigger] is_component(root, a, b) implies b > root.len() by {
        assert(root[a] == '/');
    }
    assert(no_component(root, root.len() as int));
    assert(no_component(Seq::empty(), 0));
}

// ─── Extensions ─────────────────────────────────────────────────

/// A name with a point behind a stem has what follows the last point as its
/// extension; without a point, or with one at its beginning alone, it has none.
pub proof fn law_extensions(stem: Seq<char>, ext: Seq<char>, t: Seq<char>)
    ensures
        stem.len() > 0 && !ext.contains('.') ==> extension_of(stem + seq!['.'] + ext) == Some(ext)
            && stem_of(stem + seq!['.'] + ext) == stem,
        !t.contains('.') ==> extension_of(t) is None && stem_of(t) == t && extension_of(
            seq!['.'] + t,
        ) is None && stem_of(seq!['.'] + t) == seq!['.'] + t,
{
    if stem.len() > 0 && !ext.contains('.') {
        let s = stem + seq!['.'] + ext;
        let d = stem.len() as int;
        assert forall|k: int| d < k < s.len() implies s[k] != '.' by {
            assert(s[k] == ext[k - d - 1]);
            assert(ext.contains(ext[k - d - 1]));
        }
        assert(is_extension_point(s, d));
        let e = choose|e: int| is_extension_point(s, e);
        assert(e == d);
        assert(s.skip(d + 1) =~= ext);
        assert(s.take(d) =~= stem);
    }
    if !t.contains('.') {
        assert forall|d: int| !is_extension_point(t, d) by {
            if is_extension_point(t, d) {
                assert(t.contains(t[d]));
            }
        }
        let s = seq!['.'] + t;
        assert forall|d: int| !is_extension_point(s, d) by {
            if is_extension_point(s, d) {
                assert(s[d] == t[d - 1]);
                assert(t.contains(t[d - 1]));
            }
        }
    }
}

// ─── Downward ───────────────────────────────────────────────────

/// A plain name leads downward, and so does one such path below another; a path
/// that begins at the root, or has a step upward anywhere, does not.
pub proof fn law_what_leads_downward(name: Seq<char>, a: Seq<char>, b: Seq<char>, i: int, j: int)
    ensures
        is_plain_name(name) ==> leads_downward(name),
        absolute(a) ==> !leads_downward(a),
        is_component(a, i, j) && a.subrange(i, j) == seq!['.', '.'] ==> !leads_downward(a),
        a.len() > 0 && leads_downward(a) && leads_downward(b) ==> leads_downward(a + seq!['/'] + b),
        a.len() > 0 && !leads_downward(a) ==> !leads_downward(a + seq!['/'] + b),
        is_component(b, i, j) && b.subrange(i, j) == seq!['.', '.'] ==> !leads_downward(
            a + seq!['/'] + b,
        ),
{
    if is_plain_name(name) {
        assert(name.contains(name[0]));
        assert forall|i: int, j: int| #[trigger] is_component(name, i, j) implies name.subrange(i, j)
            != seq!['.'] && name.subrange(i, j) != seq!['.', '.'] by {
            if i > 0 {
                assert(name.contains(name[i - 1]));
            }
            if j < name.len() {
                assert(name.contains(name[j]));
            }
            assert(name.subrange(0, name.len() as int) =~= name);
        }
    }
    let p = a + seq!['/'] + b;
    let n = a.len() as int;
    if a.len() > 0 && leads_downward(a) && leads_downward(b) {
        assert(p[0] == a[0]);
        assert forall|i: int, j: int| #[trigger] is_component(p, i, j) implies p.subrange(i, j)
            != seq!['.'] && p.subrange(i, j) != seq!['.', '.'] by {
            assert(p[n] == '/');
            if i < n {
                assert(j <= n) by {
                    if j > n {
                        assert(p[n] != '/');
                    }
                }
                assert(a.subrange(i, j) =~= p.subrange(i, j));
                assert forall|k: int| i <= k < j implies a[k] != '/' by {
                    assert(p[k] == a[k]);
                }
                assert(i > 0 ==> p[i - 1] == a[i - 1]);
                assert(j < n ==> p[j] == a[j]);
                assert(is_component(a, i, j));
            } else {
                assert(i > n) by {
                    if i == n {
                        assert(p[n] != '/');
                    }
                }
                let c = i - n - 1;
                let d = j - n - 1;
                assert(b.subrange(c, d) =~= p.subrange(i, j));
                assert forall|k: int| c <= k < d implies b[k] != '/' by {
                    assert(p[k + n + 1] == b[k]);
                }
                assert(c > 0 ==> p[i - 1] == b[c - 1]);
                assert(d < b.len() ==> p[j] == b[d]);
                assert(is_component(b, c, d));
            }
        }
    }
    if a.len() > 0 && !leads_downward(a) && !absolute(a) {
        let (i, j) = choose|i: int, j: int| #[trigger]
            is_component(a, i, j) && !(a.subrange(i, j) != seq!['.'] && a.subrange(i, j)
                != seq!['.', '.']);
        assert(a.subrange(i, j) =~= p.subrange(i, j));
        assert forall|k: int| i <= k < j implies p[k] != '/' by {
            assert(p[k] == a[k]);
        }
        assert(i > 0 ==> p[i - 1] == a[i - 1]);
        assert(j < n ==> p[j] == a[j]);
        assert(p[n] == '/');
        assert(is_component(p, i, j));
    }
    if a.len() > 0 && absolute(a) {
        assert(p[0] == a[0]);
    }
    if is_component(b, i, j) && b.subrange(i, j) == seq!['.', '.'] {
        let c = i + n + 1;
        let d = j + n + 1;
        assert(p.subrange(c, d) =~= b.subrange(i, j));
        assert forall|k: int| c <= k < d implies p[k] != '/' by {
            assert(p[k] == b[k - n - 1]);
        }
        assert(i > 0 ==> p[c - 1] == b[i - 1]);
        assert(i == 0 ==> p[c - 1] == '/');
        assert(j < b.len() ==> p[d] == b[j]);
        assert(p.subrange(c, d).len() == 2);
        assert(is_component(p, c, d));
    }
}

/// A path that is or begins with a step in place does not lead downward; within a path
/// such a step counts for nothing.
pub proof fn law_a_step_in_place_is_refused(a: Seq<char>, b: Seq<char>)
    ensures
        !leads_downward(seq!['.']),
        !leads_downward(seq!['.', '/'] + b),
        !leads_downward(seq!['.', '.', '/'] + b),
        leads_downward(Seq::empty()),
        leads_downward(a) && a.len() > 0 ==> leads_downward(a + seq!['/', '.']),
{
    let dot = seq!['.'];
    assert(dot.subrange(0, 1) =~= dot);
    assert(is_component(dot, 0, 1));
    let p = seq!['.', '/'] + b;
    assert(p.subrange(0, 1) =~= dot);
    assert(is_component(p, 0, 1));
    let q = seq!['.', '.', '/'] + b;
    assert(q.subrange(0, 2) =~= seq!['.', '.']);
    assert(is_component(q, 0, 2));
    if leads_downward(a) && a.len() > 0 {
        let r = a + seq!['/', '.'];
        let n = a.len() as int;
        assert(r[n] == '/' && r[n + 1] == '.');
        assert(r[0] == a[0]);
        assert forall|i: int, j: int| #[trigger] is_component(r, i, j) implies r.subrange(i, j)
            != seq!['.'] && r.subrange(i, j) != seq!['.', '.'] by {
            if i < n {
                assert(j <= n) by {
                    if j > n {
                        assert(r[n] != '/');
                    }
                }
                assert(a.subrange(i, j) =~= r.subrange(i, j));
                assert forall|k: int| i <= k < j implies a[k] != '/' by {
                    assert(r[k] == a[k]);
                }
                assert(i > 0 ==> r[i - 1] == a[i - 1]);
                assert(j < n ==> r[j] == a[j]);
                assert(is_component(a, i, j));
            } else {
                if i == n {
                    assert(r[n] != '/');
                }
                assert(r.subrange(i, j) =~= seq!['.']);
            }
        }
    }
}

// ─── Repositories ───────────────────────────────────────────────

/// A repository is named by the last part of its URL, without `.git`; slashes at the
/// end change nothing.
pub proof fn law_how_repositories_are_named(base: Seq<char>, name: Seq<char>, url: Seq<char>)
    requires
        name.len() > 0,
        !name.contains('/'),
        !".git"@.is_suffix_of(name),
    ensures
        repository_name(base + "/"@ + name) == name,
        repository_name(base + "/"@ + name + ".git"@) == name,
        repository_name(url + "/"@) == repository_name(url),
{
    reveal_strlit("/");
    reveal_strlit(".git");
    assert("/"@ =~= seq!['/']);
    assert(".git"@ =~= seq!['.', 'g', 'i', 't']);
    law_suffixes_are_taken_away(url, "/"@);
    let a = base + "/"@ + name;
    assert(name.contains(name.last()));
    lemma_no_slash_behind(a);
    lemma_last_part(base, name);
    law_suffixes_are_taken_away(name, ".git"@);
    let full = name + ".git"@;
    let b = a + ".git"@;
    assert(b =~= base + "/"@ + full);
    assert(!full.contains('/')) by {
        if full.contains('/') {
            let k = choose|k: int| 0 <= k < full.len() && full[k] == '/';
            if k < name.len() {
                assert(name.contains(name[k]));
            }
        }
    }
    assert(b.last() == 't');
    lemma_no_slash_behind(b);
    lemma_last_part(base, full);
}

proof fn lemma_no_slash_behind(s: Seq<char>)
    requires
        s.len() > 0,
        s.last() != '/',
    ensures
        trimmed_end_of(s, "/"@) == s,
{
    reveal_strlit("/");
    assert("/"@ =~= seq!['/']);
    if "/"@.is_suffix_of(s) {
        assert("/"@ =~= s.skip(s.len() - 1));
        assert("/"@[0] == s[s.len() - 1]);
    }
}

proof fn lemma_last_part(base: Seq<char>, name: Seq<char>)
    requires
        !name.contains('/'),
    ensures
        after_last(base + "/"@ + name, '/') == name,
{
    reveal_strlit("/");
    assert("/"@ =~= seq!['/']);
    let s = base + "/"@ + name;
    law_what_follows_the_last_mark(s, '/');
    let n = s.len() - after_last(s, '/').len();
    let m = base.len() as int + 1;
    assert(s[m - 1] == '/');
    if n < m {
        assert(s.skip(n)[m - 1 - n] == '/');
        assert(after_last(s, '/').contains('/'));
    }
    if n > m {
        assert(s[n - 1] == name[n - 1 - m]);
        assert(name.contains(name[n - 1 - m]));
    }
    assert(s.skip(m) =~= name);
}

/// Without a name a package is called like its repository or its directory, and
/// `unknown` where the directory has no name.
pub proof fn law_what_packages_are_called(source: InstallSource, name: Seq<char>)
    ensures
        source matches InstallSource::GitUrl(u) ==> (is_default_name(source, name) <==> name
            == repository_name(u@)),
        source matches InstallSource::LocalPath(p) ==> (is_default_name(source, name) <==> match file_name_of(
            p@,
        ) {
            Some(t) => name == t,
            None => name == "unknown"@,
        }),
{
    if let InstallSource::LocalPath(p) = source {
        if exists|t: Seq<char>| is_file_name(p@, t) {
            let t = choose|t: Seq<char>| is_file_name(p@, t);
            if is_file_name(p@, name) {
                lemma_file_name_unique(p@, t, name);
            }
        }
    }
}

} // verus!
