//! Diagnosing packages without touching them: which are healthy, which are
//! gone, which links lead nowhere and which packages lack a module.

use vstd::prelude::*;
use crate::health::{
    add_findings, dangling_advice, dangling_reason, finding_json, finding_views, is_meant, meant,
    not_found, not_found_text, reason_for_dangling, symlink_dangling_suggestion, Finding,
    FindingView, PlaceFact,
};
use crate::json::{text_views, views, Json, JsonView};
use crate::name_map::{strictly_ascending, NameMap};
use crate::names::{alphanumeric, is_alphanumeric};
use crate::source::{PackageSource, SourceView};
use crate::text::{
    chars_of, matches_at, occurs_at, opt_str, opt_text, quote, quoted, string_of, texts,
};

verus! {

// ─── Lua code ───────────────────────────────────────────────────

/// A character that parts words.
pub open spec fn is_lua_blank(c: char) -> bool {
    c == ' ' || c == '\t' || c == '\n' || c == '\r' || c == '\x0b' || c == '\x0c'
}

/// A character of a name.
pub open spec fn is_word_char(c: char) -> bool {
    is_alphanumeric(c) || c == '_'
}

/// The first place from `i` on that holds neither a space nor a tab.
pub open spec fn after_blanks(s: Seq<char>, i: int) -> int
    decreases s.len() - i,
{
    if 0 <= i < s.len() && (s[i] == ' ' || s[i] == '\t') {
        after_blanks(s, i + 1)
    } else {
        i
    }
}

/// The first place from `i` on that holds no `=`.
pub open spec fn after_equals(s: Seq<char>, i: int) -> int
    decreases s.len() - i,
{
    if 0 <= i < s.len() && s[i] == '=' {
        after_equals(s, i + 1)
    } else {
        i
    }
}

/// The first place from `i` on at which no word goes on.
pub open spec fn word_end(s: Seq<char>, i: int) -> int
    decreases s.len() - i,
{
    if 0 <= i < s.len() && is_word_char(s[i]) {
        word_end(s, i + 1)
    } else {
        i
    }
}

/// The end of the line that holds place `i`.
pub open spec fn comment_end(s: Seq<char>, i: int) -> int
    decreases s.len() - i,
{
    if 0 <= i < s.len() && s[i] != '\n' && s[i] != '\r' {
        comment_end(s, i + 1)
    } else {
        i
    }
}

/// A long bracket opens at place `i`: two brackets with any number of `=`
/// between them.
pub open spec fn opens_long(s: Seq<char>, i: int) -> bool {
    let e = after_equals(s, i + 1);
    0 <= i < s.len() && s[i] == '[' && e < s.len() && s[e] == '['
}

/// How many `=` stand in the long bracket at place `i`.
pub open spec fn long_level(s: Seq<char>, i: int) -> int {
    after_equals(s, i + 1) - (i + 1)
}

/// The long bracket of the given level closes at place `i`.
pub open spec fn closes_long(s: Seq<char>, i: int, level: int) -> bool {
    let e = after_equals(s, i + 1);
    0 <= i < s.len() && s[i] == ']' && e == i + 1 + level && e < s.len() && s[e] == ']'
}

/// The place behind the first closing bracket of the given level from `i` on;
/// the end of the code where there is none.
pub open spec fn long_end(s: Seq<char>, i: int, level: int) -> int
    decreases s.len() - i,
{
    if i < 0 || i >= s.len() {
        s.len() as int
    } else if closes_long(s, i, level) {
        i + 2 + level
    } else {
        long_end(s, i + 1, level)
    }
}

/// The place behind the quote `q` that ends the text from `i` on; the end of
/// the code where there is none. What follows a backslash ends nothing.
pub open spec fn text_end(s: Seq<char>, i: int, q: char) -> int
    decreases s.len() - i,
{
    if i < 0 || i >= s.len() {
        s.len() as int
    } else if s[i] == '\\' && i + 1 < s.len() {
        text_end(s, i + 2, q)
    } else if s[i] == q {
        i + 1
    } else {
        text_end(s, i + 1, q)
    }
}

/// A comment begins at place `i`.
pub open spec fn is_comment(s: Seq<char>, i: int) -> bool {
    0 <= i && i + 1 < s.len() && s[i] == '-' && s[i + 1] == '-'
}

/// The place behind the comment, the text or the word at place `i`, or behind
/// its one character.
pub open spec fn token_end(s: Seq<char>, i: int) -> int {
    if is_comment(s, i) {
        if opens_long(s, i + 2) {
            long_end(s, i + 4 + long_level(s, i + 2), long_level(s, i + 2))
        } else {
            comment_end(s, i + 2)
        }
    } else if s[i] == '"' || s[i] == '\'' {
        text_end(s, i + 1, s[i])
    } else if opens_long(s, i) {
        long_end(s, i + 2 + long_level(s, i), long_level(s, i))
    } else if is_word_char(s[i]) {
        word_end(s, i)
    } else {
        i + 1
    }
}

/// The last place before `i` that is not blank.
pub open spec fn place_before(s: Seq<char>, i: int) -> Option<int>
    decreases i,
{
    if i <= 0 || i > s.len() {
        None
    } else if is_lua_blank(s[i - 1]) {
        place_before(s, i - 1)
    } else {
        Some(i - 1)
    }
}

/// The word at place `i` names a member: one dot or one colon stands before it.
pub open spec fn is_member(s: Seq<char>, i: int) -> bool {
    match place_before(s, i) {
        Some(k) => (s[k] == '.' || s[k] == ':') && !(k > 0 && s[k - 1] == s[k]),
        None => false,
    }
}

/// `require` is called by its name at place `i`, where a word begins.
pub open spec fn is_require(s: Seq<char>, i: int) -> bool {
    is_word_char(s[i]) && s.subrange(i, word_end(s, i)) == "require"@ && !is_member(s, i)
}

// ─── Required modules ───────────────────────────────────────────

/// The first place from `i` on that holds `c`, with neither a backslash nor a
/// line break before it.
pub open spec fn plain_end(s: Seq<char>, c: char, i: int) -> Option<int>
    decreases s.len() - i,
{
    if i < 0 || i >= s.len() {
        None
    } else if s[i] == c {
        Some(i)
    } else if s[i] == '\\' || s[i] == '\n' || s[i] == '\r' {
        None
    } else {
        plain_end(s, c, i + 1)
    }
}

/// The text in quotes that stands alone in parentheses from place `i` on.
pub open spec fn quoted_argument(s: Seq<char>, i: int) -> Option<Seq<char>> {
    let a = after_blanks(s, i);
    let b = after_blanks(s, a + 1);
    if 0 <= a < s.len() && s[a] == '(' && b < s.len() && (s[b] == '"' || s[b] == '\'') {
        match plain_end(s, s[b], b + 1) {
            Some(e) => {
                let c = after_blanks(s, e + 1);
                if c < s.len() && s[c] == ')' {
                    Some(s.subrange(b + 1, e))
                } else {
                    None
                }
            },
            None => None,
        }
    } else {
        None
    }
}

/// The submodule of `pkg` that `module` names directly, if it names one.
pub open spec fn direct_sub(module: Seq<char>, pkg: Seq<char>) -> Option<Seq<char>> {
    let prefix = pkg + "."@;
    let sub = module.skip(prefix.len() as int);
    if prefix.is_prefix_of(module) && sub.len() > 0 && !sub.contains('.') {
        Some(sub)
    } else {
        None
    }
}

/// The submodule of `pkg` that the word at place `i` requires, if it does.
pub open spec fn sub_at(s: Seq<char>, i: int, pkg: Seq<char>) -> Option<Seq<char>> {
    if !is_comment(s, i) && !opens_long(s, i) && is_require(s, i) {
        match quoted_argument(s, word_end(s, i)) {
            Some(module) => direct_sub(module, pkg),
            None => None,
        }
    } else {
        None
    }
}

/// The submodules of `pkg` that the code from place `i` on requires. Comments
/// and texts are passed over.
pub open spec fn subs_from(s: Seq<char>, i: int, pkg: Seq<char>) -> Seq<Seq<char>>
    decreases s.len() - i,
{
    proof {
        lemma_token_end(s, i);
    }
    if i < 0 || i >= s.len() {
        Seq::empty()
    } else {
        let rest = subs_from(s, token_end(s, i), pkg);
        match sub_at(s, i, pkg) {
            Some(sub) => seq![sub] + rest,
            None => rest,
        }
    }
}

proof fn lemma_run_ends(s: Seq<char>, i: int)
    requires
        0 <= i <= s.len(),
    ensures
        i <= after_blanks(s, i) <= s.len(),
        i <= after_equals(s, i) <= s.len(),
        i <= word_end(s, i) <= s.len(),
        i <= comment_end(s, i) <= s.len(),
    decreases s.len() - i,
{
    if i < s.len() {
        lemma_run_ends(s, i + 1);
    }
}

proof fn lemma_long_end(s: Seq<char>, i: int, level: int)
    requires
        0 <= i,
        0 <= level,
    ensures
        long_end(s, i, level) <= s.len(),
        i <= s.len() ==> i <= long_end(s, i, level),
    decreases s.len() - i,
{
    if i < s.len() {
        if !closes_long(s, i, level) {
            lemma_long_end(s, i + 1, level);
        }
    }
}

proof fn lemma_text_end(s: Seq<char>, i: int, q: char)
    requires
        0 <= i,
    ensures
        text_end(s, i, q) <= s.len(),
        i <= s.len() ==> i <= text_end(s, i, q),
    decreases s.len() - i,
{
    if i < s.len() {
        if s[i] == '\\' && i + 1 < s.len() {
            lemma_text_end(s, i + 2, q);
        } else if s[i] != q {
            lemma_text_end(s, i + 1, q);
        }
    }
}

/// What stands at a place ends behind it, in the code.
pub proof fn lemma_token_end(s: Seq<char>, i: int)
    ensures
        0 <= i < s.len() ==> i < token_end(s, i) <= s.len(),
{
    if 0 <= i < s.len() {
        lemma_run_ends(s, i + 1);
        if is_comment(s, i) {
            lemma_run_ends(s, i + 2);
            if opens_long(s, i + 2) {
                lemma_run_ends(s, i + 3);
                lemma_long_end(s, i + 4 + long_level(s, i + 2), long_level(s, i + 2));
            }
        } else if s[i] == '"' || s[i] == '\'' {
            lemma_text_end(s, i + 1, s[i]);
        } else if opens_long(s, i) {
            lemma_long_end(s, i + 2 + long_level(s, i), long_level(s, i));
        }
    }
}

fn lua_blank(c: char) -> (r: bool)
    ensures
        r == is_lua_blank(c),
{
    c == ' ' || c == '\t' || c == '\n' || c == '\r' || c == '\x0b' || c == '\x0c'
}

fn word_char(c: char) -> (r: bool)
    ensures
        r == is_word_char(c),
{
    alphanumeric(c) || c == '_'
}

fn skip_blanks(cs: &Vec<char>, i: usize) -> (r: usize)
    requires
        i <= cs@.len(),
    ensures
        r == after_blanks(cs@, i as int),
        i <= r <= cs@.len(),
{
    let mut k: usize = i;
    while k < cs.len() && (cs[k] == ' ' || cs[k] == '\t')
        invariant
            i <= k <= cs@.len(),
            after_blanks(cs@, i as int) == after_blanks(cs@, k as int),
        decreases cs@.len() - k,
    {
        k = k + 1;
    }
    k
}

fn skip_equals(cs: &Vec<char>, i: usize) -> (r: usize)
    requires
        i <= cs@.len(),
    ensures
        r == after_equals(cs@, i as int),
        i <= r <= cs@.len(),
{
    let mut k: usize = i;
    while k < cs.len() && cs[k] == '='
        invariant
            i <= k <= cs@.len(),
            after_equals(cs@, i as int) == after_equals(cs@, k as int),
        decreases cs@.len() - k,
    {
        k = k + 1;
    }
    k
}

fn skip_word(cs: &Vec<char>, i: usize) -> (r: usize)
    requires
        i <= cs@.len(),
    ensures
        r == word_end(cs@, i as int),
        i <= r <= cs@.len(),
{
    let mut k: usize = i;
    while k < cs.len() && word_char(cs[k])
        invariant
            i <= k <= cs@.len(),
            word_end(cs@, i as int) == word_end(cs@, k as int),
        decreases cs@.len() - k,
    {
        k = k + 1;
    }
    k
}

fn skip_line(cs: &Vec<char>, i: usize) -> (r: usize)
    requires
        i <= cs@.len(),
    ensures
        r == comment_end(cs@, i as int),
        i <= r <= cs@.len(),
{
    let mut k: usize = i;
    while k < cs.len() && cs[k] != '\n' && cs[k] != '\r'
        invariant
            i <= k <= cs@.len(),
            comment_end(cs@, i as int) == comment_end(cs@, k as int),
        decreases cs@.len() - k,
    {
        k = k + 1;
    }
    k
}

/// The level of the long bracket that opens at place `i`.
fn long_bracket(cs: &Vec<char>, i: usize) -> (r: Option<usize>)
    requires
        i <= cs@.len(),
    ensures
        match r {
            Some(level) => opens_long(cs@, i as int) && level == long_level(cs@, i as int) && i + 2
                + level <= cs@.len(),
            None => !opens_long(cs@, i as int),
        },
{
    if i >= cs.len() || cs[i] != '[' {
        return None;
    }
    let e = skip_equals(cs, i + 1);
    if e < cs.len() && cs[e] == '[' {
        Some(e - (i + 1))
    } else {
        None
    }
}

fn skip_long(cs: &Vec<char>, i: usize, level: usize) -> (r: usize)
    requires
        i <= cs@.len(),
    ensures
        r == long_end(cs@, i as int, level as int),
        r <= cs@.len(),
{
    let mut k: usize = i;
    while k < cs.len()
        invariant
            i <= k <= cs@.len(),
            long_end(cs@, i as int, level as int) == long_end(cs@, k as int, level as int),
        decreases cs@.len() - k,
    {
        if cs[k] == ']' {
            let e = skip_equals(cs, k + 1);
            if e - (k + 1) == level && e < cs.len() && cs[e] == ']' {
                return e + 1;
            }
        }
        k = k + 1;
    }
    k
}

fn skip_text(cs: &Vec<char>, i: usize, q: char) -> (r: usize)
    requires
        i <= cs@.len(),
    ensures
        r == text_end(cs@, i as int, q),
        r <= cs@.len(),
{
    let mut k: usize = i;
    while k < cs.len()
        invariant
            i <= k <= cs@.len(),
            text_end(cs@, i as int, q) == text_end(cs@, k as int, q),
        decreases cs@.len() - k,
    {
        if cs[k] == '\\' && k + 1 < cs.len() {
            k = k + 2;
        } else if cs[k] == q {
            return k + 1;
        } else {
            k = k + 1;
        }
    }
    k
}

fn member(cs: &Vec<char>, i: usize) -> (r: bool)
    requires
        i <= cs@.len(),
    ensures
        r == is_member(cs@, i as int),
{
    let mut k: usize = i;
    while k > 0 && lua_blank(cs[k - 1])
        invariant
            k <= i <= cs@.len(),
            place_before(cs@, i as int) == place_before(cs@, k as int),
        decreases k,
    {
        k = k - 1;
    }
    if k == 0 {
        return false;
    }
    let c = cs[k - 1];
    (c == '.' || c == ':') && !(k >= 2 && cs[k - 2] == c)
}

fn find_plain(cs: &Vec<char>, c: char, i: usize) -> (r: Option<usize>)
    requires
        i <= cs@.len(),
    ensures
        match r {
            Some(e) => plain_end(cs@, c, i as int) == Some(e as int) && i <= e < cs@.len(),
            None => plain_end(cs@, c, i as int) is None,
        },
{
    let mut k: usize = i;
    while k < cs.len()
        invariant
            i <= k <= cs@.len(),
            plain_end(cs@, c, i as int) == plain_end(cs@, c, k as int),
        decreases cs@.len() - k,
    {
        if cs[k] == c {
            return Some(k);
        }
        if cs[k] == '\\' || cs[k] == '\n' || cs[k] == '\r' {
            return None;
        }
        k = k + 1;
    }
    None
}

fn argument_at(cs: &Vec<char>, i: usize) -> (r: Option<(usize, usize)>)
    requires
        i <= cs@.len(),
    ensures
        match r {
            Some((b, e)) => b <= e <= cs@.len() && quoted_argument(cs@, i as int) == Some(
                cs@.subrange(b as int, e as int),
            ),
            None => quoted_argument(cs@, i as int) is None,
        },
{
    let a = skip_blanks(cs, i);
    if a >= cs.len() || cs[a] != '(' {
        return None;
    }
    let b = skip_blanks(cs, a + 1);
    if b >= cs.len() || !(cs[b] == '"' || cs[b] == '\'') {
        return None;
    }
    match find_plain(cs, cs[b], b + 1) {
        Some(e) => {
            let c = skip_blanks(cs, e + 1);
            if c < cs.len() && cs[c] == ')' {
                Some((b + 1, e))
            } else {
                None
            }
        },
        None => None,
    }
}

/// The submodule of `pkg` that the module at the given place names directly.
fn sub_between(cs: &Vec<char>, b: usize, e: usize, pkg: &str) -> (r: Option<String>)
    requires
        b <= e <= cs@.len(),
    ensures
        opt_text(r) == direct_sub(cs@.subrange(b as int, e as int), pkg@),
{
    let mut dotted = pkg.to_owned();
    dotted.append(".");
    let prefix = chars_of(dotted.as_str());
    let module = vstd::slice::slice_subrange(cs.as_slice(), b, e);
    let ghost m = cs@.subrange(b as int, e as int);
    assert(module@ =~= m);
    let n: usize = prefix.len();
    if module.len() <= n {
        proof {
            if prefix@.is_prefix_of(m) {
                assert(m.skip(n as int).len() == 0);
            }
        }
        return None;
    }
    let mut i: usize = 0;
    while i < n
        invariant
            i <= n,
            n == prefix@.len(),
            b <= e <= cs@.len(),
            module@ == m,
            m == cs@.subrange(b as int, e as int),
            prefix@ == pkg@ + "."@,
            n < m.len(),
            forall|k: int| 0 <= k < i ==> m[k] == prefix@[k],
        decreases n - i,
    {
        if module[i] != prefix[i] {
            assert(!prefix@.is_prefix_of(m)) by {
                if prefix@.is_prefix_of(m) {
                    assert(prefix@[i as int] == m[i as int]);
                }
            }
            return None;
        }
        i = i + 1;
    }
    assert(prefix@ =~= m.take(n as int));
    let ghost sub = m.skip(n as int);
    let mut k: usize = n;
    while k < module.len()
        invariant
            n <= k <= m.len(),
            n == prefix@.len(),
            b <= e <= cs@.len(),
            module@ == m,
            m == cs@.subrange(b as int, e as int),
            prefix@ == pkg@ + "."@,
            sub == m.skip(n as int),
            forall|j: int| 0 <= j < k - n ==> sub[j] != '.',
        decreases m.len() - k,
    {
        assert(sub[k - n] == m[k as int]);
        if module[k] == '.' {
            assert(sub[k - n] == '.');
            return None;
        }
        k = k + 1;
    }
    let rest = vstd::slice::slice_subrange(module, n, module.len());
    assert(rest@ =~= sub);
    Some(string_of(rest))
}

/// The place behind what stands at place `i`, and the submodule that is
/// required there.
fn token_at(cs: &Vec<char>, i: usize, word: &Vec<char>, pkg: &str) -> (r: (usize, Option<String>))
    requires
        i < cs@.len(),
        word@ == "require"@,
    ensures
        r.0 == token_end(cs@, i as int),
        opt_text(r.1) == sub_at(cs@, i as int, pkg@),
{
    let n: usize = cs.len();
    let c = cs[i];
    if c == '-' && i + 1 < n && cs[i + 1] == '-' {
        return match long_bracket(cs, i + 2) {
            Some(level) => (skip_long(cs, i + 4 + level, level), None),
            None => (skip_line(cs, i + 2), None),
        };
    }
    if c == '"' || c == '\'' {
        return (skip_text(cs, i + 1, c), None);
    }
    if let Some(level) = long_bracket(cs, i) {
        return (skip_long(cs, i + 2 + level, level), None);
    }
    if !word_char(c) {
        return (i + 1, None);
    }
    let w = skip_word(cs, i);
    let ghost text = cs@.subrange(i as int, w as int);
    if w - i != word.len() || !matches_at(cs, word, i) || member(cs, i) {
        assert(text == word@ ==> occurs_at(cs@, word@, i as int));
        return (w, None);
    }
    assert(text =~= word@);
    match argument_at(cs, w) {
        Some((b, e)) => (w, sub_between(cs, b, e, pkg)),
        None => (w, None),
    }
}

/// The submodules of `pkg_name` that the Lua code requires with a text in
/// quotes and parentheses, each once, in ascending order.
pub fn extract_required_subs(lua_src: &str, pkg_name: &str) -> (r: Vec<String>)
    ensures
        strictly_ascending(texts(r@)),
        forall|t: Seq<char>| #[trigger]
            texts(r@).contains(t) <==> subs_from(lua_src@, 0, pkg_name@).contains(t),
{
    let cs = chars_of(lua_src);
    let word = chars_of("require");
    let ghost all = subs_from(cs@, 0, pkg_name@);
    let ghost mut seen: Seq<Seq<char>> = Seq::empty();
    let mut found: NameMap<bool> = NameMap::new();
    let mut i: usize = 0;
    assert(seen + subs_from(cs@, 0, pkg_name@) =~= all);
    while i < cs.len()
        invariant
            i <= cs@.len(),
            word@ == "require"@,
            all == seen + subs_from(cs@, i as int, pkg_name@),
            forall|t: Seq<char>| #[trigger] found@.dom().contains(t) <==> seen.contains(t),
        decreases cs@.len() - i,
    {
        proof {
            lemma_token_end(cs@, i as int);
        }
        let (j, sub) = token_at(&cs, i, &word, pkg_name);
        let ghost rest = subs_from(cs@, j as int, pkg_name@);
        let ghost seen0 = seen;
        if let Some(sub) = sub {
            let ghost sv = sub@;
            let ghost dom0 = found@.dom();
            found.insert(sub, true);
            proof {
                seen = seen0.push(sv);
                assert(seen0 + (seq![sv] + rest) =~= seen + rest);
                assert forall|t: Seq<char>| #[trigger]
                    found@.dom().contains(t) <==> seen.contains(t) by {
                    assert(dom0.contains(t) <==> seen0.contains(t));
                    if seen0.contains(t) {
                        let k = choose|k: int| 0 <= k < seen0.len() && seen0[k] == t;
                        assert(seen[k] == t);
                    }
                    if t == sv {
                        assert(seen[seen0.len() as int] == t);
                    }
                }
            }
        }
        i = j;
    }
    assert(all =~= seen);
    let n: usize = found.len();
    let ghost keys = found.keys();
    let mut out: Vec<String> = Vec::new();
    let mut k: usize = 0;
    while k < n
        invariant
            k <= n,
            n == keys.len(),
            keys == found.keys(),
            out@.len() == k,
            forall|j: int| 0 <= j < k ==> (#[trigger] out@[j])@ == keys[j],
        decreases n - k,
    {
        let (name, _) = found.at(k);
        out.push(name.clone());
        k = k + 1;
    }
    assert(texts(out@) =~= keys);
    assert forall|t: Seq<char>| #[trigger] texts(out@).contains(t) <==> all.contains(t) by {
        assert(found@.dom().contains(t) <==> keys.contains(t));
    }
    out
}

/// A comment requires nothing: neither one that goes to the end of its line
/// nor one in long brackets, whatever stands in it.
pub proof fn law_comments_require_nothing(code: Seq<char>, i: int, pkg: Seq<char>)
    requires
        is_comment(code, i),
    ensures
        subs_from(code, i, pkg) == subs_from(code, token_end(code, i), pkg),
{
}

/// A text requires nothing, whatever stands in it.
pub proof fn law_texts_require_nothing(code: Seq<char>, i: int, pkg: Seq<char>)
    requires
        0 <= i < code.len(),
        code[i] == '"' || code[i] == '\'' || opens_long(code, i),
        !is_comment(code, i),
    ensures
        subs_from(code, i, pkg) == subs_from(code, token_end(code, i), pkg),
{
}

/// Code that is one comment on one line requires nothing.
pub proof fn law_commented_line_requires_nothing(line: Seq<char>, pkg: Seq<char>)
    requires
        is_comment(line, 0),
        !opens_long(line, 2),
        !line.contains('\n'),
        !line.contains('\r'),
    ensures
        subs_from(line, 0, pkg) == Seq::<Seq<char>>::empty(),
{
    lemma_line_goes_on(line, 2);
    law_comments_require_nothing(line, 0, pkg);
}

proof fn lemma_line_goes_on(s: Seq<char>, i: int)
    requires
        0 <= i <= s.len(),
        !s.contains('\n'),
        !s.contains('\r'),
    ensures
        comment_end(s, i) == s.len(),
    decreases s.len() - i,
{
    if i < s.len() {
        assert(s.contains(s[i]));
        lemma_line_goes_on(s, i + 1);
    }
}

// ─── One package ────────────────────────────────────────────────

/// The state of a recorded package.
#[derive(Debug)]
pub enum DoctorOutcome {
    /// It is there, and so is what it requires of itself.
    Healthy,
    /// It is a link that leads nowhere.
    SymlinkDangling { reason: String, suggestion: String },
    /// It is not there.
    InstalledMissing { reason: String, suggestion: String },
    /// It is there, but modules that it requires of itself are not.
    IncompletePkg { missing_subs: Vec<String>, suggestion: String },
}

/// The content of a `DoctorOutcome`.
pub enum OutcomeView {
    Healthy,
    SymlinkDangling(Seq<char>, Seq<char>),
    InstalledMissing(Seq<char>, Seq<char>),
    IncompletePkg(Seq<Seq<char>>, Seq<char>),
}

impl View for DoctorOutcome {
    type V = OutcomeView;

    open spec fn view(&self) -> OutcomeView {
        match self {
            DoctorOutcome::Healthy => OutcomeView::Healthy,
            DoctorOutcome::SymlinkDangling { reason, suggestion } => OutcomeView::SymlinkDangling(
                reason@,
                suggestion@,
            ),
            DoctorOutcome::InstalledMissing { reason, suggestion } => OutcomeView::InstalledMissing(
                reason@,
                suggestion@,
            ),
            DoctorOutcome::IncompletePkg { missing_subs, suggestion } => OutcomeView::IncompletePkg(
                texts(missing_subs@),
                suggestion@,
            ),
        }
    }
}

/// What to do about a package that lacks modules.
pub open spec fn incomplete_advice(name: Seq<char>, is_symlink: bool) -> Seq<char> {
    if is_symlink {
        "Re-run alc_pkg_link <path> to re-link "@ + quoted(name)
            + " with the complete source directory"@
    } else {
        "Run alc_pkg_install --force "@ + quoted(name) + " to reinstall "@ + quoted(name)
            + " with all submodule files"@
    }
}

/// What to do about a package that lacks modules.
pub fn incomplete_pkg_suggestion(name: &str, is_symlink: bool) -> (r: String)
    ensures
        r@ == incomplete_advice(name@, is_symlink),
{
    let q = quote(name);
    if is_symlink {
        let mut r = "Re-run alc_pkg_link <path> to re-link ".to_owned();
        r.append(q.as_str());
        r.append(" with the complete source directory");
        r
    } else {
        let mut r = "Run alc_pkg_install --force ".to_owned();
        r.append(q.as_str());
        r.append(" to reinstall ");
        r.append(q.as_str());
        r.append(" with all submodule files");
        r
    }
}

/// What to do about a package that is gone, by the origin that is recorded.
pub open spec fn missing_advice(name: Seq<char>, source: SourceView) -> Seq<char> {
    match source {
        SourceView::Bundled(_) => "alc_init (reinstalls bundled packages from the algocline binary)"@,
        SourceView::Path(path) => "alc_pkg_install("@ + quoted(path) + ") to reinstall "@ + quoted(
            name,
        ) + " from local path"@,
        SourceView::Git(url, _) => "alc_pkg_install("@ + quoted(url) + ") to reinstall "@ + quoted(
            name,
        ) + " from Git"@,
        SourceView::Installed => "alc_pkg_install <path-or-url> to re-record source for "@ + quoted(
            name,
        ) + " (legacy 'installed' marker carries no path)"@,
        SourceView::Unknown => "alc_hub_reindex then alc_pkg_install <path-or-url> for "@ + quoted(
            name,
        ) + " (source unknown — legacy entry)"@,
    }
}

/// What to do about a package that is gone, by the origin that is recorded.
pub fn installed_missing_suggestion(name: &str, source: &PackageSource) -> (r: String)
    ensures
        r@ == missing_advice(name@, source@),
{
    let q = quote(name);
    match source {
        PackageSource::Bundled { collection: _ } => {
            "alc_init (reinstalls bundled packages from the algocline binary)".to_owned()
        },
        PackageSource::Path { path } => {
            let p = quote(path.as_str());
            let mut r = "alc_pkg_install(".to_owned();
            r.append(p.as_str());
            r.append(") to reinstall ");
            r.append(q.as_str());
            r.append(" from local path");
            r
        },
        PackageSource::Git { url, rev: _ } => {
            let u = quote(url.as_str());
            let mut r = "alc_pkg_install(".to_owned();
            r.append(u.as_str());
            r.append(") to reinstall ");
            r.append(q.as_str());
            r.append(" from Git");
            r
        },
        PackageSource::Installed => {
            let mut r = "alc_pkg_install <path-or-url> to re-record source for ".to_owned();
            r.append(q.as_str());
            r.append(" (legacy 'installed' marker carries no path)");
            r
        },
        PackageSource::Unknown => {
            let mut r = "alc_hub_reindex then alc_pkg_install <path-or-url> for ".to_owned();
            r.append(q.as_str());
            r.append(" (source unknown — legacy entry)");
            r
        },
    }
}

/// The required submodules that are not there: those of the first `n` that are
/// present neither as a file nor as a directory.
pub open spec fn absent_subs(subs: Seq<Seq<char>>, present: Seq<bool>, n: int) -> Seq<Seq<char>>
    decreases n,
{
    if n <= 0 {
        Seq::empty()
    } else if present[n - 1] {
        absent_subs(subs, present, n - 1)
    } else {
        absent_subs(subs, present, n - 1).push(subs[n - 1])
    }
}

/// What is wrong with the package where some of the submodules that it requires
/// are not there.
pub fn check_incomplete(name: &str, subs: &Vec<String>, present: &Vec<bool>, is_symlink: bool) -> (r:
    Option<DoctorOutcome>)
    requires
        present@.len() == subs@.len(),
    ensures
        match r {
            Some(o) => absent_subs(texts(subs@), present@, subs@.len() as int).len() > 0 && o@
                == OutcomeView::IncompletePkg(
                absent_subs(texts(subs@), present@, subs@.len() as int),
                incomplete_advice(name@, is_symlink),
            ),
            None => absent_subs(texts(subs@), present@, subs@.len() as int).len() == 0,
        },
{
    let mut missing: Vec<String> = Vec::new();
    let mut i: usize = 0;
    assert(texts(missing@) =~= Seq::empty());
    while i < subs.len()
        invariant
            i <= subs@.len(),
            present@.len() == subs@.len(),
            texts(missing@) == absent_subs(texts(subs@), present@, i as int),
        decreases subs@.len() - i,
    {
        let ghost before = missing@;
        if !present[i] {
            missing.push(subs[i].clone());
            assert(texts(missing@) =~= texts(before).push(texts(subs@)[i as int]));
        }
        i = i + 1;
    }
    assert(texts(missing@).len() == missing@.len());
    if missing.len() == 0 {
        None
    } else {
        Some(
            DoctorOutcome::IncompletePkg {
                missing_subs: missing,
                suggestion: incomplete_pkg_suggestion(name, is_symlink),
            },
        )
    }
}

/// What was found of a recorded package: what stands at `dest`, and the
/// submodules that it requires, each with whether it is there. Where its code
/// cannot be read it requires nothing.
#[derive(Debug)]
pub struct InstalledState {
    pub name: String,
    pub source: PackageSource,
    pub dest: String,
    pub place: PlaceFact,
    pub subs: Vec<String>,
    pub present: Vec<bool>,
}

impl InstalledState {
    /// Whether each submodule is there is known.
    pub open spec fn well_formed(self) -> bool {
        self.present@.len() == self.subs@.len()
    }
}

/// The state of a recorded package.
pub open spec fn diagnosis(s: InstalledState) -> OutcomeView {
    let absent = absent_subs(texts(s.subs@), s.present@, s.subs@.len() as int);
    if s.place.alive {
        if absent.len() > 0 {
            OutcomeView::IncompletePkg(absent, incomplete_advice(s.name@, s.place.is_symlink))
        } else {
            OutcomeView::Healthy
        }
    } else if s.place.is_symlink {
        OutcomeView::SymlinkDangling(
            dangling_reason(opt_text(s.place.link_target)),
            dangling_advice(s.name@),
        )
    } else {
        OutcomeView::InstalledMissing(
            "installed directory missing: "@ + s.dest@,
            missing_advice(s.name@, s.source@),
        )
    }
}

/// The state of a recorded package.
pub fn classify_installed(s: &InstalledState) -> (r: DoctorOutcome)
    requires
        s.well_formed(),
    ensures
        r@ == diagnosis(*s),
{
    let name = s.name.as_str();
    if s.place.alive {
        match check_incomplete(name, &s.subs, &s.present, s.place.is_symlink) {
            Some(o) => o,
            None => DoctorOutcome::Healthy,
        }
    } else if s.place.is_symlink {
        DoctorOutcome::SymlinkDangling {
            reason: reason_for_dangling(&s.place.link_target),
            suggestion: symlink_dangling_suggestion(name),
        }
    } else {
        let mut reason = "installed directory missing: ".to_owned();
        reason.append(s.dest.as_str());
        DoctorOutcome::InstalledMissing {
            reason,
            suggestion: installed_missing_suggestion(name, &s.source),
        }
    }
}

// ─── All packages ───────────────────────────────────────────────

/// The entries of the diagnosis, by what is wrong.
#[derive(Debug)]
pub struct DoctorBuckets {
    pub healthy: Vec<Json>,
    pub installed_missing: Vec<Json>,
    pub symlink_dangling: Vec<Json>,
    pub path_missing: Vec<Json>,
    pub incomplete_pkg: Vec<Json>,
}

/// The content of `DoctorBuckets`.
#[verifier::ext_equal]
pub struct BucketsView {
    pub healthy: Seq<JsonView>,
    pub installed_missing: Seq<JsonView>,
    pub symlink_dangling: Seq<JsonView>,
    pub path_missing: Seq<JsonView>,
    pub incomplete_pkg: Seq<JsonView>,
}

impl View for DoctorBuckets {
    type V = BucketsView;

    open spec fn view(&self) -> BucketsView {
        BucketsView {
            healthy: views(self.healthy@),
            installed_missing: views(self.installed_missing@),
            symlink_dangling: views(self.symlink_dangling@),
            path_missing: views(self.path_missing@),
            incomplete_pkg: views(self.incomplete_pkg@),
        }
    }
}

impl BucketsView {
    pub open spec fn empty() -> BucketsView {
        BucketsView {
            healthy: Seq::empty(),
            installed_missing: Seq::empty(),
            symlink_dangling: Seq::empty(),
            path_missing: Seq::empty(),
            incomplete_pkg: Seq::empty(),
        }
    }

    /// Some bucket holds an entry.
    pub open spec fn matched(self) -> bool {
        ||| self.healthy.len() > 0
        ||| self.installed_missing.len() > 0
        ||| self.symlink_dangling.len() > 0
        ||| self.path_missing.len() > 0
        ||| self.incomplete_pkg.len() > 0
    }

    /// The diagnosis as a document: all five buckets, whether or not they are
    /// empty.
    pub open spec fn json(self) -> JsonView {
        JsonView::Object(
            seq![
                ("healthy"@, JsonView::Array(self.healthy)),
                ("incomplete_pkg"@, JsonView::Array(self.incomplete_pkg)),
                ("installed_missing"@, JsonView::Array(self.installed_missing)),
                ("symlink_dangling"@, JsonView::Array(self.symlink_dangling)),
                ("path_missing"@, JsonView::Array(self.path_missing)),
            ],
        )
    }
}

/// The entry of a finding about the package `name`.
pub open spec fn fault_entry(
    name: Seq<char>,
    kind: Seq<char>,
    reason: Seq<char>,
    suggestion: Seq<char>,
) -> JsonView {
    JsonView::Object(
        seq![
            ("name"@, JsonView::Text(name)),
            ("kind"@, JsonView::Text(kind)),
            ("reason"@, JsonView::Text(reason)),
            ("suggestion"@, JsonView::Text(suggestion)),
        ],
    )
}

/// The entry of a package that lacks modules.
pub open spec fn incomplete_entry(
    name: Seq<char>,
    missing: Seq<Seq<char>>,
    suggestion: Seq<char>,
) -> JsonView {
    JsonView::Object(
        seq![
            ("name"@, JsonView::Text(name)),
            ("kind"@, JsonView::Text("incomplete_pkg"@)),
            ("missing_subs"@, JsonView::Array(text_views(missing))),
            ("suggestion"@, JsonView::Text(suggestion)),
        ],
    )
}

/// The buckets with the state `o` of the package `name`.
pub open spec fn with_outcome(b: BucketsView, name: Seq<char>, o: OutcomeView) -> BucketsView {
    match o {
        OutcomeView::Healthy => BucketsView {
            healthy: b.healthy.push(JsonView::Object(seq![("name"@, JsonView::Text(name))])),
            ..b
        },
        OutcomeView::SymlinkDangling(reason, suggestion) => BucketsView {
            symlink_dangling: b.symlink_dangling.push(
                fault_entry(name, "symlink_dangling"@, reason, suggestion),
            ),
            ..b
        },
        OutcomeView::InstalledMissing(reason, suggestion) => BucketsView {
            installed_missing: b.installed_missing.push(
                fault_entry(name, "installed_missing"@, reason, suggestion),
            ),
            ..b
        },
        OutcomeView::IncompletePkg(missing, suggestion) => BucketsView {
            incomplete_pkg: b.incomplete_pkg.push(incomplete_entry(name, missing, suggestion)),
            ..b
        },
    }
}

fn fault_json(name: &str, kind: &str, reason: String, suggestion: String) -> (r: Json)
    ensures
        r@ == fault_entry(name@, kind@, reason@, suggestion@),
{
    let ghost (a, b) = (reason@, suggestion@);
    let r = Json::object().with("name", Json::text(name)).with("kind", Json::text(kind)).with(
        "reason",
        Json::Text(reason),
    ).with("suggestion", Json::Text(suggestion));
    assert(r@.members() =~= fault_entry(name@, kind@, a, b).members());
    r
}

impl Default for DoctorBuckets {
    fn default() -> (r: DoctorBuckets)
        ensures
            r@ == BucketsView::empty(),
    {
        DoctorBuckets::new()
    }
}

impl DoctorBuckets {
    pub fn new() -> (r: DoctorBuckets)
        ensures
            r@ == BucketsView::empty(),
    {
        let r = DoctorBuckets {
            healthy: Vec::new(),
            installed_missing: Vec::new(),
            symlink_dangling: Vec::new(),
            path_missing: Vec::new(),
            incomplete_pkg: Vec::new(),
        };
        assert(r@ =~= BucketsView::empty());
        r
    }

    /// Some bucket holds an entry.
    pub fn any_matched(&self) -> (r: bool)
        ensures
            r == self@.matched(),
    {
        assert(views(self.healthy@).len() == self.healthy@.len());
        assert(views(self.installed_missing@).len() == self.installed_missing@.len());
        assert(views(self.symlink_dangling@).len() == self.symlink_dangling@.len());
        assert(views(self.path_missing@).len() == self.path_missing@.len());
        assert(views(self.incomplete_pkg@).len() == self.incomplete_pkg@.len());
        self.healthy.len() > 0 || self.installed_missing.len() > 0 || self.symlink_dangling.len()
            > 0 || self.path_missing.len() > 0 || self.incomplete_pkg.len() > 0
    }

    /// Takes the state of the package `name` into account.
    pub fn push_doctor_outcome(&mut self, name: &str, outcome: DoctorOutcome)
        ensures
            final(self)@ == with_outcome(old(self)@, name@, outcome@),
    {
        let ghost b0 = self@;
        let ghost o = outcome@;
        match outcome {
            DoctorOutcome::Healthy => {
                let j = Json::object().with("name", Json::text(name));
                assert(j@.members() =~= seq![("name"@, JsonView::Text(name@))]);
                self.healthy.push(j);
            },
            DoctorOutcome::SymlinkDangling { reason, suggestion } => {
                let j = fault_json(name, "symlink_dangling", reason, suggestion);
                self.symlink_dangling.push(j);
            },
            DoctorOutcome::InstalledMissing { reason, suggestion } => {
                let j = fault_json(name, "installed_missing", reason, suggestion);
                self.installed_missing.push(j);
            },
            DoctorOutcome::IncompletePkg { missing_subs, suggestion } => {
                let ghost (a, b) = (texts(missing_subs@), suggestion@);
                let j = Json::object().with("name", Json::text(name)).with(
                    "kind",
                    Json::text("incomplete_pkg"),
                ).with("missing_subs", Json::texts(&missing_subs)).with(
                    "suggestion",
                    Json::Text(suggestion),
                );
                assert(j@.members() =~= incomplete_entry(name@, a, b).members());
                self.incomplete_pkg.push(j);
            },
        }
        assert(self@ =~= with_outcome(b0, name@, o));
    }

    /// The diagnosis as a document.
    pub fn into_json(self) -> (r: Json)
        ensures
            r@ == self@.json(),
    {
        let ghost b = self@;
        let r = Json::object().with("healthy", Json::array(self.healthy)).with(
            "incomplete_pkg",
            Json::array(self.incomplete_pkg),
        ).with("installed_missing", Json::array(self.installed_missing)).with(
            "symlink_dangling",
            Json::array(self.symlink_dangling),
        ).with("path_missing", Json::array(self.path_missing));
        assert(r@.members() =~= b.json().members());
        r
    }
}

/// The buckets with the states of all recorded packages that are meant.
pub open spec fn after_records(
    b: BucketsView,
    states: Seq<InstalledState>,
    target: Option<Seq<char>>,
) -> BucketsView
    decreases states.len(),
{
    if states.len() == 0 {
        b
    } else {
        let before = after_records(b, states.drop_last(), target);
        let s = states.last();
        if is_meant(target, s.name@) {
            with_outcome(before, s.name@, diagnosis(s))
        } else {
            before
        }
    }
}

/// Findings as documents.
pub open spec fn finding_docs(v: Seq<Finding>) -> Seq<JsonView> {
    finding_views(v).map_values(|f: FindingView| finding_json(f))
}

/// All buckets: the recorded packages that are meant, the links that nothing
/// records, and the declared directories that are gone.
pub open spec fn full_diagnosis(
    states: Seq<InstalledState>,
    target: Option<Seq<char>>,
    dangling: Seq<Finding>,
    gone: Seq<Finding>,
) -> BucketsView {
    let b = after_records(BucketsView::empty(), states, target);
    BucketsView {
        symlink_dangling: b.symlink_dangling + finding_docs(dangling),
        path_missing: b.path_missing + finding_docs(gone),
        ..b
    }
}

/// The diagnosis of all packages, or of the one that is asked for; an error
/// where that one turns up nowhere.
pub fn diagnose(
    states: &Vec<InstalledState>,
    target: Option<&str>,
    dangling: &Vec<Finding>,
    gone: &Vec<Finding>,
) -> (r: Result<Json, String>)
    requires
        forall|i: int| 0 <= i < states@.len() ==> (#[trigger] states@[i]).well_formed(),
    ensures
        match r {
            Ok(doc) => (target is None || full_diagnosis(
                states@,
                opt_str(target),
                dangling@,
                gone@,
            ).matched()) && doc@ == full_diagnosis(
                states@,
                opt_str(target),
                dangling@,
                gone@,
            ).json(),
            Err(m) => !full_diagnosis(states@, opt_str(target), dangling@, gone@).matched() && (
            match target {
                Some(t) => m@ == not_found_text(t@),
                None => false,
            }),
        },
{
    let mut b = DoctorBuckets::new();
    let mut i: usize = 0;
    assert(states@.take(0) =~= Seq::empty());
    while i < states.len()
        invariant
            i <= states@.len(),
            forall|k: int| 0 <= k < states@.len() ==> (#[trigger] states@[k]).well_formed(),
            b@ == after_records(BucketsView::empty(), states@.take(i as int), opt_str(target)),
        decreases states@.len() - i,
    {
        assert(states@.take(i + 1).drop_last() =~= states@.take(i as int));
        assert(states@[i as int].well_formed());
        if meant(target, states[i].name.as_str()) {
            let o = classify_installed(&states[i]);
            b.push_doctor_outcome(states[i].name.as_str(), o);
        }
        i = i + 1;
    }
    assert(states@.take(states@.len() as int) =~= states@);
    let ghost b0 = b@;
    add_findings(&mut b.symlink_dangling, dangling);
    add_findings(&mut b.path_missing, gone);
    assert(b@ =~= full_diagnosis(states@, opt_str(target), dangling@, gone@));
    if let Some(t) = target {
        if !b.any_matched() {
            return Err(not_found(t));
        }
    }
    Ok(b.into_json())
}

// ─── Laws ───────────────────────────────────────────────────────

/// How many entries the buckets of recorded packages hold.
pub open spec fn record_count(b: BucketsView) -> nat {
    b.healthy.len() + b.installed_missing.len() + b.symlink_dangling.len() + b.incomplete_pkg.len()
}

/// Every recorded package that is meant stands in exactly one bucket.
pub proof fn law_every_record_is_classified(
    b: BucketsView,
    states: Seq<InstalledState>,
    target: Option<Seq<char>>,
)
    ensures
        record_count(after_records(b, states, target)) == record_count(b) + states.filter(
            |s: InstalledState| is_meant(target, s.name@),
        ).len(),
    decreases states.len(),
{
    reveal(Seq::filter);
    if states.len() > 0 {
        law_every_record_is_classified(b, states.drop_last(), target);
    }
}

/// A package that lacks a module is not called healthy.
pub proof fn law_healthy_lacks_nothing(s: InstalledState, i: int)
    requires
        s.well_formed(),
        diagnosis(s) is Healthy,
        0 <= i < s.subs@.len(),
    ensures
        s.place.alive,
        s.present@[i],
{
    lemma_absent_none(texts(s.subs@), s.present@, s.subs@.len() as int, i);
}

proof fn lemma_absent_none(subs: Seq<Seq<char>>, present: Seq<bool>, n: int, i: int)
    requires
        absent_subs(subs, present, n).len() == 0,
        0 <= i < n,
    ensures
        present[i],
    decreases n,
{
    if i < n - 1 {
        lemma_absent_none(subs, present, n - 1, i);
    }
}

} // verus!
