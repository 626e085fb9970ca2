//! Which modules code requires.

use vstd::prelude::*;
use crate::doctor::{
    after_blanks, after_equals, closes_long, comment_end, is_comment, is_lua_blank, is_member,
    is_word_char, long_end, long_level, opens_long, place_before, plain_end, quoted_argument,
    sub_at, subs_from, text_end, token_end, word_end,
};
use crate::names::is_alphanumeric;

verus! {

/// The characters from `i` to `j` are spaces and tabs.
pub open spec fn are_blanks(s: Seq<char>, i: int, j: int) -> bool {
    &&& 0 <= i <= j <= s.len()
    &&& forall|k: int| i <= k < j ==> #[trigger] s[k] == ' ' || s[k] == '\t'
}

/// Blanks are passed over up to the first other character.
pub proof fn law_blanks_are_passed_over(s: Seq<char>, i: int, j: int)
    requires
        0 <= i <= s.len(),
    ensures
        are_blanks(s, i, after_blanks(s, i)),
        after_blanks(s, i) < s.len() ==> s[after_blanks(s, i)] != ' ' && s[after_blanks(s, i)]
            != '\t',
        are_blanks(s, i, j) && (j < s.len() ==> s[j] != ' ' && s[j] != '\t') ==> after_blanks(s, i)
            == j,
    decreases s.len() - i,
{
    if i < s.len() && (s[i] == ' ' || s[i] == '\t') {
        law_blanks_are_passed_over(s, i + 1, j);
        if are_blanks(s, i, j) && (j < s.len() ==> s[j] != ' ' && s[j] != '\t') {
            assert(are_blanks(s, i + 1, j));
        }
    } else if are_blanks(s, i, j) && i < j {
        assert(s[i] == ' ' || s[i] == '\t');
    }
}

/// A word goes on as long as letters, digits and underscores do.
pub proof fn law_where_a_word_ends(s: Seq<char>, i: int)
    requires
        0 <= i <= s.len(),
    ensures
        i <= word_end(s, i) <= s.len(),
        forall|k: int|
            i <= k < word_end(s, i) ==> is_alphanumeric(#[trigger] s[k]) || s[k] == '_',
        word_end(s, i) < s.len() ==> !is_alphanumeric(s[word_end(s, i)]) && s[word_end(s, i)] != '_',
    decreases s.len() - i,
{
    if i < s.len() && is_word_char(s[i]) {
        law_where_a_word_ends(s, i + 1);
    }
}

/// What stands before a place is the last character that is not blank.
pub proof fn law_what_stands_before(s: Seq<char>, i: int)
    requires
        0 <= i <= s.len(),
    ensures
        place_before(s, i) is None <==> forall|k: int| 0 <= k < i ==> is_lua_blank(#[trigger] s[k]),
        place_before(s, i) matches Some(k) ==> 0 <= k < i && !is_lua_blank(s[k]) && forall|j: int|
            k < j < i ==> is_lua_blank(#[trigger] s[j]),
    decreases i,
{
    if i > 0 && is_lua_blank(s[i - 1]) {
        law_what_stands_before(s, i - 1);
    } else if i > 0 {
        assert(!is_lua_blank(s[i - 1]));
    }
}

/// The blanks of code, and what makes a word a member: one dot or one colon before
/// it, not two.
pub proof fn law_members_follow_a_dot(s: Seq<char>, i: int, c: char)
    ensures
        is_lua_blank(c) <==> c == ' ' || c == '\t' || c == '\n' || c == '\r' || c == '\x0b' || c
            == '\x0c',
        is_member(s, i) <==> place_before(s, i) is Some && ({
            let k = place_before(s, i)->Some_0;
            (s[k] == '.' || s[k] == ':') && (k == 0 || s[k - 1] != s[k] || k < 0)
        }),
{
}

/// The text `t` stands alone in quotes in the parentheses at `a`, behind blanks from
/// `i` on: the quote opens at `b` and the parentheses close at `c`.
pub open spec fn is_argument(s: Seq<char>, i: int, a: int, b: int, c: int, t: Seq<char>) -> bool {
    let e = b + 1 + t.len();
    &&& are_blanks(s, i, a) && a < s.len() && s[a] == '('
    &&& are_blanks(s, a + 1, b) && b < s.len() && (s[b] == '"' || s[b] == '\'')
    &&& e < s.len() && s.subrange(b + 1, e) == t && s[e] == s[b]
    &&& forall|k: int|
        b < k < e ==> #[trigger] s[k] != s[b] && s[k] != '\\' && s[k] != '\n' && s[k] != '\r'
    &&& are_blanks(s, e + 1, c) && c < s.len() && s[c] == ')'
}

/// A text is the argument exactly where it stands alone in quotes, on one line and
/// without a backslash, in the parentheses that follow.
pub proof fn law_what_the_argument_is(s: Seq<char>, i: int, t: Seq<char>)
    requires
        0 <= i <= s.len(),
    ensures
        quoted_argument(s, i) == Some(t) <==> exists|a: int, b: int, c: int| #[trigger]
            is_argument(s, i, a, b, c, t),
{
    let a = after_blanks(s, i);
    law_blanks_are_passed_over(s, i, a);
    if a < s.len() {
        law_blanks_are_passed_over(s, a + 1, a + 1);
    }
    let b = after_blanks(s, a + 1);
    if quoted_argument(s, i) == Some(t) {
        lemma_plain_end(s, s[b], b + 1, 0);
        let e = plain_end(s, s[b], b + 1)->Some_0;
        law_blanks_are_passed_over(s, e + 1, e + 1);
        let c = after_blanks(s, e + 1);
        assert(t.len() == e - b - 1);
        assert(is_argument(s, i, a, b, c, t));
    }
    if exists|a: int, b: int, c: int| #[trigger] is_argument(s, i, a, b, c, t) {
        let (x, y, z) = choose|x: int, y: int, z: int| #[trigger] is_argument(s, i, x, y, z, t);
        law_blanks_are_passed_over(s, i, x);
        assert(x == a);
        law_blanks_are_passed_over(s, a + 1, y);
        assert(y == b);
        let e = b + 1 + t.len();
        lemma_plain_end(s, s[b], b + 1, e);
        law_blanks_are_passed_over(s, e + 1, z);
    }
}

proof fn lemma_plain_end(s: Seq<char>, q: char, i: int, e: int)
    requires
        0 <= i <= s.len(),
    ensures
        plain_end(s, q, i) matches Some(x) ==> i <= x < s.len() && s[x] == q && forall|k: int|
            i <= k < x ==> #[trigger] s[k] != q && s[k] != '\\' && s[k] != '\n' && s[k] != '\r',
        i <= e < s.len() && s[e] == q && (forall|k: int|
            i <= k < e ==> #[trigger] s[k] != q && s[k] != '\\' && s[k] != '\n' && s[k] != '\r')
            ==> plain_end(s, q, i) == Some(e),
    decreases s.len() - i,
{
    if i < s.len() && s[i] != q && s[i] != '\\' && s[i] != '\n' && s[i] != '\r' {
        lemma_plain_end(s, q, i + 1, e);
    }
}

/// A word requires a submodule exactly where it is `require`, called by its own name
/// outside of comments and long texts, with the package, a dot and the submodule's
/// name as its argument.
pub proof fn law_what_a_word_requires(s: Seq<char>, i: int, pkg: Seq<char>, sub: Seq<char>)
    requires
        0 <= i < s.len(),
    ensures
        sub_at(s, i, pkg) == Some(sub) <==> !is_comment(s, i) && !opens_long(s, i) && is_word_char(
            s[i],
        ) && s.subrange(i, word_end(s, i)) == "require"@ && !is_member(s, i) && quoted_argument(
            s,
            word_end(s, i),
        ) == Some(pkg + "."@ + sub) && sub.len() > 0 && !sub.contains('.'),
{
    if let Some(m) = quoted_argument(s, word_end(s, i)) {
        crate::laws::doctor::law_direct_submodules(m, pkg, sub);
    }
}

/// Code requires what its first word does, and what the code behind it does; nothing
/// where it has ended.
pub proof fn law_every_word_is_read(s: Seq<char>, i: int, pkg: Seq<char>)
    ensures
        i >= s.len() ==> subs_from(s, i, pkg).len() == 0,
        0 <= i < s.len() ==> (sub_at(s, i, pkg) matches Some(sub) ==> subs_from(s, i, pkg) == seq![
            sub,
        ] + subs_from(s, token_end(s, i), pkg)),
        0 <= i < s.len() && sub_at(s, i, pkg) is None ==> subs_from(s, i, pkg) == subs_from(
            s,
            token_end(s, i),
            pkg,
        ),
{
}

// ─── What is passed over ────────────────────────────────────────

/// The equals signs from `i` on go up to the first other character.
pub proof fn law_equals_signs(s: Seq<char>, i: int, j: int)
    requires
        0 <= i <= s.len(),
    ensures
        i <= after_equals(s, i) <= s.len(),
        forall|k: int| i <= k < after_equals(s, i) ==> #[trigger] s[k] == '=',
        after_equals(s, i) < s.len() ==> s[after_equals(s, i)] != '=',
        i <= j <= s.len() && (forall|k: int| i <= k < j ==> #[trigger] s[k] == '=') && (j < s.len()
            ==> s[j] != '=') ==> after_equals(s, i) == j,
    decreases s.len() - i,
{
    if i < s.len() && s[i] == '=' {
        law_equals_signs(s, i + 1, j);
    }
}

/// The characters from `i` on are a bracket, `n` equals signs and the bracket again.
pub open spec fn is_long_mark(s: Seq<char>, i: int, n: int, bracket: char) -> bool {
    &&& 0 <= i && 0 <= n && i + n + 1 < s.len()
    &&& s[i] == bracket && s[i + n + 1] == bracket
    &&& forall|k: int| i < k < i + n + 1 ==> #[trigger] s[k] == '='
}

/// A long bracket opens where two brackets stand with any number of equals signs
/// between them, and its level is that number; it closes where the same number
/// stands between two closing ones.
pub proof fn law_long_brackets(s: Seq<char>, i: int, n: int)
    requires
        0 <= i < s.len(),
    ensures
        opens_long(s, i) <==> exists|m: int| #[trigger] is_long_mark(s, i, m, '['),
        is_long_mark(s, i, n, '[') ==> long_level(s, i) == n,
        n >= 0 ==> (closes_long(s, i, n) <==> is_long_mark(s, i, n, ']')),
{
    law_equals_signs(s, i + 1, i + n + 1);
    if opens_long(s, i) {
        assert(is_long_mark(s, i, long_level(s, i), '['));
    }
    if exists|m: int| #[trigger] is_long_mark(s, i, m, '[') {
        let m = choose|m: int| #[trigger] is_long_mark(s, i, m, '[');
        law_equals_signs(s, i + 1, i + m + 1);
    }
}

/// A long text goes up to the first bracket that closes it, or to the end of the code.
pub proof fn law_where_a_long_text_ends(s: Seq<char>, i: int, n: int, e: int)
    requires
        0 <= i,
        0 <= n,
    ensures
        i <= e < s.len() && closes_long(s, e, n) && (forall|k: int|
            i <= k < e ==> !#[trigger] closes_long(s, k, n)) ==> long_end(s, i, n) == e + n + 2,
        (forall|k: int| i <= k < s.len() ==> !#[trigger] closes_long(s, k, n)) ==> long_end(s, i, n)
            == s.len(),
    decreases s.len() - i,
{
    if i < s.len() && !closes_long(s, i, n) {
        law_where_a_long_text_ends(s, i + 1, n, e);
    }
}

/// A text in quotes goes up to the next quote of its kind that no backslash stands
/// before, or to the end of the code.
pub proof fn law_where_a_text_ends(s: Seq<char>, i: int, q: char, e: int)
    requires
        0 <= i,
    ensures
        q != '\\' && i <= e < s.len() && s[e] == q && (forall|k: int|
            i <= k < e ==> #[trigger] s[k] != q && s[k] != '\\') ==> text_end(s, i, q) == e + 1,
        i + 1 < s.len() && s[i] == '\\' ==> text_end(s, i, q) == text_end(s, i + 2, q),
        (forall|k: int| i <= k < s.len() ==> #[trigger] s[k] != q && s[k] != '\\') ==> text_end(
            s,
            i,
            q,
        ) == s.len(),
    decreases s.len() - i,
{
    if i < s.len() && s[i] != q && s[i] != '\\' {
        law_where_a_text_ends(s, i + 1, q, e);
    }
}

/// What a place begins is passed over whole: a comment of a line or of brackets, a
/// text in quotes or in brackets, a word, or one character.
pub proof fn law_what_is_passed_over_whole(s: Seq<char>, i: int)
    requires
        0 <= i < s.len(),
    ensures
        ({
            let comment = i + 1 < s.len() && s[i] == '-' && s[i + 1] == '-';
            let e = token_end(s, i);
            &&& is_comment(s, i) <==> comment
            &&& comment && !opens_long(s, i + 2) ==> e == comment_end(s, i + 2)
            &&& comment && opens_long(s, i + 2) ==> e == long_end(
                s,
                i + 4 + long_level(s, i + 2),
                long_level(s, i + 2),
            )
            &&& s[i] == '"' || s[i] == '\'' ==> e == text_end(s, i + 1, s[i])
            &&& opens_long(s, i) ==> e == long_end(s, i + 2 + long_level(s, i), long_level(s, i))
            &&& is_word_char(s[i]) ==> e == word_end(s, i)
            &&& !comment && s[i] != '"' && s[i] != '\'' && !opens_long(s, i) && !is_word_char(s[i])
                ==> e == i + 1
        }),
        is_word_char(s[i]) <==> is_alphanumeric(s[i]) || s[i] == '_',
{
}

} // verus!
