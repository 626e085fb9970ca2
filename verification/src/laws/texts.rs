//! How texts are searched, trimmed and spelled.

use vstd::prelude::*;
use crate::text::{
    after_last, decimal, digit_char, first_word, is_blank, joined, leading_word, lower, lower_char,
    occurs_at, occurs_in, signed_padded, spelled, trimmed, trimmed_end, trimmed_end_of,
    trimmed_start, zero_padded,
};
use vstd::arithmetic::div_mod::{lemma_fundamental_div_mod, lemma_mod_bound};

verus! {

/// A part stands in a text exactly where the text is made of it and what goes before
/// and behind.
pub proof fn law_what_stands_in_a_text(s: Seq<char>, p: Seq<char>)
    ensures
        occurs_in(s, p) <==> exists|a: Seq<char>, b: Seq<char>| s == #[trigger] (a + p + b),
{
    if occurs_in(s, p) {
        let i = choose|i: int| occurs_at(s, p, i);
        let a = s.take(i);
        let b = s.skip(i + p.len());
        assert(s =~= a + p + b);
    }
    if exists|a: Seq<char>, b: Seq<char>| s == #[trigger] (a + p + b) {
        let (a, b) = choose|a: Seq<char>, b: Seq<char>| s == #[trigger] (a + p + b);
        assert(s.subrange(a.len() as int, a.len() as int + p.len()) =~= p);
        assert(occurs_at(s, p, a.len() as int));
    }
}

/// One more text is joined behind the others with the separator before it, or alone
/// where there are no others.
pub proof fn law_texts_are_joined(parts: Seq<Seq<char>>, p: Seq<char>, sep: Seq<char>)
    ensures
        joined(Seq::empty(), sep).len() == 0,
        joined(seq![p], sep) == p,
        parts.len() > 0 ==> joined(parts.push(p), sep) == joined(parts, sep) + sep + p,
{
    assert(parts.push(p).drop_last() =~= parts);
}

// ─── Numbers ────────────────────────────────────────────────────

/// The digit that a character spells.
pub open spec fn digit_value(c: char) -> int {
    if '0' <= c && c <= '9' {
        c as int - '0' as int
    } else {
        c as int - 'a' as int + 10
    }
}

/// The number that digits spell in a base.
pub open spec fn value_of(s: Seq<char>, base: int) -> int
    decreases s.len(),
{
    if s.len() == 0 {
        0
    } else {
        value_of(s.drop_last(), base) * base + digit_value(s.last())
    }
}

/// The character is a digit of the base.
pub open spec fn is_digit_of(c: char, base: int) -> bool {
    (('0' <= c && c <= '9') || ('a' <= c && c <= 'f')) && digit_value(c) < base
}

/// The spelling of a number reads back as the number, in digits of the base and
/// without a leading zero.
pub proof fn law_spelled_numbers_read_back(n: nat, base: nat)
    requires
        2 <= base <= 16,
    ensures
        value_of(spelled(n, base), base as int) == n,
        spelled(n, base).len() > 0,
        forall|i: int|
            0 <= i < spelled(n, base).len() ==> is_digit_of(#[trigger] spelled(n, base)[i], base as int),
        n > 0 ==> spelled(n, base)[0] != '0',
        n == 0 ==> spelled(n, base) == seq!['0'],
    decreases n,
{
    let s = spelled(n, base);
    if n < base {
        lemma_digit(n as int);
        assert(s.drop_last() =~= Seq::empty());
        assert(value_of(s, base as int) == value_of(Seq::empty(), base as int) * base + n);
        assert(value_of(Seq::empty(), base as int) == 0);
        assert(0 * base == 0) by (nonlinear_arith);
    } else {
        let q = n / base;
        let r = n % base;
        assert(q < n) by (nonlinear_arith)
            requires
                q == n / base,
                n >= base,
                base >= 2,
        ;
        assert(q > 0) by (nonlinear_arith)
            requires
                q == n / base,
                n >= base,
                base >= 2,
        ;
        law_spelled_numbers_read_back(q, base);
        lemma_mod_bound(n as int, base as int);
        lemma_fundamental_div_mod(n as int, base as int);
        lemma_digit(r as int);
        let before = spelled(q, base);
        assert(s == before.push(digit_char(r as int)));
        assert(s.drop_last() =~= before);
        assert(q * base == base * q) by (nonlinear_arith);
        assert(s[0] == before[0]);
        assert forall|i: int| 0 <= i < s.len() implies is_digit_of(#[trigger] s[i], base as int) by {
            if i < before.len() {
                assert(s[i] == before[i]);
            }
        }
    }
}

proof fn lemma_digit(d: int)
    requires
        0 <= d < 16,
    ensures
        digit_value(digit_char(d)) == d,
        ('0' <= digit_char(d) && digit_char(d) <= '9') || ('a' <= digit_char(d) && digit_char(d)
            <= 'f'),
        d > 0 ==> digit_char(d) != '0',
        digit_char(0) == '0',
{
}

/// The decimal spelling of a number reads back as the number.
pub proof fn law_decimals_read_back(n: nat)
    ensures
        value_of(decimal(n), 10) == n,
        n > 0 ==> decimal(n)[0] != '0',
{
    law_spelled_numbers_read_back(n, 10);
}

/// Padding adds zeros in front until the width is reached, and nothing where it is.
pub proof fn law_padding_adds_zeros(s: Seq<char>, width: nat)
    ensures
        ({
            let r = zero_padded(s, width);
            let n = r.len() - s.len();
            &&& r.len() == if s.len() < width {
                width
            } else {
                s.len()
            }
            &&& r.skip(n) == s
            &&& forall|i: int| 0 <= i < n ==> #[trigger] r[i] == '0'
        }),
{
    let r = zero_padded(s, width);
    assert(r.skip(r.len() - s.len()) =~= s);
}

/// A padded number is at least as wide as is asked for, and its sign goes before the
/// zeros.
pub proof fn law_signs_go_first(n: int, width: nat)
    requires
        width > 0,
    ensures
        n >= 0 ==> signed_padded(n, width) == zero_padded(decimal(n as nat), width),
        n < 0 ==> signed_padded(n, width) == seq!['-'] + zero_padded(
            decimal((-n) as nat),
            (width - 1) as nat,
        ),
        signed_padded(n, width).len() >= width,
        n < 0 ==> signed_padded(n, 0) == seq!['-'] + decimal((-n) as nat),
        n >= 0 ==> signed_padded(n, 0) == decimal(n as nat),
{
    if n < 0 {
        assert(zero_padded(decimal((-n) as nat), 0) == decimal((-n) as nat));
    }
}

// ─── Blanks and case ────────────────────────────────────────────

/// The characters of ASCII that are blanks.
pub proof fn law_blanks_of_ascii(c: char)
    requires
        (c as u32) < 128,
    ensures
        is_blank(c) <==> c == ' ' || c == '\t' || c == '\n' || c == '\r' || c == '\x0b' || c
            == '\x0c',
{
}

/// The characters that are blanks beyond ASCII.
pub proof fn law_which_characters_are_blanks(c: char)
    requires
        (c as u32) >= 128,
    ensures
        is_blank(c) <==> c == '\u{85}' || c == '\u{a0}' || c == '\u{1680}' || ('\u{2000}' <= c && c
            <= '\u{200a}') || c == '\u{2028}' || c == '\u{2029}' || c == '\u{202f}' || c
            == '\u{205f}' || c == '\u{3000}',
{
}

/// What is trimmed at the start are the blanks before the first other character.
pub proof fn law_trimming_the_start(s: Seq<char>)
    ensures
        ({
            let n = s.len() - trimmed_start(s).len();
            &&& 0 <= n
            &&& trimmed_start(s) == s.skip(n)
            &&& forall|i: int| 0 <= i < n ==> is_blank(#[trigger] s[i])
            &&& n < s.len() ==> !is_blank(s[n])
        }),
    decreases s.len(),
{
    if s.len() > 0 && is_blank(s[0]) {
        let rest = s.drop_first();
        law_trimming_the_start(rest);
        let n = rest.len() - trimmed_start(rest).len();
        assert(rest.skip(n) =~= s.skip(n + 1));
        assert forall|i: int| 0 <= i < n + 1 implies is_blank(#[trigger] s[i]) by {
            if i > 0 {
                assert(rest[i - 1] == s[i]);
            }
        }
        if n < rest.len() {
            assert(rest[n] == s[n + 1]);
        }
    } else {
        assert(s.skip(0) =~= s);
    }
}

/// What is trimmed at the end are the blanks behind the last other character.
pub proof fn law_trimming_the_end(s: Seq<char>)
    ensures
        ({
            let n = trimmed_end(s).len();
            &&& n <= s.len()
            &&& trimmed_end(s) == s.take(n as int)
            &&& forall|i: int| n <= i < s.len() ==> is_blank(#[trigger] s[i])
            &&& n > 0 ==> !is_blank(s[n - 1])
        }),
    decreases s.len(),
{
    if s.len() > 0 && is_blank(s.last()) {
        let rest = s.drop_last();
        law_trimming_the_end(rest);
        let n = trimmed_end(rest).len();
        assert(rest.take(n as int) =~= s.take(n as int));
        assert forall|i: int| n <= i < s.len() implies is_blank(#[trigger] s[i]) by {
            if i < rest.len() {
                assert(rest[i] == s[i]);
            }
        }
    } else {
        assert(s.take(s.len() as int) =~= s);
    }
}

/// A trimmed text neither begins nor ends with a blank, and trimming again changes
/// nothing.
pub proof fn law_trimming_leaves_no_blank_at_the_ends(s: Seq<char>)
    ensures
        trimmed(s).len() > 0 ==> !is_blank(trimmed(s)[0]) && !is_blank(trimmed(s).last()),
        trimmed(trimmed(s)) == trimmed(s),
        exists|a: Seq<char>, b: Seq<char>| s == #[trigger] (a + trimmed(s) + b),
{
    let t = trimmed_start(s);
    let u = trimmed_end(t);
    law_trimming_the_start(s);
    law_trimming_the_end(t);
    let n = s.len() - t.len();
    assert(s =~= s.take(n) + u + t.skip(u.len() as int));
    if u.len() > 0 {
        assert(u[0] == t[0]);
        assert(t[0] == s[n]);
        assert(u.last() == t[u.len() - 1]);
    }
}

/// The first word is what stands before the first blank, once the blanks before it
/// are passed over.
pub proof fn law_the_first_word(s: Seq<char>)
    ensures
        leading_word(s).is_prefix_of(s),
        forall|i: int| 0 <= i < leading_word(s).len() ==> !is_blank(#[trigger] s[i]),
        leading_word(s).len() < s.len() ==> is_blank(s[leading_word(s).len() as int]),
        first_word(s) == leading_word(trimmed_start(s)),
    decreases s.len(),
{
    if s.len() > 0 && !is_blank(s[0]) {
        let rest = s.drop_first();
        law_the_first_word(rest);
        let w = leading_word(rest);
        assert(leading_word(s) =~= seq![s[0]] + w);
        assert(w =~= rest.take(w.len() as int));
        assert(leading_word(s) =~= s.take(w.len() as int + 1));
        assert forall|i: int| 0 <= i < leading_word(s).len() implies !is_blank(#[trigger] s[i]) by {
            if i > 0 {
                assert(rest[i - 1] == s[i]);
            }
        }
        if w.len() < rest.len() {
            assert(rest[w.len() as int] == s[w.len() as int + 1]);
        }
    } else {
        assert(leading_word(s) =~= s.take(0));
    }
}

/// Lower case changes the upper-case letters of ASCII alone, each to its own small
/// letter.
pub proof fn law_lower_case(s: Seq<char>, i: int)
    requires
        0 <= i < s.len(),
    ensures
        lower(s).len() == s.len(),
        'A' <= s[i] && s[i] <= 'Z' ==> lower(s)[i] as int == s[i] as int + ('a' as int - 'A' as int),
        !('A' <= s[i] && s[i] <= 'Z') ==> lower(s)[i] == s[i],
{
    let c = s[i];
    if 'A' <= c && c <= 'Z' {
        assert(lower_char(c) as int == c as int + 32);
    }
}

// ─── Ends ───────────────────────────────────────────────────────

/// A suffix is taken away as often as it stands at the end, and nothing else is.
pub proof fn law_suffixes_are_taken_away(s: Seq<char>, p: Seq<char>)
    requires
        p.len() > 0,
    ensures
        trimmed_end_of(s + p, p) == trimmed_end_of(s, p),
        !p.is_suffix_of(s) ==> trimmed_end_of(s, p) == s,
        !p.is_suffix_of(trimmed_end_of(s, p)),
        trimmed_end_of(s, p).is_prefix_of(s),
    decreases s.len(),
{
    assert(p.is_suffix_of(s + p)) by {
        assert((s + p).skip(s.len() as int) =~= p);
    }
    assert((s + p).take((s + p).len() - p.len()) =~= s);
    if p.is_suffix_of(s) {
        let rest = s.take(s.len() - p.len());
        law_suffixes_are_taken_away(rest, p);
        let r = trimmed_end_of(rest, p);
        assert(r =~= rest.take(r.len() as int));
        assert(r =~= s.take(r.len() as int));
    }
}

/// What follows the last mark holds no mark, and goes to the end; before it stands
/// the mark, or nothing where the text has none.
pub proof fn law_what_follows_the_last_mark(s: Seq<char>, c: char)
    ensures
        ({
            let n = s.len() - after_last(s, c).len();
            &&& 0 <= n
            &&& after_last(s, c) == s.skip(n)
            &&& !after_last(s, c).contains(c)
            &&& n > 0 ==> s[n - 1] == c
        }),
    decreases s.len(),
{
    if s.len() > 0 && s.last() != c {
        let rest = s.drop_last();
        law_what_follows_the_last_mark(rest, c);
        let t = after_last(rest, c);
        let n = rest.len() - t.len();
        assert(after_last(s, c) =~= s.skip(n));
        assert forall|i: int| 0 <= i < after_last(s, c).len() implies after_last(s, c)[i] != c by {
            if i < t.len() {
                assert(t.contains(t[i]));
            }
        }
    } else {
        assert(after_last(s, c) =~= s.skip(s.len() as int));
    }
}

} // verus!
