//! Text over sequences of characters: comparison, search, trimming and the
//! decimal and hexadecimal spellings that the service's messages use.

use vstd::prelude::*;
use vstd::std_specs::iter::IteratorSpec;

verus! {

/// `String::push` appends the given character to the end of the string.
pub assume_specification[ String::push ](s: &mut String, c: char)
    ensures
        final(s)@ == old(s)@.push(c),
;

/// The character sequences of a list of strings.
pub open spec fn texts(v: Seq<String>) -> Seq<Seq<char>> {
    v.map_values(|s: String| s@)
}

/// The character sequence of an optional string.
pub open spec fn opt_text(o: Option<String>) -> Option<Seq<char>> {
    match o {
        Some(s) => Some(s@),
        None => None,
    }
}

/// The character sequence of an optional borrowed string.
pub open spec fn opt_str(o: Option<&str>) -> Option<Seq<char>> {
    match o {
        Some(s) => Some(s@),
        None => None,
    }
}

/// The characters of `s`, in order.
pub fn chars_of(s: &str) -> (r: Vec<char>)
    ensures
        r@ == s@,
{
    let mut out: Vec<char> = Vec::new();
    let mut it = s.chars();
    let ghost mut rest = s@;
    loop
        invariant
            it.obeys_prophetic_iter_laws(),
            it.remaining() == rest,
            out@ + rest == s@,
        ensures
            out@ == s@,
        decreases rest.len(),
    {
        match it.next() {
            Some(c) => {
                proof {
                    let before = rest;
                    rest = rest.drop_first();
                    assert(out@.push(c) + rest =~= out@ + before);
                }
                out.push(c);
            },
            None => {
                assert(out@ + rest =~= out@);
                break;
            },
        }
    }
    out
}

/// The string whose characters are `cs`.
pub fn string_of(cs: &[char]) -> (r: String)
    ensures
        r@ == cs@,
{
    let mut out = String::new();
    let mut i: usize = 0;
    while i < cs.len()
        invariant
            i <= cs@.len(),
            out@ == cs@.take(i as int),
        decreases cs@.len() - i,
    {
        out.push(cs[i]);
        i = i + 1;
        assert(cs@.take(i as int) =~= cs@.take(i - 1).push(cs@[i - 1]));
    }
    assert(cs@.take(i as int) =~= cs@);
    out
}

/// Whether two strings hold the same characters.
pub fn str_eq(a: &str, b: &str) -> (r: bool)
    ensures
        r == (a@ == b@),
{
    let x = chars_of(a);
    let y = chars_of(b);
    if x.len() != y.len() {
        return false;
    }
    let mut i: usize = 0;
    while i < x.len()
        invariant
            i <= x@.len(),
            x@ == a@,
            y@ == b@,
            x@.len() == y@.len(),
            forall|k: int| 0 <= k < i ==> x@[k] == y@[k],
        decreases x@.len() - i,
    {
        if x[i] != y[i] {
            return false;
        }
        i = i + 1;
    }
    assert(a@ =~= b@);
    true
}

// ─── Search ─────────────────────────────────────────────────────

/// `p` stands in `s` at index `i`.
pub open spec fn occurs_at(s: Seq<char>, p: Seq<char>, i: int) -> bool {
    0 <= i && i + p.len() <= s.len() && s.subrange(i, i + p.len()) == p
}

/// `p` stands somewhere in `s`.
pub open spec fn occurs_in(s: Seq<char>, p: Seq<char>) -> bool {
    exists|i: int| occurs_at(s, p, i)
}

/// Whether `p` stands in `cs` at index `i`.
pub fn matches_at(cs: &Vec<char>, p: &Vec<char>, i: usize) -> (r: bool)
    requires
        i <= cs@.len(),
    ensures
        r == occurs_at(cs@, p@, i as int),
{
    let n: usize = cs.len();
    if p.len() > n - i {
        return false;
    }
    let mut k: usize = 0;
    while k < p.len()
        invariant
            k <= p@.len(),
            n == cs@.len(),
            i + p@.len() <= cs@.len(),
            forall|j: int| 0 <= j < k ==> cs@[i + j] == p@[j],
        decreases p@.len() - k,
    {
        if cs[i + k] != p[k] {
            assert(cs@.subrange(i as int, i + p@.len())[k as int] == cs@[i + k]);
            return false;
        }
        k = k + 1;
    }
    assert(cs@.subrange(i as int, i + p@.len()) =~= p@);
    true
}

/// Whether `s` begins with `p`.
pub fn starts_with(s: &str, p: &str) -> (r: bool)
    ensures
        r == p@.is_prefix_of(s@),
{
    let cs = chars_of(s);
    let ps = chars_of(p);
    let r = matches_at(&cs, &ps, 0);
    r
}

/// Whether `s` ends with `p`.
pub fn ends_with(s: &str, p: &str) -> (r: bool)
    ensures
        r == p@.is_suffix_of(s@),
{
    let cs = chars_of(s);
    let ps = chars_of(p);
    if ps.len() > cs.len() {
        return false;
    }
    let r = matches_at(&cs, &ps, cs.len() - ps.len());
    r
}

/// Whether `p` stands somewhere in `s`.
pub fn contains_text(s: &str, p: &str) -> (r: bool)
    ensures
        r == occurs_in(s@, p@),
{
    let cs = chars_of(s);
    let ps = chars_of(p);
    let mut i: usize = 0;
    while i < cs.len()
        invariant
            i <= cs@.len(),
            cs@ == s@,
            ps@ == p@,
            forall|k: int| 0 <= k < i ==> !occurs_at(s@, p@, k),
        decreases cs@.len() - i,
    {
        if matches_at(&cs, &ps, i) {
            assert(occurs_at(s@, p@, i as int));
            return true;
        }
        i = i + 1;
    }
    if ps.len() == 0 {
        assert(s@.subrange(i as int, i as int) =~= p@);
        assert(occurs_at(s@, p@, i as int));
        return true;
    }
    false
}

// ─── Lists of names ─────────────────────────────────────────────

/// Whether `name` is one of `names`.
pub fn contains_name(names: &Vec<String>, name: &str) -> (r: bool)
    ensures
        r == texts(names@).contains(name@),
{
    let mut i: usize = 0;
    while i < names.len()
        invariant
            i <= names@.len(),
            forall|k: int| 0 <= k < i ==> texts(names@)[k] != name@,
        decreases names@.len() - i,
    {
        if str_eq(names[i].as_str(), name) {
            assert(texts(names@)[i as int] == name@);
            return true;
        }
        i = i + 1;
    }
    false
}

/// The strings of `names`, one copy each.
pub fn clone_names(names: &Vec<String>) -> (r: Vec<String>)
    ensures
        r@ == names@,
{
    let mut out: Vec<String> = Vec::new();
    let mut i: usize = 0;
    while i < names.len()
        invariant
            i <= names@.len(),
            out@ == names@.take(i as int),
        decreases names@.len() - i,
    {
        out.push(names[i].clone());
        i = i + 1;
        assert(names@.take(i as int) =~= names@.take(i - 1).push(names@[i - 1]));
    }
    assert(names@.take(i as int) =~= names@);
    out
}

/// A copy of an optional string.
pub fn clone_opt(o: &Option<String>) -> (r: Option<String>)
    ensures
        r == *o,
{
    match o {
        Some(s) => Some(s.clone()),
        None => None,
    }
}

/// The texts of `parts` with `sep` between each two of them.
pub open spec fn joined(parts: Seq<Seq<char>>, sep: Seq<char>) -> Seq<char>
    decreases parts.len(),
{
    if parts.len() == 0 {
        Seq::empty()
    } else if parts.len() == 1 {
        parts[0]
    } else {
        joined(parts.drop_last(), sep) + sep + parts.last()
    }
}

/// The strings of `parts` with `sep` between each two of them.
pub fn join_names(parts: &Vec<String>, sep: &str) -> (r: String)
    ensures
        r@ == joined(texts(parts@), sep@),
{
    let mut out = String::new();
    let mut i: usize = 0;
    while i < parts.len()
        invariant
            i <= parts@.len(),
            out@ == joined(texts(parts@).take(i as int), sep@),
        decreases parts@.len() - i,
    {
        proof {
            let t = texts(parts@);
            assert(t.take(i + 1).drop_last() =~= t.take(i as int));
            assert(t.take(i + 1).last() == parts@[i as int]@);
        }
        if i > 0 {
            out.append(sep);
        }
        out.append(parts[i].as_str());
        proof {
            if i == 0 {
                assert(out@ =~= parts@[0]@);
                assert(texts(parts@).take(1)[0] == parts@[0]@);
            }
        }
        i = i + 1;
    }
    assert(texts(parts@).take(i as int) =~= texts(parts@));
    out
}

// ─── Numbers ────────────────────────────────────────────────────

/// The character that spells the digit `d` of a base of at most sixteen.
pub open spec fn digit_char(d: int) -> char {
    if d < 10 {
        (48 + d) as char
    } else {
        (87 + d) as char
    }
}

/// The spelling of `n` in base `base`, without leading zeros.
pub open spec fn spelled(n: nat, base: nat) -> Seq<char>
    decreases n,
{
    if base < 2 || n < base {
        seq![digit_char(n as int)]
    } else {
        proof {
            assert(n / base < n) by (nonlinear_arith)
                requires
                    n >= base,
                    base >= 2,
            ;
        }
        spelled(n / base, base).push(digit_char((n % base) as int))
    }
}

/// The decimal spelling of `n`.
pub open spec fn decimal(n: nat) -> Seq<char> {
    spelled(n, 10)
}

/// `s` with zeros before it until it is `width` characters wide.
pub open spec fn zero_padded(s: Seq<char>, width: nat) -> Seq<char> {
    if s.len() >= width {
        s
    } else {
        Seq::new((width - s.len()) as nat, |i: int| '0') + s
    }
}

/// The decimal spelling of `n`, at least `width` wide, its sign in front of
/// the zeros that pad it.
pub open spec fn signed_padded(n: int, width: nat) -> Seq<char> {
    if n < 0 {
        seq!['-'] + zero_padded(
            decimal((-n) as nat),
            if width == 0 {
                0
            } else {
                (width - 1) as nat
            },
        )
    } else {
        zero_padded(decimal(n as nat), width)
    }
}

/// The character of digit `d`.
fn digit(d: u8) -> (c: char)
    requires
        d < 16,
    ensures
        c == digit_char(d as int),
{
    if d < 10 {
        (48u8 + d) as char
    } else {
        (87u8 + d) as char
    }
}

/// The digits of `n` in base `base`.
pub fn spell(n: u128, base: u128) -> (r: String)
    requires
        2 <= base <= 16,
    ensures
        r@ == spelled(n as nat, base as nat),
    decreases n,
{
    if n < base {
        let mut out = String::new();
        out.push(digit(n as u8));
        assert(out@ =~= seq![digit_char(n as int)]);
        out
    } else {
        assert(n / base < n) by (nonlinear_arith)
            requires
                n >= base,
                base >= 2,
        ;
        let mut out = spell(n / base, base);
        let d: u128 = n % base;
        out.push(digit(d as u8));
        out
    }
}

/// The decimal spelling of `n`.
pub fn decimal_of(n: u64) -> (r: String)
    ensures
        r@ == decimal(n as nat),
{
    spell(n as u128, 10)
}

/// `s` with zeros before it until it is `width` characters wide.
pub fn pad_zeros(s: &str, width: usize) -> (r: String)
    ensures
        r@ == zero_padded(s@, width as nat),
{
    let n: usize = s.unicode_len();
    let mut out = String::new();
    if n < width {
        let mut i: usize = 0;
        while i < width - n
            invariant
                n < width,
                i <= width - n,
                out@ == Seq::new(i as nat, |k: int| '0'),
            decreases width - n - i,
        {
            out.push('0');
            i = i + 1;
            assert(out@ =~= Seq::new(i as nat, |k: int| '0'));
        }
    }
    out.append(s);
    assert(n >= width ==> out@ =~= s@);
    out
}

/// The decimal spelling of `n`, at least `width` wide.
pub fn signed_padded_of(n: i64, width: usize) -> (r: String)
    ensures
        r@ == signed_padded(n as int, width as nat),
{
    if n < 0 {
        let m: u128 = (-(n as i128)) as u128;
        let body = pad_zeros(
            spell(m, 10).as_str(),
            if width == 0 {
                0
            } else {
                width - 1
            },
        );
        let mut out = String::new();
        out.push('-');
        out.append(body.as_str());
        assert(out@ =~= seq!['-'] + body@);
        out
    } else {
        pad_zeros(spell(n as u128, 10).as_str(), width)
    }
}

// ─── Quoting ────────────────────────────────────────────────────

/// The text that the `Debug` implementation of `str` writes: the string in
/// double quotes, with escapes.
pub uninterp spec fn quoted(s: Seq<char>) -> Seq<char>;

/// `str` written by its `Debug` implementation.
#[verifier::external_body]
pub(crate) fn quote(s: &str) -> (r: String)
    ensures
        r@ == quoted(s@),
{
    format!("{s:?}")
}

// ─── Blanks and case ────────────────────────────────────────────

/// The characters with the Unicode property `White_Space`.
pub open spec fn is_blank(c: char) -> bool {
    let u = c as u32;
    (9 <= u <= 13) || u == 32 || u == 0x85 || u == 0xA0 || u == 0x1680 || (0x2000 <= u <= 0x200A)
        || u == 0x2028 || u == 0x2029 || u == 0x202F || u == 0x205F || u == 0x3000
}

/// Whether `c` has the Unicode property `White_Space`.
pub fn blank(c: char) -> (r: bool)
    ensures
        r == is_blank(c),
{
    let u: u32 = c as u32;
    (9 <= u && u <= 13) || u == 32 || u == 0x85 || u == 0xA0 || u == 0x1680 || (0x2000 <= u && u
        <= 0x200A) || u == 0x2028 || u == 0x2029 || u == 0x202F || u == 0x205F || u == 0x3000
}

/// The characters of `s` up to its first blank.
pub open spec fn leading_word(s: Seq<char>) -> Seq<char>
    decreases s.len(),
{
    if s.len() == 0 || is_blank(s[0]) {
        Seq::empty()
    } else {
        seq![s[0]] + leading_word(s.drop_first())
    }
}

/// `s` from its first character that is not a blank.
pub open spec fn trimmed_start(s: Seq<char>) -> Seq<char>
    decreases s.len(),
{
    if s.len() > 0 && is_blank(s[0]) {
        trimmed_start(s.drop_first())
    } else {
        s
    }
}

/// `s` up to its last character that is not a blank.
pub open spec fn trimmed_end(s: Seq<char>) -> Seq<char>
    decreases s.len(),
{
    if s.len() > 0 && is_blank(s.last()) {
        trimmed_end(s.drop_last())
    } else {
        s
    }
}

/// `s` without the blanks at both ends.
pub open spec fn trimmed(s: Seq<char>) -> Seq<char> {
    trimmed_end(trimmed_start(s))
}

/// The first word of `s`: what stands between its first blanks.
pub open spec fn first_word(s: Seq<char>) -> Seq<char> {
    leading_word(trimmed_start(s))
}

/// The lower-case form of an ASCII letter; any other character itself.
pub open spec fn lower_char(c: char) -> char {
    if 'A' <= c && c <= 'Z' {
        ((c as u8) + 32) as u8 as char
    } else {
        c
    }
}

/// `s` with its ASCII letters in lower case.
pub open spec fn lower(s: Seq<char>) -> Seq<char> {
    s.map_values(|c: char| lower_char(c))
}

/// `s` with its ASCII letters in lower case.
pub fn to_lower(s: &str) -> (r: String)
    ensures
        r@ == lower(s@),
{
    let cs = chars_of(s);
    let mut out = String::new();
    let mut i: usize = 0;
    while i < cs.len()
        invariant
            i <= cs@.len(),
            cs@ == s@,
            out@ == lower(cs@).take(i as int),
        decreases cs@.len() - i,
    {
        let c: char = cs[i];
        if 'A' <= c && c <= 'Z' {
            let b: u8 = c as u8;
            out.push((b + 32) as char);
        } else {
            out.push(c);
        }
        i = i + 1;
        assert(out@ =~= lower(cs@).take(i as int));
    }
    assert(lower(cs@).take(i as int) =~= lower(s@));
    out
}

/// The place of the first character of `cs` that is not a blank.
fn skip_blanks(cs: &Vec<char>) -> (i: usize)
    ensures
        i <= cs@.len(),
        cs@.skip(i as int) == trimmed_start(cs@),
        i < cs@.len() ==> !is_blank(cs@[i as int]),
{
    let mut i: usize = 0;
    assert(cs@.skip(0) =~= cs@);
    while i < cs.len() && blank(cs[i])
        invariant
            i <= cs@.len(),
            trimmed_start(cs@.skip(i as int)) == trimmed_start(cs@),
        decreases cs@.len() - i,
    {
        assert(cs@.skip(i as int).drop_first() =~= cs@.skip(i + 1));
        i = i + 1;
    }
    i
}

/// The first word of `s`; empty where there is none.
pub fn first_word_of(s: &str) -> (r: String)
    ensures
        r@ == first_word(s@),
{
    let cs = chars_of(s);
    let start: usize = skip_blanks(&cs);
    let ghost rest = cs@.skip(start as int);
    let mut out = String::new();
    let mut i: usize = start;
    assert(out@ + leading_word(rest) =~= leading_word(rest));
    while i < cs.len() && !blank(cs[i])
        invariant
            start <= i <= cs@.len(),
            out@ + leading_word(cs@.skip(i as int)) == leading_word(rest),
        decreases cs@.len() - i,
    {
        let ghost o = out@;
        let ghost here = cs@.skip(i as int);
        out.push(cs[i]);
        proof {
            assert(here.drop_first() =~= cs@.skip(i + 1));
            assert(o + (seq![here[0]] + leading_word(here.drop_first())) =~= o.push(here[0])
                + leading_word(here.drop_first()));
        }
        i = i + 1;
    }
    proof {
        assert(leading_word(cs@.skip(i as int)) =~= Seq::<char>::empty());
        assert(out@ =~= leading_word(rest));
    }
    out
}

/// `s` without the blanks at both ends.
pub fn trim(s: &str) -> (r: String)
    ensures
        r@ == trimmed(s@),
{
    let cs = chars_of(s);
    let start: usize = skip_blanks(&cs);
    let mut end: usize = cs.len();
    let ghost rest = cs@.skip(start as int);
    assert(cs@.subrange(start as int, end as int) =~= rest);
    while end > start && blank(cs[end - 1])
        invariant
            start <= end <= cs@.len(),
            trimmed_end(cs@.subrange(start as int, end as int)) == trimmed_end(rest),
        decreases end,
    {
        assert(cs@.subrange(start as int, end as int).drop_last() =~= cs@.subrange(
            start as int,
            end - 1,
        ));
        end = end - 1;
    }
    let mut out = String::new();
    let mut k: usize = start;
    while k < end
        invariant
            start <= k <= end <= cs@.len(),
            out@ == cs@.subrange(start as int, k as int),
        decreases end - k,
    {
        out.push(cs[k]);
        k = k + 1;
        assert(out@ =~= cs@.subrange(start as int, k as int));
    }
    assert(trimmed_end(out@) == out@);
    out
}

/// The first `n` characters of `s`, or all of them.
pub fn first_chars(s: &str, n: usize) -> (r: String)
    ensures
        r@ == (if s@.len() <= n {
            s@
        } else {
            s@.take(n as int)
        }),
{
    let len: usize = s.unicode_len();
    if len <= n {
        s.to_owned()
    } else {
        let head = s.substring_char(0, n);
        assert(s@.subrange(0, n as int) =~= s@.take(n as int));
        head.to_owned()
    }
}

/// The number of bytes that `t` takes in UTF-8.
pub open spec fn byte_len(t: Seq<char>) -> nat {
    vstd::utf8::encode_utf8(t).len()
}

/// The number of bytes that `s` takes.
pub fn byte_count(s: &str) -> (r: usize)
    ensures
        r == byte_len(s@),
{
    s.as_bytes().len()
}

/// `s` without the suffix `p`, if it ends in it.
pub fn strip_suffix(s: &str, p: &str) -> (r: Option<String>)
    ensures
        match r {
            Some(t) => s@ == t@ + p@,
            None => !p@.is_suffix_of(s@),
        },
{
    if !ends_with(s, p) {
        return None;
    }
    let cs = chars_of(s);
    let ps = chars_of(p);
    let n: usize = cs.len() - ps.len();
    let r = string_of(vstd::slice::slice_subrange(cs.as_slice(), 0, n));
    assert(s@ =~= r@ + p@);
    Some(r)
}

/// `s` without the suffix `p`, as often as it ends in it.
pub open spec fn trimmed_end_of(s: Seq<char>, p: Seq<char>) -> Seq<char>
    decreases s.len(),
{
    if p.len() > 0 && p.is_suffix_of(s) {
        trimmed_end_of(s.take(s.len() - p.len()), p)
    } else {
        s
    }
}

/// `s` without the suffix `p`, as often as it ends in it.
pub fn trim_end_of(s: &str, p: &str) -> (r: String)
    requires
        p@.len() > 0,
    ensures
        r@ == trimmed_end_of(s@, p@),
{
    let mut cur = s.to_owned();
    loop
        invariant
            p@.len() > 0,
            trimmed_end_of(cur@, p@) == trimmed_end_of(s@, p@),
        ensures
            cur@ == trimmed_end_of(s@, p@),
        decreases cur@.len(),
    {
        match strip_suffix(cur.as_str(), p) {
            Some(t) => {
                proof {
                    assert(cur@.take(cur@.len() - p@.len()) =~= t@);
                    assert(p@.is_suffix_of(cur@)) by {
                        assert(cur@.skip(t@.len() as int) =~= p@);
                    }
                }
                cur = t;
            },
            None => {
                break;
            },
        }
    }
    cur
}

/// What follows the last `c` of `s`, or all of `s` where there is none.
pub open spec fn after_last(s: Seq<char>, c: char) -> Seq<char>
    decreases s.len(),
{
    if s.len() == 0 || s.last() == c {
        Seq::empty()
    } else {
        after_last(s.drop_last(), c).push(s.last())
    }
}

/// What follows the last `c` of `s`, or all of `s` where there is none.
pub fn text_after_last(s: &str, c: char) -> (r: String)
    ensures
        r@ == after_last(s@, c),
{
    let cs = chars_of(s);
    let n: usize = cs.len();
    let mut i: usize = n;
    assert(s@.take(n as int) =~= s@);
    assert(after_last(s@, c) =~= after_last(s@.take(n as int), c) + s@.skip(n as int));
    while i > 0 && cs[i - 1] != c
        invariant
            i <= n,
            n == cs@.len(),
            cs@ == s@,
            after_last(s@, c) == after_last(s@.take(i as int), c) + s@.skip(i as int),
        decreases i,
    {
        proof {
            let a = s@.take(i as int);
            assert(a.drop_last() =~= s@.take(i - 1));
            assert(a.last() == s@[i - 1]);
            assert(after_last(s@.take(i - 1), c).push(s@[i - 1]) + s@.skip(i as int) =~= after_last(
                s@.take(i - 1),
                c,
            ) + s@.skip(i - 1));
        }
        i = i - 1;
    }
    proof {
        assert(after_last(s@.take(i as int), c) =~= Seq::empty());
        assert(after_last(s@, c) =~= s@.skip(i as int));
    }
    let r = string_of(vstd::slice::slice_subrange(cs.as_slice(), i, n));
    assert(r@ =~= s@.skip(i as int));
    r
}

} // verus!
