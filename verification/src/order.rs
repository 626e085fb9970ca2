//! Lexicographic order on text and a stable sort by a text key.

use vstd::prelude::*;
use crate::text::chars_of;

verus! {

/// `a` comes strictly before `b` when, at the first place where they differ,
/// `a` has ended or holds the smaller character.
pub open spec fn lex_lt(a: Seq<char>, b: Seq<char>) -> bool
    decreases a.len(),
{
    if b.len() == 0 {
        false
    } else if a.len() == 0 {
        true
    } else if a[0] != b[0] {
        a[0] < b[0]
    } else {
        lex_lt(a.drop_first(), b.drop_first())
    }
}

/// Nothing comes strictly before itself.
pub proof fn lemma_lex_irreflexive(a: Seq<char>)
    ensures
        !lex_lt(a, a),
    decreases a.len(),
{
    if a.len() > 0 {
        lemma_lex_irreflexive(a.drop_first());
    }
}

/// The order is transitive.
pub proof fn lemma_lex_transitive(a: Seq<char>, b: Seq<char>, c: Seq<char>)
    requires
        lex_lt(a, b),
        lex_lt(b, c),
    ensures
        lex_lt(a, c),
    decreases a.len(),
{
    if a.len() > 0 && a[0] == b[0] && b[0] == c[0] {
        lemma_lex_transitive(a.drop_first(), b.drop_first(), c.drop_first());
    }
}

/// Of two different texts one comes strictly before the other.
pub proof fn lemma_lex_total(a: Seq<char>, b: Seq<char>)
    ensures
        lex_lt(a, b) || lex_lt(b, a) || a == b,
    decreases a.len(),
{
    if a.len() == 0 {
        if b.len() == 0 {
            assert(a =~= b);
        }
    } else if b.len() > 0 && a[0] == b[0] {
        lemma_lex_total(a.drop_first(), b.drop_first());
        if a.drop_first() == b.drop_first() {
            assert(a =~= seq![a[0]] + a.drop_first());
            assert(b =~= seq![b[0]] + b.drop_first());
        }
    }
}

/// Of two texts, not both come strictly before the other.
pub proof fn lemma_lex_asymmetric(a: Seq<char>, b: Seq<char>)
    requires
        lex_lt(a, b),
    ensures
        !lex_lt(b, a),
        a != b,
{
    lemma_lex_irreflexive(a);
    if lex_lt(b, a) {
        lemma_lex_transitive(a, b, a);
    }
}

/// Whether `a` comes strictly before `b`.
pub fn str_lt(a: &str, b: &str) -> (r: bool)
    ensures
        r == lex_lt(a@, b@),
{
    let x = chars_of(a);
    let y = chars_of(b);
    let mut i: usize = 0;
    assert(x@.skip(0) =~= x@);
    assert(y@.skip(0) =~= y@);
    loop
        invariant
            x@ == a@,
            y@ == b@,
            i <= x@.len(),
            i <= y@.len(),
            lex_lt(x@.skip(i as int), y@.skip(i as int)) == lex_lt(a@, b@),
        decreases x@.len() - i,
    {
        if i >= y.len() {
            return false;
        }
        if i >= x.len() {
            return true;
        }
        if x[i] != y[i] {
            return x[i] < y[i];
        }
        proof {
            assert(x@.skip(i as int).drop_first() =~= x@.skip(i + 1));
            assert(y@.skip(i as int).drop_first() =~= y@.skip(i + 1));
        }
        i = i + 1;
    }
}

/// A value that is ordered by a text key.
pub trait Keyed: Sized {
    /// The key.
    spec fn key_view(&self) -> Seq<char>;

    /// The key, as a string.
    fn key(&self) -> (r: &str)
        ensures
            r@ == self.key_view(),
    ;
}

impl Keyed for String {
    open spec fn key_view(&self) -> Seq<char> {
        self@
    }

    fn key(&self) -> (r: &str) {
        self.as_str()
    }
}

/// Selects the items whose key is `k`.
pub open spec fn has_key<T: Keyed>(k: Seq<char>) -> spec_fn(T) -> bool {
    |x: T| x.key_view() == k
}

/// The items of `s` whose key is `k`, in their order.
pub open spec fn with_key<T: Keyed>(s: Seq<T>, k: Seq<char>) -> Seq<T> {
    s.filter(has_key(k))
}

/// No item comes before an item with a smaller key.
pub open spec fn sorted_by_key<T: Keyed>(s: Seq<T>) -> bool {
    forall|i: int, j: int|
        0 <= i < j < s.len() ==> !lex_lt(#[trigger] s[j].key_view(), #[trigger] s[i].key_view())
}

/// `r` holds the items of `s` in key order; items with the same key keep the
/// order that they have in `s`.
pub open spec fn is_stable_sort_of<T: Keyed>(r: Seq<T>, s: Seq<T>) -> bool {
    &&& sorted_by_key(r)
    &&& r.len() == s.len()
    &&& forall|k: Seq<char>| #[trigger] with_key(r, k) == with_key(s, k)
}

proof fn lemma_with_key_insert<T: Keyed>(out: Seq<T>, pos: int, x: T, k: Seq<char>)
    requires
        0 <= pos <= out.len(),
        sorted_by_key(out),
        forall|i: int| 0 <= i < pos ==> lex_lt(#[trigger] out[i].key_view(), x.key_view()),
    ensures
        with_key(out.insert(pos, x), k) == with_key(seq![x] + out, k),
{
    let p = has_key::<T>(k);
    let a = out.take(pos);
    let b = out.skip(pos);
    assert(out.insert(pos, x) =~= a + (seq![x] + b));
    assert(out =~= a + b);
    Seq::filter_distributes_over_add(a, seq![x] + b, p);
    Seq::filter_distributes_over_add(seq![x], b, p);
    Seq::filter_distributes_over_add(seq![x], out, p);
    Seq::filter_distributes_over_add(a, b, p);
    if x.key_view() == k {
        assert forall|i: int| 0 <= i < a.len() implies !p(#[trigger] a[i]) by {
            lemma_lex_asymmetric(out[i].key_view(), x.key_view());
        }
        a.lemma_all_neg_filter_empty(p);
        assert(a.filter(p) =~= Seq::<T>::empty());
        assert(b.filter(p) =~= out.filter(p));
        assert(with_key(out.insert(pos, x), k) =~= with_key(seq![x] + out, k));
    } else {
        let one = seq![x];
        assert forall|i: int| 0 <= i < one.len() implies !p(#[trigger] one[i]) by {}
        one.lemma_all_neg_filter_empty(p);
        assert(one.filter(p) =~= Seq::<T>::empty());
        assert(with_key(out.insert(pos, x), k) =~= with_key(seq![x] + out, k));
    }
}

proof fn lemma_insert_sorted<T: Keyed>(out: Seq<T>, pos: int, x: T)
    requires
        0 <= pos <= out.len(),
        sorted_by_key(out),
        forall|i: int| 0 <= i < pos ==> lex_lt(#[trigger] out[i].key_view(), x.key_view()),
        pos < out.len() ==> !lex_lt(out[pos].key_view(), x.key_view()),
    ensures
        sorted_by_key(out.insert(pos, x)),
{
    let r = out.insert(pos, x);
    assert forall|i: int, j: int| 0 <= i < j < r.len() implies !lex_lt(
        #[trigger] r[j].key_view(),
        #[trigger] r[i].key_view(),
    ) by {
        if i < pos && j == pos {
            lemma_lex_asymmetric(out[i].key_view(), x.key_view());
        } else if i == pos {
            // r[j] is out[j - 1], at or after out[pos].
            let y = out[j - 1].key_view();
            if lex_lt(y, x.key_view()) {
                if j - 1 > pos {
                    assert(!lex_lt(y, out[pos].key_view()));
                    lemma_lex_total(y, out[pos].key_view());
                    if lex_lt(out[pos].key_view(), y) {
                        lemma_lex_transitive(out[pos].key_view(), y, x.key_view());
                    }
                }
            }
        }
    }
}

/// The items of `v` in key order; items with the same key keep their order.
pub fn sort_by_key<T: Keyed>(v: Vec<T>) -> (r: Vec<T>)
    ensures
        is_stable_sort_of(r@, v@),
{
    let ghost orig = v@;
    let mut v = v;
    let mut out: Vec<T> = Vec::new();
    assert(v@ + out@ =~= orig);
    while v.len() > 0
        invariant
            sorted_by_key(out@),
            v@.len() + out@.len() == orig.len(),
            forall|k: Seq<char>| with_key(v@ + out@, k) == #[trigger] with_key(orig, k),
        decreases v@.len(),
    {
        let ghost v0 = v@;
        let ghost out0 = out@;
        match v.pop() {
            None => {
                return out;
            },
            Some(x) => {
                let mut pos: usize = 0;
                while pos < out.len() && str_lt(out[pos].key(), x.key())
                    invariant
                        pos <= out@.len(),
                        forall|i: int|
                            0 <= i < pos ==> lex_lt(#[trigger] out@[i].key_view(), x.key_view()),
                    decreases out@.len() - pos,
                {
                    pos = pos + 1;
                }
                proof {
                    lemma_insert_sorted(out0, pos as int, x);
                    assert forall|k: Seq<char>|
                        with_key(v@ + out0.insert(pos as int, x), k) == #[trigger] with_key(
                            orig,
                            k,
                        ) by {
                        let p = has_key::<T>(k);
                        lemma_with_key_insert(out0, pos as int, x, k);
                        assert(v@ + (seq![x] + out0) =~= v0 + out0);
                        Seq::filter_distributes_over_add(v@, out0.insert(pos as int, x), p);
                        Seq::filter_distributes_over_add(v@, seq![x] + out0, p);
                    }
                }
                out.insert(pos, x);
            },
        }
    }
    assert forall|k: Seq<char>| #[trigger] with_key(out@, k) == with_key(orig, k) by {
        assert(v@ + out@ =~= out@);
    }
    out
}

} // verus!
