//! The order of texts, and what sorting keeps.

use vstd::prelude::*;
use crate::order::{has_key, is_stable_sort_of, lex_lt, with_key, Keyed};

verus! {

/// A text comes before another exactly where, behind what both begin with, it ends or
/// holds the smaller character.
pub proof fn law_which_text_comes_first(a: Seq<char>, b: Seq<char>)
    ensures
        lex_lt(a, b) <==> exists|k: int| #[trigger] differs_at(a, b, k) && (k == a.len() || (k
            < b.len() && a[k] < b[k])),
    decreases a.len(),
{
    assert(a.take(0) =~= b.take(0));
    if a.len() == 0 {
        if b.len() > 0 {
            assert(differs_at(a, b, 0));
        }
    } else if b.len() == 0 {
        assert forall|k: int| #[trigger] differs_at(a, b, k) implies !(k == a.len() || (k < b.len()
            && a[k] < b[k])) by {}
    } else if a[0] != b[0] {
        assert(differs_at(a, b, 0));
        assert forall|k: int| #[trigger] differs_at(a, b, k) implies k == 0 by {
            if k > 0 {
                assert(a.take(k)[0] == b.take(k)[0]);
            }
        }
    } else {
        let c = a.drop_first();
        let d = b.drop_first();
        law_which_text_comes_first(c, d);
        if lex_lt(c, d) {
            let k = choose|k: int| #[trigger] differs_at(c, d, k) && (k == c.len() || (k < d.len()
                && c[k] < d[k]));
            lemma_one_further(a, b, k);
            assert(differs_at(a, b, k + 1));
        }
        if exists|k: int| #[trigger] differs_at(a, b, k) && (k == a.len() || (k < b.len() && a[k]
            < b[k])) {
            let k = choose|k: int| #[trigger] differs_at(a, b, k) && (k == a.len() || (k < b.len()
                && a[k] < b[k]));
            lemma_one_further(a, b, k - 1);
            assert(differs_at(c, d, k - 1));
        }
    }
}

/// Both texts begin with the same `k` characters and go on differently, or one of
/// them ends there and the other does not.
pub open spec fn differs_at(a: Seq<char>, b: Seq<char>, k: int) -> bool {
    &&& 0 <= k <= a.len()
    &&& k <= b.len()
    &&& a.take(k) == b.take(k)
    &&& k < a.len() || k < b.len()
    &&& k < a.len() && k < b.len() ==> a[k] != b[k]
}

proof fn lemma_one_further(a: Seq<char>, b: Seq<char>, k: int)
    requires
        a.len() > 0,
        b.len() > 0,
        a[0] == b[0],
    ensures
        differs_at(a.drop_first(), b.drop_first(), k) && k >= 0 <==> differs_at(a, b, k + 1) && k
            >= 0,
        differs_at(a, b, 0) ==> false,
{
    let c = a.drop_first();
    let d = b.drop_first();
    if 0 <= k <= c.len() && k <= d.len() {
        if c.take(k) == d.take(k) {
            assert forall|i: int| 0 <= i < k + 1 implies #[trigger] a[i] == b[i] by {
                if i > 0 {
                    assert(c.take(k)[i - 1] == d.take(k)[i - 1]);
                }
            }
            assert(a.take(k + 1) =~= b.take(k + 1));
        }
        if a.take(k + 1) == b.take(k + 1) {
            assert forall|i: int| 0 <= i < k implies #[trigger] c[i] == d[i] by {
                assert(a.take(k + 1)[i + 1] == b.take(k + 1)[i + 1]);
            }
            assert(c.take(k) =~= d.take(k));
        }
    }
}

/// Sorting keeps every item and adds none, puts no item before one with a smaller
/// key, and leaves the items of one key in their order.
pub proof fn law_sorting_keeps_every_item<T: Keyed>(r: Seq<T>, s: Seq<T>, x: T)
    requires
        is_stable_sort_of(r, s),
    ensures
        r.len() == s.len(),
        r.contains(x) <==> s.contains(x),
        forall|i: int, j: int|
            0 <= i < j < r.len() ==> !lex_lt(#[trigger] r[j].key_view(), #[trigger] r[i].key_view()),
        with_key(r, x.key_view()) == with_key(s, x.key_view()),
{
    assert(with_key(r, x.key_view()) == with_key(s, x.key_view()));
    law_items_of_a_key(r, x, x.key_view());
    law_items_of_a_key(s, x, x.key_view());
}

/// The items of a key are all those that have it.
pub proof fn law_items_of_a_key<T: Keyed>(s: Seq<T>, x: T, k: Seq<char>)
    ensures
        with_key(s, k).contains(x) <==> s.contains(x) && x.key_view() == k,
{
    let p = has_key::<T>(k);
    if s.contains(x) && x.key_view() == k {
        let i = choose|i: int| 0 <= i < s.len() && s[i] == x;
        s.lemma_filter_contains(p, i);
    }
    if with_key(s, k).contains(x) {
        let i = choose|i: int| 0 <= i < s.filter(p).len() && s.filter(p)[i] == x;
        s.lemma_filter_pred(p, i);
        s.lemma_filter_contains_rev(p, x);
    }
}

} // verus!
