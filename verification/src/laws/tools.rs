//! What the statements of laws share.

use vstd::prelude::*;
use crate::json::JsonView;

verus! {

/// The document has the member `name` with the value `value`.
pub open spec fn says(doc: JsonView, name: Seq<char>, value: JsonView) -> bool {
    doc.members().contains((name, value))
}

/// The document has no member `name`.
pub open spec fn is_silent(doc: JsonView, name: Seq<char>) -> bool {
    forall|i: int| 0 <= i < doc.members().len() ==> (#[trigger] doc.members()[i]).0 != name
}

/// A text is selected exactly where some item gives it.
pub proof fn lemma_filter_map_has<A, B>(s: Seq<A>, f: spec_fn(A) -> Option<B>, y: B)
    ensures
        s.filter_map(f).contains(y) <==> exists|i: int| 0 <= i < s.len() && f(#[trigger] s[i]) == Some(y),
    decreases s.len(),
{
    reveal(Seq::filter_map);
    if s.len() > 0 {
        let d = s.drop_last();
        let n = s.len() - 1;
        lemma_filter_map_has(d, f, y);
        let r = s.filter_map(f);
        let before = d.filter_map(f);
        if let Some(x) = f(s.last()) {
            assert(r =~= before.push(x));
            if before.contains(y) {
                let k = choose|k: int| 0 <= k < before.len() && before[k] == y;
                assert(r[k] == y);
            }
            if x == y {
                assert(r[before.len() as int] == y);
                assert(f(s[n]) == Some(y));
            }
            if r.contains(y) {
                let k = choose|k: int| 0 <= k < r.len() && r[k] == y;
                if k < before.len() {
                    assert(before[k] == y);
                }
            }
        } else {
            assert(r =~= before);
        }
        if exists|i: int| 0 <= i < d.len() && f(#[trigger] d[i]) == Some(y) {
            let i = choose|i: int| 0 <= i < d.len() && f(#[trigger] d[i]) == Some(y);
            assert(f(s[i]) == Some(y));
        }
        if exists|i: int| 0 <= i < s.len() && f(#[trigger] s[i]) == Some(y) {
            let i = choose|i: int| 0 <= i < s.len() && f(#[trigger] s[i]) == Some(y);
            if i < n {
                assert(f(d[i]) == Some(y));
            }
        }
    }
}

/// What stands in two lists put together stands in one of them.
pub proof fn lemma_add_has<A>(a: Seq<A>, b: Seq<A>)
    ensures
        forall|x: A| #[trigger] (a + b).contains(x) <==> a.contains(x) || b.contains(x),
{
    assert forall|x: A| #[trigger] (a + b).contains(x) <==> a.contains(x) || b.contains(x) by {
        if (a + b).contains(x) {
            let i = choose|i: int| 0 <= i < (a + b).len() && (a + b)[i] == x;
            if i < a.len() {
                assert(a[i] == x);
            } else {
                assert(b[i - a.len()] == x);
            }
        }
        if a.contains(x) {
            let i = choose|i: int| 0 <= i < a.len() && a[i] == x;
            assert((a + b)[i] == x);
        }
        if b.contains(x) {
            let i = choose|i: int| 0 <= i < b.len() && b[i] == x;
            assert((a + b)[a.len() + i] == x);
        }
    }
}

/// One more item adds what it gives to what the others give.
pub proof fn lemma_filter_map_push<A, B>(s: Seq<A>, x: A, f: spec_fn(A) -> Option<B>)
    ensures
        s.push(x).filter_map(f) == (match f(x) {
            Some(y) => s.filter_map(f).push(y),
            None => s.filter_map(f),
        }),
{
    reveal(Seq::filter_map);
    assert(s.push(x).drop_last() =~= s);
    assert(s.push(x).filter_map(f) =~= (match f(x) {
        Some(y) => s.filter_map(f).push(y),
        None => s.filter_map(f),
    }));
}

} // verus!
