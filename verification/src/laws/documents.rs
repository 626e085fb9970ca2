//! How the members of documents are read and set.

use vstd::prelude::*;
use crate::json::{has_member, member, member_at, text_views, with_member, JsonView};

verus! {

/// A member is read where the first of its name stands, and nothing is read where
/// there is none.
pub proof fn law_the_first_member_is_read(
    ms: Seq<(Seq<char>, JsonView)>,
    name: Seq<char>,
    i: int,
)
    ensures
        0 <= i < ms.len() && ms[i].0 == name && (forall|j: int|
            0 <= j < i ==> (#[trigger] ms[j]).0 != name) ==> member(ms, name) == Some(ms[i].1),
        (forall|j: int| 0 <= j < ms.len() ==> (#[trigger] ms[j]).0 != name) <==> member(ms, name)
            is None,
        has_member(ms, name) <==> member(ms, name) is Some,
{
    if 0 <= i < ms.len() && ms[i].0 == name && (forall|j: int|
        0 <= j < i ==> (#[trigger] ms[j]).0 != name) {
        assert(member_at(ms, name, i));
        let c = choose|c: int| member_at(ms, name, c);
        assert(member_at(ms, name, c));
        if c < i {
            assert(ms[c].0 != name);
        }
        if i < c {
            assert(ms[i].0 != name);
        }
    }
}

/// Setting a member replaces the one of its name where there is one, and adds it at
/// the end where there is none; it never drops a member.
pub proof fn law_setting_keeps_the_others(
    ms: Seq<(Seq<char>, JsonView)>,
    name: Seq<char>,
    value: JsonView,
)
    ensures
        with_member(ms, name, value).contains((name, value)),
        has_member(ms, name) ==> with_member(ms, name, value).len() == ms.len(),
        !has_member(ms, name) ==> with_member(ms, name, value) == ms.push((name, value)),
        forall|j: int|
            0 <= j < ms.len() && ms[j].0 != name ==> #[trigger] with_member(ms, name, value)[j]
                == ms[j],
{
    let r = with_member(ms, name, value);
    if has_member(ms, name) {
        let k = choose|k: int| 0 <= k < ms.len() && (#[trigger] ms[k]).0 == name;
        lemma_a_first_member(ms, name, k);
        let c = choose|c: int| member_at(ms, name, c);
        assert(member_at(ms, name, c));
        assert(r[c] == (name, value));
    } else {
        assert(r[ms.len() as int] == (name, value));
    }
}

proof fn lemma_a_first_member(ms: Seq<(Seq<char>, JsonView)>, name: Seq<char>, k: int)
    requires
        0 <= k < ms.len(),
        ms[k].0 == name,
    ensures
        exists|c: int| member_at(ms, name, c),
    decreases k,
{
    if exists|j: int| 0 <= j < k && (#[trigger] ms[j]).0 == name {
        let j = choose|j: int| 0 <= j < k && (#[trigger] ms[j]).0 == name;
        lemma_a_first_member(ms, name, j);
    } else {
        assert(member_at(ms, name, k));
    }
}

/// Only an object has members, and a field of it is what they hold.
pub proof fn law_only_objects_have_members(doc: JsonView, name: Seq<char>)
    ensures
        doc matches JsonView::Object(ms) ==> doc.members() == ms,
        !(doc is Object) ==> doc.members().len() == 0 && doc.field(name) is None,
        doc.field(name) == member(doc.members(), name),
{
}

/// A list of texts is told text by text, in order.
pub proof fn law_texts_are_told_in_order(v: Seq<Seq<char>>, i: int)
    requires
        0 <= i < v.len(),
    ensures
        text_views(v).len() == v.len(),
        text_views(v)[i] == JsonView::Text(v[i]),
{
}

} // verus!
