//! What the record of installed packages holds after installs and merges.

use vstd::prelude::*;
use crate::manifest::{after_batch, after_install, known_in, lookup, merged, unknown_in, EntryView};
use crate::source::SourceView;

verus! {

/// An install records its origin and its time; the time of the first install is
/// kept where there was one, and so is the version where no new one is known.
pub proof fn law_what_an_install_records(
    m: Map<Seq<char>, EntryView>,
    name: Seq<char>,
    version: Option<Seq<char>>,
    source: SourceView,
    now: Seq<char>,
)
    ensures
        ({
            let e = after_install(m, name, version, source, now)[name];
            let known = m.dom().contains(name);
            &&& after_install(m, name, version, source, now).dom() == m.dom().insert(name)
            &&& e.source == source && e.updated_at == now
            &&& known ==> e.installed_at == m[name].installed_at
            &&& !known ==> e.installed_at == now
            &&& version is Some || !known ==> e.version == version
            &&& version is None && known ==> e.version == m[name].version
        }),
        lookup(m, name) is Some <==> m.dom().contains(name),
        lookup(m, name) matches Some(e) ==> e == m[name],
{
    assert(after_install(m, name, version, source, now).dom() =~= m.dom().insert(name));
}

/// A batch records each of its names as an install without a version does, and the
/// times of first installs and known versions stay.
pub proof fn law_what_a_batch_records(
    m: Map<Seq<char>, EntryView>,
    names: Seq<Seq<char>>,
    name: Seq<char>,
    source: SourceView,
    now: Seq<char>,
)
    ensures
        after_batch(m, Seq::empty(), source, now) == m,
        after_batch(m, names.push(name), source, now) == after_install(
            after_batch(m, names, source, now),
            name,
            None,
            source,
            now,
        ),
        m.dom().contains(name) ==> after_batch(m, names, source, now).dom().contains(name)
            && after_batch(m, names, source, now)[name].version == m[name].version,
        !m.dom().contains(name) && names.contains(name) ==> after_batch(
            m,
            names,
            source,
            now,
        )[name].version is None && after_batch(m, names, source, now)[name].installed_at == now,
    decreases names.len(),
{
    assert(names.push(name).drop_last() =~= names);
    if names.len() > 0 {
        let rest = names.drop_last();
        law_what_a_batch_records(m, rest, name, source, now);
        let before = after_batch(m, rest, source, now);
        if names.last() == name {
            if !m.dom().contains(name) && !rest.contains(name) {
                lemma_batch_leaves_others(m, rest, name, source, now);
            }
        } else if names.contains(name) {
            let i = choose|i: int| 0 <= i < names.len() && names[i] == name;
            assert(rest[i] == name);
        }
    }
}

proof fn lemma_batch_leaves_others(
    m: Map<Seq<char>, EntryView>,
    names: Seq<Seq<char>>,
    name: Seq<char>,
    source: SourceView,
    now: Seq<char>,
)
    requires
        !names.contains(name),
        !m.dom().contains(name),
    ensures
        !after_batch(m, names, source, now).dom().contains(name),
    decreases names.len(),
{
    if names.len() > 0 {
        assert(names[names.len() - 1] != name);
        assert(!names.drop_last().contains(name)) by {
            if names.drop_last().contains(name) {
                let i = choose|i: int| 0 <= i < names.drop_last().len() && names.drop_last()[i] == name;
                assert(names[i] == name);
            }
        }
        lemma_batch_leaves_others(m, names.drop_last(), name, source, now);
    }
}

/// A merge holds what either record holds; of what both hold, the incoming entry
/// exactly where it is to overwrite.
pub proof fn law_what_a_merge_holds(
    local: Map<Seq<char>, EntryView>,
    incoming: Map<Seq<char>, EntryView>,
    overwrite: bool,
    name: Seq<char>,
)
    ensures
        ({
            let r = merged(local, incoming, overwrite);
            let here = local.dom().contains(name);
            let there = incoming.dom().contains(name);
            &&& r.dom().contains(name) <==> here || there
            &&& here && !there ==> r[name] == local[name]
            &&& there && !here ==> r[name] == incoming[name]
            &&& here && there && overwrite ==> r[name] == incoming[name]
            &&& here && there && !overwrite ==> r[name] == local[name]
        }),
        known_in(local)(name) <==> local.dom().contains(name),
        unknown_in(local)(name) <==> !local.dom().contains(name),
{
}

} // verus!
