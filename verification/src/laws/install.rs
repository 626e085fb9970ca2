//! What installing does, by what is found.

use vstd::prelude::*;
use crate::install::{
    after_entries, answered_version, collection_view, copied_names, copy_step_of, entry_step_of,
    failure_texts, list_doc, locked_after, plan_fault, recorded_source, single_view, undeclared,
    upserted, with_scheme, BatchView, CollectionEntry, CopyStep, EntryStep, Extras,
};
use crate::json::{text_views, JsonView};
use crate::laws::tools::{lemma_filter_map_has, says};
use crate::source::{refetch_url, InstallSource, LockView, SourceView};
use crate::text::{opt_text, texts};

verus! {

/// A source is refused exactly where it is a directory that is not there, or
/// where a name is given for what has no `init.lua` at its root. In particular a
/// collection that is there installs without a name, and a single package with
/// or without one.
pub proof fn law_a_source_is_refused_only_for_cause(
    source: InstallSource,
    source_exists: bool,
    root_init: bool,
    named: bool,
)
    ensures
        plan_fault(source, source_exists, root_init, named) is Some <==> (source is LocalPath
            && !source_exists) || (named && !root_init),
        plan_fault(source, true, root_init, false) is None,
        plan_fault(source, true, true, named) is None,
        source is GitUrl ==> plan_fault(source, source_exists, root_init, named) == plan_fault(
            source,
            true,
            root_init,
            named,
        ),
{
}

/// The refusal of a directory that is not there names it, before all else.
pub proof fn law_a_missing_directory_is_named(p: String, root_init: bool, named: bool)
    ensures
        plan_fault(InstallSource::LocalPath(p), false, root_init, named) == Some(
            "Source directory does not exist: "@ + p@,
        ),
{
}

/// A single package goes to a free place as it is; a taken place gives way to a
/// directory, and to a repository only by force.
pub proof fn law_a_place_is_replaced_only_for_cause(
    source: InstallSource,
    dest_exists: bool,
    force: bool,
)
    ensures
        copy_step_of(source, dest_exists, force) == Some(CopyStep::Copy) <==> !dest_exists,
        copy_step_of(source, dest_exists, force) == Some(CopyStep::Replace) <==> dest_exists && (
        source is LocalPath || force),
        copy_step_of(source, dest_exists, force) is None <==> dest_exists && source is GitUrl
            && !force,
{
}

/// Of a collection exactly the directories with an `init.lua` are packages. A
/// package goes to a free place; a taken one is left by a repository and
/// replaced by a directory.
pub proof fn law_entries_are_told_apart(source: InstallSource, e: CollectionEntry)
    ensures
        entry_step_of(source, e) == EntryStep::Ignore <==> !(e.is_dir && e.has_init),
        entry_step_of(source, e) == EntryStep::Copy <==> e.is_dir && e.has_init && !e.dest_exists,
        entry_step_of(source, e) == EntryStep::Skip <==> e.is_dir && e.has_init && e.dest_exists
            && source is GitUrl,
        entry_step_of(source, e) == EntryStep::Replace <==> e.is_dir && e.has_init && e.dest_exists
            && source is LocalPath,
{
}

/// The entry is a package whose place is free, or taken, as `taken` says.
pub open spec fn is_package(taken: bool) -> spec_fn(CollectionEntry) -> bool {
    |e: CollectionEntry| e.is_dir && e.has_init && e.dest_exists == taken
}

/// The names of entries.
pub open spec fn entry_names(v: Seq<CollectionEntry>) -> Seq<Seq<char>> {
    v.map_values(|e: CollectionEntry| e.name@)
}

/// Every package of a collection whose place is free is installed, every other
/// package is reported as present, and nothing else is: each list holds the names
/// of its packages, in their order.
pub proof fn law_a_collection_is_installed_whole(source: InstallSource, entries: Seq<CollectionEntry>)
    ensures
        after_entries(source, entries).installed == entry_names(entries.filter(is_package(false))),
        after_entries(source, entries).present == entry_names(entries.filter(is_package(true))),
    decreases entries.len(),
{
    reveal(Seq::filter);
    if entries.len() > 0 {
        let d = entries.drop_last();
        let e = entries.last();
        law_a_collection_is_installed_whole(source, d);
        let free = d.filter(is_package(false));
        let taken = d.filter(is_package(true));
        assert(entry_names(free.push(e)) =~= entry_names(free).push(e.name@));
        assert(entry_names(taken.push(e)) =~= entry_names(taken).push(e.name@));
    }
}

/// What is recorded of a collection is what was copied: the new packages, and
/// from a directory also those that were replaced.
pub proof fn law_what_was_copied_is_recorded(source: InstallSource, b: BatchView, name: Seq<char>)
    ensures
        copied_names(source, b).contains(name) <==> b.installed.contains(name) || (source
            is LocalPath && b.present.contains(name)),
        b.installed.is_prefix_of(copied_names(source, b)),
        source is GitUrl ==> copied_names(source, b).len() == b.installed.len(),
        source is LocalPath ==> copied_names(source, b).len() == b.installed.len()
            + b.present.len(),
{
    let r = copied_names(source, b);
    let n = b.installed.len() as int;
    if b.installed.contains(name) {
        let k = choose|k: int| 0 <= k < n && b.installed[k] == name;
        assert(r[k] == name);
    }
    if source is LocalPath && b.present.contains(name) {
        let k = choose|k: int| 0 <= k < b.present.len() && b.present[k] == name;
        assert(r[n + k] == name);
    }
    if r.contains(name) {
        let k = choose|k: int| 0 <= k < r.len() && r[k] == name;
        if k < n {
            assert(b.installed[k] == name);
        } else {
            assert(b.present[k - n] == name);
        }
    }
    assert(b.installed =~= r.take(n));
}

/// What is recorded of an install leads back to where it came from: of a
/// repository the URL can be fetched again, of a directory the path is kept.
pub proof fn law_the_record_leads_back(source: InstallSource)
    ensures
        match source {
            InstallSource::GitUrl(u) => refetch_url(recorded_source(source)) == Some(u@),
            InstallSource::LocalPath(p) => recorded_source(source) == SourceView::Path(p@),
        },
{
}

/// A URL that says how it is reached stays; any other is reached by HTTPS, and
/// nothing of it is lost.
pub proof fn law_scheme_is_added_where_it_lacks(url: Seq<char>)
    ensures
        "http://"@.is_prefix_of(url) ==> with_scheme(url) == url,
        "https://"@.is_prefix_of(url) ==> with_scheme(url) == url,
        "file://"@.is_prefix_of(url) ==> with_scheme(url) == url,
        "git@"@.is_prefix_of(url) ==> with_scheme(url) == url,
        !"http://"@.is_prefix_of(url) && !"https://"@.is_prefix_of(url) && !"file://"@.is_prefix_of(
            url,
        ) && !"git@"@.is_prefix_of(url) ==> with_scheme(url) == "https://"@ + url,
{
}

/// The answer about a single package names it, and says by its mode whether it
/// came from a directory.
pub proof fn law_single_answer_says_what_was_installed(
    name: Seq<char>,
    local: bool,
    types_path: Option<Seq<char>>,
)
    ensures
        ({
            let doc = JsonView::Object(single_view(name, local, types_path));
            &&& says(doc, "installed"@, JsonView::Array(text_views(seq![name])))
            &&& local ==> says(doc, "mode"@, JsonView::Text("local_single"@))
            &&& !local ==> says(doc, "mode"@, JsonView::Text("single"@))
            &&& types_path is Some ==> says(doc, "types_path"@, JsonView::Text(types_path->0))
            &&& doc.members().len() == if types_path is Some {
                3int
            } else {
                2
            }
        }),
{
    let ms = single_view(name, local, types_path);
    assert(ms[0] == ("installed"@, JsonView::Array(text_views(seq![name]))));
    assert(ms[1].0 == "mode"@);
    if types_path is Some {
        assert(ms[2] == ("types_path"@, JsonView::Text(types_path->0)));
    }
}

/// The answer about a collection lists the new packages, those whose place was
/// taken (updated from a directory, skipped from a repository), and what came
/// along.
pub proof fn law_collection_answer_says_what_was_installed(b: BatchView, x: Extras, local: bool)
    ensures
        ({
            let doc = JsonView::Object(collection_view(b, x, local));
            &&& says(doc, "installed"@, list_doc(b.installed))
            &&& says(doc, "cards_installed"@, list_doc(texts(x.cards@)))
            &&& local ==> says(doc, "updated"@, list_doc(b.present)) && says(
                doc,
                "mode"@,
                JsonView::Text("local_collection"@),
            )
            &&& !local ==> says(doc, "skipped"@, list_doc(b.present)) && says(
                doc,
                "mode"@,
                JsonView::Text("collection"@),
            ) && says(doc, "scenarios_installed"@, list_doc(texts(x.scenarios@))) && says(
                doc,
                "scenarios_failures"@,
                list_doc(texts(x.scenario_failures@)),
            )
        }),
{
    let ms = collection_view(b, x, local);
    assert(ms[0] == ("installed"@, list_doc(b.installed)));
    assert(ms[1].1 == list_doc(b.present));
    assert(ms[2] == ("cards_installed"@, list_doc(texts(x.cards@))));
    if local {
        assert(ms[1].0 == "updated"@);
        assert(ms[3] == ("mode"@, JsonView::Text("local_collection"@)));
    } else {
        assert(ms[1].0 == "skipped"@);
        assert(ms[3] == ("scenarios_installed"@, list_doc(texts(x.scenarios@))));
        assert(ms[4] == ("scenarios_failures"@, list_doc(texts(x.scenario_failures@))));
        assert(ms[5] == ("mode"@, JsonView::Text("collection"@)));
    }
}

/// Some lock entry has the name.
pub open spec fn is_locked(v: Seq<LockView>, name: Seq<char>) -> bool {
    exists|i: int| 0 <= i < v.len() && (#[trigger] v[i]).name == name
}

/// Recording a package in the lock puts its entry there, leaves every entry of
/// another name as it is and where it is, and makes the lock longer only where
/// the package was not locked.
pub proof fn law_upsert_changes_one_package(v: Seq<LockView>, entry: LockView)
    ensures
        upserted(v, entry).contains(entry),
        upserted(v, entry).len() == v.len() + (if is_locked(v, entry.name) {
            0int
        } else {
            1
        }),
        forall|i: int|
            0 <= i < v.len() && (#[trigger] v[i]).name != entry.name ==> upserted(v, entry)[i] == v[i],
        forall|i: int|
            0 <= i < v.len() ==> (#[trigger] upserted(v, entry)[i]).name == v[i].name,
        forall|i: int|
            0 <= i < v.len() && (#[trigger] v[i]).name == entry.name && !is_locked(
                v.take(i),
                entry.name,
            ) ==> upserted(v, entry)[i] == entry,
{
    if is_locked(v, entry.name) {
        let i = choose|i: int| 0 <= i < v.len() && (#[trigger] v[i]).name == entry.name;
        lemma_first_named(v, entry.name, i);
        let c = choose|c: int| crate::install::first_named(v, entry.name, c);
        assert(upserted(v, entry)[c] == entry);
        assert forall|k: int|
            0 <= k < v.len() && (#[trigger] v[k]).name == entry.name && !is_locked(
                v.take(k),
                entry.name,
            ) implies upserted(v, entry)[k] == entry by {
            if c < k {
                assert(v.take(k)[c].name == entry.name);
            }
        }
    } else {
        assert(upserted(v, entry)[v.len() as int] == entry);
    }
}

proof fn lemma_first_named(v: Seq<LockView>, name: Seq<char>, i: int)
    requires
        0 <= i < v.len(),
        v[i].name == name,
    ensures
        exists|c: int| crate::install::first_named(v, name, c),
    decreases i,
{
    if forall|j: int| 0 <= j < i ==> (#[trigger] v[j]).name != name {
        assert(crate::install::first_named(v, name, i));
    } else {
        let j = choose|j: int| 0 <= j < i && (#[trigger] v[j]).name == name;
        lemma_first_named(v, name, j);
    }
}

/// The last of the installed packages stands in the lock, as installed and with
/// the version that it has.
pub proof fn law_installed_packages_are_locked(
    v: Seq<LockView>,
    names: Seq<(String, Option<String>)>,
    name: String,
    version: Option<String>,
)
    ensures
        locked_after(v, Seq::empty()) == v,
        locked_after(v, names.push((name, version))).contains(
            LockView { name: name@, version: opt_text(version), source: SourceView::Installed },
        ),
        locked_after(v, names.push((name, version))) == upserted(
            locked_after(v, names),
            LockView { name: name@, version: opt_text(version), source: SourceView::Installed },
        ),
{
    let more = names.push((name, version));
    assert(more.drop_last() =~= names);
    law_upsert_changes_one_package(
        locked_after(v, names),
        LockView { name: name@, version: opt_text(version), source: SourceView::Installed },
    );
}

/// The names to declare are exactly those of the given ones that are not
/// declared yet, each once; what comes later in the list never changes what was
/// chosen before.
pub proof fn law_only_undeclared_names_are_added(
    declared: Seq<Seq<char>>,
    names: Seq<Seq<char>>,
    name: Seq<char>,
)
    ensures
        undeclared(declared, names).contains(name) <==> names.contains(name)
            && !declared.contains(name),
        undeclared(declared, names).no_duplicates(),
        undeclared(declared, names).is_prefix_of(undeclared(declared, names.push(name))),
    decreases names.len(),
{
    let r = undeclared(declared, names);
    let more = names.push(name);
    assert(more.drop_last() =~= names);
    assert(r =~= undeclared(declared, more).take(r.len() as int));
    if names.len() > 0 {
        let d = names.drop_last();
        let l = names.last();
        law_only_undeclared_names_are_added(declared, d, name);
        law_only_undeclared_names_are_added(declared, d, l);
        let before = undeclared(declared, d);
        assert(names =~= d.push(l));
        if d.contains(name) {
            let k = choose|k: int| 0 <= k < d.len() && d[k] == name;
            assert(names[k] == name);
        }
        if before.contains(name) {
            let k = choose|k: int| 0 <= k < before.len() && before[k] == name;
            assert(r[k] == name);
        }
        if name == l {
            assert(names[names.len() - 1] == name);
            if !declared.contains(l) && !before.contains(l) {
                assert(r[before.len() as int] == l);
            }
        }
        if names.contains(name) && name != l {
            let k = choose|k: int| 0 <= k < names.len() && names[k] == name;
            assert(d[k] == name);
        }
        if r.contains(name) {
            let k = choose|k: int| 0 <= k < r.len() && r[k] == name;
            if k < before.len() {
                assert(before[k] == name);
            }
        }
    }
}

/// A version is known exactly where the package answered a text that is not
/// empty, and then it is that text.
pub proof fn law_a_version_is_a_text(answer: Option<JsonView>, t: Seq<char>)
    ensures
        answered_version(answer) == Some(t) <==> t.len() > 0 && answer == Some(JsonView::Text(t)),
{
}

/// As many failures are told as sources failed, so that all failed exactly where
/// no source came through; each is told by its source and its cause.
pub proof fn law_failures_are_told(outcomes: Seq<(String, Option<String>)>, t: Seq<char>)
    ensures
        failure_texts(outcomes).len() == outcomes.len() <==> forall|i: int|
            0 <= i < outcomes.len() ==> (#[trigger] outcomes[i]).1 is Some,
        failure_texts(outcomes).contains(t) <==> exists|i: int|
            0 <= i < outcomes.len() && (#[trigger] outcomes[i]).1 is Some && t == outcomes[i].0@
                + ": "@ + outcomes[i].1->0@,
    decreases outcomes.len(),
{
    let f = |o: (String, Option<String>)| crate::install::failure_text(o);
    lemma_filter_map_has(outcomes, f, t);
    lemma_failures_at_most(outcomes);
    if exists|i: int|
        0 <= i < outcomes.len() && (#[trigger] outcomes[i]).1 is Some && t == outcomes[i].0@ + ": "@
            + outcomes[i].1->0@ {
        let i = choose|i: int|
            0 <= i < outcomes.len() && (#[trigger] outcomes[i]).1 is Some && t == outcomes[i].0@
                + ": "@ + outcomes[i].1->0@;
        assert(f(outcomes[i]) == Some(t));
    }
    if failure_texts(outcomes).contains(t) {
        let i = choose|i: int| 0 <= i < outcomes.len() && f(#[trigger] outcomes[i]) == Some(t);
        assert(outcomes[i].1 is Some);
    }
}

proof fn lemma_failures_at_most(outcomes: Seq<(String, Option<String>)>)
    ensures
        failure_texts(outcomes).len() <= outcomes.len(),
        failure_texts(outcomes).len() == outcomes.len() <==> forall|i: int|
            0 <= i < outcomes.len() ==> (#[trigger] outcomes[i]).1 is Some,
    decreases outcomes.len(),
{
    reveal(Seq::filter_map);
    if outcomes.len() > 0 {
        let d = outcomes.drop_last();
        lemma_failures_at_most(d);
        if forall|i: int| 0 <= i < d.len() ==> (#[trigger] d[i]).1 is Some {
            assert forall|i: int| 0 <= i < outcomes.len() - 1 implies (#[trigger] outcomes[i]).1 is Some by {
                assert(d[i].1 is Some);
            }
        }
        if forall|i: int| 0 <= i < outcomes.len() ==> (#[trigger] outcomes[i]).1 is Some {
            assert forall|i: int| 0 <= i < d.len() implies (#[trigger] d[i]).1 is Some by {
                assert(outcomes[i].1 is Some);
            }
            assert(outcomes[outcomes.len() - 1].1 is Some);
        }
    }
}

} // verus!
