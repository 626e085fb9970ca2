//! What a lock of the old format becomes.

use vstd::prelude::*;
use crate::json::JsonView;
use crate::laws::tools::{lemma_filter_map_has, says};
use crate::migrate::{
    chosen_root, field_of, is_legacy, is_legacy_package, is_local_dir, legacy_target,
    legacy_targets, legacy_text, migrated_view, packages_of, row_of, targets_in, text_field,
    toml_content, with_paths, TomlView,
};

verus! {

/// A name stands for what its first row holds, and for nothing where it has none.
pub proof fn law_the_first_row_counts(rows: Seq<(Seq<char>, TomlView)>, name: Seq<char>, i: int)
    ensures
        0 <= i < rows.len() && rows[i].0 == name && (forall|j: int|
            0 <= j < i ==> (#[trigger] rows[j]).0 != name) ==> row_of(rows, name) == Some(rows[i].1),
        row_of(rows, name) is None <==> forall|j: int|
            0 <= j < rows.len() ==> (#[trigger] rows[j]).0 != name,
    decreases rows.len(),
{
    if rows.len() > 0 {
        let rest = rows.drop_first();
        law_the_first_row_counts(rest, name, i - 1);
        assert forall|j: int| 0 <= j < rest.len() implies #[trigger] rest[j] == rows[j + 1] by {}
        if rows[0].0 == name {
            assert(row_of(rows, name) is Some);
        } else {
            if forall|j: int| 0 <= j < rows.len() ==> (#[trigger] rows[j]).0 != name {
                assert forall|j: int| 0 <= j < rest.len() implies (#[trigger] rest[j]).0 != name by {
                    assert(rows[j + 1].0 != name);
                }
            }
            if forall|j: int| 0 <= j < rest.len() ==> (#[trigger] rest[j]).0 != name {
                assert forall|j: int| 0 <= j < rows.len() implies (#[trigger] rows[j]).0 != name by {
                    if j > 0 {
                        assert(rest[j - 1].0 != name);
                    }
                }
            }
            if 0 <= i < rows.len() && rows[i].0 == name && (forall|j: int|
                0 <= j < i ==> (#[trigger] rows[j]).0 != name) {
                assert(rest[i - 1].0 == name);
                assert forall|j: int| 0 <= j < i - 1 implies (#[trigger] rest[j]).0 != name by {
                    assert(rows[j + 1].0 != name);
                }
            }
        }
    }
}

/// Only a table has fields; a text field is one that holds a text.
pub proof fn law_only_tables_have_fields(v: TomlView, name: Seq<char>, t: Seq<char>)
    ensures
        v matches TomlView::Table(rows) ==> field_of(v, name) == row_of(rows, name),
        !(v is Table) ==> field_of(v, name) is None,
        text_field(v, name) == Some(t) <==> field_of(v, name) == Some(TomlView::Text(t)),
{
}

/// The packages of a lock are what it lists under `package`.
pub proof fn law_the_packages_of_a_lock(lock: TomlView)
    ensures
        field_of(lock, "package"@) matches Some(TomlView::Array(ps)) ==> packages_of(lock) == ps,
        !(field_of(lock, "package"@) matches Some(TomlView::Array(ps)) && true) ==> packages_of(
            lock,
        ).len() == 0,
{
}

/// A package is of the old format exactly where it was linked or its source is of
/// the type `local_dir`; a lock, where one of its packages is.
pub proof fn law_what_is_of_the_old_format(lock: TomlView, p: TomlView)
    ensures
        is_local_dir(p) <==> (field_of(p, "source"@) matches Some(s) && text_field(s, "type"@)
            == Some("local_dir"@)),
        is_legacy_package(p) <==> field_of(p, "linked_at"@) is Some || is_local_dir(p),
        is_legacy(lock) <==> exists|i: int|
            0 <= i < packages_of(lock).len() && is_legacy_package(#[trigger] packages_of(lock)[i]),
{
}

/// A package migrates exactly where it is a directory of the old format with a name
/// and a path, and with those.
pub proof fn law_what_migrates(p: TomlView, name: Seq<char>, path: Seq<char>)
    ensures
        legacy_target(p) == Some((name, path)) <==> is_local_dir(p) && text_field(p, "name"@)
            == Some(name) && text_field(field_of(p, "source"@)->Some_0, "path"@) == Some(path),
{
}

/// The packages that migrate are those of the lock that can; of a text that is no
/// lock, none.
pub proof fn law_every_migrating_package_is_found(
    lock: TomlView,
    content: Seq<char>,
    t: (Seq<char>, Seq<char>),
)
    ensures
        legacy_targets(lock).contains(t) <==> exists|i: int|
            0 <= i < packages_of(lock).len() && legacy_target(#[trigger] packages_of(lock)[i])
                == Some(t),
        toml_content(content) is None ==> targets_in(content).len() == 0 && !legacy_text(content),
        toml_content(content) == Some(lock) ==> targets_in(content) == legacy_targets(lock) && (
        legacy_text(content) <==> is_legacy(lock)),
{
    let f = |p: TomlView| legacy_target(p);
    assert(legacy_targets(lock) == packages_of(lock).filter_map(f));
    lemma_filter_map_has(packages_of(lock), f, t);
    if legacy_targets(lock).contains(t) {
        let i = choose|i: int|
            0 <= i < packages_of(lock).len() && f(#[trigger] packages_of(lock)[i]) == Some(t);
        assert(legacy_target(packages_of(lock)[i]) == Some(t));
    }
    if exists|i: int|
        0 <= i < packages_of(lock).len() && legacy_target(#[trigger] packages_of(lock)[i]) == Some(
            t,
        ) {
        let i = choose|i: int|
            0 <= i < packages_of(lock).len() && legacy_target(#[trigger] packages_of(lock)[i])
                == Some(t);
        assert(f(packages_of(lock)[i]) == Some(t));
    }
}

/// One more package stands in the new file with its path alone, in place of one of
/// its name; the others stay.
pub proof fn law_every_path_is_written(
    targets: Seq<(Seq<char>, Seq<char>)>,
    name: Seq<char>,
    path: Seq<char>,
    other: Seq<char>,
)
    ensures
        with_paths(Seq::empty()).dom() == Set::<Seq<char>>::empty(),
        ({
            let m = with_paths(targets.push((name, path)));
            &&& m.dom() == with_paths(targets).dom().insert(name)
            &&& m[name].dom() == set!["path"@]
            &&& m[name]["path"@] == path
            &&& other != name && with_paths(targets).dom().contains(other) ==> m[other]
                == with_paths(targets)[other]
        }),
{
    assert(targets.push((name, path)).drop_last() =~= targets);
    let m = with_paths(targets.push((name, path)));
    assert(m.dom() =~= with_paths(targets).dom().insert(name));
    assert(m[name].dom() =~= set!["path"@]);
    assert(with_paths(Seq::empty()).dom() =~= Set::<Seq<char>>::empty());
}

/// The root is the one that is given, else the one of the environment where that is
/// not empty, else the working directory; it is missing only where that is.
pub proof fn law_which_root_is_chosen(
    explicit: Option<Seq<char>>,
    env: Option<Seq<char>>,
    cwd: Result<Seq<char>, Seq<char>>,
)
    ensures
        ({
            let r = chosen_root(explicit, env, cwd);
            let set = env is Some && env->Some_0.len() > 0;
            &&& explicit matches Some(x) ==> r == Ok::<Seq<char>, Seq<char>>(x)
            &&& explicit is None && set ==> r == Ok::<Seq<char>, Seq<char>>(env->Some_0)
            &&& explicit is None && !set ==> (cwd matches Ok(d) ==> r == Ok::<
                Seq<char>,
                Seq<char>,
            >(d))
            &&& explicit is None && !set ==> (cwd matches Err(c) ==> r == Err::<
                Seq<char>,
                Seq<char>,
            >("Cannot determine cwd: "@ + c))
        }),
{
}

/// The answer names the new file and where the lock was set aside.
pub proof fn law_the_migration_is_told(toml_path: Seq<char>, backup: Seq<char>)
    ensures
        says(migrated_view(toml_path, backup), "migrated"@, JsonView::Bool(true)),
        says(migrated_view(toml_path, backup), "alc_toml"@, JsonView::Text(toml_path)),
        says(migrated_view(toml_path, backup), "backup"@, JsonView::Text(backup)),
{
    let ms = migrated_view(toml_path, backup).members();
    assert(ms[0] == ("migrated"@, JsonView::Bool(true)));
    assert(ms[1] == ("alc_toml"@, JsonView::Text(toml_path)));
    assert(ms[2] == ("backup"@, JsonView::Text(backup)));
}

} // verus!
