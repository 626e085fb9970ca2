//! What the list of packages holds, and in which order.

use vstd::prelude::*;
use crate::json::{text_views, JsonView};
use crate::laws::tools::{lemma_add_has, lemma_filter_map_has, says};
use crate::list::{
    all_drafts, below, dep_source_name, dirs_with, draft_names, entry_json, finished, found_in,
    found_of, global_draft, goes_first, host_members, install_time, is_active, is_broken, is_later,
    is_listed, kind_of, level_with, list_view, lock_map, locked_draft, other_paths, package_dirs,
    project_draft, project_drafts, project_info, recorded_type, some_bool, some_text, some_texts,
    source_name, upper_drafts, variant_draft, variant_names, with_free_members, within_limit,
    DirFact, DraftView, Found, ListEntryView, ProjectFacts, ProjectInfoView, ProjectToml,
    RecordedKind, RecordedPackage, ResolvedSourceKind, Scope, SearchDir, VariantFact,
};
use crate::logs::search_path_json;
use crate::names::is_safe_name;
use crate::order::lex_lt;
use crate::paths::joined_path;
use crate::source::{LockPackage, PackageDep, PackageSource, SourceView};
use crate::text::opt_text;

verus! {

// ─── Search paths ───────────────────────────────────────────────

/// An entry of a search path is listed exactly where it is a directory or a link
/// with a package in it, or a link that leads nowhere, and is no system package.
pub proof fn law_what_is_listed(f: DirFact)
    ensures
        is_broken(f) <==> f.is_symlink && !f.exists,
        is_listed(f) <==> f.name@ != "evalframe"@ && ((f.is_symlink && !f.exists) || ((f.is_symlink
            || f.is_dir) && f.has_init)),
{
}

/// The packages of a search path are those of its entries that are listed, with
/// the path; a search path that cannot be read has none, and a further one adds
/// its packages behind those of the ones before it.
pub proof fn law_every_search_path_is_listed(dirs: Seq<SearchDir>, d: SearchDir, x: Found)
    ensures
        found_in(Seq::empty()).len() == 0,
        found_in(dirs.push(d)) == found_in(dirs) + found_of(d),
        d.items is None ==> found_of(d).len() == 0,
        d.items matches Some(v) ==> (found_of(d).contains(x) <==> x.dir == d.path && is_listed(x.fact)
            && v@.contains(x.fact)),
{
    assert(dirs.push(d).drop_last() =~= dirs);
    if let Some(v) = d.items {
        let f = |f: DirFact|
            if is_listed(f) {
                Some(Found { dir: d.path, fact: f })
            } else {
                None
            };
        assert(found_of(d) == v@.filter_map(f));
        lemma_filter_map_has(v@, f, x);
        if found_of(d).contains(x) {
            let i = choose|i: int| 0 <= i < v@.len() && f(#[trigger] v@[i]) == Some(x);
            assert(v@[i] == x.fact);
        }
        if x.dir == d.path && is_listed(x.fact) && v@.contains(x.fact) {
            let i = choose|i: int| 0 <= i < v@.len() && v@[i] == x.fact;
            assert(f(v@[i]) == Some(x));
        }
    }
}

/// A package of a search path adds that path to those that hold its name, behind
/// the ones before it, and changes nothing of other names.
pub proof fn law_search_paths_of_a_name(found: Seq<Found>, p: Found, name: Seq<char>)
    ensures
        dirs_with(Seq::empty(), name).len() == 0,
        p.fact.name@ == name ==> dirs_with(found.push(p), name) == dirs_with(found, name).push(p.dir@),
        p.fact.name@ != name ==> dirs_with(found.push(p), name) == dirs_with(found, name),
{
    reveal(Seq::filter_map);
    assert(found.push(p).drop_last() =~= found);
    assert(dirs_with(Seq::empty(), name) =~= Seq::empty());
}

/// The package's directory is taken below each search path, in order.
pub proof fn law_package_directories(dirs: Seq<Seq<char>>, name: Seq<char>, i: int)
    requires
        0 <= i < dirs.len(),
    ensures
        package_dirs(dirs, name).len() == dirs.len(),
        package_dirs(dirs, name)[i] == joined_path(dirs[i], name),
{
}

/// What takes effect shadows every package of its name in the search paths; what
/// does not shadows nothing.
pub proof fn law_what_takes_effect_shadows(found: Seq<Found>, name: Seq<char>)
    ensures
        below(found, name, false).len() == 0,
        below(found, name, true) == package_dirs(dirs_with(found, name), name),
{
}

// ─── The project ────────────────────────────────────────────────

/// The last entry of a name in the lock counts.
pub proof fn law_the_last_locked_counts(v: Seq<LockPackage>, p: LockPackage)
    ensures
        lock_map(Seq::empty()) == Map::<Seq<char>, LockPackage>::empty(),
        lock_map(v.push(p)) == lock_map(v).insert(p.name@, p),
{
    assert(v.push(p).drop_last() =~= v);
}

/// The names of the kinds of source.
pub proof fn law_kinds_of_source_are_named(s: PackageSource, d: PackageDep, v: SourceView)
    ensures
        s is Path ==> source_name(s) == "path"@,
        s is Installed ==> source_name(s) == "installed"@,
        s is Git ==> source_name(s) == "git"@,
        s is Bundled ==> source_name(s) == "bundled"@,
        s is Unknown ==> source_name(s) == "unknown"@,
        d is Version ==> dep_source_name(d) == "installed"@,
        d is Path ==> dep_source_name(d) == "path"@,
        d is Git ==> dep_source_name(d) == "git"@,
        kind_of(v) == RecordedKind::Git <==> v is Git,
        kind_of(v) == RecordedKind::Path <==> v is Path,
        kind_of(v) == RecordedKind::Bundled <==> v is Bundled,
        kind_of(v) == RecordedKind::Installed <==> v is Installed || v is Unknown,
{
}

/// The kind of a recorded package is told, of a copied one with its origin.
pub proof fn law_recorded_kinds_are_told(p: RecordedPackage)
    ensures
        p.kind == RecordedKind::Git ==> recorded_type(p) == "git"@,
        p.kind == RecordedKind::Path ==> recorded_type(p) == "path"@,
        p.kind == RecordedKind::Bundled ==> recorded_type(p) == "bundled"@,
        p.kind == RecordedKind::Installed ==> recorded_type(p) == "installed (from: "@ + p.source@
            + ")"@,
{
}

/// What the lock says of a declared package counts; where it says nothing, the
/// declaration tells the kind and nothing more. Only a locked directory has a
/// path, taken below the project.
pub proof fn law_the_lock_comes_first(
    name: Seq<char>,
    dep: PackageDep,
    lock: Map<Seq<char>, LockPackage>,
    root: Seq<char>,
)
    ensures
        ({
            let i = project_info(name, dep, lock, root);
            let p = lock[name];
            let locked = lock.dom().contains(name);
            &&& locked ==> i.version == opt_text(p.version) && i.source_type == source_name(p.source)
            &&& !locked ==> i.version is None && i.source_type == dep_source_name(dep)
            &&& i.path is Some <==> locked && p.source is Path
            &&& locked ==> (p.source matches PackageSource::Path { path } ==> i.path == Some(
                joined_path(root, path@),
            ))
        }),
{
}

/// A variant takes effect from its own directory and shadows all of its name.
pub proof fn law_variants_take_effect(v: VariantFact, found: Seq<Found>)
    ensures
        ({
            let d = variant_draft(v, found);
            &&& d.entry.name == v.name@ && d.entry.scope == Scope::Variant && d.entry.active
            &&& d.entry.path == Some(v.pkg_dir@) && d.candidate == Some(v.pkg_dir@)
            &&& d.entry.source_type == Some("path"@)
            &&& d.entry.resolved_source_kind == Some(ResolvedSourceKind::Variant)
            &&& d.shadowed == package_dirs(dirs_with(found, v.name@), v.name@)
            &&& d.entry.error is None && d.entry.version is None && d.entry.source is None
        }),
{
}

/// A project package takes effect exactly where no variant has its name. Its
/// source is its own directory where it is one, and else its place among the
/// packages; where that cannot be told, the entry says why.
pub proof fn law_project_packages_are_drafted(
    name: Seq<char>,
    info: ProjectInfoView,
    packages_dir: Result<String, String>,
    variants: Seq<Seq<char>>,
    found: Seq<Found>,
)
    ensures
        ({
            let d = project_draft(name, info, packages_dir, variants, found);
            let local = info.source_type == "path"@;
            &&& d.entry.name == name && d.entry.scope == Scope::Project
            &&& d.entry.active <==> !variants.contains(name)
            &&& d.entry.version == info.version && d.entry.path == info.path
            &&& d.entry.source_type == Some(info.source_type) && d.entry.source is None
            &&& d.entry.error is Some <==> !local && packages_dir is Err
            &&& d.entry.error matches Some(m) ==> (packages_dir matches Err(e) && m
                == "cannot resolve packages_dir: "@ + e@)
            &&& local ==> d.candidate == info.path
            &&& !local ==> (packages_dir matches Ok(p) ==> d.candidate == Some(
                joined_path(p@, name),
            ))
            &&& !local && packages_dir is Err ==> d.candidate is None
            &&& d.entry.resolved_source_kind == Some(ResolvedSourceKind::LocalPath) <==> local
            &&& d.entry.resolved_source_kind == Some(ResolvedSourceKind::Bundled) <==> !local
                && info.source_type == "bundled"@
            &&& d.entry.resolved_source_kind == Some(ResolvedSourceKind::Installed) <==> !local
                && info.source_type != "bundled"@
            &&& d.shadowed == (if variants.contains(name) {
                Seq::empty()
            } else {
                package_dirs(dirs_with(found, name), name)
            })
        }),
{
}

/// The project's packages are the declared ones in their order; where nothing is
/// declared, those of the lock that are directories; where the declaration cannot
/// be read, none.
pub proof fn law_which_project_packages_are_listed(
    p: ProjectFacts,
    packages_dir: Result<String, String>,
    found: Seq<Found>,
    x: DraftView,
)
    ensures
        p.toml is Failed ==> project_drafts(p, packages_dir, found).len() == 0,
        p.toml matches ProjectToml::Loaded(deps) ==> project_drafts(p, packages_dir, found).len()
            == deps@.len() && forall|i: int|
            0 <= i < deps@.len() ==> #[trigger] project_drafts(p, packages_dir, found)[i]
                == project_draft(
                deps@[i].0@,
                project_info(deps@[i].0@, deps@[i].1, p.lock@, p.root@),
                packages_dir,
                variant_names(p.variants@),
                found,
            ),
        p.toml is Missing ==> (project_drafts(p, packages_dir, found).contains(x) <==> exists|i: int|
            0 <= i < p.lock.keys().len() && p.lock@[#[trigger] p.lock.keys()[i]].source is Path && x
                == project_draft(
                p.lock.keys()[i],
                ProjectInfoView {
                    version: opt_text(p.lock@[p.lock.keys()[i]].version),
                    source_type: "path"@,
                    path: Some(
                        joined_path(p.root@, p.lock@[p.lock.keys()[i]].source->Path_path@),
                    ),
                },
                packages_dir,
                variant_names(p.variants@),
                found,
            )),
{
    if p.toml is Missing {
        let f = |k: Seq<char>| locked_draft(p, k, packages_dir, found);
        let ks = p.lock.keys();
        assert(project_drafts(p, packages_dir, found) == ks.filter_map(f));
        lemma_filter_map_has(ks, f, x);
        if project_drafts(p, packages_dir, found).contains(x) {
            let i = choose|i: int| 0 <= i < ks.len() && f(#[trigger] ks[i]) == Some(x);
            assert(p.lock@[ks[i]].source is Path);
        }
        if exists|i: int|
            0 <= i < ks.len() && p.lock@[#[trigger] ks[i]].source is Path && Some(x)
                == locked_draft(p, ks[i], packages_dir, found) {
            let i = choose|i: int|
                0 <= i < ks.len() && p.lock@[#[trigger] ks[i]].source is Path && Some(x)
                    == locked_draft(p, ks[i], packages_dir, found);
            assert(f(ks[i]) == Some(x));
        }
    }
}

// ─── Global packages ────────────────────────────────────────────

/// A package of the search paths takes effect exactly where it is the first of its
/// name and nothing above has that name; then it shadows the others of its name.
pub proof fn law_global_packages_take_effect(
    found: Seq<Found>,
    k: int,
    above: Seq<Seq<char>>,
    recorded: Map<Seq<char>, RecordedPackage>,
)
    requires
        0 <= k < found.len(),
    ensures
        ({
            let d = global_draft(found, k, above, recorded);
            let name = found[k].fact.name@;
            let dirs = dirs_with(found, name);
            &&& d.entry.name == name && d.entry.scope == Scope::Global && d.entry.source == Some(
                found[k].dir@,
            )
            &&& d.entry.active <==> !above.contains(name) && forall|j: int|
                0 <= j < k ==> (#[trigger] found[j]).fact.name@ != name
            &&& d.entry.overrides is Some <==> d.entry.active && dirs.len() > 1
            &&& d.entry.overrides matches Some(o) ==> o == dirs.skip(1)
            &&& d.entry.active && dirs.len() > 1 ==> d.shadowed == package_dirs(dirs.skip(1), name)
            &&& !(d.entry.active && dirs.len() > 1) ==> d.shadowed.len() == 0
            &&& d.entry.path is None && d.entry.version is None
        }),
{
}

/// What is recorded of a package is listed with it, and nothing where nothing is.
pub proof fn law_records_are_listed(
    found: Seq<Found>,
    k: int,
    above: Seq<Seq<char>>,
    recorded: Map<Seq<char>, RecordedPackage>,
)
    requires
        0 <= k < found.len(),
    ensures
        ({
            let e = global_draft(found, k, above, recorded).entry;
            let known = recorded.dom().contains(found[k].fact.name@);
            let r = recorded[found[k].fact.name@];
            &&& known ==> e.source_type == Some(recorded_type(r)) && e.installed_at == Some(
                r.installed_at@,
            ) && e.updated_at == Some(r.updated_at@) && e.install_source == Some(r.source@)
            &&& !known ==> e.source_type is None && e.installed_at is None && e.updated_at is None
                && e.install_source is None
        }),
{
}

/// A link is listed as one, with its target and whether it leads nowhere; its
/// source is where it leads. What is no link is its own source.
pub proof fn law_links_are_listed(
    found: Seq<Found>,
    k: int,
    above: Seq<Seq<char>>,
    recorded: Map<Seq<char>, RecordedPackage>,
)
    requires
        0 <= k < found.len(),
    ensures
        ({
            let d = global_draft(found, k, above, recorded);
            let f = found[k].fact;
            &&& f.is_symlink ==> d.entry.linked == Some(true) && d.entry.link_target == opt_text(
                f.link_target,
            ) && d.entry.broken == Some(!f.exists) && d.entry.resolved_source_kind == Some(
                ResolvedSourceKind::Linked,
            )
            &&& !f.is_symlink ==> d.entry.linked is None && d.entry.link_target is None
                && d.entry.broken is None && d.candidate == Some(
                joined_path(found[k].dir@, f.name@),
            ) && !(d.entry.resolved_source_kind == Some(ResolvedSourceKind::Linked))
            &&& f.is_symlink ==> (d.candidate is Some <==> f.exists && f.link_target is Some)
            &&& f.is_symlink && f.exists ==> (f.link_target matches Some(t) ==> d.candidate == Some(
                joined_path(found[k].dir@, t@),
            ))
        }),
{
}

/// What a package says of itself is listed where its name is sound and it
/// answered; else the entry says what is wrong.
pub proof fn law_what_packages_say_is_listed(
    found: Seq<Found>,
    k: int,
    above: Seq<Seq<char>>,
    recorded: Map<Seq<char>, RecordedPackage>,
)
    requires
        0 <= k < found.len(),
    ensures
        ({
            let e = global_draft(found, k, above, recorded).entry;
            let f = found[k].fact;
            &&& e.error is None <==> is_safe_name(f.name@) && f.meta is Some
            &&& !is_safe_name(f.name@) ==> e.error == Some("invalid package name"@)
            &&& is_safe_name(f.name@) && f.meta is None ==> e.error == Some("failed to load meta"@)
            &&& is_safe_name(f.name@) ==> (f.meta matches Some(m) ==> e.meta == m@)
            &&& !is_safe_name(f.name@) || f.meta is None ==> e.meta == JsonView::Object(Seq::empty())
        }),
{
}

// ─── The whole list ─────────────────────────────────────────────

/// The list holds the variants, then the project's packages, then every package of
/// the search paths.
pub proof fn law_the_list_is_whole(
    project: Option<ProjectFacts>,
    packages_dir: Result<String, String>,
    found: Seq<Found>,
    recorded: Map<Seq<char>, RecordedPackage>,
)
    ensures
        ({
            let all = all_drafts(project, packages_dir, found, recorded);
            let upper = upper_drafts(project, packages_dir, found);
            let n = upper.len();
            &&& all.len() == n + found.len()
            &&& all.take(n as int) == upper
            &&& forall|k: int|
                0 <= k < found.len() ==> #[trigger] all[n + k] == global_draft(
                    found,
                    k,
                    Seq::new(n, |i: int| upper[i].entry.name),
                    recorded,
                )
            &&& project is None ==> n == 0
            &&& project matches Some(p) ==> n == p.variants@.len() + project_drafts(
                p,
                packages_dir,
                found,
            ).len() && (forall|i: int|
                0 <= i < p.variants@.len() ==> #[trigger] upper[i] == variant_draft(
                    p.variants@[i],
                    found,
                )) && upper.skip(p.variants@.len() as int) == project_drafts(p, packages_dir, found)
        }),
{
    let all = all_drafts(project, packages_dir, found, recorded);
    let upper = upper_drafts(project, packages_dir, found);
    assert(draft_names(upper) =~= Seq::new(upper.len(), |i: int| upper[i].entry.name));
    assert(all.take(upper.len() as int) =~= upper);
    if let Some(p) = project {
        assert(upper.skip(p.variants@.len() as int) =~= project_drafts(p, packages_dir, found));
    }
}

/// A shadowed path is listed exactly where it could be resolved and is not the
/// entry's own.
pub proof fn law_other_paths(shadows: Seq<Option<String>>, own: Option<Seq<char>>, t: Seq<char>)
    ensures
        other_paths(shadows, own).contains(t) <==> own != Some(t) && exists|i: int|
            0 <= i < shadows.len() && opt_text(#[trigger] shadows[i]) == Some(t),
{
    let f = |p: Option<String>|
        match p {
            Some(t) => if own == Some(t@) {
                None
            } else {
                Some(t@)
            },
            None => None,
        };
    assert(other_paths(shadows, own) == shadows.filter_map(f));
    lemma_filter_map_has(shadows, f, t);
    if other_paths(shadows, own).contains(t) {
        let i = choose|i: int| 0 <= i < shadows.len() && f(#[trigger] shadows[i]) == Some(t);
        assert(opt_text(shadows[i]) == Some(t));
    }
    if own != Some(t) && exists|i: int|
        0 <= i < shadows.len() && opt_text(#[trigger] shadows[i]) == Some(t) {
        let i = choose|i: int| 0 <= i < shadows.len() && opt_text(#[trigger] shadows[i]) == Some(t);
        assert(f(shadows[i]) == Some(t));
    }
}

/// A finished entry has the path that its source leads to, where it has a source,
/// and the paths that it shadows, where there are any; the rest stays.
pub proof fn law_entries_are_finished(
    d: DraftView,
    resolved: Option<Seq<char>>,
    shadows: Seq<Option<String>>,
)
    ensures
        ({
            let e = finished(d, resolved, shadows);
            let paths = other_paths(
                shadows,
                if d.entry.scope == Scope::Global {
                    None
                } else {
                    e.resolved_source_path
                },
            );
            &&& e.resolved_source_path == (if d.candidate is Some {
                resolved
            } else {
                None
            })
            &&& e.override_paths is Some <==> paths.len() > 0
            &&& e.override_paths matches Some(v) ==> v == paths
            &&& e == (ListEntryView {
                resolved_source_path: e.resolved_source_path,
                override_paths: e.override_paths,
                ..d.entry
            })
        }),
{
}

// ─── Documents ──────────────────────────────────────────────────

/// The members of the document of an entry that the host sets are those that have
/// a value, and no others.
pub proof fn law_the_entry_is_told_whole(e: ListEntryView)
    ensures
        says(entry_json(e), "name"@, JsonView::Text(e.name)),
        says(entry_json(e), "scope"@, JsonView::Text(e.scope.name_view())),
        says(entry_json(e), "active"@, JsonView::Bool(e.active)),
        e.source_type matches Some(t) ==> says(entry_json(e), "source_type"@, JsonView::Text(t)),
        e.path matches Some(t) ==> says(entry_json(e), "path"@, JsonView::Text(t)),
        e.source matches Some(t) ==> says(entry_json(e), "source"@, JsonView::Text(t)),
        e.version matches Some(t) ==> says(entry_json(e), "version"@, JsonView::Text(t)),
        e.installed_at matches Some(t) ==> says(entry_json(e), "installed_at"@, JsonView::Text(t)),
        e.updated_at matches Some(t) ==> says(entry_json(e), "updated_at"@, JsonView::Text(t)),
        e.install_source matches Some(t) ==> says(entry_json(e), "install_source"@, JsonView::Text(t)),
        e.resolved_source_path matches Some(t) ==> says(entry_json(e), "resolved_source_path"@, JsonView::Text(t)),
        e.error matches Some(t) ==> says(entry_json(e), "error"@, JsonView::Text(t)),
        e.link_target matches Some(t) ==> says(entry_json(e), "link_target"@, JsonView::Text(t)),
        e.linked matches Some(b) ==> says(entry_json(e), "linked"@, JsonView::Bool(b)),
        e.broken matches Some(b) ==> says(entry_json(e), "broken"@, JsonView::Bool(b)),
        e.resolved_source_kind matches Some(k) ==> says(
            entry_json(e),
            "resolved_source_kind"@,
            JsonView::Text(k.name_view()),
        ),
        e.overrides matches Some(v) ==> says(
            entry_json(e),
            "overrides"@,
            JsonView::Array(text_views(v)),
        ),
        e.override_paths matches Some(v) ==> says(
            entry_json(e),
            "override_paths"@,
            JsonView::Array(text_views(v)),
        ),
{
    let name = ("name"@, JsonView::Text(e.name));
    let scope = ("scope"@, JsonView::Text(e.scope.name_view()));
    assert(seq![name, scope][0] == name && seq![name, scope][1] == scope);
    lemma_host_has(e, name);
    lemma_host_has(e, scope);
    let active = ("active"@, JsonView::Bool(e.active));
    assert(seq![active][0] == active);
    lemma_host_has(e, active);
    lemma_host_has_text(e, "source_type"@, e.source_type);
    lemma_host_has_text(e, "path"@, e.path);
    lemma_host_has_text(e, "source"@, e.source);
    lemma_host_has_text(e, "version"@, e.version);
    lemma_host_has_text(e, "installed_at"@, e.installed_at);
    lemma_host_has_text(e, "updated_at"@, e.updated_at);
    lemma_host_has_text(e, "install_source"@, e.install_source);
    lemma_host_has_text(e, "resolved_source_path"@, e.resolved_source_path);
    lemma_host_has_text(e, "error"@, e.error);
    lemma_host_has_text(e, "link_target"@, e.link_target);
    lemma_host_has_text(e, "resolved_source_kind"@, kind_name(e));
    lemma_host_has_bool(e, "linked"@, e.linked);
    lemma_host_has_bool(e, "broken"@, e.broken);
    lemma_host_has_texts(e, "overrides"@, e.overrides);
    lemma_host_has_texts(e, "override_paths"@, e.override_paths);
}

proof fn lemma_host_has_text(e: ListEntryView, name: Seq<char>, o: Option<Seq<char>>)
    requires
        forall|m: (Seq<char>, JsonView)| some_text(name, o).contains(m) ==> #[trigger] host_part_has(e, m),
    ensures
        o matches Some(v) ==> says(entry_json(e), name, JsonView::Text(v)),
{
    if let Some(v) = o {
        let m = (name, JsonView::Text(v));
        assert(some_text(name, o)[0] == m);
        assert(host_part_has(e, m));
        lemma_host_has(e, m);
    }
}

proof fn lemma_host_has_bool(e: ListEntryView, name: Seq<char>, o: Option<bool>)
    requires
        forall|m: (Seq<char>, JsonView)| some_bool(name, o).contains(m) ==> #[trigger] host_part_has(e, m),
    ensures
        o matches Some(v) ==> says(entry_json(e), name, JsonView::Bool(v)),
{
    if let Some(v) = o {
        let m = (name, JsonView::Bool(v));
        assert(some_bool(name, o)[0] == m);
        assert(host_part_has(e, m));
        lemma_host_has(e, m);
    }
}

proof fn lemma_host_has_texts(e: ListEntryView, name: Seq<char>, o: Option<Seq<Seq<char>>>)
    requires
        forall|m: (Seq<char>, JsonView)| some_texts(name, o).contains(m) ==> #[trigger] host_part_has(e, m),
    ensures
        o matches Some(v) ==> says(entry_json(e), name, JsonView::Array(text_views(v))),
{
    if let Some(v) = o {
        let m = (name, JsonView::Array(text_views(v)));
        assert(some_texts(name, o)[0] == m);
        assert(host_part_has(e, m));
        lemma_host_has(e, m);
    }
}

/// The name of the kind of the resolved source, where there is one.
pub open spec fn kind_name(e: ListEntryView) -> Option<Seq<char>> {
    match e.resolved_source_kind {
        Some(k) => Some(k.name_view()),
        None => None,
    }
}

/// Some part of what the host sets holds the member.
pub open spec fn host_part_has(e: ListEntryView, m: (Seq<char>, JsonView)) -> bool {
    ||| seq![
        ("name"@, JsonView::Text(e.name)),
        ("scope"@, JsonView::Text(e.scope.name_view())),
    ].contains(m)
    ||| some_text("source_type"@, e.source_type).contains(m)
    ||| some_text("path"@, e.path).contains(m)
    ||| some_text("source"@, e.source).contains(m)
    ||| seq![("active"@, JsonView::Bool(e.active))].contains(m)
    ||| some_text("version"@, e.version).contains(m)
    ||| some_text("installed_at"@, e.installed_at).contains(m)
    ||| some_text("updated_at"@, e.updated_at).contains(m)
    ||| some_text("install_source"@, e.install_source).contains(m)
    ||| some_texts("overrides"@, e.overrides).contains(m)
    ||| some_text("resolved_source_path"@, e.resolved_source_path).contains(m)
    ||| some_text("resolved_source_kind"@, kind_name(e)).contains(m)
    ||| some_texts("override_paths"@, e.override_paths).contains(m)
    ||| some_text("error"@, e.error).contains(m)
    ||| some_bool("linked"@, e.linked).contains(m)
    ||| some_text("link_target"@, e.link_target).contains(m)
    ||| some_bool("broken"@, e.broken).contains(m)
}

/// The document holds every member of every part.
proof fn lemma_host_has(e: ListEntryView, m: (Seq<char>, JsonView))
    requires
        host_part_has(e, m),
    ensures
        entry_json(e).members().contains(m),
{
    let p0 = seq![("name"@, JsonView::Text(e.name)), ("scope"@, JsonView::Text(e.scope.name_view()))];
    let p1 = p0 + some_text("source_type"@, e.source_type);
    lemma_either_has(p0, some_text("source_type"@, e.source_type), m);
    let p2 = p1 + some_text("path"@, e.path);
    lemma_either_has(p1, some_text("path"@, e.path), m);
    let p3 = p2 + some_text("source"@, e.source);
    lemma_either_has(p2, some_text("source"@, e.source), m);
    let p4 = p3 + seq![("active"@, JsonView::Bool(e.active))];
    lemma_either_has(p3, seq![("active"@, JsonView::Bool(e.active))], m);
    let p5 = p4 + some_text("version"@, e.version);
    lemma_either_has(p4, some_text("version"@, e.version), m);
    let p6 = p5 + some_text("installed_at"@, e.installed_at);
    lemma_either_has(p5, some_text("installed_at"@, e.installed_at), m);
    let p7 = p6 + some_text("updated_at"@, e.updated_at);
    lemma_either_has(p6, some_text("updated_at"@, e.updated_at), m);
    let p8 = p7 + some_text("install_source"@, e.install_source);
    lemma_either_has(p7, some_text("install_source"@, e.install_source), m);
    let p9 = p8 + some_texts("overrides"@, e.overrides);
    lemma_either_has(p8, some_texts("overrides"@, e.overrides), m);
    let p10 = p9 + some_text("resolved_source_path"@, e.resolved_source_path);
    lemma_either_has(p9, some_text("resolved_source_path"@, e.resolved_source_path), m);
    let p11 = p10 + some_text("resolved_source_kind"@, kind_name(e));
    lemma_either_has(p10, some_text("resolved_source_kind"@, kind_name(e)), m);
    let p12 = p11 + some_texts("override_paths"@, e.override_paths);
    lemma_either_has(p11, some_texts("override_paths"@, e.override_paths), m);
    let p13 = p12 + some_text("error"@, e.error);
    lemma_either_has(p12, some_text("error"@, e.error), m);
    let p14 = p13 + some_bool("linked"@, e.linked);
    lemma_either_has(p13, some_bool("linked"@, e.linked), m);
    let p15 = p14 + some_text("link_target"@, e.link_target);
    lemma_either_has(p14, some_text("link_target"@, e.link_target), m);
    let p16 = p15 + some_bool("broken"@, e.broken);
    lemma_either_has(p15, some_bool("broken"@, e.broken), m);
    assert(host_members(e) == p16);
    lemma_free_has(host_members(e), e.meta.members());
}

proof fn lemma_either_has(
    a: Seq<(Seq<char>, JsonView)>,
    b: Seq<(Seq<char>, JsonView)>,
    m: (Seq<char>, JsonView),
)
    ensures
        (a + b).contains(m) <==> a.contains(m) || b.contains(m),
{
    lemma_add_has(a, b);
}

proof fn lemma_free_has(base: Seq<(Seq<char>, JsonView)>, extra: Seq<(Seq<char>, JsonView)>)
    ensures
        forall|x: (Seq<char>, JsonView)|
            base.contains(x) ==> #[trigger] with_free_members(base, extra).contains(x),
    decreases extra.len(),
{
    if extra.len() > 0 {
        lemma_free_has(base, extra.drop_last());
        let before = with_free_members(base, extra.drop_last());
        let r = with_free_members(base, extra);
        assert forall|x: (Seq<char>, JsonView)| base.contains(x) implies #[trigger] r.contains(
            x,
        ) by {
            assert(before.contains(x));
            let i = choose|i: int| 0 <= i < before.len() && before[i] == x;
            assert(r[i] == x);
        }
    }
}

/// The host sets no member without a value.
pub proof fn law_the_host_sets_nothing_else(e: ListEntryView)
    ensures
        host_members(e).len() == 3 + some_text("source_type"@, e.source_type).len()
            + some_text("path"@, e.path).len()
            + some_text("source"@, e.source).len()
            + some_text("version"@, e.version).len()
            + some_text("installed_at"@, e.installed_at).len()
            + some_text("updated_at"@, e.updated_at).len()
            + some_text("install_source"@, e.install_source).len()
            + some_texts("overrides"@, e.overrides).len()
            + some_text("resolved_source_path"@, e.resolved_source_path).len()
            + some_text("resolved_source_kind"@, kind_name(e)).len()
            + some_texts("override_paths"@, e.override_paths).len()
            + some_text("error"@, e.error).len()
            + some_bool("linked"@, e.linked).len()
            + some_text("link_target"@, e.link_target).len()
            + some_bool("broken"@, e.broken).len(),
{
}

/// A member without a value is left out, and one with a value is one member.
pub proof fn law_what_has_no_value_is_left_out(
    name: Seq<char>,
    t: Option<Seq<char>>,
    b: Option<bool>,
    v: Option<Seq<Seq<char>>>,
)
    ensures
        t is None ==> some_text(name, t).len() == 0,
        t is Some ==> some_text(name, t).len() == 1,
        b is None ==> some_bool(name, b).len() == 0,
        b is Some ==> some_bool(name, b).len() == 1,
        v is None ==> some_texts(name, v).len() == 0,
        v is Some ==> some_texts(name, v).len() == 1,
{
}

/// What a package says of itself is added exactly where its name is still free.
pub proof fn law_free_members_are_added(
    base: Seq<(Seq<char>, JsonView)>,
    extra: Seq<(Seq<char>, JsonView)>,
    m: (Seq<char>, JsonView),
)
    ensures
        ({
            let before = with_free_members(base, extra);
            let taken = exists|i: int| 0 <= i < before.len() && (#[trigger] before[i]).0 == m.0;
            &&& taken ==> with_free_members(base, extra.push(m)) == before
            &&& !taken ==> with_free_members(base, extra.push(m)) == before.push(m)
        }),
        with_free_members(base, Seq::empty()) == base,
{
    assert(extra.push(m).drop_last() =~= extra);
}

/// The answer holds the packages, every search path with its source, and of a
/// project its root and the path of its lock.
pub proof fn law_the_list_answer_is_whole(
    packages: Seq<JsonView>,
    search_paths: Seq<(String, String)>,
    project: Option<(Seq<char>, Seq<char>)>,
)
    ensures
        ({
            let doc = JsonView::Object(list_view(packages, search_paths, project));
            &&& says(doc, "packages"@, JsonView::Array(packages))
            &&& says(
                doc,
                "search_paths"@,
                JsonView::Array(
                    Seq::new(search_paths.len(), |i: int| search_path_json(search_paths[i])),
                ),
            )
            &&& project matches Some((root, lock)) ==> says(
                doc,
                "project_root"@,
                JsonView::Text(root),
            ) && says(doc, "lockfile_path"@, JsonView::Text(lock))
            &&& doc.members().len() == if project is Some {
                4int
            } else {
                2
            }
        }),
{
    let ms = list_view(packages, search_paths, project);
    assert(ms[0] == ("packages"@, JsonView::Array(packages)));
    assert(ms[1].0 == "search_paths"@);
    assert(ms[1].1->Array_0 =~= Seq::new(
        search_paths.len(),
        |i: int| search_path_json(search_paths[i]),
    ));
    if let Some((root, lock)) = project {
        assert(ms[2] == ("project_root"@, JsonView::Text(root)));
        assert(ms[3] == ("lockfile_path"@, JsonView::Text(lock)));
    }
}

// ─── Order ──────────────────────────────────────────────────────

/// What takes effect goes before what does not; of two alike in this, the one that
/// was installed later goes first, and one whose time is known before one whose
/// time is not.
pub proof fn law_what_goes_first(a: JsonView, b: JsonView)
    ensures
        is_active(a) <==> a.field("active"@) == Some(JsonView::Bool(true)),
        is_active(a) && !is_active(b) ==> goes_first(a, b) && !goes_first(b, a),
        is_active(a) == is_active(b) ==> (goes_first(a, b) <==> install_time(a) is Some && (
        install_time(b) is None || lex_lt(install_time(b)->Some_0, install_time(a)->Some_0))),
        is_later(install_time(a), install_time(b)) <==> install_time(a) is Some && (install_time(b)
            is None || lex_lt(install_time(b)->Some_0, install_time(a)->Some_0)),
        forall|t: Seq<char>|
            #[trigger] a.field("installed_at"@) == Some(JsonView::Text(t)) <==> install_time(a)
                == Some(t),
        level_with(a)(b) <==> is_active(a) == is_active(b) && install_time(a) == install_time(b),
{
}

/// As many packages are listed as are asked for, fifty where no number is, and all
/// where there are no more; those that are listed are the first ones.
pub proof fn law_the_list_is_cut_at_its_limit(packages: Seq<JsonView>, limit: Option<usize>)
    ensures
        ({
            let n = match limit {
                Some(m) => m as int,
                None => 50,
            };
            let r = within_limit(packages, limit);
            &&& r.len() == if n < packages.len() {
                n
            } else {
                packages.len() as int
            }
            &&& forall|i: int| 0 <= i < r.len() ==> #[trigger] r[i] == packages[i]
        }),
{
}

/// The names of scopes and of kinds of resolved source.
pub proof fn law_scopes_and_kinds_are_named()
    ensures
        Scope::Variant.name_view() == "variant"@ && Scope::Project.name_view() == "project"@
            && Scope::Global.name_view() == "global"@,
        ResolvedSourceKind::Installed.name_view() == "installed"@
            && ResolvedSourceKind::Linked.name_view() == "linked"@
            && ResolvedSourceKind::LocalPath.name_view() == "local_path"@
            && ResolvedSourceKind::Bundled.name_view() == "bundled"@
            && ResolvedSourceKind::Variant.name_view() == "variant"@,
{
}

} // verus!
