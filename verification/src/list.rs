//! The list of packages: worktree variants, project packages and the packages
//! of the search paths, with what shadows what.

use vstd::prelude::*;
use crate::json::{has_member, member, text_views, views, Json, JsonView};
use crate::manifest::{EntryView, Manifest};
use crate::name_map::NameMap;
use crate::names::{is_safe_name, is_safe_pkg_name, is_system_package};
use crate::order::{lemma_lex_asymmetric, lemma_lex_total, lemma_lex_transitive, lex_lt, str_lt};
use crate::paths::{join, joined_path};
use crate::source::{display_of, LockPackage, PackageDep, PackageSource, SourceView};
use crate::text::{clone_opt, contains_name, opt_text, str_eq, texts};

verus! {

/// Where an entry of the list stands.
#[derive(Debug, Clone, Copy, PartialEq, Eq, Structural)]
pub enum Scope {
    /// Declared in `alc.local.toml`; shadows the two below.
    Variant,
    /// Declared in `alc.toml` or `alc.lock`; shadows the one below.
    Project,
    /// Found in a search path.
    Global,
}

impl Scope {
    pub open spec fn name_view(self) -> Seq<char> {
        match self {
            Scope::Variant => "variant"@,
            Scope::Project => "project"@,
            Scope::Global => "global"@,
        }
    }

    pub fn as_str(&self) -> (r: &'static str)
        ensures
            r@ == self.name_view(),
    {
        match self {
            Scope::Variant => "variant",
            Scope::Project => "project",
            Scope::Global => "global",
        }
    }
}

/// What the path of an entry's source stands for.
#[derive(Debug, Clone, Copy, PartialEq, Eq, Structural)]
pub enum ResolvedSourceKind {
    /// Copied into the packages directory.
    Installed,
    /// A link in the packages directory or in a search path.
    Linked,
    /// A directory that the project names.
    LocalPath,
    /// Shipped with the program.
    Bundled,
    /// Declared in `alc.local.toml`.
    Variant,
}

impl ResolvedSourceKind {
    pub open spec fn name_view(self) -> Seq<char> {
        match self {
            ResolvedSourceKind::Installed => "installed"@,
            ResolvedSourceKind::Linked => "linked"@,
            ResolvedSourceKind::LocalPath => "local_path"@,
            ResolvedSourceKind::Bundled => "bundled"@,
            ResolvedSourceKind::Variant => "variant"@,
        }
    }

    pub fn as_str(self) -> (r: &'static str)
        ensures
            r@ == self.name_view(),
    {
        match self {
            ResolvedSourceKind::Installed => "installed",
            ResolvedSourceKind::Linked => "linked",
            ResolvedSourceKind::LocalPath => "local_path",
            ResolvedSourceKind::Bundled => "bundled",
            ResolvedSourceKind::Variant => "variant",
        }
    }
}

/// One entry of the list. What is `None` is left out of the document.
#[derive(Debug)]
pub struct ListEntry {
    pub name: String,
    pub scope: Scope,
    pub source_type: Option<String>,
    /// The package's directory; of variants and project packages only.
    pub path: Option<String>,
    /// The search path; of global packages only.
    pub source: Option<String>,
    pub active: bool,
    pub version: Option<String>,
    pub installed_at: Option<String>,
    pub updated_at: Option<String>,
    /// The origin as the record holds it.
    pub install_source: Option<String>,
    pub overrides: Option<Vec<String>>,
    /// What the package says of itself.
    pub meta: Json,
    pub error: Option<String>,
    pub linked: Option<bool>,
    pub link_target: Option<String>,
    pub broken: Option<bool>,
    pub resolved_source_path: Option<String>,
    pub resolved_source_kind: Option<ResolvedSourceKind>,
    pub override_paths: Option<Vec<String>>,
}

/// The content of a `ListEntry`.
#[verifier::ext_equal]
pub struct ListEntryView {
    pub name: Seq<char>,
    pub scope: Scope,
    pub source_type: Option<Seq<char>>,
    pub path: Option<Seq<char>>,
    pub source: Option<Seq<char>>,
    pub active: bool,
    pub version: Option<Seq<char>>,
    pub installed_at: Option<Seq<char>>,
    pub updated_at: Option<Seq<char>>,
    pub install_source: Option<Seq<char>>,
    pub overrides: Option<Seq<Seq<char>>>,
    pub meta: JsonView,
    pub error: Option<Seq<char>>,
    pub linked: Option<bool>,
    pub link_target: Option<Seq<char>>,
    pub broken: Option<bool>,
    pub resolved_source_path: Option<Seq<char>>,
    pub resolved_source_kind: Option<ResolvedSourceKind>,
    pub override_paths: Option<Seq<Seq<char>>>,
}

/// Texts, where there are any.
pub open spec fn opt_texts(o: Option<Vec<String>>) -> Option<Seq<Seq<char>>> {
    match o {
        Some(v) => Some(texts(v@)),
        None => None,
    }
}

impl View for ListEntry {
    type V = ListEntryView;

    open spec fn view(&self) -> ListEntryView {
        ListEntryView {
            name: self.name@,
            scope: self.scope,
            source_type: opt_text(self.source_type),
            path: opt_text(self.path),
            source: opt_text(self.source),
            active: self.active,
            version: opt_text(self.version),
            installed_at: opt_text(self.installed_at),
            updated_at: opt_text(self.updated_at),
            install_source: opt_text(self.install_source),
            overrides: opt_texts(self.overrides),
            meta: self.meta@,
            error: opt_text(self.error),
            linked: self.linked,
            link_target: opt_text(self.link_target),
            broken: self.broken,
            resolved_source_path: opt_text(self.resolved_source_path),
            resolved_source_kind: self.resolved_source_kind,
            override_paths: opt_texts(self.override_paths),
        }
    }
}

/// An active entry of which nothing but the name is known.
pub open spec fn bare_view(name: Seq<char>, scope: Scope) -> ListEntryView {
    ListEntryView {
        name,
        scope,
        source_type: None,
        path: None,
        source: None,
        active: true,
        version: None,
        installed_at: None,
        updated_at: None,
        install_source: None,
        overrides: None,
        meta: JsonView::Object(Seq::empty()),
        error: None,
        linked: None,
        link_target: None,
        broken: None,
        resolved_source_path: None,
        resolved_source_kind: None,
        override_paths: None,
    }
}

fn bare(name: &str, scope: Scope) -> (r: ListEntry)
    ensures
        r@ == bare_view(name@, scope),
{
    ListEntry {
        name: name.to_owned(),
        scope,
        source_type: None,
        path: None,
        source: None,
        active: true,
        version: None,
        installed_at: None,
        updated_at: None,
        install_source: None,
        overrides: None,
        meta: Json::object(),
        error: None,
        linked: None,
        link_target: None,
        broken: None,
        resolved_source_path: None,
        resolved_source_kind: None,
        override_paths: None,
    }
}

/// An entry before its paths are resolved: the path of its source, and the
/// directories of the packages that it shadows.
#[derive(Debug)]
pub struct Draft {
    pub entry: ListEntry,
    pub candidate: Option<String>,
    pub shadowed: Vec<String>,
}

/// The content of a `Draft`.
#[verifier::ext_equal]
pub struct DraftView {
    pub entry: ListEntryView,
    pub candidate: Option<Seq<char>>,
    pub shadowed: Seq<Seq<char>>,
}

impl View for Draft {
    type V = DraftView;

    open spec fn view(&self) -> DraftView {
        DraftView {
            entry: self.entry@,
            candidate: opt_text(self.candidate),
            shadowed: texts(self.shadowed@),
        }
    }
}

/// The contents of drafts.
pub open spec fn draft_views(v: Seq<Draft>) -> Seq<DraftView> {
    v.map_values(|d: Draft| d@)
}

// ─── Search paths ───────────────────────────────────────────────

/// What was found at an entry of a search path.
#[derive(Debug)]
pub struct DirFact {
    pub name: String,
    pub is_symlink: bool,
    /// Where the link leads, if it is one that can be read.
    pub link_target: Option<String>,
    /// The entry, or what it leads to, is known to be there.
    pub exists: bool,
    /// The entry, or what it leads to, is a directory.
    pub is_dir: bool,
    pub has_init: bool,
    /// What the package says of itself, where it was asked and answered.
    pub meta: Option<Json>,
}

/// A search path with its entries; none where it cannot be read.
#[derive(Debug)]
pub struct SearchDir {
    pub path: String,
    pub items: Option<Vec<DirFact>>,
}

/// A package of a search path.
#[derive(Debug)]
pub struct Found {
    pub dir: String,
    pub fact: DirFact,
}

/// The entry is a link that leads nowhere.
pub open spec fn is_broken(f: DirFact) -> bool {
    f.is_symlink && !f.exists
}

/// The entry is listed: a directory or a link, with an `init.lua` unless the
/// link leads nowhere, and no system package.
pub open spec fn is_listed(f: DirFact) -> bool {
    &&& f.is_symlink || f.is_dir
    &&& is_broken(f) || f.has_init
    &&& f.name@ != "evalframe"@
}

impl DirFact {
    /// The entry is listed.
    pub fn listed(&self) -> (r: bool)
        ensures
            r == is_listed(*self),
    {
        (self.is_symlink || self.is_dir) && ((self.is_symlink && !self.exists) || self.has_init)
            && !is_system_package(self.name.as_str())
    }

    /// The package is to be asked for what it says of itself.
    pub fn wants_meta(&self) -> (r: bool)
        ensures
            r == (is_listed(*self) && is_safe_name(self.name@)),
    {
        self.listed() && is_safe_pkg_name(self.name.as_str())
    }
}

/// The packages of one search path.
pub open spec fn found_of(d: SearchDir) -> Seq<Found> {
    match d.items {
        None => Seq::empty(),
        Some(v) => v@.filter_map(
            |f: DirFact|
                if is_listed(f) {
                    Some(Found { dir: d.path, fact: f })
                } else {
                    None
                },
        ),
    }
}

/// The packages of all search paths, in order of priority.
pub open spec fn found_in(dirs: Seq<SearchDir>) -> Seq<Found>
    decreases dirs.len(),
{
    if dirs.len() == 0 {
        Seq::empty()
    } else {
        found_in(dirs.drop_last()) + found_of(dirs.last())
    }
}

/// The packages of all search paths, in order of priority.
pub fn find_packages(dirs: Vec<SearchDir>) -> (r: Vec<Found>)
    ensures
        r@ == found_in(dirs@),
{
    let ghost all = dirs@;
    let mut out: Vec<Found> = Vec::new();
    assert(all.take(0) =~= Seq::empty());
    for d in it: dirs
        invariant
            it.seq() == all,
            out@ == found_in(all.take(it.index() as int)),
    {
        let ghost n = it.index() as int;
        let ghost before = out@;
        assert(all.take(n + 1).drop_last() =~= all.take(n));
        let SearchDir { path, items } = d;
        let ghost whole = SearchDir { path, items };
        match items {
            None => {
                assert(before + Seq::<Found>::empty() =~= before);
            },
            Some(v) => {
                let ghost vs = v@;
                let ghost f = |f: DirFact|
                    if is_listed(f) {
                        Some(Found { dir: path, fact: f })
                    } else {
                        None
                    };
                proof {
                    reveal(Seq::filter_map);
                    assert(vs.take(0).filter_map(f) =~= Seq::<Found>::empty());
                    assert(before + Seq::<Found>::empty() =~= before);
                }
                for x in inner: v
                    invariant
                        inner.seq() == vs,
                        f == (|f: DirFact|
                            if is_listed(f) {
                                Some(Found { dir: path, fact: f })
                            } else {
                                None
                            }),
                        out@ == before + vs.take(inner.index() as int).filter_map(f),
                {
                    let ghost k = inner.index() as int;
                    proof {
                        vs.lemma_filter_map_take_succ(f, k);
                    }
                    let ghost so_far = out@;
                    if x.listed() {
                        let item = Found { dir: path.clone(), fact: x };
                        out.push(item);
                        assert(out@ =~= before + vs.take(k + 1).filter_map(f));
                    } else {
                        assert(out@ =~= before + vs.take(k + 1).filter_map(f));
                    }
                }
                assert(vs.take(vs.len() as int) =~= vs);
                assert(found_of(whole) == vs.filter_map(f));
            },
        }
    }
    assert(all.take(all.len() as int) =~= all);
    out
}

/// The search paths that hold a package `name`, in order of priority.
pub open spec fn dirs_with(found: Seq<Found>, name: Seq<char>) -> Seq<Seq<char>> {
    found.filter_map(
        |f: Found|
            if f.fact.name@ == name {
                Some(f.dir@)
            } else {
                None
            },
    )
}

/// The directory of the package `name` in each of `dirs`.
pub open spec fn package_dirs(dirs: Seq<Seq<char>>, name: Seq<char>) -> Seq<Seq<char>> {
    dirs.map_values(|d: Seq<char>| joined_path(d, name))
}

/// The search paths that hold a package `name`, in order of priority.
fn find_dirs(found: &Vec<Found>, name: &str) -> (r: Vec<String>)
    ensures
        texts(r@) == dirs_with(found@, name@),
{
    let ghost f = |f: Found|
        if f.fact.name@ == name@ {
            Some(f.dir@)
        } else {
            None
        };
    let mut out: Vec<String> = Vec::new();
    let mut i: usize = 0;
    proof {
        reveal(Seq::filter_map);
        assert(found@.take(0).filter_map(f) =~= texts(out@));
    }
    while i < found.len()
        invariant
            i <= found@.len(),
            f == (|f: Found|
                if f.fact.name@ == name@ {
                    Some(f.dir@)
                } else {
                    None
                }),
            texts(out@) == found@.take(i as int).filter_map(f),
        decreases found@.len() - i,
    {
        proof {
            found@.lemma_filter_map_take_succ(f, i as int);
        }
        let ghost before = out@;
        if str_eq(found[i].fact.name.as_str(), name) {
            out.push(found[i].dir.clone());
            assert(texts(out@) =~= texts(before).push(found@[i as int].dir@));
        }
        assert(texts(out@) =~= found@.take(i + 1).filter_map(f));
        i = i + 1;
    }
    assert(found@.take(found@.len() as int) =~= found@);
    out
}

/// The directory of the package `name` in each of `dirs` from `start` on.
fn join_dirs(dirs: &Vec<String>, start: usize, name: &str) -> (r: Vec<String>)
    requires
        start <= dirs@.len(),
    ensures
        texts(r@) == package_dirs(texts(dirs@).skip(start as int), name@),
{
    let mut out: Vec<String> = Vec::new();
    let mut i: usize = start;
    while i < dirs.len()
        invariant
            start <= i <= dirs@.len(),
            out@.len() == i - start,
            forall|k: int|
                0 <= k < out@.len() ==> (#[trigger] out@[k])@ == joined_path(
                    dirs@[start + k]@,
                    name@,
                ),
        decreases dirs@.len() - i,
    {
        out.push(join(dirs[i].as_str(), name));
        i = i + 1;
    }
    assert(texts(out@) =~= package_dirs(texts(dirs@).skip(start as int), name@));
    out
}

/// The names of `dirs` from the second on.
fn all_but_first(dirs: &Vec<String>) -> (r: Vec<String>)
    requires
        dirs@.len() > 0,
    ensures
        texts(r@) == texts(dirs@).skip(1),
{
    let mut out: Vec<String> = Vec::new();
    let mut i: usize = 1;
    while i < dirs.len()
        invariant
            1 <= i <= dirs@.len(),
            out@.len() == i - 1,
            forall|k: int| 0 <= k < out@.len() ==> (#[trigger] out@[k])@ == dirs@[k + 1]@,
        decreases dirs@.len() - i,
    {
        out.push(dirs[i].clone());
        i = i + 1;
    }
    assert(texts(out@) =~= texts(dirs@).skip(1));
    out
}

// ─── Project ────────────────────────────────────────────────────

/// A package that `alc.local.toml` names, with its directory.
#[derive(Debug)]
pub struct VariantFact {
    pub name: String,
    pub pkg_dir: String,
}

/// What was read of `alc.toml`.
#[derive(Debug)]
pub enum ProjectToml {
    /// There is none.
    Missing,
    /// It cannot be read.
    Failed,
    /// The dependencies that it declares.
    Loaded(Vec<(String, PackageDep)>),
}

/// What was read of a project. The lock is empty where there is none or it
/// cannot be read.
#[derive(Debug)]
pub struct ProjectFacts {
    pub root: String,
    pub variants: Vec<VariantFact>,
    pub lock: NameMap<LockPackage>,
    pub toml: ProjectToml,
}

/// The lock's packages by name; of two with one name the later counts.
pub open spec fn lock_map(packages: Seq<LockPackage>) -> Map<Seq<char>, LockPackage>
    decreases packages.len(),
{
    if packages.len() == 0 {
        Map::empty()
    } else {
        lock_map(packages.drop_last()).insert(packages.last().name@, packages.last())
    }
}

/// The lock's packages by name; of two with one name the later counts.
pub fn lock_by_name(packages: &Vec<LockPackage>) -> (r: NameMap<LockPackage>)
    ensures
        r@ == lock_map(packages@),
{
    let mut out: NameMap<LockPackage> = NameMap::new();
    let mut i: usize = 0;
    assert(packages@.take(0) =~= Seq::empty());
    while i < packages.len()
        invariant
            i <= packages@.len(),
            out@ == lock_map(packages@.take(i as int)),
        decreases packages@.len() - i,
    {
        assert(packages@.take(i + 1).drop_last() =~= packages@.take(i as int));
        let p = packages[i].clone();
        out.insert(p.name.clone(), p);
        i = i + 1;
    }
    assert(packages@.take(packages@.len() as int) =~= packages@);
    out
}

/// The name of a kind of source.
pub open spec fn source_name(s: PackageSource) -> Seq<char> {
    match s {
        PackageSource::Path { .. } => "path"@,
        PackageSource::Installed => "installed"@,
        PackageSource::Git { .. } => "git"@,
        PackageSource::Bundled { .. } => "bundled"@,
        PackageSource::Unknown => "unknown"@,
    }
}

/// The name of a kind of source.
pub fn name_of_source(s: &PackageSource) -> (r: &'static str)
    ensures
        r@ == source_name(*s),
{
    match s {
        PackageSource::Path { .. } => "path",
        PackageSource::Installed => "installed",
        PackageSource::Git { .. } => "git",
        PackageSource::Bundled { .. } => "bundled",
        PackageSource::Unknown => "unknown",
    }
}

/// The kind of source that a declaration stands for.
pub open spec fn dep_source_name(d: PackageDep) -> Seq<char> {
    match d {
        PackageDep::Version(_) => "installed"@,
        PackageDep::Path { .. } => "path"@,
        PackageDep::Git { .. } => "git"@,
    }
}

/// The kind of source that a declaration stands for.
pub fn source_name_of_dep(d: &PackageDep) -> (r: &'static str)
    ensures
        r@ == dep_source_name(*d),
{
    match d {
        PackageDep::Version(_) => "installed",
        PackageDep::Path { .. } => "path",
        PackageDep::Git { .. } => "git",
    }
}

/// Version, kind of source and directory of a project package: as the lock has
/// them, and else what the declaration tells.
#[derive(Debug)]
pub struct ProjectInfo {
    pub version: Option<String>,
    pub source_type: &'static str,
    pub path: Option<String>,
}

/// The content of a `ProjectInfo`.
#[verifier::ext_equal]
pub struct ProjectInfoView {
    pub version: Option<Seq<char>>,
    pub source_type: Seq<char>,
    pub path: Option<Seq<char>>,
}

impl View for ProjectInfo {
    type V = ProjectInfoView;

    open spec fn view(&self) -> ProjectInfoView {
        ProjectInfoView {
            version: opt_text(self.version),
            source_type: self.source_type@,
            path: opt_text(self.path),
        }
    }
}

/// Version, kind of source and directory of the project package `name`.
pub open spec fn project_info(
    name: Seq<char>,
    dep: PackageDep,
    lock: Map<Seq<char>, LockPackage>,
    root: Seq<char>,
) -> ProjectInfoView {
    if lock.dom().contains(name) {
        let p = lock[name];
        ProjectInfoView {
            version: opt_text(p.version),
            source_type: source_name(p.source),
            path: match p.source {
                PackageSource::Path { path } => Some(joined_path(root, path@)),
                _ => None,
            },
        }
    } else {
        ProjectInfoView { version: None, source_type: dep_source_name(dep), path: None }
    }
}

/// Version, kind of source and directory of the project package `name`, from
/// its declaration and the lock.
pub fn resolve_project_pkg_info(
    name: &str,
    dep: &PackageDep,
    lock: &NameMap<LockPackage>,
    root: &str,
) -> (r: ProjectInfo)
    ensures
        r@ == project_info(name@, *dep, lock@, root@),
{
    match lock.get(name) {
        Some(p) => ProjectInfo {
            version: clone_opt(&p.version),
            source_type: name_of_source(&p.source),
            path: match &p.source {
                PackageSource::Path { path } => Some(join(root, path.as_str())),
                _ => None,
            },
        },
        None => ProjectInfo { version: None, source_type: source_name_of_dep(dep), path: None },
    }
}

/// The packages that an entry of the project shadows: all of its name in the
/// search paths, as long as nothing shadows the entry itself.
pub open spec fn below(found: Seq<Found>, name: Seq<char>, active: bool) -> Seq<Seq<char>> {
    if active {
        package_dirs(dirs_with(found, name), name)
    } else {
        Seq::empty()
    }
}

fn find_below(found: &Vec<Found>, name: &str, active: bool) -> (r: Vec<String>)
    ensures
        texts(r@) == below(found@, name@, active),
{
    if active {
        let dirs = find_dirs(found, name);
        assert(texts(dirs@).skip(0) =~= texts(dirs@));
        join_dirs(&dirs, 0, name)
    } else {
        let r: Vec<String> = Vec::new();
        assert(texts(r@) =~= Seq::empty());
        r
    }
}

/// The draft of a worktree variant.
pub open spec fn variant_draft(v: VariantFact, found: Seq<Found>) -> DraftView {
    DraftView {
        entry: ListEntryView {
            source_type: Some("path"@),
            path: Some(v.pkg_dir@),
            resolved_source_kind: Some(ResolvedSourceKind::Variant),
            ..bare_view(v.name@, Scope::Variant)
        },
        candidate: Some(v.pkg_dir@),
        shadowed: below(found, v.name@, true),
    }
}

/// The names of the variants.
pub open spec fn variant_names(v: Seq<VariantFact>) -> Seq<Seq<char>> {
    v.map_values(|x: VariantFact| x.name@)
}

/// The drafts of the worktree variants.
fn draft_variants(variants: &Vec<VariantFact>, found: &Vec<Found>) -> (r: (Vec<Draft>, Vec<String>))
    ensures
        draft_views(r.0@) == variants@.map_values(|v: VariantFact| variant_draft(v, found@)),
        texts(r.1@) == variant_names(variants@),
{
    let mut out: Vec<Draft> = Vec::new();
    let mut names: Vec<String> = Vec::new();
    let mut i: usize = 0;
    while i < variants.len()
        invariant
            i <= variants@.len(),
            out@.len() == i,
            names@.len() == i,
            forall|k: int|
                0 <= k < i ==> (#[trigger] out@[k])@ == variant_draft(variants@[k], found@),
            forall|k: int| 0 <= k < i ==> (#[trigger] names@[k])@ == variants@[k].name@,
        decreases variants@.len() - i,
    {
        let v = &variants[i];
        let mut e = bare(v.name.as_str(), Scope::Variant);
        e.source_type = Some("path".to_owned());
        e.path = Some(v.pkg_dir.clone());
        e.resolved_source_kind = Some(ResolvedSourceKind::Variant);
        let d = Draft {
            entry: e,
            candidate: Some(v.pkg_dir.clone()),
            shadowed: find_below(found, v.name.as_str(), true),
        };
        out.push(d);
        names.push(v.name.clone());
        i = i + 1;
    }
    assert(draft_views(out@) =~= variants@.map_values(|v: VariantFact| variant_draft(v, found@)));
    assert(texts(names@) =~= variant_names(variants@));
    (out, names)
}

/// The draft of a project package of which `info` is known.
pub open spec fn project_draft(
    name: Seq<char>,
    info: ProjectInfoView,
    packages_dir: Result<String, String>,
    variants: Seq<Seq<char>>,
    found: Seq<Found>,
) -> DraftView {
    let active = !variants.contains(name);
    let local = info.source_type == "path"@;
    let kind = if local {
        ResolvedSourceKind::LocalPath
    } else if info.source_type == "bundled"@ {
        ResolvedSourceKind::Bundled
    } else {
        ResolvedSourceKind::Installed
    };
    DraftView {
        entry: ListEntryView {
            source_type: Some(info.source_type),
            path: info.path,
            active,
            version: info.version,
            error: match packages_dir {
                Err(e) if !local => Some("cannot resolve packages_dir: "@ + e@),
                _ => None,
            },
            resolved_source_kind: Some(kind),
            ..bare_view(name, Scope::Project)
        },
        candidate: if local {
            info.path
        } else {
            match packages_dir {
                Ok(d) => Some(joined_path(d@, name)),
                Err(_) => None,
            }
        },
        shadowed: below(found, name, active),
    }
}

/// The draft of a project package of which `info` is known.
pub fn draft_project(
    name: &str,
    info: ProjectInfo,
    packages_dir: &Result<String, String>,
    variants: &Vec<String>,
    found: &Vec<Found>,
) -> (r: Draft)
    ensures
        r@ == project_draft(name@, info@, *packages_dir, texts(variants@), found@),
{
    let active = !contains_name(variants, name);
    let local = str_eq(info.source_type, "path");
    let mut e = bare(name, Scope::Project);
    e.source_type = Some(info.source_type.to_owned());
    e.path = clone_opt(&info.path);
    e.active = active;
    e.version = info.version;
    e.resolved_source_kind = Some(
        if local {
            ResolvedSourceKind::LocalPath
        } else if str_eq(info.source_type, "bundled") {
            ResolvedSourceKind::Bundled
        } else {
            ResolvedSourceKind::Installed
        },
    );
    let candidate = if local {
        info.path
    } else {
        match packages_dir {
            Ok(d) => Some(join(d.as_str(), name)),
            Err(cause) => {
                let mut m = "cannot resolve packages_dir: ".to_owned();
                m.append(cause.as_str());
                e.error = Some(m);
                None
            },
        }
    };
    Draft { entry: e, candidate, shadowed: find_below(found, name, active) }
}

/// The draft of a declared package.
pub open spec fn declared_draft(
    p: ProjectFacts,
    d: (String, PackageDep),
    packages_dir: Result<String, String>,
    found: Seq<Found>,
) -> DraftView {
    project_draft(
        d.0@,
        project_info(d.0@, d.1, p.lock@, p.root@),
        packages_dir,
        variant_names(p.variants@),
        found,
    )
}

/// The draft of a package of the lock, if its source is a directory.
pub open spec fn locked_draft(
    p: ProjectFacts,
    name: Seq<char>,
    packages_dir: Result<String, String>,
    found: Seq<Found>,
) -> Option<DraftView> {
    match p.lock@[name].source {
        PackageSource::Path { path } => Some(
            project_draft(
                name,
                ProjectInfoView {
                    version: opt_text(p.lock@[name].version),
                    source_type: "path"@,
                    path: Some(joined_path(p.root@, path@)),
                },
                packages_dir,
                variant_names(p.variants@),
                found,
            ),
        ),
        _ => None,
    }
}

/// The drafts of the project packages: the declared ones, and where there is no
/// `alc.toml` those of the lock whose source is a directory, by name.
pub open spec fn project_drafts(
    p: ProjectFacts,
    packages_dir: Result<String, String>,
    found: Seq<Found>,
) -> Seq<DraftView> {
    match p.toml {
        ProjectToml::Loaded(deps) => deps@.map_values(
            |d: (String, PackageDep)| declared_draft(p, d, packages_dir, found),
        ),
        ProjectToml::Missing => p.lock.keys().filter_map(
            |k: Seq<char>| locked_draft(p, k, packages_dir, found),
        ),
        ProjectToml::Failed => Seq::empty(),
    }
}

fn draft_declared(
    p: &ProjectFacts,
    deps: &Vec<(String, PackageDep)>,
    packages_dir: &Result<String, String>,
    variants: &Vec<String>,
    found: &Vec<Found>,
) -> (r: Vec<Draft>)
    requires
        texts(variants@) == variant_names(p.variants@),
    ensures
        draft_views(r@) == deps@.map_values(
            |d: (String, PackageDep)| declared_draft(*p, d, *packages_dir, found@),
        ),
{
    let mut out: Vec<Draft> = Vec::new();
    let mut i: usize = 0;
    while i < deps.len()
        invariant
            i <= deps@.len(),
            out@.len() == i,
            texts(variants@) == variant_names(p.variants@),
            forall|k: int|
                0 <= k < i ==> (#[trigger] out@[k])@ == declared_draft(
                    *p,
                    deps@[k],
                    *packages_dir,
                    found@,
                ),
        decreases deps@.len() - i,
    {
        let name = deps[i].0.as_str();
        let info = resolve_project_pkg_info(name, &deps[i].1, &p.lock, p.root.as_str());
        out.push(draft_project(name, info, packages_dir, variants, found));
        i = i + 1;
    }
    assert(draft_views(out@) =~= deps@.map_values(
        |d: (String, PackageDep)| declared_draft(*p, d, *packages_dir, found@),
    ));
    out
}

/// The drafts of the packages of the lock whose source is a directory.
fn draft_locked(
    p: &ProjectFacts,
    packages_dir: &Result<String, String>,
    variants: &Vec<String>,
    found: &Vec<Found>,
) -> (r: Vec<Draft>)
    requires
        texts(variants@) == variant_names(p.variants@),
    ensures
        draft_views(r@) == p.lock.keys().filter_map(
            |k: Seq<char>| locked_draft(*p, k, *packages_dir, found@),
        ),
{
    let ghost f = |k: Seq<char>| locked_draft(*p, k, *packages_dir, found@);
    let ghost keys = p.lock.keys();
    let mut out: Vec<Draft> = Vec::new();
    let n: usize = p.lock.len();
    let mut i: usize = 0;
    proof {
        reveal(Seq::filter_map);
        assert(keys.take(0).filter_map(f) =~= draft_views(out@));
    }
    while i < n
        invariant
            i <= n,
            n == keys.len(),
            keys == p.lock.keys(),
            texts(variants@) == variant_names(p.variants@),
            f == (|k: Seq<char>| locked_draft(*p, k, *packages_dir, found@)),
            draft_views(out@) == keys.take(i as int).filter_map(f),
        decreases n - i,
    {
        proof {
            keys.lemma_filter_map_take_succ(f, i as int);
        }
        let ghost before = out@;
        let (name, locked) = p.lock.at(i);
        if let PackageSource::Path { path } = &locked.source {
            let info = ProjectInfo {
                version: clone_opt(&locked.version),
                source_type: "path",
                path: Some(join(p.root.as_str(), path.as_str())),
            };
            let d = draft_project(name.as_str(), info, packages_dir, variants, found);
            let ghost dv = d@;
            out.push(d);
            assert(draft_views(out@) =~= draft_views(before).push(dv));
        }
        assert(draft_views(out@) =~= keys.take(i + 1).filter_map(f));
        i = i + 1;
    }
    assert(keys.take(n as int) =~= keys);
    out
}

// ─── Global packages ────────────────────────────────────────────

/// What the record of an installed package says.
#[derive(Debug)]
pub struct RecordedPackage {
    pub kind: RecordedKind,
    /// The origin as the record holds it.
    pub source: String,
    pub installed_at: String,
    pub updated_at: String,
}

/// What a recorded origin stands for.
#[derive(Debug, Clone, Copy, PartialEq, Eq, Structural)]
pub enum RecordedKind {
    Git,
    Installed,
    Path,
    Bundled,
}

/// What a recorded origin stands for. One that nothing is known of counts as
/// copied in.
pub open spec fn kind_of(source: SourceView) -> RecordedKind {
    match source {
        SourceView::Git(_, _) => RecordedKind::Git,
        SourceView::Path(_) => RecordedKind::Path,
        SourceView::Bundled(_) => RecordedKind::Bundled,
        SourceView::Installed | SourceView::Unknown => RecordedKind::Installed,
    }
}

/// What a recorded origin stands for, and the origin as one text.
pub fn recorded_of(source: &PackageSource) -> (r: (RecordedKind, String))
    ensures
        r.0 == kind_of(source@),
        r.1@ == display_of(source@),
{
    let kind = match source {
        PackageSource::Git { .. } => RecordedKind::Git,
        PackageSource::Path { .. } => RecordedKind::Path,
        PackageSource::Bundled { .. } => RecordedKind::Bundled,
        PackageSource::Installed | PackageSource::Unknown => RecordedKind::Installed,
    };
    (kind, source.display_string())
}

/// `p` says what the entry `e` records.
pub open spec fn is_record_of(p: RecordedPackage, e: EntryView) -> bool {
    &&& p.kind == kind_of(e.source)
    &&& p.source@ == display_of(e.source)
    &&& p.installed_at@ == e.installed_at
    &&& p.updated_at@ == e.updated_at
}

/// What the record of installed packages says of each of them.
pub fn recorded_packages(manifest: &Manifest) -> (r: NameMap<RecordedPackage>)
    ensures
        r@.dom() == manifest@.dom(),
        forall|k: Seq<char>|
            manifest@.dom().contains(k) ==> is_record_of(#[trigger] r@[k], manifest@[k]),
{
    let mut out: NameMap<RecordedPackage> = NameMap::new();
    let n: usize = manifest.packages.len();
    let ghost keys = manifest.packages.keys();
    let mut i: usize = 0;
    while i < n
        invariant
            i <= n,
            n == keys.len(),
            keys == manifest.packages.keys(),
            forall|k: Seq<char>| #[trigger] out@.dom().contains(k) <==> keys.take(i as int).contains(k),
            forall|k: Seq<char>| #[trigger]
                out@.dom().contains(k) ==> manifest@.dom().contains(k) && is_record_of(
                    out@[k],
                    manifest@[k],
                ),
        decreases n - i,
    {
        let (name, e) = manifest.packages.at(i);
        let (kind, source) = recorded_of(&e.source);
        let ghost before = out@;
        proof {
            assert(manifest@.dom().contains(name@) && manifest@[name@] == e@);
            let a = keys.take(i as int);
            let b = keys.take(i + 1);
            assert(b =~= a.push(name@));
            assert forall|k: Seq<char>| b.contains(k) <==> a.contains(k) || k == name@ by {
                if a.contains(k) {
                    let j = choose|j: int| 0 <= j < a.len() && a[j] == k;
                    assert(b[j] == k);
                }
                if k == name@ {
                    assert(b[i as int] == k);
                }
            }
        }
        out.insert(
            name.clone(),
            RecordedPackage {
                kind,
                source,
                installed_at: e.installed_at.clone(),
                updated_at: e.updated_at.clone(),
            },
        );
        assert forall|k: Seq<char>| #[trigger]
            out@.dom().contains(k) implies manifest@.dom().contains(k) && is_record_of(
            out@[k],
            manifest@[k],
        ) by {
            if k != name@ {
                assert(before.dom().contains(k) && out@[k] == before[k]);
            }
        }
        i = i + 1;
    }
    proof {
        assert(keys.take(n as int) =~= keys);
        assert(out@.dom() =~= manifest@.dom());
    }
    out
}

/// The kind of source of a recorded package; of a copied one with its origin.
pub open spec fn recorded_type(p: RecordedPackage) -> Seq<char> {
    match p.kind {
        RecordedKind::Git => "git"@,
        RecordedKind::Installed => "installed (from: "@ + p.source@ + ")"@,
        RecordedKind::Path => "path"@,
        RecordedKind::Bundled => "bundled"@,
    }
}

fn type_of_recorded(p: &RecordedPackage) -> (r: String)
    ensures
        r@ == recorded_type(*p),
{
    match p.kind {
        RecordedKind::Git => "git".to_owned(),
        RecordedKind::Installed => {
            let mut r = "installed (from: ".to_owned();
            r.append(p.source.as_str());
            r.append(")");
            r
        },
        RecordedKind::Path => "path".to_owned(),
        RecordedKind::Bundled => "bundled".to_owned(),
    }
}

/// No package before the `k`th has its name.
pub open spec fn is_first(found: Seq<Found>, k: int) -> bool {
    forall|j: int|
        0 <= j < k ==> (#[trigger] found[j]).fact.name@ != found[k].fact.name@
}

/// The draft of the `k`th package of the search paths, below the packages whose
/// names are in `above`.
pub open spec fn global_draft(
    found: Seq<Found>,
    k: int,
    above: Seq<Seq<char>>,
    recorded: Map<Seq<char>, RecordedPackage>,
) -> DraftView {
    let f = found[k].fact;
    let dir = found[k].dir@;
    let name = f.name@;
    let dirs = dirs_with(found, name);
    let active = is_first(found, k) && !above.contains(name);
    let over = active && dirs.len() > 1;
    let known = recorded.dom().contains(name);
    let record = recorded[name];
    DraftView {
        entry: ListEntryView {
            source_type: if known {
                Some(recorded_type(record))
            } else {
                None
            },
            source: Some(dir),
            active,
            installed_at: if known {
                Some(record.installed_at@)
            } else {
                None
            },
            updated_at: if known {
                Some(record.updated_at@)
            } else {
                None
            },
            install_source: if known {
                Some(record.source@)
            } else {
                None
            },
            overrides: if over {
                Some(dirs.skip(1))
            } else {
                None
            },
            meta: match f.meta {
                Some(m) if is_safe_name(name) => m@,
                _ => JsonView::Object(Seq::empty()),
            },
            error: if !is_safe_name(name) {
                Some("invalid package name"@)
            } else if f.meta is None {
                Some("failed to load meta"@)
            } else {
                None
            },
            linked: if f.is_symlink {
                Some(true)
            } else {
                None
            },
            link_target: if f.is_symlink {
                opt_text(f.link_target)
            } else {
                None
            },
            broken: if f.is_symlink {
                Some(!f.exists)
            } else {
                None
            },
            resolved_source_kind: Some(
                if f.is_symlink {
                    ResolvedSourceKind::Linked
                } else if known && recorded_type(record) == "bundled"@ {
                    ResolvedSourceKind::Bundled
                } else {
                    ResolvedSourceKind::Installed
                },
            ),
            ..bare_view(name, Scope::Global)
        },
        candidate: if f.is_symlink {
            match f.link_target {
                Some(t) if f.exists => Some(joined_path(dir, t@)),
                _ => None,
            }
        } else {
            Some(joined_path(dir, name))
        },
        shadowed: if over {
            package_dirs(dirs.skip(1), name)
        } else {
            Seq::empty()
        },
    }
}

fn first_of_name(found: &Vec<Found>, k: usize) -> (r: bool)
    requires
        k < found@.len(),
    ensures
        r == is_first(found@, k as int),
{
    let mut j: usize = 0;
    while j < k
        invariant
            j <= k < found@.len(),
            forall|i: int|
                0 <= i < j ==> (#[trigger] found@[i]).fact.name@ != found@[k as int].fact.name@,
        decreases k - j,
    {
        if str_eq(found[j].fact.name.as_str(), found[k].fact.name.as_str()) {
            assert(found@[j as int].fact.name@ == found@[k as int].fact.name@);
            return false;
        }
        j = j + 1;
    }
    true
}

proof fn lemma_recorded_bundled(p: RecordedPackage)
    ensures
        recorded_type(p) == "bundled"@ <==> p.kind == RecordedKind::Bundled,
{
    reveal_strlit("git");
    reveal_strlit("installed (from: ");
    reveal_strlit("path");
    reveal_strlit("bundled");
    reveal_strlit(")");
    assert("git"@.len() == 3);
    assert("path"@.len() == 4);
    assert("bundled"@.len() == 7);
    assert("installed (from: "@.len() == 17);
}

/// The draft of the `k`th package of the search paths, below the packages whose
/// names are in `above`.
pub fn draft_global(
    found: &Vec<Found>,
    k: usize,
    above: &Vec<String>,
    recorded: &NameMap<RecordedPackage>,
) -> (r: Draft)
    requires
        k < found@.len(),
    ensures
        r@ == global_draft(found@, k as int, texts(above@), recorded@),
{
    let f = &found[k].fact;
    let dir = found[k].dir.as_str();
    let name = f.name.as_str();
    let active = first_of_name(found, k) && !contains_name(above, name);
    let dirs = find_dirs(found, name);
    let safe = is_safe_pkg_name(name);
    let mut e = bare(name, Scope::Global);
    let mut bundled = false;
    match recorded.get(name) {
        Some(p) => {
            proof {
                lemma_recorded_bundled(*p);
            }
            if let RecordedKind::Bundled = p.kind {
                bundled = true;
            }
            e.source_type = Some(type_of_recorded(p));
            e.installed_at = Some(p.installed_at.clone());
            e.updated_at = Some(p.updated_at.clone());
            e.install_source = Some(p.source.clone());
        },
        None => {},
    }
    e.source = Some(dir.to_owned());
    e.active = active;
    let mut shadowed: Vec<String> = Vec::new();
    assert(texts(shadowed@) =~= Seq::empty());
    assert(texts(dirs@).len() == dirs@.len());
    if active && dirs.len() > 1 {
        e.overrides = Some(all_but_first(&dirs));
        shadowed = join_dirs(&dirs, 1, name);
    }
    if !safe {
        e.error = Some("invalid package name".to_owned());
    } else {
        match &f.meta {
            Some(m) => {
                e.meta = m.clone();
            },
            None => {
                e.error = Some("failed to load meta".to_owned());
            },
        }
    }
    let candidate = if f.is_symlink {
        e.linked = Some(true);
        e.link_target = clone_opt(&f.link_target);
        e.broken = Some(!f.exists);
        e.resolved_source_kind = Some(ResolvedSourceKind::Linked);
        match &f.link_target {
            Some(t) => if f.exists {
                Some(join(dir, t.as_str()))
            } else {
                None
            },
            None => None,
        }
    } else {
        e.resolved_source_kind = Some(
            if bundled {
                ResolvedSourceKind::Bundled
            } else {
                ResolvedSourceKind::Installed
            },
        );
        Some(join(dir, name))
    };
    Draft { entry: e, candidate, shadowed }
}

// ─── The whole list ─────────────────────────────────────────────

/// The drafts of the project's entries: variants, then project packages.
pub open spec fn upper_drafts(
    project: Option<ProjectFacts>,
    packages_dir: Result<String, String>,
    found: Seq<Found>,
) -> Seq<DraftView> {
    match project {
        Some(p) => p.variants@.map_values(|v: VariantFact| variant_draft(v, found))
            + project_drafts(p, packages_dir, found),
        None => Seq::empty(),
    }
}

/// The names of drafts.
pub open spec fn draft_names(v: Seq<DraftView>) -> Seq<Seq<char>> {
    v.map_values(|d: DraftView| d.entry.name)
}

/// The drafts of all entries, in the order of the list.
pub open spec fn all_drafts(
    project: Option<ProjectFacts>,
    packages_dir: Result<String, String>,
    found: Seq<Found>,
    recorded: Map<Seq<char>, RecordedPackage>,
) -> Seq<DraftView> {
    let upper = upper_drafts(project, packages_dir, found);
    upper + Seq::new(
        found.len(),
        |k: int| global_draft(found, k, draft_names(upper), recorded),
    )
}

fn names_of(v: &Vec<Draft>) -> (r: Vec<String>)
    ensures
        texts(r@) == draft_names(draft_views(v@)),
{
    let mut out: Vec<String> = Vec::new();
    let mut i: usize = 0;
    while i < v.len()
        invariant
            i <= v@.len(),
            out@.len() == i,
            forall|k: int| 0 <= k < i ==> (#[trigger] out@[k])@ == v@[k]@.entry.name,
        decreases v@.len() - i,
    {
        out.push(v[i].entry.name.clone());
        i = i + 1;
    }
    assert(texts(out@) =~= draft_names(draft_views(v@)));
    out
}

/// The drafts of all entries: the variants of the worktree, the packages of the
/// project and the packages of the search paths.
pub fn draft_list(
    project: &Option<ProjectFacts>,
    packages_dir: &Result<String, String>,
    found: &Vec<Found>,
    recorded: &NameMap<RecordedPackage>,
) -> (r: Vec<Draft>)
    ensures
        draft_views(r@) == all_drafts(*project, *packages_dir, found@, recorded@),
{
    let mut out: Vec<Draft> = match project {
        Some(p) => {
            let (mut upper, variants) = draft_variants(&p.variants, found);
            let ghost first = draft_views(upper@);
            let mut second = match &p.toml {
                ProjectToml::Loaded(deps) => draft_declared(p, deps, packages_dir, &variants, found),
                ProjectToml::Missing => draft_locked(p, packages_dir, &variants, found),
                ProjectToml::Failed => {
                    let none: Vec<Draft> = Vec::new();
                    assert(draft_views(none@) =~= Seq::empty());
                    none
                },
            };
            let ghost rest = draft_views(second@);
            upper.append(&mut second);
            assert(draft_views(upper@) =~= first + rest);
            upper
        },
        None => {
            let none: Vec<Draft> = Vec::new();
            assert(draft_views(none@) =~= Seq::empty());
            none
        },
    };
    let ghost upper = draft_views(out@);
    let above = names_of(&out);
    let mut k: usize = 0;
    while k < found.len()
        invariant
            k <= found@.len(),
            texts(above@) == draft_names(upper),
            out@.len() == upper.len() + k,
            forall|i: int| 0 <= i < upper.len() ==> (#[trigger] out@[i])@ == upper[i],
            forall|i: int|
                upper.len() <= i < out@.len() ==> (#[trigger] out@[i])@ == global_draft(
                    found@,
                    i - upper.len(),
                    draft_names(upper),
                    recorded@,
                ),
        decreases found@.len() - k,
    {
        out.push(draft_global(found, k, &above, recorded));
        k = k + 1;
    }
    assert(draft_views(out@) =~= all_drafts(*project, *packages_dir, found@, recorded@));
    out
}

// ─── Resolved paths ─────────────────────────────────────────────

/// The paths of `shadows` that could be resolved, without `own`.
pub open spec fn other_paths(shadows: Seq<Option<String>>, own: Option<Seq<char>>) -> Seq<
    Seq<char>,
> {
    shadows.filter_map(
        |p: Option<String>|
            match p {
                Some(t) => if own == Some(t@) {
                    None
                } else {
                    Some(t@)
                },
                None => None,
            },
    )
}

/// The entry of the draft `d`, where its source leads to `resolved` and the
/// packages that it shadows to `shadows`. An entry of the project does not
/// shadow itself.
pub open spec fn finished(d: DraftView, resolved: Option<Seq<char>>, shadows: Seq<Option<String>>) -> ListEntryView {
    let own = if d.candidate is Some {
        resolved
    } else {
        None
    };
    let paths = other_paths(
        shadows,
        if d.entry.scope == Scope::Global {
            None
        } else {
            own
        },
    );
    ListEntryView {
        resolved_source_path: own,
        override_paths: if paths.len() > 0 {
            Some(paths)
        } else {
            None
        },
        ..d.entry
    }
}

impl Draft {
    /// The entry, where its source leads to `resolved` and the packages that it
    /// shadows to `shadows`; what cannot be resolved is `None`.
    pub fn finish(self, resolved: Option<String>, shadows: &Vec<Option<String>>) -> (r: ListEntry)
        ensures
            r@ == finished(self@, opt_text(resolved), shadows@),
    {
        let Draft { entry, candidate, shadowed: _ } = self;
        let mut entry = entry;
        let ghost e0 = entry@;
        entry.resolved_source_path = if candidate.is_some() {
            resolved
        } else {
            None
        };
        let global = match entry.scope {
            Scope::Global => true,
            _ => false,
        };
        let ghost own = if global {
            None
        } else {
            opt_text(entry.resolved_source_path)
        };
        let ghost f = |p: Option<String>|
            match p {
                Some(t) => if own == Some(t@) {
                    None
                } else {
                    Some(t@)
                },
                None => None,
            };
        let mut paths: Vec<String> = Vec::new();
        let mut i: usize = 0;
        proof {
            reveal(Seq::filter_map);
            assert(shadows@.take(0).filter_map(f) =~= texts(paths@));
        }
        while i < shadows.len()
            invariant
                i <= shadows@.len(),
                own == (if global {
                    None
                } else {
                    opt_text(entry.resolved_source_path)
                }),
                f == (|p: Option<String>|
                    match p {
                        Some(t) => if own == Some(t@) {
                            None
                        } else {
                            Some(t@)
                        },
                        None => None,
                    }),
                texts(paths@) == shadows@.take(i as int).filter_map(f),
            decreases shadows@.len() - i,
        {
            proof {
                shadows@.lemma_filter_map_take_succ(f, i as int);
            }
            let ghost before = paths@;
            if let Some(t) = &shadows[i] {
                let itself = !global && match &entry.resolved_source_path {
                    Some(o) => str_eq(o.as_str(), t.as_str()),
                    None => false,
                };
                if !itself {
                    paths.push(t.clone());
                    assert(texts(paths@) =~= texts(before).push(t@));
                }
            }
            assert(texts(paths@) =~= shadows@.take(i + 1).filter_map(f));
            i = i + 1;
        }
        assert(shadows@.take(shadows@.len() as int) =~= shadows@);
        assert(texts(paths@).len() == paths@.len());
        entry.override_paths = if paths.len() > 0 {
            Some(paths)
        } else {
            None
        };
        entry
    }
}

// ─── Documents ──────────────────────────────────────────────────

/// A member that is there only where it has a value.
pub open spec fn some_text(name: Seq<char>, t: Option<Seq<char>>) -> Seq<(Seq<char>, JsonView)> {
    match t {
        Some(v) => seq![(name, JsonView::Text(v))],
        None => Seq::empty(),
    }
}

/// A member that is there only where it has a value.
pub open spec fn some_bool(name: Seq<char>, t: Option<bool>) -> Seq<(Seq<char>, JsonView)> {
    match t {
        Some(v) => seq![(name, JsonView::Bool(v))],
        None => Seq::empty(),
    }
}

/// A member that is there only where it has a value.
pub open spec fn some_texts(name: Seq<char>, t: Option<Seq<Seq<char>>>) -> Seq<
    (Seq<char>, JsonView),
> {
    match t {
        Some(v) => seq![(name, JsonView::Array(text_views(v)))],
        None => Seq::empty(),
    }
}

/// The members that the host sets.
pub open spec fn host_members(e: ListEntryView) -> Seq<(Seq<char>, JsonView)> {
    seq![("name"@, JsonView::Text(e.name)), ("scope"@, JsonView::Text(e.scope.name_view()))]
        + some_text("source_type"@, e.source_type) + some_text("path"@, e.path) + some_text(
        "source"@,
        e.source,
    ) + seq![("active"@, JsonView::Bool(e.active))] + some_text("version"@, e.version) + some_text(
        "installed_at"@,
        e.installed_at,
    ) + some_text("updated_at"@, e.updated_at) + some_text("install_source"@, e.install_source)
        + some_texts("overrides"@, e.overrides) + some_text(
        "resolved_source_path"@,
        e.resolved_source_path,
    ) + some_text(
        "resolved_source_kind"@,
        match e.resolved_source_kind {
            Some(k) => Some(k.name_view()),
            None => None,
        },
    ) + some_texts("override_paths"@, e.override_paths) + some_text("error"@, e.error) + some_bool(
        "linked"@,
        e.linked,
    ) + some_text("link_target"@, e.link_target) + some_bool("broken"@, e.broken)
}

/// `base` with each member of `extra` whose name is still free.
pub open spec fn with_free_members(
    base: Seq<(Seq<char>, JsonView)>,
    extra: Seq<(Seq<char>, JsonView)>,
) -> Seq<(Seq<char>, JsonView)>
    decreases extra.len(),
{
    if extra.len() == 0 {
        base
    } else {
        let before = with_free_members(base, extra.drop_last());
        if has_member(before, extra.last().0) {
            before
        } else {
            before.push(extra.last())
        }
    }
}

/// The document of an entry: what the host sets, then what the package says of
/// itself where the host says nothing.
pub open spec fn entry_json(e: ListEntryView) -> JsonView {
    JsonView::Object(with_free_members(host_members(e), e.meta.members()))
}

fn with_some_text(doc: Json, name: &str, t: &Option<String>) -> (r: Json)
    requires
        doc is Object,
    ensures
        r is Object,
        r@.members() == doc@.members() + some_text(name@, opt_text(*t)),
{
    match t {
        Some(v) => {
            let r = doc.with(name, Json::text(v.as_str()));
            assert(r@.members() =~= doc@.members() + some_text(name@, opt_text(*t)));
            r
        },
        None => {
            assert(doc@.members() =~= doc@.members() + some_text(name@, opt_text(*t)));
            doc
        },
    }
}

fn with_some_bool(doc: Json, name: &str, t: Option<bool>) -> (r: Json)
    requires
        doc is Object,
    ensures
        r is Object,
        r@.members() == doc@.members() + some_bool(name@, t),
{
    match t {
        Some(v) => {
            let r = doc.with(name, Json::Bool(v));
            assert(r@.members() =~= doc@.members() + some_bool(name@, t));
            r
        },
        None => {
            assert(doc@.members() =~= doc@.members() + some_bool(name@, t));
            doc
        },
    }
}

fn with_some_texts(doc: Json, name: &str, t: &Option<Vec<String>>) -> (r: Json)
    requires
        doc is Object,
    ensures
        r is Object,
        r@.members() == doc@.members() + some_texts(name@, opt_texts(*t)),
{
    match t {
        Some(v) => {
            let r = doc.with(name, Json::texts(v));
            assert(r@.members() =~= doc@.members() + some_texts(name@, opt_texts(*t)));
            r
        },
        None => {
            assert(doc@.members() =~= doc@.members() + some_texts(name@, opt_texts(*t)));
            doc
        },
    }
}

impl ListEntry {
    /// The document of the entry. What the package says of itself never stands
    /// in place of what the host sets.
    pub fn to_json(&self) -> (r: Json)
        ensures
            r@ == entry_json(self@),
    {
        let kind: Option<String> = match self.resolved_source_kind {
            Some(k) => Some(k.as_str().to_owned()),
            None => None,
        };
        let ghost e = self@;
        let doc = Json::object().with("name", Json::text(self.name.as_str())).with(
            "scope",
            Json::text(self.scope.as_str()),
        );
        assert(doc@.members() =~= seq![
            ("name"@, JsonView::Text(e.name)),
            ("scope"@, JsonView::Text(e.scope.name_view())),
        ]);
        let doc = with_some_text(doc, "source_type", &self.source_type);
        let doc = with_some_text(doc, "path", &self.path);
        let doc = with_some_text(doc, "source", &self.source);
        let ghost before = doc@.members();
        let doc = doc.with("active", Json::Bool(self.active));
        assert(doc@.members() =~= before + seq![("active"@, JsonView::Bool(e.active))]);
        let doc = with_some_text(doc, "version", &self.version);
        let doc = with_some_text(doc, "installed_at", &self.installed_at);
        let doc = with_some_text(doc, "updated_at", &self.updated_at);
        let doc = with_some_text(doc, "install_source", &self.install_source);
        let doc = with_some_texts(doc, "overrides", &self.overrides);
        let doc = with_some_text(doc, "resolved_source_path", &self.resolved_source_path);
        let doc = with_some_text(doc, "resolved_source_kind", &kind);
        let doc = with_some_texts(doc, "override_paths", &self.override_paths);
        let doc = with_some_text(doc, "error", &self.error);
        let doc = with_some_bool(doc, "linked", self.linked);
        let doc = with_some_text(doc, "link_target", &self.link_target);
        let doc = with_some_bool(doc, "broken", self.broken);
        with_free(doc, &self.meta)
    }
}

/// `doc` with each member of `extra` whose name is still free.
pub fn with_free(doc: Json, extra: &Json) -> (r: Json)
    requires
        doc is Object,
    ensures
        r@ == JsonView::Object(with_free_members(doc@.members(), extra@.members())),
{
    let ghost base = doc@.members();
    let mut doc = doc;
    if let Json::Object(ms) = extra {
        let ghost all = extra@.members();
        assert(all.take(0) =~= Seq::empty());
        let mut i: usize = 0;
        while i < ms.len()
            invariant
                i <= ms@.len(),
                doc is Object,
                *extra == Json::Object(*ms),
                all == extra@.members(),
                all.len() == ms@.len(),
                doc@.members() == with_free_members(base, all.take(i as int)),
            decreases ms@.len() - i,
        {
            assert(all.take(i + 1).drop_last() =~= all.take(i as int));
            assert(all[i as int] == (ms@[i as int].0@, ms@[i as int].1@));
            let name = ms[i].0.as_str();
            let free = doc.get(name).is_none();
            if free {
                doc = doc.with(name, ms[i].1.clone());
            }
            i = i + 1;
        }
        assert(all.take(ms@.len() as int) =~= all);
    } else {
        assert(extra@.members() =~= Seq::empty());
    }
    doc
}

/// The whole answer: the packages, the search paths, and of a project its root
/// and the path of its lock.
pub open spec fn list_view(
    packages: Seq<JsonView>,
    search_paths: Seq<(String, String)>,
    project: Option<(Seq<char>, Seq<char>)>,
) -> Seq<(Seq<char>, JsonView)> {
    seq![
        ("packages"@, JsonView::Array(packages)),
        (
            "search_paths"@,
            JsonView::Array(
                search_paths.map_values(|p: (String, String)| crate::logs::search_path_json(p)),
            ),
        ),
    ] + match project {
        Some((root, lock)) => seq![
            ("project_root"@, JsonView::Text(root)),
            ("lockfile_path"@, JsonView::Text(lock)),
        ],
        None => Seq::empty(),
    }
}

// ─── Order ──────────────────────────────────────────────────────

/// The package of the document is the one that takes effect.
pub open spec fn is_active(doc: JsonView) -> bool {
    doc.field("active"@) == Some(JsonView::Bool(true))
}

/// When the package of the document was installed, where that is known.
pub open spec fn install_time(doc: JsonView) -> Option<Seq<char>> {
    match doc.field("installed_at"@) {
        Some(JsonView::Text(t)) => Some(t),
        _ => None,
    }
}

/// The first time is later; any time is later than one that is not known.
pub open spec fn is_later(a: Option<Seq<char>>, b: Option<Seq<char>>) -> bool {
    match (a, b) {
        (Some(x), Some(y)) => lex_lt(y, x),
        (Some(_), None) => true,
        _ => false,
    }
}

/// `a` is listed before `b`: what takes effect before what does not, and of two
/// that are alike in this the one that was installed later.
pub open spec fn goes_first(a: JsonView, b: JsonView) -> bool {
    if is_active(a) != is_active(b) {
        is_active(a)
    } else {
        is_later(install_time(a), install_time(b))
    }
}

/// Selects the documents that go neither before nor after `d`.
pub open spec fn level_with(d: JsonView) -> spec_fn(JsonView) -> bool {
    |x: JsonView| is_active(x) == is_active(d) && install_time(x) == install_time(d)
}

/// None goes before one that stands ahead of it.
pub open spec fn in_listing_order(s: Seq<JsonView>) -> bool {
    forall|i: int, j: int| 0 <= i < j < s.len() ==> !goes_first(#[trigger] s[j], #[trigger] s[i])
}

/// `r` holds the documents of `s` in the listing order; those that are level
/// keep the order that they have in `s`.
pub open spec fn is_listing_of(r: Seq<JsonView>, s: Seq<JsonView>) -> bool {
    &&& in_listing_order(r)
    &&& r.len() == s.len()
    &&& forall|d: JsonView| r.filter(#[trigger] level_with(d)) == s.filter(level_with(d))
}

proof fn lemma_goes_first_asymmetric(a: JsonView, b: JsonView)
    requires
        goes_first(a, b),
    ensures
        !goes_first(b, a),
        !level_with(b)(a),
{
    if let (Some(x), Some(y)) = (install_time(a), install_time(b)) {
        if is_active(a) == is_active(b) {
            lemma_lex_asymmetric(y, x);
        }
    }
}

proof fn lemma_not_first_transitive(a: JsonView, b: JsonView, c: JsonView)
    requires
        !goes_first(a, b),
        !goes_first(b, c),
    ensures
        !goes_first(a, c),
{
    if goes_first(a, c) && is_active(a) == is_active(c) && is_active(a) == is_active(b) {
        if let (Some(x), Some(y), Some(z)) = (install_time(a), install_time(b), install_time(c)) {
            lemma_lex_total(y, x);
            lemma_lex_total(z, y);
            if lex_lt(x, y) && lex_lt(y, z) {
                lemma_lex_transitive(x, y, z);
                lemma_lex_asymmetric(x, z);
            }
        }
    }
}

/// Whether `a` is listed before `b`.
fn comes_first(a: &Json, b: &Json) -> (r: bool)
    ensures
        r == goes_first(a@, b@),
{
    let x = match a.get("active") {
        Some(Json::Bool(v)) => *v,
        _ => false,
    };
    let y = match b.get("active") {
        Some(Json::Bool(v)) => *v,
        _ => false,
    };
    if x != y {
        return x;
    }
    match (a.get("installed_at"), b.get("installed_at")) {
        (Some(Json::Text(t)), Some(Json::Text(u))) => str_lt(u.as_str(), t.as_str()),
        (Some(Json::Text(_)), _) => true,
        _ => false,
    }
}

proof fn lemma_level_insert(out: Seq<JsonView>, pos: int, x: JsonView, d: JsonView)
    requires
        0 <= pos <= out.len(),
        forall|i: int| 0 <= i < pos ==> goes_first(#[trigger] out[i], x),
    ensures
        out.insert(pos, x).filter(level_with(d)) == (seq![x] + out).filter(level_with(d)),
{
    let p = level_with(d);
    let a = out.take(pos);
    let b = out.skip(pos);
    let one = seq![x];
    assert(out.insert(pos, x) =~= a + (one + b));
    assert(out =~= a + b);
    Seq::filter_distributes_over_add(a, one + b, p);
    Seq::filter_distributes_over_add(one, b, p);
    Seq::filter_distributes_over_add(one, out, p);
    Seq::filter_distributes_over_add(a, b, p);
    if p(x) {
        assert forall|i: int| 0 <= i < a.len() implies !p(#[trigger] a[i]) by {
            lemma_goes_first_asymmetric(out[i], x);
        }
        a.lemma_all_neg_filter_empty(p);
        assert(a.filter(p) =~= Seq::<JsonView>::empty());
        assert(out.insert(pos, x).filter(p) =~= (one + out).filter(p));
    } else {
        assert forall|i: int| 0 <= i < one.len() implies !p(#[trigger] one[i]) by {}
        one.lemma_all_neg_filter_empty(p);
        assert(one.filter(p) =~= Seq::<JsonView>::empty());
        assert(out.insert(pos, x).filter(p) =~= (one + out).filter(p));
    }
}

proof fn lemma_listing_insert(out: Seq<JsonView>, pos: int, x: JsonView)
    requires
        0 <= pos <= out.len(),
        in_listing_order(out),
        forall|i: int| 0 <= i < pos ==> goes_first(#[trigger] out[i], x),
        pos < out.len() ==> !goes_first(out[pos], x),
    ensures
        in_listing_order(out.insert(pos, x)),
{
    let r = out.insert(pos, x);
    assert forall|i: int, j: int| 0 <= i < j < r.len() implies !goes_first(
        #[trigger] r[j],
        #[trigger] r[i],
    ) by {
        if i < pos && j == pos {
            lemma_goes_first_asymmetric(out[i], x);
        } else if i == pos {
            // What follows stands at or after the place that `x` takes.
            if j - 1 > pos {
                lemma_not_first_transitive(out[j - 1], out[pos], x);
            }
        }
    }
}

/// The documents of packages in the listing order: what takes effect first, and
/// then what was installed last; the others keep their order.
pub fn order_packages(packages: Vec<Json>) -> (r: Vec<Json>)
    ensures
        is_listing_of(views(r@), views(packages@)),
{
    let ghost orig = views(packages@);
    let mut rest = packages;
    let mut out: Vec<Json> = Vec::new();
    assert(views(rest@) + views(out@) =~= orig);
    while rest.len() > 0
        invariant
            in_listing_order(views(out@)),
            rest@.len() + out@.len() == orig.len(),
            forall|d: JsonView|
                (views(rest@) + views(out@)).filter(#[trigger] level_with(d)) == orig.filter(
                    level_with(d),
                ),
        decreases rest@.len(),
    {
        let ghost rest0 = views(rest@);
        let ghost out0 = views(out@);
        match rest.pop() {
            None => {
                return out;
            },
            Some(x) => {
                let mut pos: usize = 0;
                while pos < out.len() && comes_first(&out[pos], &x)
                    invariant
                        pos <= out@.len(),
                        out0 == views(out@),
                        forall|i: int| 0 <= i < pos ==> goes_first(#[trigger] out0[i], x@),
                    decreases out@.len() - pos,
                {
                    pos = pos + 1;
                }
                let ghost v = views(rest@);
                let ghost placed = out0.insert(pos as int, x@);
                proof {
                    assert(v.push(x@) =~= rest0);
                    lemma_listing_insert(out0, pos as int, x@);
                    assert forall|d: JsonView|
                        (v + placed).filter(#[trigger] level_with(d)) == orig.filter(
                            level_with(d),
                        ) by {
                        let p = level_with(d);
                        lemma_level_insert(out0, pos as int, x@, d);
                        assert(v + (seq![x@] + out0) =~= rest0 + out0);
                        Seq::filter_distributes_over_add(v, placed, p);
                        Seq::filter_distributes_over_add(v, seq![x@] + out0, p);
                    }
                }
                out.insert(pos, x);
                assert(views(out@) =~= placed);
            },
        }
    }
    assert(views(rest@) + views(out@) =~= views(out@));
    out
}

/// How many packages are listed where no limit is asked for.
pub const DEFAULT_LIST_LIMIT: usize = 50;

/// The packages that are listed: the first `limit`, or the first fifty.
pub open spec fn within_limit<T>(packages: Seq<T>, limit: Option<usize>) -> Seq<T> {
    let n = match limit {
        Some(n) => n,
        None => DEFAULT_LIST_LIMIT,
    };
    if n < packages.len() {
        packages.take(n as int)
    } else {
        packages
    }
}

/// `r` is the whole answer: of `packages`, in the listing order, no more than
/// are asked for.
pub open spec fn is_list_response(
    r: JsonView,
    packages: Seq<JsonView>,
    limit: Option<usize>,
    search_paths: Seq<(String, String)>,
    project: Option<(Seq<char>, Seq<char>)>,
) -> bool {
    exists|ordered: Seq<JsonView>| #[trigger]
        is_listing_of(ordered, packages) && r == JsonView::Object(
            list_view(within_limit(ordered, limit), search_paths, project),
        )
}

/// The whole answer, with no more packages than are asked for, those that go
/// first. `search_paths` holds paths with their sources, `project` the root and
/// the path of the lock.
pub fn list_response(
    packages: Vec<Json>,
    limit: Option<usize>,
    search_paths: &Vec<(String, String)>,
    project: Option<(&str, &str)>,
) -> (r: Json)
    ensures
        is_list_response(
            r@,
            views(packages@),
            limit,
            search_paths@,
            match project {
                Some((root, lock)) => Some((root@, lock@)),
                None => None,
            },
        ),
{
    let ghost given = views(packages@);
    let mut packages = order_packages(packages);
    let ghost all = packages@;
    packages.truncate(
        match limit {
            Some(n) => n,
            None => DEFAULT_LIST_LIMIT,
        },
    );
    let ghost ps = packages@;
    assert(views(ps) =~= within_limit(views(all), limit));
    let r = Json::object().with("packages", Json::array(packages)).with(
        "search_paths",
        crate::logs::search_paths_json(search_paths),
    );
    let r = match project {
        Some((root, lock)) => r.with("project_root", Json::text(root)).with(
            "lockfile_path",
            Json::text(lock),
        ),
        None => r,
    };
    assert(r@.members() =~= list_view(
        views(ps),
        search_paths@,
        match project {
            Some((root, lock)) => Some((root@, lock@)),
            None => None,
        },
    ));
    assert(is_listing_of(views(all), given));
    r
}

// ─── Laws ───────────────────────────────────────────────────────

/// No package that takes effect is cut off while one that does not is listed.
pub proof fn law_active_is_cut_last(
    ordered: Seq<JsonView>,
    packages: Seq<JsonView>,
    limit: Option<usize>,
    i: int,
    j: int,
)
    requires
        is_listing_of(ordered, packages),
        0 <= i < within_limit(ordered, limit).len(),
        !is_active(ordered[i]),
        0 <= j < ordered.len(),
        is_active(ordered[j]),
    ensures
        j < within_limit(ordered, limit).len(),
{
    if j > i {
        assert(goes_first(ordered[j], ordered[i]));
    }
}

/// Ordering loses no package and adds none.
pub proof fn law_listing_keeps_every_package(
    ordered: Seq<JsonView>,
    packages: Seq<JsonView>,
    d: JsonView,
)
    requires
        is_listing_of(ordered, packages),
    ensures
        ordered.contains(d) <==> packages.contains(d),
{
    let p = level_with(d);
    assert(ordered.filter(p) == packages.filter(p));
    lemma_filter_has(ordered, d);
    lemma_filter_has(packages, d);
}

proof fn lemma_filter_has(s: Seq<JsonView>, d: JsonView)
    ensures
        s.filter(level_with(d)).contains(d) <==> s.contains(d),
{
    let p = level_with(d);
    if s.contains(d) {
        let i = choose|i: int| 0 <= i < s.len() && s[i] == d;
        s.lemma_filter_contains(p, i);
    }
    if s.filter(p).contains(d) {
        s.lemma_filter_contains_rev(p, d);
    }
}

proof fn lemma_free_members_keep(
    base: Seq<(Seq<char>, JsonView)>,
    extra: Seq<(Seq<char>, JsonView)>,
)
    ensures
        base.len() <= with_free_members(base, extra).len(),
        with_free_members(base, extra).take(base.len() as int) == base,
    decreases extra.len(),
{
    let r = with_free_members(base, extra);
    if extra.len() == 0 {
        assert(r.take(base.len() as int) =~= base);
    } else {
        lemma_free_members_keep(base, extra.drop_last());
        let before = with_free_members(base, extra.drop_last());
        assert(r.take(base.len() as int) =~= before.take(base.len() as int));
    }
}

/// What the host sets of an entry is what the document holds, whatever the
/// package says of itself.
pub proof fn law_meta_never_overrides(e: ListEntryView, name: Seq<char>)
    requires
        has_member(host_members(e), name),
    ensures
        entry_json(e).field(name) == member(host_members(e), name),
{
    let base = host_members(e);
    let r = with_free_members(base, e.meta.members());
    lemma_free_members_keep(base, e.meta.members());
    crate::json::lemma_member_of_prefix(base, r, name);
}

/// Of the packages of one name in the search paths only the first is active,
/// and only where nothing of the project has the name.
pub proof fn law_one_active_global(
    found: Seq<Found>,
    i: int,
    j: int,
    above: Seq<Seq<char>>,
    recorded: Map<Seq<char>, RecordedPackage>,
)
    requires
        0 <= i < j < found.len(),
        found[i].fact.name@ == found[j].fact.name@,
    ensures
        !global_draft(found, j, above, recorded).entry.active,
        above.contains(found[i].fact.name@) ==> !global_draft(
            found,
            i,
            above,
            recorded,
        ).entry.active,
{
    assert(!is_first(found, j));
}

/// A variant is active and everything below it of the same name is not.
pub proof fn law_variant_shadows(
    p: ProjectFacts,
    packages_dir: Result<String, String>,
    found: Seq<Found>,
    recorded: Map<Seq<char>, RecordedPackage>,
    v: int,
    k: int,
)
    requires
        0 <= v < p.variants@.len(),
        p.variants@.len() <= k < all_drafts(Some(p), packages_dir, found, recorded).len(),
        all_drafts(Some(p), packages_dir, found, recorded)[k].entry.name == p.variants@[v].name@,
    ensures
        all_drafts(Some(p), packages_dir, found, recorded)[v].entry.active,
        !all_drafts(Some(p), packages_dir, found, recorded)[k].entry.active,
{
    let name = p.variants@[v].name@;
    let all = all_drafts(Some(p), packages_dir, found, recorded);
    let upper = upper_drafts(Some(p), packages_dir, found);
    let n = p.variants@.len() as int;
    assert(variant_names(p.variants@)[v] == name);
    assert(variant_names(p.variants@).contains(name));
    assert(upper[v].entry.name == name);
    assert(draft_names(upper)[v] == name);
    assert(draft_names(upper).contains(name));
    if k < upper.len() {
        let ds = project_drafts(p, packages_dir, found);
        assert(all[k] == ds[k - n]);
        match p.toml {
            ProjectToml::Loaded(deps) => {
                assert(ds[k - n] == declared_draft(p, deps@[k - n], packages_dir, found));
            },
            ProjectToml::Missing => {
                let f = |x: Seq<char>| locked_draft(p, x, packages_dir, found);
                let x = lemma_filter_map_origin(p.lock.keys(), f, k - n);
                assert(locked_draft(p, x, packages_dir, found) == Some(ds[k - n]));
            },
            ProjectToml::Failed => {},
        }
    } else {
        assert(all[k] == global_draft(found, k - upper.len(), draft_names(upper), recorded));
    }
}

proof fn lemma_filter_map_origin(
    s: Seq<Seq<char>>,
    f: spec_fn(Seq<char>) -> Option<DraftView>,
    i: int,
) -> (x: Seq<char>)
    requires
        0 <= i < s.filter_map(f).len(),
    ensures
        f(x) == Some(s.filter_map(f)[i]),
    decreases s.len(),
{
    if s.len() == 0 {
        reveal(Seq::filter_map);
        assert(s.filter_map(f) =~= Seq::empty());
        Seq::empty()
    } else {
        let n = s.len() - 1;
        s.lemma_filter_map_take_succ(f, n);
        assert(s.take(n + 1) =~= s);
        let d = s.take(n);
        if i < d.filter_map(f).len() {
            lemma_filter_map_origin(d, f, i)
        } else {
            s[n]
        }
    }
}

/// An entry of the project never stands in the list of what it shadows.
pub proof fn law_no_entry_shadows_itself(
    d: DraftView,
    resolved: Option<Seq<char>>,
    shadows: Seq<Option<String>>,
)
    requires
        d.entry.scope != Scope::Global,
    ensures
        match (
            finished(d, resolved, shadows).override_paths,
            finished(d, resolved, shadows).resolved_source_path,
        ) {
            (Some(paths), Some(own)) => !paths.contains(own),
            _ => true,
        },
{
    let own = if d.candidate is Some {
        resolved
    } else {
        None
    };
    let paths = other_paths(shadows, own);
    let f = |p: Option<String>|
        match p {
            Some(t) => if own == Some(t@) {
                None
            } else {
                Some(t@)
            },
            None => None,
        };
    if own is Some && paths.contains(own->0) {
        shadows.lemma_filter_map_contains(f, own->0);
    }
}

/// An entry that something shadows shadows nothing itself.
pub proof fn law_shadowed_shadows_nothing(
    project: Option<ProjectFacts>,
    packages_dir: Result<String, String>,
    found: Seq<Found>,
    recorded: Map<Seq<char>, RecordedPackage>,
    k: int,
)
    requires
        0 <= k < all_drafts(project, packages_dir, found, recorded).len(),
        !all_drafts(project, packages_dir, found, recorded)[k].entry.active,
    ensures
        all_drafts(project, packages_dir, found, recorded)[k].shadowed.len() == 0,
        all_drafts(project, packages_dir, found, recorded)[k].entry.overrides is None,
{
    let all = all_drafts(project, packages_dir, found, recorded);
    let upper = upper_drafts(project, packages_dir, found);
    if k < upper.len() {
        match project {
            Some(p) => {
                let n = p.variants@.len() as int;
                if k < n {
                    assert(all[k] == variant_draft(p.variants@[k], found));
                } else {
                    let ds = project_drafts(p, packages_dir, found);
                    assert(all[k] == ds[k - n]);
                    match p.toml {
                        ProjectToml::Loaded(deps) => {
                            assert(ds[k - n] == declared_draft(
                                p,
                                deps@[k - n],
                                packages_dir,
                                found,
                            ));
                        },
                        ProjectToml::Missing => {
                            let f = |x: Seq<char>| locked_draft(p, x, packages_dir, found);
                            let x = lemma_filter_map_origin(p.lock.keys(), f, k - n);
                            assert(locked_draft(p, x, packages_dir, found) == Some(ds[k - n]));
                        },
                        ProjectToml::Failed => {},
                    }
                }
            },
            None => {},
        }
    } else {
        assert(all[k] == global_draft(found, k - upper.len(), draft_names(upper), recorded));
    }
}

} // verus!
