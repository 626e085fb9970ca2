//! Running a package's tests: where modules are looked for, which files are
//! run, and what the results add up to.

use vstd::prelude::*;
use crate::json::{json_content, json_text, text_views, views, with_member, Json, JsonView};
use crate::list::VariantFact;
use crate::order::{is_stable_sort_of, sort_by_key};
use crate::paths::{join, joined_path, parent, parent_of};
use crate::read::{init_path, variant_init, InitPath};
use crate::source::PackageDep;
use crate::text::{
    clone_names, contains_name, contains_text, ends_with, occurs_in, opt_str, opt_text, texts,
    trim_end_of, trimmed_end_of,
};

verus! {

// ─── Search paths ───────────────────────────────────────────────

/// Where a search path was taken from.
#[derive(Debug, Clone, Copy, PartialEq, Eq, Structural)]
pub enum AutoSearchPathSource {
    /// The packages directory.
    Installed,
    /// A directory that `alc.toml` names.
    AlcToml,
    /// A directory that `alc.local.toml` names.
    AlcLocalToml,
}

impl AutoSearchPathSource {
    pub open spec fn name_view(self) -> Seq<char> {
        match self {
            AutoSearchPathSource::Installed => "installed"@,
            AutoSearchPathSource::AlcToml => "alc.toml"@,
            AutoSearchPathSource::AlcLocalToml => "alc.local.toml"@,
        }
    }

    pub fn as_str(self) -> (r: &'static str)
        ensures
            r@ == self.name_view(),
    {
        match self {
            AutoSearchPathSource::Installed => "installed",
            AutoSearchPathSource::AlcToml => "alc.toml",
            AutoSearchPathSource::AlcLocalToml => "alc.local.toml",
        }
    }
}

/// The directory in which a package is found.
#[derive(Debug)]
pub struct ResolvedSearchPath {
    pub name: String,
    pub search_dir: String,
    pub source: AutoSearchPathSource,
}

/// The content of a `ResolvedSearchPath`.
#[verifier::ext_equal]
pub struct ResolvedView {
    pub name: Seq<char>,
    pub search_dir: Seq<char>,
    pub source: AutoSearchPathSource,
}

impl View for ResolvedSearchPath {
    type V = ResolvedView;

    open spec fn view(&self) -> ResolvedView {
        ResolvedView { name: self.name@, search_dir: self.search_dir@, source: self.source }
    }
}

/// The contents of search paths.
pub open spec fn resolved_views(v: Seq<ResolvedSearchPath>) -> Seq<ResolvedView> {
    v.map_values(|r: ResolvedSearchPath| r@)
}

/// An entry of the packages directory.
#[derive(Debug)]
pub struct InstalledFact {
    pub name: String,
    /// A directory, or a link to one.
    pub is_dir: bool,
    pub has_init: bool,
}

/// A declared package; of a directory with its canonical path, or why there is
/// none.
#[derive(Debug)]
pub struct DeclaredFact {
    pub name: String,
    pub dep: PackageDep,
    pub canonical: Result<String, String>,
}

/// What was read of a file of declarations.
#[derive(Debug)]
pub enum Declarations {
    Missing,
    /// It cannot be read, for the given cause.
    Failed(String),
    Loaded(Vec<DeclaredFact>),
}

/// What was read of a project.
#[derive(Debug)]
pub struct TestProject {
    pub root: String,
    pub toml: Declarations,
    pub local: Declarations,
}

/// The directory that `dep` names, if it names one.
pub open spec fn dep_dir(root: Seq<char>, dep: PackageDep) -> Option<Seq<char>> {
    match dep {
        PackageDep::Path { path, version: _ } => Some(joined_path(root, path@)),
        _ => None,
    }
}

/// The directory that `dep` names, if it names one.
pub fn declared_dir(root: &str, dep: &PackageDep) -> (r: Option<String>)
    ensures
        opt_text(r) == dep_dir(root@, *dep),
{
    match dep {
        PackageDep::Path { path, version: _ } => Some(join(root, path.as_str())),
        _ => None,
    }
}

/// The search path of a package of the packages directory.
pub open spec fn installed_path(dir: Seq<char>, f: InstalledFact) -> Option<ResolvedView> {
    if f.is_dir && f.has_init {
        Some(
            ResolvedView {
                name: f.name@,
                search_dir: dir,
                source: AutoSearchPathSource::Installed,
            },
        )
    } else {
        None
    }
}

/// The directory that holds `p`, or `p` where there is none.
pub open spec fn holder_of(p: Seq<char>) -> Seq<char> {
    match parent_of(p) {
        Some(t) => t,
        None => p,
    }
}

/// The search path of a declared package.
pub open spec fn declared_path(
    root: Seq<char>,
    source: AutoSearchPathSource,
    f: DeclaredFact,
) -> Option<ResolvedView> {
    match (dep_dir(root, f.dep), f.canonical) {
        (Some(_), Ok(c)) => Some(
            ResolvedView { name: f.name@, search_dir: holder_of(c@), source },
        ),
        _ => None,
    }
}

/// What is told of a declared package whose directory cannot be resolved.
pub open spec fn declared_warning(
    root: Seq<char>,
    source: AutoSearchPathSource,
    f: DeclaredFact,
) -> Option<Seq<char>> {
    match (dep_dir(root, f.dep), f.canonical) {
        (Some(d), Err(e)) => Some(
            "cannot canonicalize "@ + source.name_view() + " path entry for '"@ + f.name@ + "' ("@
                + d + "): "@ + e@,
        ),
        _ => None,
    }
}

/// The search paths of a file of declarations.
pub open spec fn declared_paths(
    root: Seq<char>,
    source: AutoSearchPathSource,
    d: Declarations,
) -> Seq<ResolvedView> {
    match d {
        Declarations::Loaded(v) => v@.filter_map(|f: DeclaredFact| declared_path(root, source, f)),
        _ => Seq::empty(),
    }
}

/// The warnings about a file of declarations.
pub open spec fn declared_warnings(
    root: Seq<char>,
    source: AutoSearchPathSource,
    d: Declarations,
) -> Seq<Seq<char>> {
    match d {
        Declarations::Loaded(v) => v@.filter_map(
            |f: DeclaredFact| declared_warning(root, source, f),
        ),
        Declarations::Failed(e) => seq![
            "failed to load "@ + source.name_view() + " at "@ + root + ": "@ + e@,
        ],
        Declarations::Missing => Seq::empty(),
    }
}

/// The search paths and the warnings of the packages directory.
pub open spec fn installed_paths(dir: Seq<char>, found: Result<Vec<InstalledFact>, String>) -> Seq<
    ResolvedView,
> {
    match found {
        Ok(v) => v@.filter_map(|f: InstalledFact| installed_path(dir, f)),
        Err(_) => Seq::empty(),
    }
}

/// The warnings about the packages directory.
pub open spec fn installed_warnings(
    dir: Seq<char>,
    found: Result<Vec<InstalledFact>, String>,
) -> Seq<Seq<char>> {
    match found {
        Ok(_) => Seq::empty(),
        Err(e) => seq!["failed to read packages dir "@ + dir + ": "@ + e@],
    }
}

fn add_installed(dir: &str, found: &Vec<InstalledFact>) -> (r: Vec<ResolvedSearchPath>)
    ensures
        resolved_views(r@) == found@.filter_map(|f: InstalledFact| installed_path(dir@, f)),
{
    let ghost f = |f: InstalledFact| installed_path(dir@, f);
    let mut out: Vec<ResolvedSearchPath> = Vec::new();
    let mut i: usize = 0;
    proof {
        reveal(Seq::filter_map);
        assert(found@.take(0).filter_map(f) =~= resolved_views(out@));
    }
    while i < found.len()
        invariant
            i <= found@.len(),
            f == (|f: InstalledFact| installed_path(dir@, f)),
            resolved_views(out@) == found@.take(i as int).filter_map(f),
        decreases found@.len() - i,
    {
        proof {
            found@.lemma_filter_map_take_succ(f, i as int);
        }
        let ghost before = out@;
        if found[i].is_dir && found[i].has_init {
            let p = ResolvedSearchPath {
                name: found[i].name.clone(),
                search_dir: dir.to_owned(),
                source: AutoSearchPathSource::Installed,
            };
            let ghost pv = p@;
            out.push(p);
            assert(resolved_views(out@) =~= resolved_views(before).push(pv));
        }
        assert(resolved_views(out@) =~= found@.take(i + 1).filter_map(f));
        i = i + 1;
    }
    assert(found@.take(found@.len() as int) =~= found@);
    out
}

fn add_declared(
    root: &str,
    source: AutoSearchPathSource,
    d: &Declarations,
    out: &mut Vec<ResolvedSearchPath>,
    warnings: &mut Vec<String>,
)
    ensures
        resolved_views(final(out)@) == resolved_views(old(out)@) + declared_paths(root@, source, *d),
        texts(final(warnings)@) == texts(old(warnings)@) + declared_warnings(root@, source, *d),
{
    let ghost out0 = resolved_views(out@);
    let ghost warn0 = texts(warnings@);
    match d {
        Declarations::Missing => {
            assert(out0 + Seq::<ResolvedView>::empty() =~= out0);
            assert(warn0 + Seq::<Seq<char>>::empty() =~= warn0);
        },
        Declarations::Failed(e) => {
            let mut m = "failed to load ".to_owned();
            m.append(source.as_str());
            m.append(" at ");
            m.append(root);
            m.append(": ");
            m.append(e.as_str());
            let ghost mv = m@;
            let ghost before = warnings@;
            warnings.push(m);
            proof {
                assert(out0 + Seq::<ResolvedView>::empty() =~= out0);
                assert(texts(warnings@) =~= texts(before).push(mv));
                assert(warn0.push(mv) =~= warn0 + declared_warnings(root@, source, *d));
            }
        },
        Declarations::Loaded(v) => {
            let ghost f = |f: DeclaredFact| declared_path(root@, source, f);
            let ghost g = |f: DeclaredFact| declared_warning(root@, source, f);
            let mut i: usize = 0;
            proof {
                reveal(Seq::filter_map);
                assert(out0 + v@.take(0).filter_map(f) =~= out0);
                assert(warn0 + v@.take(0).filter_map(g) =~= warn0);
            }
            while i < v.len()
                invariant
                    i <= v@.len(),
                    f == (|f: DeclaredFact| declared_path(root@, source, f)),
                    g == (|f: DeclaredFact| declared_warning(root@, source, f)),
                    resolved_views(out@) == out0 + v@.take(i as int).filter_map(f),
                    texts(warnings@) == warn0 + v@.take(i as int).filter_map(g),
                decreases v@.len() - i,
            {
                proof {
                    v@.lemma_filter_map_take_succ(f, i as int);
                    v@.lemma_filter_map_take_succ(g, i as int);
                }
                let ghost before = out@;
                let ghost warned = warnings@;
                if let Some(dir) = declared_dir(root, &v[i].dep) {
                    match &v[i].canonical {
                        Ok(c) => {
                            let search_dir = match parent(c.as_str()) {
                                Some(t) => t,
                                None => c.clone(),
                            };
                            let p = ResolvedSearchPath { name: v[i].name.clone(), search_dir, source };
                            let ghost pv = p@;
                            out.push(p);
                            assert(resolved_views(out@) =~= resolved_views(before).push(pv));
                        },
                        Err(e) => {
                            let mut m = "cannot canonicalize ".to_owned();
                            m.append(source.as_str());
                            m.append(" path entry for '");
                            m.append(v[i].name.as_str());
                            m.append("' (");
                            m.append(dir.as_str());
                            m.append("): ");
                            m.append(e.as_str());
                            let ghost mv = m@;
                            warnings.push(m);
                            assert(texts(warnings@) =~= texts(warned).push(mv));
                        },
                    }
                }
                assert(resolved_views(out@) =~= out0 + v@.take(i + 1).filter_map(f));
                assert(texts(warnings@) =~= warn0 + v@.take(i + 1).filter_map(g));
                i = i + 1;
            }
            assert(v@.take(v@.len() as int) =~= v@);
        },
    }
}

/// The search paths that the packages directory and the project give.
pub open spec fn auto_paths(
    dir: Seq<char>,
    found: Result<Vec<InstalledFact>, String>,
    project: Option<TestProject>,
) -> Seq<ResolvedView> {
    installed_paths(dir, found) + match project {
        Some(p) => declared_paths(p.root@, AutoSearchPathSource::AlcToml, p.toml) + declared_paths(
            p.root@,
            AutoSearchPathSource::AlcLocalToml,
            p.local,
        ),
        None => Seq::empty(),
    }
}

/// The warnings on the way to the search paths.
pub open spec fn auto_warnings(
    dir: Seq<char>,
    found: Result<Vec<InstalledFact>, String>,
    project: Option<TestProject>,
) -> Seq<Seq<char>> {
    installed_warnings(dir, found) + match project {
        Some(p) => declared_warnings(p.root@, AutoSearchPathSource::AlcToml, p.toml)
            + declared_warnings(p.root@, AutoSearchPathSource::AlcLocalToml, p.local),
        None => Seq::empty(),
    }
}

/// The search paths that the packages directory `packages_dir` and the project
/// give, one for each package, and what went wrong on the way.
pub fn collect_auto_search_paths(
    packages_dir: &str,
    found: &Result<Vec<InstalledFact>, String>,
    project: &Option<TestProject>,
) -> (r: (Vec<ResolvedSearchPath>, Vec<String>))
    ensures
        resolved_views(r.0@) == auto_paths(packages_dir@, *found, *project),
        texts(r.1@) == auto_warnings(packages_dir@, *found, *project),
{
    let mut warnings: Vec<String> = Vec::new();
    assert(texts(warnings@) =~= Seq::empty());
    let mut out: Vec<ResolvedSearchPath> = match found {
        Ok(v) => add_installed(packages_dir, v),
        Err(e) => {
            let mut m = "failed to read packages dir ".to_owned();
            m.append(packages_dir);
            m.append(": ");
            m.append(e.as_str());
            let ghost mv = m@;
            warnings.push(m);
            assert(texts(warnings@) =~= seq![mv]);
            let none: Vec<ResolvedSearchPath> = Vec::new();
            assert(resolved_views(none@) =~= Seq::empty());
            none
        },
    };
    let ghost a = resolved_views(out@);
    let ghost b = texts(warnings@);
    match project {
        Some(p) => {
            add_declared(
                p.root.as_str(),
                AutoSearchPathSource::AlcToml,
                &p.toml,
                &mut out,
                &mut warnings,
            );
            add_declared(
                p.root.as_str(),
                AutoSearchPathSource::AlcLocalToml,
                &p.local,
                &mut out,
                &mut warnings,
            );
            assert(resolved_views(out@) =~= auto_paths(packages_dir@, *found, *project));
            assert(texts(warnings@) =~= auto_warnings(packages_dir@, *found, *project));
        },
        None => {
            assert(a + Seq::<ResolvedView>::empty() =~= a);
            assert(b + Seq::<Seq<char>>::empty() =~= b);
        },
    }
    (out, warnings)
}

/// The directories of the search paths, each once, in their order.
pub open spec fn distinct_dirs(v: Seq<ResolvedView>) -> Seq<Seq<char>>
    decreases v.len(),
{
    if v.len() == 0 {
        Seq::empty()
    } else {
        let before = distinct_dirs(v.drop_last());
        if before.contains(v.last().search_dir) {
            before
        } else {
            before.push(v.last().search_dir)
        }
    }
}

/// The directories of the search paths, each once, in their order.
pub fn dirs_of(v: &Vec<ResolvedSearchPath>) -> (r: Vec<String>)
    ensures
        texts(r@) == distinct_dirs(resolved_views(v@)),
{
    let ghost vs = resolved_views(v@);
    let mut out: Vec<String> = Vec::new();
    let mut i: usize = 0;
    assert(vs.take(0) =~= Seq::empty());
    assert(texts(out@) =~= Seq::empty());
    while i < v.len()
        invariant
            i <= v@.len(),
            vs == resolved_views(v@),
            texts(out@) == distinct_dirs(vs.take(i as int)),
        decreases v@.len() - i,
    {
        assert(vs.take(i + 1).drop_last() =~= vs.take(i as int));
        assert(vs[i as int] == v@[i as int]@);
        let ghost before = out@;
        if !contains_name(&out, v[i].search_dir.as_str()) {
            out.push(v[i].search_dir.clone());
            assert(texts(out@) =~= texts(before).push(v@[i as int].search_dir@));
        }
        i = i + 1;
    }
    assert(vs.take(v@.len() as int) =~= vs);
    out
}

/// No directory is searched twice on account of the packages in it, and the
/// directory of every package is searched.
pub proof fn law_each_dir_once(v: Seq<ResolvedView>)
    ensures
        distinct_dirs(v).no_duplicates(),
        forall|i: int|
            0 <= i < v.len() ==> distinct_dirs(v).contains((#[trigger] v[i]).search_dir),
        forall|d: Seq<char>| #[trigger]
            distinct_dirs(v).contains(d) ==> exists|i: int|
                0 <= i < v.len() && (#[trigger] v[i]).search_dir == d,
    decreases v.len(),
{
    if v.len() > 0 {
        let w = v.drop_last();
        law_each_dir_once(w);
        let before = distinct_dirs(w);
        let all = distinct_dirs(v);
        let last = v.last().search_dir;
        if !before.contains(last) {
            assert(all[before.len() as int] == last);
        }
        assert forall|i: int| 0 <= i < v.len() implies all.contains(
            (#[trigger] v[i]).search_dir,
        ) by {
            if i < w.len() {
                assert(w[i] == v[i]);
                let k = choose|k: int| 0 <= k < before.len() && before[k] == v[i].search_dir;
                assert(all[k] == v[i].search_dir);
            }
        }
        assert forall|d: Seq<char>| #[trigger] all.contains(d) implies exists|i: int|
            0 <= i < v.len() && (#[trigger] v[i]).search_dir == d by {
            if before.contains(d) {
                let i = choose|i: int| 0 <= i < w.len() && (#[trigger] w[i]).search_dir == d;
                assert(v[i].search_dir == d);
            } else {
                assert(v[v.len() - 1].search_dir == d);
            }
        }
    }
}

// ─── What is run ────────────────────────────────────────────────

/// What is to be tested.
#[derive(Debug)]
pub enum TestInput {
    Pkg(String),
    CodeFile(String),
    Code(String),
}

/// What is to be tested: exactly one of a package, a file and code.
pub fn choose_input(pkg: Option<String>, code_file: Option<String>, code: Option<String>) -> (r:
    Result<TestInput, String>)
    ensures
        match r {
            Ok(TestInput::Pkg(p)) => pkg == Some(p) && code_file is None && code is None,
            Ok(TestInput::CodeFile(f)) => pkg is None && code_file == Some(f) && code is None,
            Ok(TestInput::Code(c)) => pkg is None && code_file is None && code == Some(c),
            Err(m) => m@ == "pkg_test: provide exactly one of pkg, code_file, code"@ && !(pkg
                is Some && code_file is None && code is None) && !(pkg is None && code_file is Some
                && code is None) && !(pkg is None && code_file is None && code is Some),
        },
{
    match (pkg, code_file, code) {
        (Some(p), None, None) => Ok(TestInput::Pkg(p)),
        (None, Some(f), None) => Ok(TestInput::CodeFile(f)),
        (None, None, Some(c)) => Ok(TestInput::Code(c)),
        _ => Err("pkg_test: provide exactly one of pkg, code_file, code".to_owned()),
    }
}

/// The directories to search: the place of what is tested, where it has one,
/// then those that were found, then the caller's.
pub fn search_order(own: Option<&str>, found: &Vec<String>, callers: &Vec<String>) -> (r: Vec<
    String,
>)
    ensures
        texts(r@) == (match own {
            Some(d) => seq![d@],
            None => Seq::empty(),
        }) + texts(found@) + texts(callers@),
{
    let mut out: Vec<String> = Vec::new();
    if let Some(d) = own {
        out.push(d.to_owned());
    }
    let ghost o = texts(out@);
    let mut a = clone_names(found);
    let mut b = clone_names(callers);
    let ghost av = a@;
    let ghost bv = b@;
    out.append(&mut a);
    assert(texts(out@) =~= o + texts(av));
    out.append(&mut b);
    assert(texts(out@) =~= o + texts(av) + texts(bv));
    proof {
        match own {
            Some(d) => assert(o =~= seq![d@]),
            None => assert(o =~= Seq::empty()),
        }
    }
    out
}

/// The file of the package `name` whose tests are run: in the project `root`
/// where it is there, else that of a variant, else that of the packages
/// directory.
pub open spec fn tested_init(
    root: Option<Seq<char>>,
    in_project: bool,
    variants: Seq<VariantFact>,
    packages_dir: Seq<char>,
    name: Seq<char>,
) -> Seq<char> {
    match (root, variant_init(variants, name)) {
        (Some(r), _) if in_project => joined_path(joined_path(r, name), "init.lua"@),
        (_, Some(p)) => p,
        _ => joined_path(joined_path(packages_dir, name), "init.lua"@),
    }
}

/// The file of the package `name` whose tests are run. `in_project` says that
/// the project has a directory of that name with an `init.lua`.
pub fn locate_package(
    root: Option<&str>,
    in_project: bool,
    variants: &Vec<VariantFact>,
    packages_dir: &str,
    name: &str,
) -> (r: String)
    ensures
        r@ == tested_init(opt_str(root), in_project, variants@, packages_dir@, name@),
{
    if in_project {
        if let Some(r) = root {
            return join(join(r, name).as_str(), "init.lua");
        }
    }
    match init_path(variants, packages_dir, name) {
        InitPath::Variant(p) => p,
        InitPath::Global(p) => p,
    }
}

/// The error where the file of the package `name` is not there.
pub fn package_missing(name: &str) -> (r: String)
    ensures
        r@ == "pkg_test: package '"@ + name@
            + "' not found in <project_root>/<name>/, alc.local.toml, or ~/.algocline/packages/"@,
{
    let mut r = "pkg_test: package '".to_owned();
    r.append(name);
    r.append("' not found in <project_root>/<name>/, alc.local.toml, or ~/.algocline/packages/");
    r
}

/// The directory of the file at `p`; nothing where it has none.
pub fn dir_of_file(p: &str) -> (r: String)
    ensures
        r@ == (match parent_of(p@) {
            Some(t) => t,
            None => Seq::empty(),
        }),
{
    match parent(p) {
        Some(t) => t,
        None => {
            let r = String::new();
            assert(r@ =~= Seq::empty());
            r
        },
    }
}

/// The file holds tests that the filter lets through.
pub open spec fn is_spec_file(name: Seq<char>, filter: Option<Seq<char>>) -> bool {
    "_spec.lua"@.is_suffix_of(name) && match filter {
        Some(f) => occurs_in(trimmed_end_of(name, "_spec.lua"@), f),
        None => true,
    }
}

/// The file holds tests that the filter lets through.
pub fn spec_file(name: &str, filter: Option<&str>) -> (r: bool)
    ensures
        r == is_spec_file(name@, opt_str(filter)),
{
    if !ends_with(name, "_spec.lua") {
        return false;
    }
    match filter {
        Some(f) => {
            proof {
                reveal_strlit("_spec.lua");
                assert("_spec.lua"@.len() == 9);
            }
            let stem = trim_end_of(name, "_spec.lua");
            contains_text(stem.as_str(), f)
        },
        None => true,
    }
}

/// The paths of the test files among `names` in `dir`.
pub open spec fn spec_paths(
    dir: Seq<char>,
    names: Seq<String>,
    filter: Option<Seq<char>>,
) -> Seq<Seq<char>> {
    names.filter_map(
        |n: String|
            if is_spec_file(n@, filter) {
                Some(joined_path(dir, n@))
            } else {
                None
            },
    )
}

/// The error where no test file is found in `dir`.
pub open spec fn no_spec_files(dir: Seq<char>) -> Seq<char> {
    "pkg_test: no spec files found in "@ + dir + " (looked for *_spec.lua)"@
}

/// `v` lists `paths` in ascending order.
pub open spec fn is_sorted_listing(v: Seq<String>, paths: Seq<Seq<char>>) -> bool {
    exists|unsorted: Seq<String>| #[trigger]
        is_stable_sort_of(v, unsorted) && texts(unsorted) == paths
}

/// The test files among the `names` in `dir`, sorted by path; an error where
/// there is none.
pub fn collect_spec_files(dir: &str, names: &Vec<String>, filter: Option<&str>) -> (r: Result<
    Vec<String>,
    String,
>)
    ensures
        match r {
            Ok(v) => v@.len() > 0 && is_sorted_listing(
                v@,
                spec_paths(dir@, names@, opt_str(filter)),
            ),
            Err(m) => spec_paths(dir@, names@, opt_str(filter)).len() == 0 && m@ == no_spec_files(
                dir@,
            ),
        },
{
    let ghost fv = opt_str(filter);
    let ghost f = |n: String|
        if is_spec_file(n@, fv) {
            Some(joined_path(dir@, n@))
        } else {
            None
        };
    let mut out: Vec<String> = Vec::new();
    let mut i: usize = 0;
    proof {
        reveal(Seq::filter_map);
        assert(names@.take(0).filter_map(f) =~= texts(out@));
    }
    while i < names.len()
        invariant
            i <= names@.len(),
            fv == opt_str(filter),
            f == (|n: String|
                if is_spec_file(n@, fv) {
                    Some(joined_path(dir@, n@))
                } else {
                    None
                }),
            texts(out@) == names@.take(i as int).filter_map(f),
        decreases names@.len() - i,
    {
        proof {
            names@.lemma_filter_map_take_succ(f, i as int);
        }
        let ghost before = out@;
        if spec_file(names[i].as_str(), filter) {
            let p = join(dir, names[i].as_str());
            let ghost pv = p@;
            out.push(p);
            assert(texts(out@) =~= texts(before).push(pv));
        }
        assert(texts(out@) =~= names@.take(i + 1).filter_map(f));
        i = i + 1;
    }
    assert(names@.take(names@.len() as int) =~= names@);
    assert(texts(out@).len() == out@.len());
    if out.len() == 0 {
        let mut m = "pkg_test: no spec files found in ".to_owned();
        m.append(dir);
        m.append(" (looked for *_spec.lua)");
        return Err(m);
    }
    let ghost unsorted = out@;
    let r = sort_by_key(out);
    assert(is_stable_sort_of(r@, unsorted));
    Ok(r)
}

/// The module search path `current` with each of `dirs` before it.
pub open spec fn package_path(dirs: Seq<Seq<char>>, current: Seq<char>) -> Seq<char>
    decreases dirs.len(),
{
    if dirs.len() == 0 {
        current
    } else {
        let d = trimmed_end_of(dirs[0], "/"@);
        d + "/?.lua;"@ + d + "/?/init.lua;"@ + package_path(dirs.drop_first(), current)
    }
}

/// The module search path `current` with each of `dirs` before it.
pub fn prepend_search_paths(dirs: &Vec<String>, current: &str) -> (r: String)
    ensures
        r@ == package_path(texts(dirs@), current@),
{
    let ghost ds = texts(dirs@);
    let mut out = current.to_owned();
    let mut i: usize = dirs.len();
    proof {
        reveal_strlit("/");
        assert("/"@.len() == 1);
        assert(ds.skip(ds.len() as int) =~= Seq::empty());
    }
    while i > 0
        invariant
            i <= dirs@.len(),
            ds == texts(dirs@),
            "/"@.len() == 1,
            out@ == package_path(ds.skip(i as int), current@),
        decreases i,
    {
        let d = trim_end_of(dirs[i - 1].as_str(), "/");
        let mut next = d.clone();
        next.append("/?.lua;");
        next.append(d.as_str());
        next.append("/?/init.lua;");
        next.append(out.as_str());
        proof {
            let rest = ds.skip(i - 1);
            assert(rest.drop_first() =~= ds.skip(i as int));
            assert(rest[0] == dirs@[i - 1]@);
        }
        out = next;
        i = i - 1;
    }
    assert(ds.skip(0) =~= ds);
    out
}

// ─── Results ────────────────────────────────────────────────────

/// The result of one test.
#[derive(Debug)]
pub struct TestCase {
    pub suite: String,
    pub name: String,
    pub passed: bool,
    pub error: Option<String>,
}

/// What became of one file of tests.
#[derive(Debug)]
pub enum SpecOutcome {
    Ran { passed: u64, failed: u64, tests: Vec<TestCase> },
    /// It could not be run to its end, for the given cause.
    Crashed(String),
}

/// One file of tests: its path, the name under which it ran, what became of it
/// and how long it took.
#[derive(Debug)]
pub struct SpecRun {
    pub path: String,
    pub suite: String,
    pub outcome: SpecOutcome,
    pub duration_ms: u64,
}

/// A test as a document.
pub open spec fn case_view(
    suite: Seq<char>,
    name: Seq<char>,
    passed: bool,
    error: Option<Seq<char>>,
) -> JsonView {
    JsonView::Object(
        seq![
            ("suite"@, JsonView::Text(suite)),
            ("name"@, JsonView::Text(name)),
            ("passed"@, JsonView::Bool(passed)),
            ("pending"@, JsonView::Bool(false)),
            (
                "error"@,
                match error {
                    Some(e) => JsonView::Text(e),
                    None => JsonView::Null,
                },
            ),
        ],
    )
}

fn case_json(suite: &str, name: &str, passed: bool, error: &Option<String>) -> (r: Json)
    ensures
        r@ == case_view(suite@, name@, passed, opt_text(*error)),
{
    let r = Json::object().with("suite", Json::text(suite)).with("name", Json::text(name)).with(
        "passed",
        Json::Bool(passed),
    ).with("pending", Json::Bool(false)).with("error", Json::opt_text(error));
    assert(r@.members() =~= case_view(suite@, name@, passed, opt_text(*error)).members());
    r
}

/// The tests of a run that passed. A run that crashed has none.
pub open spec fn passed_in(r: SpecRun) -> nat {
    match r.outcome {
        SpecOutcome::Ran { passed, .. } => passed as nat,
        SpecOutcome::Crashed(_) => 0,
    }
}

/// The tests of a run that failed. A run that crashed counts as one.
pub open spec fn failed_in(r: SpecRun) -> nat {
    match r.outcome {
        SpecOutcome::Ran { failed, .. } => failed as nat,
        SpecOutcome::Crashed(_) => 1,
    }
}

/// The tests of a run as documents.
pub open spec fn cases_of(r: SpecRun) -> Seq<JsonView> {
    match r.outcome {
        SpecOutcome::Ran { tests, .. } => tests@.map_values(
            |t: TestCase| case_view(t.suite@, t.name@, t.passed, opt_text(t.error)),
        ),
        SpecOutcome::Crashed(e) => seq![case_view(r.suite@, "<top-level>"@, false, Some(e@))],
    }
}

/// A run as a document.
pub open spec fn run_view(r: SpecRun) -> JsonView {
    JsonView::Object(
        seq![
            ("path"@, JsonView::Text(r.path@)),
            ("passed"@, JsonView::UInt(passed_in(r) as u64)),
            ("failed"@, JsonView::UInt(failed_in(r) as u64)),
            ("total"@, JsonView::UInt((passed_in(r) + failed_in(r)) as u64)),
            ("duration_ms"@, JsonView::UInt(r.duration_ms)),
            ("tests"@, JsonView::Array(cases_of(r))),
        ],
    )
}

/// The passed tests of all runs.
pub open spec fn all_passed(runs: Seq<SpecRun>) -> nat
    decreases runs.len(),
{
    if runs.len() == 0 {
        0
    } else {
        all_passed(runs.drop_last()) + passed_in(runs.last())
    }
}

/// The failed tests of all runs.
pub open spec fn all_failed(runs: Seq<SpecRun>) -> nat
    decreases runs.len(),
{
    if runs.len() == 0 {
        0
    } else {
        all_failed(runs.drop_last()) + failed_in(runs.last())
    }
}

/// All runs as a document.
pub open spec fn report_view(runs: Seq<SpecRun>, duration_ms: u64) -> JsonView {
    JsonView::Object(
        seq![
            ("passed"@, JsonView::UInt(all_passed(runs) as u64)),
            ("failed"@, JsonView::UInt(all_failed(runs) as u64)),
            ("pending"@, JsonView::UInt(0)),
            ("total"@, JsonView::UInt((all_passed(runs) + all_failed(runs)) as u64)),
            ("duration_ms"@, JsonView::UInt(duration_ms)),
            ("spec_files"@, JsonView::Array(runs.map_values(|r: SpecRun| run_view(r)))),
        ],
    )
}

fn cases_json(r: &SpecRun) -> (out: Json)
    ensures
        out@ == JsonView::Array(cases_of(*r)),
{
    let mut v: Vec<Json> = Vec::new();
    match &r.outcome {
        SpecOutcome::Ran { passed: _, failed: _, tests } => {
            let mut i: usize = 0;
            while i < tests.len()
                invariant
                    i <= tests@.len(),
                    v@.len() == i,
                    forall|k: int|
                        0 <= k < i ==> (#[trigger] v@[k])@ == case_view(
                            tests@[k].suite@,
                            tests@[k].name@,
                            tests@[k].passed,
                            opt_text(tests@[k].error),
                        ),
                decreases tests@.len() - i,
            {
                let t = &tests[i];
                v.push(case_json(t.suite.as_str(), t.name.as_str(), t.passed, &t.error));
                i = i + 1;
            }
            assert(views(v@) =~= cases_of(*r));
        },
        SpecOutcome::Crashed(e) => {
            let error = Some(e.clone());
            v.push(case_json(r.suite.as_str(), "<top-level>", false, &error));
            assert(views(v@) =~= cases_of(*r));
        },
    }
    Json::array(v)
}

proof fn lemma_sums_grow(runs: Seq<SpecRun>, i: int)
    requires
        0 <= i <= runs.len(),
    ensures
        all_passed(runs.take(i)) <= all_passed(runs),
        all_failed(runs.take(i)) <= all_failed(runs),
    decreases runs.len() - i,
{
    if i == runs.len() {
        assert(runs.take(i) =~= runs);
    } else {
        lemma_sums_grow(runs, i + 1);
        assert(runs.take(i + 1).drop_last() =~= runs.take(i));
    }
}

/// What the runs of all files add up to; nothing where the number of tests
/// cannot be held in 64 bits.
pub fn report(runs: &Vec<SpecRun>, duration_ms: u64) -> (r: Option<Json>)
    ensures
        match r {
            Some(doc) => all_passed(runs@) + all_failed(runs@) <= u64::MAX && doc@ == report_view(
                runs@,
                duration_ms,
            ),
            None => all_passed(runs@) + all_failed(runs@) > u64::MAX,
        },
{
    let mut entries: Vec<Json> = Vec::new();
    let mut passed: u64 = 0;
    let mut failed: u64 = 0;
    let mut i: usize = 0;
    assert(runs@.take(0) =~= Seq::empty());
    while i < runs.len()
        invariant
            i <= runs@.len(),
            passed == all_passed(runs@.take(i as int)),
            failed == all_failed(runs@.take(i as int)),
            passed + failed <= u64::MAX,
            entries@.len() == i,
            forall|k: int| 0 <= k < i ==> (#[trigger] entries@[k])@ == run_view(runs@[k]),
        decreases runs@.len() - i,
    {
        let ghost next = runs@.take(i + 1);
        proof {
            assert(next.drop_last() =~= runs@.take(i as int));
            lemma_sums_grow(runs@, i + 1);
        }
        let r = &runs[i];
        let (p, f): (u64, u64) = match &r.outcome {
            SpecOutcome::Ran { passed, failed, tests: _ } => (*passed, *failed),
            SpecOutcome::Crashed(_) => (0, 1),
        };
        let p2: u64 = match passed.checked_add(p) {
            Some(n) => n,
            None => {
                return None;
            },
        };
        let f2: u64 = match failed.checked_add(f) {
            Some(n) => n,
            None => {
                return None;
            },
        };
        if p2.checked_add(f2).is_none() {
            return None;
        }
        let total: u64 = p + f;
        let entry = Json::object().with("path", Json::text(r.path.as_str())).with(
            "passed",
            Json::UInt(p),
        ).with("failed", Json::UInt(f)).with("total", Json::UInt(total)).with(
            "duration_ms",
            Json::UInt(r.duration_ms),
        ).with("tests", cases_json(r));
        assert(entry@.members() =~= run_view(*r).members());
        entries.push(entry);
        passed = p2;
        failed = f2;
        i = i + 1;
    }
    assert(runs@.take(runs@.len() as int) =~= runs@);
    let ghost es = entries@;
    let total: u64 = passed + failed;
    let doc = Json::object().with("passed", Json::UInt(passed)).with("failed", Json::UInt(failed)).with(
        "pending",
        Json::UInt(0),
    ).with("total", Json::UInt(total)).with("duration_ms", Json::UInt(duration_ms)).with(
        "spec_files",
        Json::array(entries),
    );
    proof {
        assert(views(es) =~= runs@.map_values(|r: SpecRun| run_view(r)));
        assert(doc@.members() =~= report_view(runs@, duration_ms).members());
    }
    Some(doc)
}

/// A search path as a document.
pub open spec fn resolved_json(r: ResolvedView) -> JsonView {
    JsonView::Object(
        seq![
            ("name"@, JsonView::Text(r.name)),
            ("search_dir"@, JsonView::Text(r.search_dir)),
            ("source"@, JsonView::Text(r.source.name_view())),
        ],
    )
}

/// `doc` with the search paths, and the warnings if there are any; anything but
/// an object stays as it is.
pub open spec fn with_search_paths(
    doc: JsonView,
    resolved: Seq<ResolvedView>,
    warnings: Seq<Seq<char>>,
) -> JsonView {
    match doc {
        JsonView::Object(ms) => {
            let with_paths = with_member(
                ms,
                "resolved_search_paths"@,
                JsonView::Array(resolved.map_values(|r: ResolvedView| resolved_json(r))),
            );
            JsonView::Object(
                if warnings.len() == 0 {
                    with_paths
                } else {
                    with_member(
                        with_paths,
                        "search_path_warnings"@,
                        JsonView::Array(text_views(warnings)),
                    )
                },
            )
        },
        _ => doc,
    }
}

/// `doc` with the search paths, and the warnings if there are any.
pub fn add_search_paths(doc: Json, resolved: &Vec<ResolvedSearchPath>, warnings: &Vec<String>) -> (r:
    Json)
    ensures
        r@ == with_search_paths(doc@, resolved_views(resolved@), texts(warnings@)),
{
    if let Json::Object(_) = &doc {
    } else {
        return doc;
    }
    let mut rows: Vec<Json> = Vec::new();
    let mut i: usize = 0;
    while i < resolved.len()
        invariant
            i <= resolved@.len(),
            rows@.len() == i,
            forall|k: int| 0 <= k < i ==> (#[trigger] rows@[k])@ == resolved_json(resolved@[k]@),
        decreases resolved@.len() - i,
    {
        let p = &resolved[i];
        let row = Json::object().with("name", Json::text(p.name.as_str())).with(
            "search_dir",
            Json::text(p.search_dir.as_str()),
        ).with("source", Json::text(p.source.as_str()));
        assert(row@.members() =~= resolved_json(p@).members());
        rows.push(row);
        i = i + 1;
    }
    assert(views(rows@) =~= resolved_views(resolved@).map_values(
        |r: ResolvedView| resolved_json(r),
    ));
    assert(texts(warnings@).len() == warnings@.len());
    let doc = doc.set("resolved_search_paths", Json::array(rows));
    if warnings.len() == 0 {
        doc
    } else {
        doc.set("search_path_warnings", Json::texts(warnings))
    }
}

/// The result `result_json` with the search paths and warnings; what is not
/// JSON stays as it is.
pub fn attach_resolved_meta(
    result_json: &str,
    resolved: &Vec<ResolvedSearchPath>,
    warnings: &Vec<String>,
) -> (r: String)
    ensures
        r@ == match json_content(result_json@) {
            Ok(doc) => json_text(
                with_search_paths(doc, resolved_views(resolved@), texts(warnings@)),
            ),
            Err(_) => result_json@,
        },
{
    match Json::parse(result_json) {
        Ok(doc) => add_search_paths(doc, resolved, warnings).render(),
        Err(_) => result_json.to_owned(),
    }
}

/// A run that crashed counts as exactly one failed test.
pub proof fn law_crash_counts_once(runs: Seq<SpecRun>, r: SpecRun)
    requires
        r.outcome is Crashed,
    ensures
        all_passed(runs.push(r)) == all_passed(runs),
        all_failed(runs.push(r)) == all_failed(runs) + 1,
{
    assert(runs.push(r).drop_last() =~= runs);
}

} // verus!
