//! Installing packages: what a source names, what is copied and what is kept,
//! and what the records and project files hold afterwards.

use vstd::prelude::*;
use crate::json::{text_views, Json, JsonView};
use crate::list::some_text;
use crate::names::{is_safe_name, is_safe_pkg_name};
use crate::paths::{absolute, file_name, is_absolute, is_file_name, join, joined_path};
use crate::source::{
    legacy_source, InstallSource, LockPackage, LockView, PackageSource, SourceView,
};
use crate::text::{
    after_last, clone_names, clone_opt, contains_name, join_names, joined, opt_str, opt_text,
    starts_with, str_eq, text_after_last, texts, trim_end_of, trimmed_end_of,
};

verus! {

// ─── Sources ────────────────────────────────────────────────────

/// The URL says how the repository is reached.
pub open spec fn has_scheme(url: Seq<char>) -> bool {
    ||| "http://"@.is_prefix_of(url)
    ||| "https://"@.is_prefix_of(url)
    ||| "file://"@.is_prefix_of(url)
    ||| "git@"@.is_prefix_of(url)
}

/// `url`, reached by HTTPS where it does not say how.
pub open spec fn with_scheme(url: Seq<char>) -> Seq<char> {
    if has_scheme(url) {
        url
    } else {
        "https://"@ + url
    }
}

/// `url`, reached by HTTPS where it does not say how.
pub fn prefix_git_scheme_if_missing(url: &str) -> (r: String)
    ensures
        r@ == with_scheme(url@),
{
    if starts_with(url, "http://") || starts_with(url, "https://") || starts_with(url, "file://")
        || starts_with(url, "git@") {
        url.to_owned()
    } else {
        let mut r = "https://".to_owned();
        r.append(url);
        r
    }
}

/// What a caller's string names: an absolute path a directory, anything else a
/// repository. Nothing is looked up.
pub fn classify_install_url(url: &str) -> (r: InstallSource)
    ensures
        match r {
            InstallSource::LocalPath(p) => absolute(url@) && p@ == url@,
            InstallSource::GitUrl(u) => !absolute(url@) && u@ == with_scheme(url@),
        },
{
    if is_absolute(url) {
        InstallSource::LocalPath(url.to_owned())
    } else {
        InstallSource::GitUrl(prefix_git_scheme_if_missing(url))
    }
}

/// Classifying a URL again gives the same repository.
pub proof fn law_scheme_is_added_once(url: Seq<char>)
    ensures
        with_scheme(with_scheme(url)) == with_scheme(url),
{
    if !has_scheme(url) {
        let r = "https://"@ + url;
        assert(r.take("https://"@.len() as int) =~= "https://"@);
        assert("https://"@.is_prefix_of(r));
    }
}

/// A text is classified as an origin that was recorded in the same words is: an
/// absolute path is a directory in both, and anything else a repository, but for
/// the two words that only a record uses.
pub proof fn law_sources_are_classified_alike(text: Seq<char>)
    requires
        text.len() > 0,
        text != "bundled"@,
    ensures
        absolute(text) <==> legacy_source(text) is Installed,
        !absolute(text) <==> legacy_source(text) is Git,
{
}

/// The name of the repository at `url`: the last part, without `.git`.
pub open spec fn repository_name(url: Seq<char>) -> Seq<char> {
    trimmed_end_of(after_last(trimmed_end_of(url, "/"@), '/'), ".git"@)
}

/// The name of the package at the root of `source` where none is given.
pub open spec fn is_default_name(source: InstallSource, name: Seq<char>) -> bool {
    match source {
        InstallSource::GitUrl(url) => name == repository_name(url@),
        InstallSource::LocalPath(p) => is_file_name(p@, name) || (name == "unknown"@
            && forall|t: Seq<char>| !is_file_name(p@, t)),
    }
}

/// The name of the package at the root of `source` where none is given.
pub fn default_name(source: &InstallSource) -> (r: String)
    ensures
        is_default_name(*source, r@),
{
    match source {
        InstallSource::GitUrl(url) => {
            proof {
                reveal_strlit("/");
                reveal_strlit(".git");
                assert("/"@.len() == 1);
                assert(".git"@.len() == 4);
            }
            let t = trim_end_of(url.as_str(), "/");
            let last = text_after_last(t.as_str(), '/');
            trim_end_of(last.as_str(), ".git")
        },
        InstallSource::LocalPath(p) => match file_name(p.as_str()) {
            Some(n) => n,
            None => "unknown".to_owned(),
        },
    }
}

/// The origin that is recorded of what `source` brought.
pub open spec fn recorded_source(source: InstallSource) -> SourceView {
    match source {
        InstallSource::GitUrl(url) => SourceView::Git(url@, None),
        InstallSource::LocalPath(p) => SourceView::Path(p@),
    }
}

/// The origin that is recorded of what `source` brought.
pub fn source_to_record(source: &InstallSource) -> (r: PackageSource)
    ensures
        r@ == recorded_source(*source),
{
    match source {
        InstallSource::GitUrl(url) => PackageSource::Git { url: url.clone(), rev: None },
        InstallSource::LocalPath(p) => PackageSource::Path { path: p.clone() },
    }
}

// ─── What is installed ──────────────────────────────────────────

/// What the source turned out to hold.
#[derive(Debug)]
pub enum Plan {
    /// One package at the root, to be installed under this name.
    Single(String),
    /// A package in each subdirectory with an `init.lua`.
    Collection,
}

/// Why nothing of `source` can be installed.
pub open spec fn plan_fault(
    source: InstallSource,
    source_exists: bool,
    root_init: bool,
    named: bool,
) -> Option<Seq<char>> {
    match source {
        InstallSource::LocalPath(p) => if !source_exists {
            Some("Source directory does not exist: "@ + p@)
        } else if !root_init && named {
            Some(
                "The 'name' parameter is only supported for single-package dirs (init.lua at root)."@,
            )
        } else {
            None
        },
        InstallSource::GitUrl(_) => if !root_init && named {
            Some(
                "The 'name' parameter is only supported for single-package repos (init.lua at root). This repository is a collection (subdirs with init.lua)."@,
            )
        } else {
            None
        },
    }
}

/// What is to be installed from `source`. A cloned repository is always there;
/// a directory may not be.
pub fn plan_install(
    source: &InstallSource,
    source_exists: bool,
    root_init: bool,
    name: Option<&str>,
) -> (r: Result<Plan, String>)
    ensures
        match r {
            Err(m) => plan_fault(*source, source_exists, root_init, name is Some) == Some(m@),
            Ok(Plan::Single(n)) => plan_fault(*source, source_exists, root_init, name is Some)
                is None && root_init && (match name {
                Some(given) => n@ == given@,
                None => is_default_name(*source, n@),
            }),
            Ok(Plan::Collection) => plan_fault(*source, source_exists, root_init, name is Some)
                is None && !root_init,
        },
{
    if let InstallSource::LocalPath(p) = source {
        if !source_exists {
            let mut m = "Source directory does not exist: ".to_owned();
            m.append(p.as_str());
            return Err(m);
        }
    }
    if root_init {
        let n = match name {
            Some(given) => given.to_owned(),
            None => default_name(source),
        };
        return Ok(Plan::Single(n));
    }
    if name.is_some() {
        return Err(
            match source {
                InstallSource::LocalPath(_) => {
                    "The 'name' parameter is only supported for single-package dirs (init.lua at root)."
                },
                InstallSource::GitUrl(_) => {
                    "The 'name' parameter is only supported for single-package repos (init.lua at root). This repository is a collection (subdirs with init.lua)."
                },
            }.to_owned(),
        );
    }
    Ok(Plan::Collection)
}

/// How one package is copied to its place.
#[derive(Debug, Clone, Copy, PartialEq, Eq, Structural)]
pub enum CopyStep {
    /// The place is free.
    Copy,
    /// What stands there is removed first.
    Replace,
}

/// How a single package is copied to its place, if it is: a directory replaces
/// what stands there, a repository only where it is told to.
pub open spec fn copy_step_of(source: InstallSource, dest_exists: bool, force: bool) -> Option<CopyStep> {
    if !dest_exists {
        Some(CopyStep::Copy)
    } else if source is LocalPath || force {
        Some(CopyStep::Replace)
    } else {
        None
    }
}

/// How a single package is copied to `dest`: a directory replaces what stands
/// there, a repository only where it is told to.
pub fn single_step(
    source: &InstallSource,
    name: &str,
    dest: &str,
    dest_exists: bool,
    force: bool,
) -> (r: Result<CopyStep, String>)
    ensures
        match r {
            Ok(step) => copy_step_of(*source, dest_exists, force) == Some(step),
            Err(m) => copy_step_of(*source, dest_exists, force) is None && m@ == "Package '"@
                + name@ + "' already exists at "@ + dest@ + ". Remove it first."@,
        },
{
    if !dest_exists {
        return Ok(CopyStep::Copy);
    }
    if force {
        return Ok(CopyStep::Replace);
    }
    match source {
        InstallSource::LocalPath(_) => Ok(CopyStep::Replace),
        InstallSource::GitUrl(_) => {
            let mut m = "Package '".to_owned();
            m.append(name);
            m.append("' already exists at ");
            m.append(dest);
            m.append(". Remove it first.");
            Err(m)
        },
    }
}

/// An entry of a collection.
#[derive(Debug)]
pub struct CollectionEntry {
    pub name: String,
    pub is_dir: bool,
    pub has_init: bool,
    /// The place of the package is taken.
    pub dest_exists: bool,
}

/// What is done with an entry of a collection.
#[derive(Debug, Clone, Copy, PartialEq, Eq, Structural)]
pub enum EntryStep {
    /// It is no package.
    Ignore,
    /// Its place is taken and stays as it is.
    Skip,
    /// The place is free.
    Copy,
    /// What stands there is removed first.
    Replace,
}

/// What is done with the entry `e` of the collection `source`.
pub open spec fn entry_step_of(source: InstallSource, e: CollectionEntry) -> EntryStep {
    if !e.is_dir || !e.has_init {
        EntryStep::Ignore
    } else if !e.dest_exists {
        EntryStep::Copy
    } else if source is GitUrl {
        EntryStep::Skip
    } else {
        EntryStep::Replace
    }
}

/// What became of a collection's packages so far: those that are new, and those
/// whose place was taken (kept as they were, or replaced).
#[derive(Debug)]
pub struct Batch {
    pub installed: Vec<String>,
    pub present: Vec<String>,
}

/// The content of a `Batch`.
#[verifier::ext_equal]
pub struct BatchView {
    pub installed: Seq<Seq<char>>,
    pub present: Seq<Seq<char>>,
}

impl View for Batch {
    type V = BatchView;

    open spec fn view(&self) -> BatchView {
        BatchView { installed: texts(self.installed@), present: texts(self.present@) }
    }
}

/// The batch after the entry `e` was dealt with.
pub open spec fn after_entry(b: BatchView, step: EntryStep, name: Seq<char>) -> BatchView {
    match step {
        EntryStep::Ignore => b,
        EntryStep::Skip | EntryStep::Replace => BatchView { present: b.present.push(name), ..b },
        EntryStep::Copy => BatchView { installed: b.installed.push(name), ..b },
    }
}

/// The batch after all entries of the collection `source` were dealt with.
pub open spec fn after_entries(source: InstallSource, entries: Seq<CollectionEntry>) -> BatchView
    decreases entries.len(),
{
    if entries.len() == 0 {
        BatchView { installed: Seq::empty(), present: Seq::empty() }
    } else {
        after_entry(
            after_entries(source, entries.drop_last()),
            entry_step_of(source, entries.last()),
            entries.last().name@,
        )
    }
}

impl Batch {
    pub fn new() -> (r: Batch)
        ensures
            r@ == (BatchView { installed: Seq::empty(), present: Seq::empty() }),
    {
        let r = Batch { installed: Vec::new(), present: Vec::new() };
        assert(r@ =~= BatchView { installed: Seq::empty(), present: Seq::empty() });
        r
    }

    /// What is done with the next entry, which is then taken into account.
    pub fn next(&mut self, source: &InstallSource, e: &CollectionEntry) -> (r: EntryStep)
        ensures
            r == entry_step_of(*source, *e),
            final(self)@ == after_entry(old(self)@, r, e.name@),
    {
        let ghost b0 = self@;
        if !e.is_dir || !e.has_init {
            return EntryStep::Ignore;
        }
        if !e.dest_exists {
            self.installed.push(e.name.clone());
            assert(self@ =~= after_entry(b0, EntryStep::Copy, e.name@));
            return EntryStep::Copy;
        }
        self.present.push(e.name.clone());
        assert(self@ =~= after_entry(b0, EntryStep::Skip, e.name@));
        match source {
            InstallSource::GitUrl(_) => EntryStep::Skip,
            InstallSource::LocalPath(_) => EntryStep::Replace,
        }
    }

    /// The packages to record: all that were copied. A collection without
    /// packages is refused.
    pub fn to_record(&self, source: &InstallSource) -> (r: Result<Vec<String>, String>)
        ensures
            match r {
                Ok(names) => !(self@.installed.len() == 0 && self@.present.len() == 0) && texts(
                    names@,
                ) == copied_names(*source, self@),
                Err(m) => self@.installed.len() == 0 && self@.present.len() == 0 && m@
                    == "No packages found. Expected init.lua at root (single) or */init.lua (collection)."@,
            },
    {
        assert(texts(self.installed@).len() == self.installed@.len());
        assert(texts(self.present@).len() == self.present@.len());
        if self.installed.len() == 0 && self.present.len() == 0 {
            return Err(
                "No packages found. Expected init.lua at root (single) or */init.lua (collection).".to_owned(),
            );
        }
        let mut names = clone_names(&self.installed);
        if let InstallSource::LocalPath(_) = source {
            let mut rest = clone_names(&self.present);
            let ghost a = names@;
            let ghost b = rest@;
            names.append(&mut rest);
            assert(texts(names@) =~= texts(a) + texts(b));
        }
        Ok(names)
    }
}

/// The packages of a collection that were copied.
pub open spec fn copied_names(source: InstallSource, b: BatchView) -> Seq<Seq<char>> {
    if source is LocalPath {
        b.installed + b.present
    } else {
        b.installed
    }
}

/// From a repository nothing is replaced: whatever stood in a package's place is
/// neither copied over nor recorded anew.
pub proof fn law_repository_replaces_nothing(
    source: InstallSource,
    entries: Seq<CollectionEntry>,
    e: CollectionEntry,
)
    requires
        source is GitUrl,
        e.dest_exists,
    ensures
        entry_step_of(source, e) != EntryStep::Replace,
        entry_step_of(source, e) != EntryStep::Copy,
        copied_names(source, after_entries(source, entries.push(e))) == copied_names(
            source,
            after_entries(source, entries),
        ),
{
    assert(entries.push(e).drop_last() =~= entries);
}

/// Every package of a collection is accounted for exactly once.
pub proof fn law_every_package_is_reported(source: InstallSource, entries: Seq<CollectionEntry>)
    ensures
        after_entries(source, entries).installed.len() + after_entries(source, entries).present.len()
            == entries.filter(|e: CollectionEntry| e.is_dir && e.has_init).len(),
    decreases entries.len(),
{
    let p = |e: CollectionEntry| e.is_dir && e.has_init;
    reveal(Seq::filter);
    if entries.len() > 0 {
        law_every_package_is_reported(source, entries.drop_last());
    }
}

// ─── Answers ────────────────────────────────────────────────────

/// The answer after a single package was installed.
pub open spec fn single_view(
    name: Seq<char>,
    local: bool,
    types_path: Option<Seq<char>>,
) -> Seq<(Seq<char>, JsonView)> {
    seq![
        ("installed"@, JsonView::Array(text_views(seq![name]))),
        (
            "mode"@,
            JsonView::Text(
                if local {
                    "local_single"@
                } else {
                    "single"@
                },
            ),
        ),
    ] + some_text("types_path"@, types_path)
}

fn with_types_path(doc: Json, types_path: Option<&str>) -> (r: Json)
    requires
        doc is Object,
    ensures
        r@ == JsonView::Object(
            doc@.members() + some_text("types_path"@, opt_str(types_path)),
        ),
{
    match types_path {
        Some(t) => {
            let r = doc.with("types_path", Json::text(t));
            assert(r@.members() =~= doc@.members() + some_text(
                "types_path"@,
                opt_str(types_path),
            ));
            r
        },
        None => {
            assert(doc@.members() + some_text("types_path"@, opt_str(types_path))
                =~= doc@.members());
            doc
        },
    }
}

/// The answer after a single package was installed.
pub fn single_answer(source: &InstallSource, name: &str, types_path: Option<&str>) -> (r: Json)
    ensures
        r@ == JsonView::Object(single_view(name@, source is LocalPath, opt_str(types_path))),
{
    let mut names: Vec<String> = Vec::new();
    names.push(name.to_owned());
    let mode = match source {
        InstallSource::LocalPath(_) => "local_single",
        InstallSource::GitUrl(_) => "single",
    };
    let doc = Json::object().with("installed", Json::texts(&names)).with("mode", Json::text(mode));
    proof {
        assert(texts(names@) =~= seq![name@]);
        assert(doc@.members() =~= single_view(name@, source is LocalPath, None));
        assert(single_view(name@, source is LocalPath, None) + some_text(
            "types_path"@,
            opt_str(types_path),
        ) =~= single_view(name@, source is LocalPath, opt_str(types_path)));
    }
    with_types_path(doc, types_path)
}

/// What was brought along with a collection.
#[derive(Debug)]
pub struct Extras {
    pub cards: Vec<String>,
    pub scenarios: Vec<String>,
    pub scenario_failures: Vec<String>,
}

/// A list of texts as a document.
pub open spec fn list_doc(v: Seq<Seq<char>>) -> JsonView {
    JsonView::Array(text_views(v))
}

/// The answer after a collection was installed.
pub open spec fn collection_view(b: BatchView, x: Extras, local: bool) -> Seq<
    (Seq<char>, JsonView),
> {
    if local {
        seq![
            ("installed"@, list_doc(b.installed)),
            ("updated"@, list_doc(b.present)),
            ("cards_installed"@, list_doc(texts(x.cards@))),
            ("mode"@, JsonView::Text("local_collection"@)),
        ]
    } else {
        seq![
            ("installed"@, list_doc(b.installed)),
            ("skipped"@, list_doc(b.present)),
            ("cards_installed"@, list_doc(texts(x.cards@))),
            ("scenarios_installed"@, list_doc(texts(x.scenarios@))),
            ("scenarios_failures"@, list_doc(texts(x.scenario_failures@))),
            ("mode"@, JsonView::Text("collection"@)),
        ]
    }
}

/// The answer after a collection was installed.
pub fn collection_answer(
    source: &InstallSource,
    b: &Batch,
    x: &Extras,
    types_path: Option<&str>,
) -> (r: Json)
    ensures
        r@ == JsonView::Object(
            collection_view(b@, *x, source is LocalPath) + some_text(
                "types_path"@,
                opt_str(types_path),
            ),
        ),
{
    let doc = match source {
        InstallSource::LocalPath(_) => Json::object().with(
            "installed",
            Json::texts(&b.installed),
        ).with("updated", Json::texts(&b.present)).with("cards_installed", Json::texts(&x.cards)).with(
            "mode",
            Json::text("local_collection"),
        ),
        InstallSource::GitUrl(_) => Json::object().with(
            "installed",
            Json::texts(&b.installed),
        ).with("skipped", Json::texts(&b.present)).with("cards_installed", Json::texts(&x.cards)).with(
            "scenarios_installed",
            Json::texts(&x.scenarios),
        ).with("scenarios_failures", Json::texts(&x.scenario_failures)).with(
            "mode",
            Json::text("collection"),
        ),
    };
    assert(doc@.members() =~= collection_view(b@, *x, source is LocalPath));
    with_types_path(doc, types_path)
}

// ─── Project files ──────────────────────────────────────────────

/// The contents of lock entries.
pub open spec fn lock_views(v: Seq<LockPackage>) -> Seq<LockView> {
    v.map_values(|p: LockPackage| p@)
}

/// The first entry of `v` with the name `name` is at `i`.
pub open spec fn first_named(v: Seq<LockView>, name: Seq<char>, i: int) -> bool {
    &&& 0 <= i < v.len()
    &&& v[i].name == name
    &&& forall|j: int| 0 <= j < i ==> (#[trigger] v[j]).name != name
}

/// The lock entries after `entry` was recorded: in place of the first of its
/// name, or as a new last one.
pub open spec fn upserted(v: Seq<LockView>, entry: LockView) -> Seq<LockView> {
    if exists|i: int| first_named(v, entry.name, i) {
        v.update(choose|i: int| first_named(v, entry.name, i), entry)
    } else {
        v.push(entry)
    }
}

/// Records a package in the lock: in place of the first entry of its name, or
/// as a new last one.
pub fn upsert_lock_entry(
    lock: &mut Vec<LockPackage>,
    name: String,
    version: Option<String>,
    source: PackageSource,
)
    ensures
        lock_views(final(lock)@) == upserted(
            lock_views(old(lock)@),
            LockView { name: name@, version: opt_text(version), source: source@ },
        ),
{
    let ghost v = lock_views(lock@);
    let ghost entry = LockView { name: name@, version: opt_text(version), source: source@ };
    let mut i: usize = 0;
    while i < lock.len()
        invariant
            i <= lock@.len(),
            lock@ == old(lock)@,
            v == lock_views(lock@),
            entry == (LockView { name: name@, version: opt_text(version), source: source@ }),
            forall|j: int| 0 <= j < i ==> (#[trigger] v[j]).name != name@,
        decreases lock@.len() - i,
    {
        assert(v[i as int].name == lock@[i as int].name@);
        if str_eq(lock[i].name.as_str(), name.as_str()) {
            proof {
                assert(first_named(v, entry.name, i as int));
                let c = choose|c: int| first_named(v, entry.name, c);
                assert(c == i);
                assert(upserted(v, entry) == v.update(i as int, entry));
            }
            let p = LockPackage { name, version, source };
            assert(p@ == entry);
            lock[i] = p;
            assert(lock_views(lock@) =~= v.update(i as int, entry));
            return;
        }
        i = i + 1;
    }
    lock.push(LockPackage { name, version, source });
    proof {
        assert(!exists|c: int| first_named(v, entry.name, c));
        assert(lock_views(lock@) =~= v.push(entry));
    }
}

/// The lock entries after the packages `names`, with their versions, were
/// installed.
pub open spec fn locked_after(v: Seq<LockView>, names: Seq<(String, Option<String>)>) -> Seq<
    LockView,
>
    decreases names.len(),
{
    if names.len() == 0 {
        v
    } else {
        upserted(
            locked_after(v, names.drop_last()),
            LockView {
                name: names.last().0@,
                version: opt_text(names.last().1),
                source: SourceView::Installed,
            },
        )
    }
}

/// Records installed packages, with their versions, in the lock.
pub fn lock_installed(lock: &mut Vec<LockPackage>, names: &Vec<(String, Option<String>)>)
    ensures
        lock_views(final(lock)@) == locked_after(lock_views(old(lock)@), names@),
{
    let ghost v = lock_views(lock@);
    let mut i: usize = 0;
    assert(names@.take(0) =~= Seq::empty());
    while i < names.len()
        invariant
            i <= names@.len(),
            lock_views(lock@) == locked_after(v, names@.take(i as int)),
        decreases names@.len() - i,
    {
        assert(names@.take(i + 1).drop_last() =~= names@.take(i as int));
        upsert_lock_entry(
            lock,
            names[i].0.clone(),
            clone_opt(&names[i].1),
            PackageSource::Installed,
        );
        i = i + 1;
    }
    assert(names@.take(names@.len() as int) =~= names@);
}

/// Recording a package twice is recording it once.
pub proof fn law_upsert_is_idempotent(v: Seq<LockView>, entry: LockView)
    ensures
        upserted(upserted(v, entry), entry) == upserted(v, entry),
{
    let w = upserted(v, entry);
    if exists|i: int| first_named(v, entry.name, i) {
        let i = choose|i: int| first_named(v, entry.name, i);
        assert(first_named(w, entry.name, i));
        let c = choose|c: int| first_named(w, entry.name, c);
        assert(c == i);
        assert(w.update(i, entry) =~= w);
    } else {
        let n = v.len() as int;
        assert forall|j: int| 0 <= j < n implies (#[trigger] w[j]).name != entry.name by {
            if v[j].name == entry.name {
                lemma_some_first(v, entry.name, j);
            }
        }
        assert(first_named(w, entry.name, n));
        let c = choose|c: int| first_named(w, entry.name, c);
        assert(c == n);
        assert(w.update(n, entry) =~= w);
    }
}

proof fn lemma_some_first(v: Seq<LockView>, name: Seq<char>, i: int)
    requires
        0 <= i < v.len(),
        v[i].name == name,
    ensures
        exists|c: int| first_named(v, name, c),
    decreases i,
{
    if !first_named(v, name, i) {
        let j = choose|j: int| 0 <= j < i && (#[trigger] v[j]).name == name;
        lemma_some_first(v, name, j);
    }
}

/// The names that are not declared yet, once each, in their order.
pub open spec fn undeclared(declared: Seq<Seq<char>>, names: Seq<Seq<char>>) -> Seq<Seq<char>>
    decreases names.len(),
{
    if names.len() == 0 {
        Seq::empty()
    } else {
        let before = undeclared(declared, names.drop_last());
        if declared.contains(names.last()) || before.contains(names.last()) {
            before
        } else {
            before.push(names.last())
        }
    }
}

/// The names to add to `alc.toml`: those that it does not declare yet.
pub fn names_to_declare(declared: &Vec<String>, names: &Vec<String>) -> (r: Vec<String>)
    ensures
        texts(r@) == undeclared(texts(declared@), texts(names@)),
{
    let ghost ns = texts(names@);
    let mut out: Vec<String> = Vec::new();
    let mut i: usize = 0;
    assert(ns.take(0) =~= Seq::empty());
    assert(texts(out@) =~= Seq::empty());
    while i < names.len()
        invariant
            i <= names@.len(),
            ns == texts(names@),
            texts(out@) == undeclared(texts(declared@), ns.take(i as int)),
        decreases names@.len() - i,
    {
        assert(ns.take(i + 1).drop_last() =~= ns.take(i as int));
        assert(ns[i as int] == names@[i as int]@);
        let ghost before = out@;
        if !contains_name(declared, names[i].as_str()) && !contains_name(&out, names[i].as_str()) {
            out.push(names[i].clone());
            assert(texts(out@) =~= texts(before).push(ns[i as int]));
        }
        i = i + 1;
    }
    assert(ns.take(names@.len() as int) =~= ns);
    out
}

/// The path of the file by which installs into one project wait for each other.
pub fn project_files_lock_path(root: &str) -> (r: String)
    ensures
        r@ == joined_path(root@, ".alc-install.lock"@),
{
    join(root, ".alc-install.lock")
}

/// The Lua code that asks the package `name` for its version; none for a name
/// that cannot stand in code.
pub fn make_version_code(name: &str) -> (r: Option<String>)
    ensures
        match r {
            Some(code) => is_safe_name(name@) && code@ == "package.loaded[\""@ + name@
                + "\"] = nil\nlocal pkg = require(\""@ + name@ + "\")\nreturn (pkg.meta or {}).version"@,
            None => !is_safe_name(name@),
        },
{
    if !is_safe_pkg_name(name) {
        return None;
    }
    let mut r = "package.loaded[\"".to_owned();
    r.append(name);
    r.append("\"] = nil\nlocal pkg = require(\"");
    r.append(name);
    r.append("\")\nreturn (pkg.meta or {}).version");
    Some(r)
}

/// The version that a package answered: a text that is not empty.
pub open spec fn answered_version(answer: Option<JsonView>) -> Option<Seq<char>> {
    match answer {
        Some(JsonView::Text(t)) => if t.len() > 0 {
            Some(t)
        } else {
            None
        },
        _ => None,
    }
}

/// The version that a package answered: a text that is not empty.
pub fn version_of_answer(answer: Option<&Json>) -> (r: Option<String>)
    ensures
        opt_text(r) == answered_version(
            match answer {
                Some(j) => Some(j@),
                None => None,
            },
        ),
{
    match answer {
        Some(Json::Text(t)) => if t.as_str().is_empty() {
            None
        } else {
            Some(t.clone())
        },
        _ => None,
    }
}

// ─── Bundled packages ───────────────────────────────────────────

/// The repositories of the bundled packages.
pub fn auto_install_sources() -> (r: Vec<String>)
    ensures
        texts(r@) == seq![
            "https://github.com/ynishi/algocline-bundled-packages"@,
            "https://github.com/ynishi/evalframe"@,
        ],
{
    let mut r: Vec<String> = Vec::new();
    r.push("https://github.com/ynishi/algocline-bundled-packages".to_owned());
    r.push("https://github.com/ynishi/evalframe".to_owned());
    assert(texts(r@) =~= seq![
        "https://github.com/ynishi/algocline-bundled-packages"@,
        "https://github.com/ynishi/evalframe"@,
    ]);
    r
}

/// What is told of one source that failed.
pub open spec fn failure_text(o: (String, Option<String>)) -> Option<Seq<char>> {
    match o.1 {
        Some(e) => Some(o.0@ + ": "@ + e@),
        None => None,
    }
}

/// What is told of all sources that failed.
pub open spec fn failure_texts(outcomes: Seq<(String, Option<String>)>) -> Seq<Seq<char>> {
    outcomes.filter_map(|o: (String, Option<String>)| failure_text(o))
}

/// The outcome of installing every source, each given with its error if it
/// failed: a failure only where every source failed.
pub fn auto_install_outcome(outcomes: &Vec<(String, Option<String>)>) -> (r: Result<(), String>)
    ensures
        match r {
            Ok(_) => failure_texts(outcomes@).len() != outcomes@.len(),
            Err(m) => failure_texts(outcomes@).len() == outcomes@.len() && m@
                == "Failed to auto-install bundled packages: "@ + joined(
                failure_texts(outcomes@),
                "; "@,
            ),
        },
{
    let ghost f = |o: (String, Option<String>)| failure_text(o);
    let mut errors: Vec<String> = Vec::new();
    let mut i: usize = 0;
    proof {
        reveal(Seq::filter_map);
        assert(outcomes@.take(0).filter_map(f) =~= texts(errors@));
    }
    while i < outcomes.len()
        invariant
            i <= outcomes@.len(),
            f == (|o: (String, Option<String>)| failure_text(o)),
            texts(errors@) == outcomes@.take(i as int).filter_map(f),
        decreases outcomes@.len() - i,
    {
        proof {
            outcomes@.lemma_filter_map_take_succ(f, i as int);
        }
        let ghost before = errors@;
        if let Some(e) = &outcomes[i].1 {
            let mut m = outcomes[i].0.clone();
            m.append(": ");
            m.append(e.as_str());
            let ghost mv = m@;
            errors.push(m);
            assert(texts(errors@) =~= texts(before).push(mv));
        }
        assert(texts(errors@) =~= outcomes@.take(i + 1).filter_map(f));
        i = i + 1;
    }
    assert(outcomes@.take(outcomes@.len() as int) =~= outcomes@);
    assert(texts(errors@).len() == errors@.len());
    if errors.len() == outcomes.len() {
        let all = join_names(&errors, "; ");
        let mut m = "Failed to auto-install bundled packages: ".to_owned();
        m.append(all.as_str());
        Err(m)
    } else {
        Ok(())
    }
}

} // verus!
