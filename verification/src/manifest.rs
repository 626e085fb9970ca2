//! The record of installed packages.

use vstd::prelude::*;
use crate::calendar::{is_iso8601, now_iso8601};
use crate::name_map::{strictly_ascending, NameMap};
use crate::order::{lemma_lex_irreflexive, lex_lt};
use crate::source::{PackageSource, SourceView};
use crate::text::{clone_opt, opt_str, opt_text, texts};

verus! {

/// What is recorded of one package.
#[derive(Debug)]
pub struct ManifestEntry {
    /// The package's own version, where it is known.
    pub version: Option<String>,
    /// Where the package came from.
    pub source: PackageSource,
    /// Timestamp of the first install.
    pub installed_at: String,
    /// Timestamp of the last install or update.
    pub updated_at: String,
}

/// The content of a `ManifestEntry`.
#[verifier::ext_equal]
pub struct EntryView {
    pub version: Option<Seq<char>>,
    pub source: SourceView,
    pub installed_at: Seq<char>,
    pub updated_at: Seq<char>,
}

impl View for ManifestEntry {
    type V = EntryView;

    open spec fn view(&self) -> EntryView {
        EntryView {
            version: opt_text(self.version),
            source: self.source@,
            installed_at: self.installed_at@,
            updated_at: self.updated_at@,
        }
    }
}

impl Clone for ManifestEntry {
    fn clone(&self) -> (r: ManifestEntry)
        ensures
            r == *self,
    {
        ManifestEntry {
            version: clone_opt(&self.version),
            source: self.source.clone(),
            installed_at: self.installed_at.clone(),
            updated_at: self.updated_at.clone(),
        }
    }
}

/// The installed packages, by name.
#[derive(Debug)]
pub struct Manifest {
    pub packages: NameMap<ManifestEntry>,
}

impl View for Manifest {
    type V = Map<Seq<char>, EntryView>;

    open spec fn view(&self) -> Map<Seq<char>, EntryView> {
        self.packages@.map_values(|e: ManifestEntry| e@)
    }
}

/// The entry that an install of `source` at `now` leaves where `old` was: a
/// version is overwritten only by a version, and the time of the first install
/// stays.
pub open spec fn installed_entry(
    old_entry: Option<EntryView>,
    version: Option<Seq<char>>,
    source: SourceView,
    now: Seq<char>,
) -> EntryView {
    match old_entry {
        Some(e) => EntryView {
            version: if version is Some {
                version
            } else {
                e.version
            },
            source,
            installed_at: e.installed_at,
            updated_at: now,
        },
        None => EntryView { version, source, installed_at: now, updated_at: now },
    }
}

/// The entry of `name`, if there is one.
pub open spec fn lookup(m: Map<Seq<char>, EntryView>, name: Seq<char>) -> Option<EntryView> {
    if m.dom().contains(name) {
        Some(m[name])
    } else {
        None
    }
}

/// `m` after an install of `name`.
pub open spec fn after_install(
    m: Map<Seq<char>, EntryView>,
    name: Seq<char>,
    version: Option<Seq<char>>,
    source: SourceView,
    now: Seq<char>,
) -> Map<Seq<char>, EntryView> {
    m.insert(name, installed_entry(lookup(m, name), version, source, now))
}

/// `m` after installs of all of `names`, one after the other.
pub open spec fn after_batch(
    m: Map<Seq<char>, EntryView>,
    names: Seq<Seq<char>>,
    source: SourceView,
    now: Seq<char>,
) -> Map<Seq<char>, EntryView>
    decreases names.len(),
{
    if names.len() == 0 {
        m
    } else {
        after_install(after_batch(m, names.drop_last(), source, now), names.last(), None, source, now)
    }
}

impl Default for Manifest {
    fn default() -> (r: Manifest)
        ensures
            r@ == Map::<Seq<char>, EntryView>::empty(),
    {
        let r = Manifest { packages: NameMap::new() };
        assert(r@ =~= Map::<Seq<char>, EntryView>::empty());
        r
    }
}

impl Manifest {
    /// Records an install or update of `name` at the time `now`.
    pub fn install_at(
        &mut self,
        name: &str,
        version: Option<&str>,
        source: PackageSource,
        now: &str,
    )
        ensures
            final(self)@ == after_install(old(self)@, name@, opt_str(version), source@, now@),
    {
        let ghost before = self@;
        let given: Option<String> = match version {
            Some(v) => Some(v.to_owned()),
            None => None,
        };
        let entry = match self.packages.get(name) {
            Some(e) => ManifestEntry {
                version: if given.is_some() {
                    given
                } else {
                    clone_opt(&e.version)
                },
                source,
                installed_at: e.installed_at.clone(),
                updated_at: now.to_owned(),
            },
            None => ManifestEntry {
                version: given,
                source,
                installed_at: now.to_owned(),
                updated_at: now.to_owned(),
            },
        };
        assert(entry@ =~= installed_entry(
            lookup(before, name@),
            opt_str(version),
            source@,
            now@,
        ));
        let key = name.to_owned();
        self.packages.insert(key, entry);
        assert(self@ =~= after_install(before, name@, opt_str(version), source@, now@));
    }

    /// Records an install or update of `name` at the present time.
    pub fn record_install(&mut self, name: &str, version: Option<&str>, source: PackageSource)
        ensures
            exists|secs: u64, now: Seq<char>|
                #[trigger] is_iso8601(now, (secs as i64) as int) && final(self)@ == after_install(
                    old(self)@,
                    name@,
                    opt_str(version),
                    source@,
                    now,
                ),
    {
        let now = now_iso8601();
        self.install_at(name, version, source, now.as_str());
    }

    /// Records installs of all of `names` at the time `now`. Versions that are
    /// known stay.
    pub fn install_batch_at(&mut self, names: &[String], source: &PackageSource, now: &str)
        ensures
            final(self)@ == after_batch(old(self)@, texts(names@), source@, now@),
    {
        let ghost before = self@;
        let ghost ns = texts(names@);
        let mut i: usize = 0;
        assert(ns.take(0) =~= Seq::<Seq<char>>::empty());
        while i < names.len()
            invariant
                i <= names@.len(),
                ns == texts(names@),
                self@ == after_batch(before, ns.take(i as int), source@, now@),
            decreases names@.len() - i,
        {
            self.install_at(names[i].as_str(), None, source.clone(), now);
            i = i + 1;
            assert(ns.take(i as int).drop_last() =~= ns.take(i - 1));
            assert(ns.take(i as int).last() == names@[i - 1]@);
        }
        assert(ns.take(i as int) =~= ns);
    }

    /// Records installs of all of `names` at the present time; with no names
    /// nothing changes.
    pub fn record_install_batch(&mut self, names: &[String], source: PackageSource)
        ensures
            exists|secs: u64, now: Seq<char>|
                #[trigger] is_iso8601(now, (secs as i64) as int) && final(self)@ == after_batch(
                    old(self)@,
                    texts(names@),
                    source@,
                    now,
                ),
    {
        let now = now_iso8601();
        self.install_batch_at(names, &source, now.as_str());
    }

    /// Takes `name` out of the record.
    pub fn record_remove(&mut self, name: &str)
        ensures
            final(self)@ == old(self)@.remove(name@),
    {
        let ghost before = self@;
        self.packages.remove(name);
        assert(self@ =~= before.remove(name@));
    }
}

impl Clone for Manifest {
    fn clone(&self) -> (r: Manifest)
        ensures
            r@ == self@,
    {
        let ghost keys = self.packages.keys();
        let mut out = Manifest { packages: NameMap::new() };
        let n: usize = self.packages.len();
        let mut i: usize = 0;
        while i < n
            invariant
                i <= n,
                n == keys.len(),
                keys == self.packages.keys(),
                forall|k: Seq<char>| #[trigger]
                    out@.dom().contains(k) <==> keys.take(i as int).contains(k),
                forall|k: Seq<char>|
                    #![trigger out@[k]]
                    out@.dom().contains(k) ==> self@.dom().contains(k) && out@[k] == self@[k],
            decreases n - i,
        {
            let (name, entry) = self.packages.at(i);
            let ghost before = out@;
            out.packages.insert(name.clone(), entry.clone());
            proof {
                assert(out@ =~= before.insert(name@, entry@));
                let a = keys.take(i as int);
                let b = keys.take(i + 1);
                assert(b =~= a.push(name@));
                assert forall|k: Seq<char>| b.contains(k) <==> a.contains(k) || k == name@ by {
                    if a.contains(k) {
                        let j = choose|j: int| 0 <= j < a.len() && a[j] == k;
                        assert(b[j] == k);
                    }
                    if k == name@ {
                        assert(b[i as int] == k);
                    }
                }
                assert(self@[name@] == entry@);
                assert forall|k: Seq<char>| #[trigger] out@.dom().contains(k) implies self@.dom()
                    .contains(k) && out@[k] == self@[k] by {
                    if k != name@ {
                        assert(before.dom().contains(k));
                        assert(before[k] == self@[k]);
                    }
                }
            }
            i = i + 1;
        }
        proof {
            assert(keys.take(i as int) =~= keys);
            assert forall|k: Seq<char>| self@.dom().contains(k) <==> out@.dom().contains(k) by {
                assert(self.packages@.dom().contains(k) <==> keys.contains(k));
            }
            assert(out@ =~= self@);
        }
        out
    }
}

// ─── Repositories ───────────────────────────────────────────────

/// A record that is kept in memory.
#[derive(Debug)]
pub struct InMemoryManifestRepo {
    data: Manifest,
}

impl View for InMemoryManifestRepo {
    type V = Map<Seq<char>, EntryView>;

    closed spec fn view(&self) -> Map<Seq<char>, EntryView> {
        self.data@
    }
}

impl Default for InMemoryManifestRepo {
    fn default() -> (r: InMemoryManifestRepo)
        ensures
            r@ == Map::<Seq<char>, EntryView>::empty(),
    {
        InMemoryManifestRepo { data: Manifest::default() }
    }
}

impl InMemoryManifestRepo {
    /// A copy of the record.
    pub fn load(&self) -> (r: Result<Manifest, String>)
        ensures
            r matches Ok(m) && m@ == self@,
    {
        Ok(self.data.clone())
    }

    /// Records an install or update of `name` at the present time.
    pub fn record_install(
        &mut self,
        name: &str,
        version: Option<&str>,
        source: PackageSource,
    ) -> (r: Result<(), String>)
        ensures
            r is Ok,
            exists|secs: u64, now: Seq<char>|
                #[trigger] is_iso8601(now, (secs as i64) as int) && final(self)@ == after_install(
                    old(self)@,
                    name@,
                    opt_str(version),
                    source@,
                    now,
                ),
    {
        self.data.record_install(name, version, source);
        Ok(())
    }

    /// Records installs of all of `names` at the present time.
    pub fn record_install_batch(&mut self, names: &[String], source: PackageSource) -> (r: Result<
        (),
        String,
    >)
        ensures
            r is Ok,
            exists|secs: u64, now: Seq<char>|
                #[trigger] is_iso8601(now, (secs as i64) as int) && final(self)@ == after_batch(
                    old(self)@,
                    texts(names@),
                    source@,
                    now,
                ),
    {
        self.data.record_install_batch(names, source);
        Ok(())
    }

    /// Takes `name` out of the record.
    pub fn record_remove(&mut self, name: &str) -> (r: Result<(), String>)
        ensures
            r is Ok,
            final(self)@ == old(self)@.remove(name@),
    {
        self.data.record_remove(name);
        Ok(())
    }
}

// ─── Merging ────────────────────────────────────────────────────

/// What a merge did with each package of the incoming record.
#[derive(Debug)]
pub struct ManifestMergeOutcome {
    pub added: Vec<String>,
    pub updated: Vec<String>,
    pub kept: Vec<String>,
}

/// `local` with the entries of `incoming` grafted in: what is here alone stays,
/// what is there alone is added, and of what is in both the incoming entry is
/// taken where `overwrite` says so.
pub open spec fn merged(
    local: Map<Seq<char>, EntryView>,
    incoming: Map<Seq<char>, EntryView>,
    overwrite: bool,
) -> Map<Seq<char>, EntryView> {
    Map::new(
        |k: Seq<char>| local.dom().contains(k) || incoming.dom().contains(k),
        |k: Seq<char>|
            if incoming.dom().contains(k) && (overwrite || !local.dom().contains(k)) {
                incoming[k]
            } else {
                local[k]
            },
    )
}

/// Selects the names that have an entry in `m`.
pub open spec fn known_in(m: Map<Seq<char>, EntryView>) -> spec_fn(Seq<char>) -> bool {
    |k: Seq<char>| m.dom().contains(k)
}

/// Selects the names that have no entry in `m`.
pub open spec fn unknown_in(m: Map<Seq<char>, EntryView>) -> spec_fn(Seq<char>) -> bool {
    |k: Seq<char>| !m.dom().contains(k)
}

impl Manifest {
    /// Grafts the entries of `incoming` in, one by one.
    pub fn merge(&mut self, incoming: &Manifest, overwrite: bool) -> (r: ManifestMergeOutcome)
        ensures
            final(self)@ == merged(old(self)@, incoming@, overwrite),
            texts(r.added@) == incoming.packages.keys().filter(unknown_in(old(self)@)),
            texts(r.updated@) == (if overwrite {
                incoming.packages.keys().filter(known_in(old(self)@))
            } else {
                Seq::empty()
            }),
            texts(r.kept@) == (if overwrite {
                Seq::empty()
            } else {
                incoming.packages.keys().filter(known_in(old(self)@))
            }),
    {
        broadcast use vstd::seq_lib::group_seq_properties;

        let ghost before = self@;
        let ghost keys = incoming.packages.keys();
        let ghost inc = incoming@;
        let ghost un = unknown_in(before);
        let ghost kn = known_in(before);
        let mut out = ManifestMergeOutcome {
            added: Vec::new(),
            updated: Vec::new(),
            kept: Vec::new(),
        };
        let n: usize = incoming.packages.len();
        let mut i: usize = 0;
        proof {
            reveal(Seq::filter);
            assert(keys.take(0) =~= Seq::<Seq<char>>::empty());
            assert(texts(out.added@) =~= Seq::<Seq<char>>::empty());
            assert(texts(out.updated@) =~= Seq::<Seq<char>>::empty());
            assert(texts(out.kept@) =~= Seq::<Seq<char>>::empty());
        }
        while i < n
            invariant
                i <= n,
                n == keys.len(),
                keys == incoming.packages.keys(),
                inc == incoming@,
                un == unknown_in(before),
                kn == known_in(before),
                strictly_ascending(keys),
                forall|k: Seq<char>|
                    #![trigger self@.dom().contains(k)]
                    self@.dom().contains(k) <==> before.dom().contains(k) || keys.take(
                        i as int,
                    ).contains(k),
                forall|k: Seq<char>|
                    #![trigger self@[k]]
                    self@.dom().contains(k) ==> self@[k] == (if keys.take(i as int).contains(k) && (
                    overwrite || !before.dom().contains(k)) {
                        inc[k]
                    } else {
                        before[k]
                    }),
                texts(out.added@) == keys.take(i as int).filter(un),
                texts(out.updated@) == (if overwrite {
                    keys.take(i as int).filter(kn)
                } else {
                    Seq::empty()
                }),
                texts(out.kept@) == (if overwrite {
                    Seq::empty()
                } else {
                    keys.take(i as int).filter(kn)
                }),
            decreases n - i,
        {
            let (name, entry) = incoming.packages.at(i);
            let ghost key = name@;
            proof {
                reveal(Seq::filter);
                let a = keys.take(i as int);
                let b = keys.take(i + 1);
                assert(b.drop_last() =~= a);
                assert(b.last() == key);
                assert(b =~= a.push(key));
                assert(inc[key] == entry@);
                // No earlier key is the same.
                if a.contains(key) {
                    let j = choose|j: int| 0 <= j < a.len() && a[j] == key;
                    lemma_lex_irreflexive(key);
                    assert(lex_lt(keys[j], keys[i as int]));
                }
                assert(self@.dom().contains(key) == before.dom().contains(key));
            }
            let ghost m0 = self@;
            let ghost added0 = out.added@;
            let ghost updated0 = out.updated@;
            let ghost kept0 = out.kept@;
            if self.packages.contains(name.as_str()) {
                assert(m0.dom().contains(key));
                if overwrite {
                    self.packages.insert(name.clone(), entry.clone());
                    out.updated.push(name.clone());
                    proof {
                        assert(self@ =~= m0.insert(key, inc[key]));
                        assert(texts(out.updated@) =~= texts(updated0).push(key));
                    }
                } else {
                    out.kept.push(name.clone());
                    assert(texts(out.kept@) =~= texts(kept0).push(key));
                }
            } else {
                assert(!m0.dom().contains(key));
                self.packages.insert(name.clone(), entry.clone());
                out.added.push(name.clone());
                proof {
                    assert(self@ =~= m0.insert(key, inc[key]));
                    assert(texts(out.added@) =~= texts(added0).push(key));
                }
            }
            proof {
                let a = keys.take(i as int);
                let b = keys.take(i + 1);
                assert forall|k: Seq<char>| b.contains(k) <==> a.contains(k) || k == key by {
                    if a.contains(k) {
                        let j = choose|j: int| 0 <= j < a.len() && a[j] == k;
                        assert(b[j] == k);
                    }
                    if k == key {
                        assert(b[i as int] == k);
                    }
                }
            }
            i = i + 1;
        }
        proof {
            assert(keys.take(i as int) =~= keys);
            assert forall|k: Seq<char>| inc.dom().contains(k) <==> keys.contains(k) by {
                assert(incoming.packages@.dom().contains(k) <==> keys.contains(k));
            }
            assert(self@ =~= merged(before, inc, overwrite));
        }
        out
    }
}

// ─── Laws ───────────────────────────────────────────────────────

/// An install without a version keeps the version that was recorded.
pub proof fn law_install_without_version_keeps_version(
    m: Map<Seq<char>, EntryView>,
    name: Seq<char>,
    source: SourceView,
    now: Seq<char>,
)
    requires
        m.dom().contains(name),
    ensures
        after_install(m, name, None, source, now)[name].version == m[name].version,
{
}

/// An install with a version records that version.
pub proof fn law_install_with_version_records_it(
    m: Map<Seq<char>, EntryView>,
    name: Seq<char>,
    version: Seq<char>,
    source: SourceView,
    now: Seq<char>,
)
    ensures
        after_install(m, name, Some(version), source, now)[name].version == Some(version),
{
}

/// The time of the first install survives every later install, alone or in a
/// batch.
pub proof fn law_first_install_time_stays(
    m: Map<Seq<char>, EntryView>,
    names: Seq<Seq<char>>,
    name: Seq<char>,
    version: Option<Seq<char>>,
    source: SourceView,
    now: Seq<char>,
)
    requires
        m.dom().contains(name),
    ensures
        after_install(m, name, version, source, now)[name].installed_at == m[name].installed_at,
        after_batch(m, names, source, now).dom().contains(name),
        after_batch(m, names, source, now)[name].installed_at == m[name].installed_at,
    decreases names.len(),
{
    if names.len() > 0 {
        law_first_install_time_stays(m, names.drop_last(), name, version, source, now);
    }
}

/// Recording an install touches no other package.
pub proof fn law_install_touches_one(
    m: Map<Seq<char>, EntryView>,
    name: Seq<char>,
    other: Seq<char>,
    version: Option<Seq<char>>,
    source: SourceView,
    now: Seq<char>,
)
    requires
        other != name,
    ensures
        lookup(after_install(m, name, version, source, now), other) == lookup(m, other),
{
}

/// A batch records exactly its names: each of them is there afterwards with
/// the batch's source, the others are as they were.
pub proof fn law_batch_records_its_names(
    m: Map<Seq<char>, EntryView>,
    names: Seq<Seq<char>>,
    source: SourceView,
    now: Seq<char>,
    name: Seq<char>,
)
    ensures
        names.contains(name) ==> after_batch(m, names, source, now).dom().contains(name)
            && after_batch(m, names, source, now)[name].source == source && after_batch(
            m,
            names,
            source,
            now,
        )[name].updated_at == now,
        !names.contains(name) ==> lookup(after_batch(m, names, source, now), name) == lookup(
            m,
            name,
        ),
    decreases names.len(),
{
    if names.len() > 0 {
        law_batch_records_its_names(m, names.drop_last(), source, now, name);
        assert(names =~= names.drop_last().push(names.last()));
        if names.drop_last().contains(name) {
            let i = choose|i: int| 0 <= i < names.len() - 1 && names.drop_last()[i] == name;
            assert(names[i] == name);
        }
        if names.contains(name) && name != names.last() {
            let i = choose|i: int| 0 <= i < names.len() && names[i] == name;
            assert(names.drop_last()[i] == name);
        }
        if names.last() == name {
            assert(names[names.len() - 1] == name);
        }
    }
}

/// A package that only this machine knows keeps its entry through every merge.
pub proof fn law_merge_keeps_local_only(
    local: Map<Seq<char>, EntryView>,
    incoming: Map<Seq<char>, EntryView>,
    overwrite: bool,
    name: Seq<char>,
)
    requires
        local.dom().contains(name),
        !incoming.dom().contains(name),
    ensures
        lookup(merged(local, incoming, overwrite), name) == Some(local[name]),
{
}

/// Without overwriting, no entry of this machine changes.
pub proof fn law_merge_without_overwrite_keeps_local(
    local: Map<Seq<char>, EntryView>,
    incoming: Map<Seq<char>, EntryView>,
    name: Seq<char>,
)
    requires
        local.dom().contains(name),
    ensures
        lookup(merged(local, incoming, false), name) == Some(local[name]),
{
}

/// Removing what an install recorded leaves the other packages as they were
/// and nothing under the name.
pub proof fn law_remove_undoes_install(
    m: Map<Seq<char>, EntryView>,
    name: Seq<char>,
    version: Option<Seq<char>>,
    source: SourceView,
    now: Seq<char>,
)
    ensures
        after_install(m, name, version, source, now).remove(name) == m.remove(name),
        !after_install(m, name, version, source, now).remove(name).dom().contains(name),
{
    assert(after_install(m, name, version, source, now).remove(name) =~= m.remove(name));
}

} // verus!
