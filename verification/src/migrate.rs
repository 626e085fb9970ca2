//! Turning a lock of the old format into an `alc.toml`.

use vstd::prelude::*;
use crate::json::{Json, JsonView};
use crate::link::{target_views, LinkTarget};
use crate::logs::outcome_view;
use crate::paths::{join, joined_path};
use crate::text::{opt_str, opt_text, str_eq};

verus! {

// ─── TOML documents ─────────────────────────────────────────────

/// A value of a TOML document. Of floating-point numbers and points in time
/// only that they are there is kept.
#[derive(Debug)]
pub enum TomlItem {
    Text(String),
    Integer(i64),
    Float,
    Bool(bool),
    Datetime,
    Array(Vec<TomlItem>),
    Table(Vec<(String, TomlItem)>),
}

/// The content of a `TomlItem`.
pub enum TomlView {
    Text(Seq<char>),
    Integer(i64),
    Float,
    Bool(bool),
    Datetime,
    Array(Seq<TomlView>),
    Table(Seq<(Seq<char>, TomlView)>),
}

/// A value of the TOML reader, carried from the reader to the conversion.
#[verifier::external_type_specification]
#[verifier::external_body]
pub struct ExTomlValue(toml::Value);

impl TomlItem {
    /// The content.
    pub open spec fn view(self) -> TomlView
        decreases self,
    {
        match self {
            TomlItem::Text(t) => TomlView::Text(t@),
            TomlItem::Integer(n) => TomlView::Integer(n),
            TomlItem::Float => TomlView::Float,
            TomlItem::Bool(b) => TomlView::Bool(b),
            TomlItem::Datetime => TomlView::Datetime,
            TomlItem::Array(v) => TomlView::Array(
                Seq::new(
                    v@.len(),
                    |i: int|
                        if 0 <= i < v@.len() {
                            v@[i].view()
                        } else {
                            TomlView::Float
                        },
                ),
            ),
            TomlItem::Table(v) => TomlView::Table(
                Seq::new(
                    v@.len(),
                    |i: int|
                        if 0 <= i < v@.len() {
                            (v@[i].0@, v@[i].1.view())
                        } else {
                            (Seq::empty(), TomlView::Float)
                        },
                ),
            ),
        }
    }
}

/// What `toml::from_str` reads in a text: the document's content, or nothing
/// where the text is not TOML.
pub uninterp spec fn toml_content(text: Seq<char>) -> Option<TomlView>;

/// A `toml::Value` as a document, variant by variant.
#[verifier::external_body]
fn toml_item_of(v: toml::Value) -> (r: TomlItem) {
    match v {
        toml::Value::String(s) => TomlItem::Text(s),
        toml::Value::Integer(i) => TomlItem::Integer(i),
        toml::Value::Float(_) => TomlItem::Float,
        toml::Value::Boolean(b) => TomlItem::Bool(b),
        toml::Value::Datetime(_) => TomlItem::Datetime,
        toml::Value::Array(a) => TomlItem::Array(a.into_iter().map(toml_item_of).collect()),
        toml::Value::Table(t) => TomlItem::Table(
            t.into_iter().map(|(k, v)| (k, toml_item_of(v))).collect(),
        ),
    }
}

/// `toml::from_str`: the document that `text` spells, or nothing where it
/// spells none.
#[verifier::external_body]
fn parse_toml(text: &str) -> (r: Option<TomlItem>)
    ensures
        match r {
            Some(d) => toml_content(text@) == Some(d@),
            None => toml_content(text@) is None,
        },
{
    toml::from_str::<toml::Value>(text).ok().map(toml_item_of)
}

/// What stands for `name` in the table `rows`, at the first place.
pub open spec fn row_of(rows: Seq<(Seq<char>, TomlView)>, name: Seq<char>) -> Option<TomlView>
    decreases rows.len(),
{
    if rows.len() == 0 {
        None
    } else if rows[0].0 == name {
        Some(rows[0].1)
    } else {
        row_of(rows.drop_first(), name)
    }
}

/// What stands for `name` in `v`, where `v` is a table.
pub open spec fn field_of(v: TomlView, name: Seq<char>) -> Option<TomlView> {
    match v {
        TomlView::Table(rows) => row_of(rows, name),
        _ => None,
    }
}

/// The text that stands for `name` in `v`.
pub open spec fn text_field(v: TomlView, name: Seq<char>) -> Option<Seq<char>> {
    match field_of(v, name) {
        Some(TomlView::Text(t)) => Some(t),
        _ => None,
    }
}

impl TomlItem {
    /// What stands for `name` in a table.
    fn get(&self, name: &str) -> (r: Option<&TomlItem>)
        ensures
            match r {
                Some(v) => field_of(self@, name@) == Some(v@),
                None => field_of(self@, name@) is None,
            },
    {
        match self {
            TomlItem::Table(v) => {
                let ghost rows = self@->Table_0;
                let mut i: usize = 0;
                assert(rows.skip(0) =~= rows);
                while i < v.len()
                    invariant
                        i <= v@.len(),
                        rows.len() == v@.len(),
                        self@ == TomlView::Table(rows),
                        forall|k: int|
                            0 <= k < rows.len() ==> (#[trigger] rows[k]) == (v@[k].0@, v@[k].1@),
                        row_of(rows, name@) == row_of(rows.skip(i as int), name@),
                    decreases v@.len() - i,
                {
                    assert(rows[i as int] == (v@[i as int].0@, v@[i as int].1@));
                    assert(rows.skip(i as int)[0] == rows[i as int]);
                    assert(rows.skip(i as int).drop_first() =~= rows.skip(i + 1));
                    if str_eq(v[i].0.as_str(), name) {
                        return Some(&v[i].1);
                    }
                    i = i + 1;
                }
                None
            },
            _ => None,
        }
    }

    /// The text that stands for `name` in a table.
    fn get_text(&self, name: &str) -> (r: Option<String>)
        ensures
            opt_text(r) == text_field(self@, name@),
    {
        match self.get(name) {
            Some(TomlItem::Text(t)) => Some(t.clone()),
            _ => None,
        }
    }
}

// ─── The old format ─────────────────────────────────────────────

/// The packages of a lock, in their order.
pub open spec fn packages_of(lock: TomlView) -> Seq<TomlView> {
    match field_of(lock, "package"@) {
        Some(TomlView::Array(ps)) => ps,
        _ => Seq::empty(),
    }
}

/// The package is a directory in the old format.
pub open spec fn is_local_dir(p: TomlView) -> bool {
    match field_of(p, "source"@) {
        Some(source) => text_field(source, "type"@) == Some("local_dir"@),
        None => false,
    }
}

/// The package was linked, or copied from a directory.
pub open spec fn is_legacy_package(p: TomlView) -> bool {
    field_of(p, "linked_at"@) is Some || is_local_dir(p)
}

/// The lock is in the old format: some package was linked, or copied from a
/// directory.
pub open spec fn is_legacy(lock: TomlView) -> bool {
    exists|i: int|
        0 <= i < packages_of(lock).len() && is_legacy_package(#[trigger] packages_of(lock)[i])
}

/// The name of a package that is a directory in the old format, with the path
/// of the directory.
pub open spec fn legacy_target(p: TomlView) -> Option<(Seq<char>, Seq<char>)> {
    match field_of(p, "source"@) {
        Some(source) => if text_field(source, "type"@) == Some("local_dir"@) {
            match (text_field(p, "name"@), text_field(source, "path"@)) {
                (Some(name), Some(path)) => Some((name, path)),
                _ => None,
            }
        } else {
            None
        },
        None => None,
    }
}

/// The packages of the lock that are directories in the old format, in the
/// order of the lock.
pub open spec fn legacy_targets(lock: TomlView) -> Seq<(Seq<char>, Seq<char>)> {
    packages_of(lock).filter_map(|p: TomlView| legacy_target(p))
}

/// The packages of the lock that `content` spells which are directories in the
/// old format; none where it spells no lock.
pub open spec fn targets_in(content: Seq<char>) -> Seq<(Seq<char>, Seq<char>)> {
    match toml_content(content) {
        Some(lock) => legacy_targets(lock),
        None => Seq::empty(),
    }
}

/// `source` is a directory in the old format.
fn names_local_dir(source: &TomlItem) -> (r: bool)
    ensures
        r == (text_field(source@, "type"@) == Some("local_dir"@)),
{
    match source.get("type") {
        Some(TomlItem::Text(t)) => str_eq(t.as_str(), "local_dir"),
        _ => false,
    }
}

fn legacy_package(p: &TomlItem) -> (r: bool)
    ensures
        r == is_legacy_package(p@),
{
    if p.get("linked_at").is_some() {
        return true;
    }
    match p.get("source") {
        Some(source) => names_local_dir(source),
        None => false,
    }
}

fn target_in(p: &TomlItem) -> (r: Option<LinkTarget>)
    ensures
        match r {
            Some(t) => legacy_target(p@) == Some((t.name@, t.path@)),
            None => legacy_target(p@) is None,
        },
{
    match p.get("source") {
        Some(source) => {
            if !names_local_dir(source) {
                return None;
            }
            match (p.get_text("name"), source.get_text("path")) {
                (Some(name), Some(path)) => Some(LinkTarget { name, path }),
                _ => None,
            }
        },
        None => None,
    }
}

/// The lock is in the old format: some package was linked, or copied from a
/// directory.
pub fn legacy(lock: &TomlItem) -> (r: bool)
    ensures
        r == is_legacy(lock@),
{
    match lock.get("package") {
        Some(list) => match list {
            TomlItem::Array(ps) => {
                let ghost pv = list@->Array_0;
                assert(packages_of(lock@) == pv);
                let mut i: usize = 0;
                while i < ps.len()
                    invariant
                        i <= ps@.len(),
                        packages_of(lock@) == pv,
                        pv.len() == ps@.len(),
                        forall|k: int| 0 <= k < pv.len() ==> (#[trigger] pv[k]) == ps@[k]@,
                        forall|k: int| 0 <= k < i ==> !is_legacy_package(#[trigger] pv[k]),
                    decreases ps@.len() - i,
                {
                    assert(pv[i as int] == ps@[i as int]@);
                    if legacy_package(&ps[i]) {
                        assert(is_legacy_package(packages_of(lock@)[i as int]));
                        return true;
                    }
                    i = i + 1;
                }
                false
            },
            _ => false,
        },
        None => false,
    }
}

/// The lock `content` is in the old format. What is not TOML is not.
pub fn detect_legacy_format(content: &str) -> (r: bool)
    ensures
        r == (match toml_content(content@) {
            Some(lock) => is_legacy(lock),
            None => false,
        }),
{
    match parse_toml(content) {
        Some(lock) => legacy(&lock),
        None => false,
    }
}

/// The packages of the lock that are directories in the old format, with their
/// paths, in the order of the lock.
fn targets_of(lock: &TomlItem) -> (r: Vec<LinkTarget>)
    ensures
        target_views(r@) == legacy_targets(lock@),
{
    let ghost f = |p: TomlView| legacy_target(p);
    let mut out: Vec<LinkTarget> = Vec::new();
    proof {
        reveal(Seq::filter_map);
        assert(target_views(out@) =~= Seq::empty());
    }
    if let Some(list) = lock.get("package") {
        if let TomlItem::Array(ps) = list {
            let ghost pv = list@->Array_0;
            assert(packages_of(lock@) == pv);
            assert(pv.take(0).filter_map(f) =~= target_views(out@));
            let mut i: usize = 0;
            while i < ps.len()
                invariant
                    i <= ps@.len(),
                    f == (|p: TomlView| legacy_target(p)),
                    pv.len() == ps@.len(),
                    forall|k: int| 0 <= k < pv.len() ==> (#[trigger] pv[k]) == ps@[k]@,
                    target_views(out@) == pv.take(i as int).filter_map(f),
                decreases ps@.len() - i,
            {
                proof {
                    pv.lemma_filter_map_take_succ(f, i as int);
                    assert(pv[i as int] == ps@[i as int]@);
                }
                let ghost before = out@;
                if let Some(t) = target_in(&ps[i]) {
                    let ghost tv = (t.name@, t.path@);
                    out.push(t);
                    assert(target_views(out@) =~= target_views(before).push(tv));
                }
                assert(target_views(out@) =~= pv.take(i + 1).filter_map(f));
                i = i + 1;
            }
            assert(pv.take(pv.len() as int) =~= pv);
            return out;
        }
    }
    assert(packages_of(lock@) =~= Seq::empty());
    out
}

/// The packages of the lock `content` that are directories in the old format,
/// with their paths, in the order of the lock.
pub fn legacy_packages(content: &str) -> (r: Vec<LinkTarget>)
    ensures
        target_views(r@) == targets_in(content@),
{
    match parse_toml(content) {
        Some(lock) => targets_of(&lock),
        None => {
            let none: Vec<LinkTarget> = Vec::new();
            assert(target_views(none@) =~= Seq::empty());
            none
        },
    }
}

// ─── The new file ───────────────────────────────────────────────

/// A TOML document that can be edited.
#[verifier::external_type_specification]
#[verifier::external_body]
pub struct ExDocumentMut(toml_edit::DocumentMut);

/// What the tables at the top level of a document hold: each of their keys with
/// the text members of the inline table that stands there, with none where
/// something else stands there.
pub uninterp spec fn tables_of(doc: toml_edit::DocumentMut) -> Map<
    Seq<char>,
    Map<Seq<char>, Map<Seq<char>, Seq<char>>>,
>;

/// The text that a document is written as.
pub uninterp spec fn document_text(doc: toml_edit::DocumentMut) -> Seq<char>;

/// The tables of a document that holds the one table `t`.
pub open spec fn one_table(t: Seq<char>, rows: Map<Seq<char>, Map<Seq<char>, Seq<char>>>) -> Map<
    Seq<char>,
    Map<Seq<char>, Map<Seq<char>, Seq<char>>>,
> {
    Map::empty().insert(t, rows)
}

/// A character that may stand in a key without quotes.
pub open spec fn is_key_char(c: char) -> bool {
    'a' <= c <= 'z' || 'A' <= c <= 'Z' || '0' <= c <= '9' || c == '-' || c == '_'
}

/// A key that needs no quotes.
pub open spec fn is_bare_key(t: Seq<char>) -> bool {
    t.len() > 0 && forall|i: int| 0 <= i < t.len() ==> is_key_char(#[trigger] t[i])
}

/// The text of a document that holds the table `t` with nothing in it.
pub open spec fn empty_table_text(t: Seq<char>) -> Seq<char> {
    "["@ + t + "]\n"@
}

/// `DocumentMut::from_str`: a table header alone is read as a document that
/// holds that table, with nothing in it. Nothing is said of other texts.
#[verifier::external_body]
fn parse_document(text: &str) -> (r: Result<toml_edit::DocumentMut, String>)
    requires
        exists|t: Seq<char>| is_bare_key(t) && text@ == #[trigger] empty_table_text(t),
    ensures
        r is Ok,
        forall|t: Seq<char>|
            is_bare_key(t) && text@ == #[trigger] empty_table_text(t) ==> tables_of(r->Ok_0)
                == one_table(t, Map::empty()),
{
    text.parse::<toml_edit::DocumentMut>().map_err(|e| e.to_string())
}

/// `Table::insert` on the table `table` of the document: where there is such a
/// table, `name` then stands there for the inline table with the one member
/// `key`, whatever it stood for before. Else nothing happens.
#[verifier::external_body]
fn insert_inline(
    doc: &mut toml_edit::DocumentMut,
    table: &str,
    name: &str,
    key: &str,
    value: &str,
)
    ensures
        tables_of(*final(doc)) == (if tables_of(*old(doc)).dom().contains(table@) {
            tables_of(*old(doc)).insert(
                table@,
                tables_of(*old(doc))[table@].insert(name@, Map::empty().insert(key@, value@)),
            )
        } else {
            tables_of(*old(doc))
        }),
{
    if let Some(t) = doc.get_mut(table).and_then(|i| i.as_table_mut()) {
        let mut inline = toml_edit::InlineTable::new();
        inline.insert(key, value.into());
        t.insert(name, toml_edit::Item::Value(toml_edit::Value::InlineTable(inline)));
    }
}

/// `DocumentMut` as text, by its `Display`.
#[verifier::external_body]
fn render_document(doc: &toml_edit::DocumentMut) -> (r: String)
    ensures
        r@ == document_text(*doc),
{
    doc.to_string()
}

/// The packages with where they are. Of two with one name the later counts.
pub open spec fn with_paths(targets: Seq<(Seq<char>, Seq<char>)>) -> Map<
    Seq<char>,
    Map<Seq<char>, Seq<char>>,
>
    decreases targets.len(),
{
    if targets.len() == 0 {
        Map::empty()
    } else {
        with_paths(targets.drop_last()).insert(
            targets.last().0,
            Map::empty().insert("path"@, targets.last().1),
        )
    }
}

/// `t` is the text of a document with the one table `packages`, in which each
/// of the packages stands with its path, and nothing else.
pub open spec fn is_toml_of(t: Seq<char>, targets: Seq<(Seq<char>, Seq<char>)>) -> bool {
    exists|doc: toml_edit::DocumentMut| #[trigger]
        document_text(doc) == t && tables_of(doc) == one_table("packages"@, with_paths(targets))
}

/// A new file that declares the given packages.
pub fn migrated_toml(targets: &Vec<LinkTarget>) -> (r: Result<String, String>)
    ensures
        match r {
            Ok(t) => is_toml_of(t@, target_views(targets@)),
            Err(_) => false,
        },
{
    let ghost tv = target_views(targets@);
    proof {
        reveal_strlit("[packages]\n");
        reveal_strlit("[");
        reveal_strlit("]\n");
        reveal_strlit("packages");
        assert("[packages]\n"@ =~= empty_table_text("packages"@));
        assert(is_bare_key("packages"@));
    }
    let mut doc = match parse_document("[packages]\n") {
        Ok(d) => d,
        Err(e) => {
            let mut m = "Internal error: ".to_owned();
            m.append(e.as_str());
            return Err(m);
        },
    };
    let mut i: usize = 0;
    assert(tv.take(0) =~= Seq::empty());
    while i < targets.len()
        invariant
            i <= targets@.len(),
            tv == target_views(targets@),
            tables_of(doc) == one_table("packages"@, with_paths(tv.take(i as int))),
        decreases targets@.len() - i,
    {
        insert_inline(
            &mut doc,
            "packages",
            targets[i].name.as_str(),
            "path",
            targets[i].path.as_str(),
        );
        proof {
            assert(tv.take(i + 1).drop_last() =~= tv.take(i as int));
            assert(tv[i as int] == (targets@[i as int].name@, targets@[i as int].path@));
            assert(tables_of(doc) =~= one_table("packages"@, with_paths(tv.take(i + 1))));
        }
        i = i + 1;
    }
    assert(tv.take(tv.len() as int) =~= tv);
    let t = render_document(&doc);
    assert(document_text(doc) == t@);
    Ok(t)
}

proof fn lemma_with_paths_of(ps: Seq<TomlView>, name: Seq<char>)
    ensures
        ({
            let m = with_paths(ps.filter_map(|p: TomlView| legacy_target(p)));
            &&& m.dom().contains(name) <==> exists|i: int| #[trigger] last_of_name(ps, i, name)
            &&& forall|i: int| #[trigger]
                last_of_name(ps, i, name) ==> m[name] == path_row(legacy_target(ps[i])->Some_0.1)
        }),
    decreases ps.len(),
{
    reveal(Seq::filter_map);
    let f = |p: TomlView| legacy_target(p);
    if ps.len() > 0 {
        let n = ps.len() - 1;
        let rest = ps.drop_last();
        lemma_with_paths_of(rest, name);
        match f(ps.last()) {
            Some(t) => {
                assert(ps.filter_map(f) =~= rest.filter_map(f).push(t));
                assert(ps.filter_map(f).drop_last() =~= rest.filter_map(f));
                if t.0 == name {
                    assert(last_of_name(ps, n, name));
                    assert forall|i: int| #[trigger] last_of_name(ps, i, name) implies i == n by {
                        if i < n {
                            assert(legacy_target(ps[n]) == Some(t));
                        }
                    }
                } else {
                    lemma_last_of_rest(ps, name);
                }
            },
            None => {
                assert(ps.filter_map(f) =~= rest.filter_map(f));
                lemma_last_of_rest(ps, name);
            },
        }
    }
}

proof fn lemma_last_of_rest(ps: Seq<TomlView>, name: Seq<char>)
    requires
        ps.len() > 0,
        !is_target_named(ps.last(), name),
    ensures
        forall|i: int|
            #![trigger last_of_name(ps, i, name)]
            #![trigger last_of_name(ps.drop_last(), i, name)]
            last_of_name(ps, i, name) == last_of_name(ps.drop_last(), i, name),
{
    let n = ps.len() - 1;
    let rest = ps.drop_last();
    assert forall|i: int|
        #![trigger last_of_name(ps, i, name)]
        #![trigger last_of_name(ps.drop_last(), i, name)]
        last_of_name(ps, i, name) == last_of_name(ps.drop_last(), i, name) by {
        if last_of_name(ps, i, name) {
            assert(i != n);
            assert(rest[i] == ps[i]);
            assert forall|j: int| i < j < rest.len() implies !is_target_named(
                #[trigger] rest[j],
                name,
            ) by {
                assert(rest[j] == ps[j]);
            }
        }
        if last_of_name(rest, i, name) {
            assert(rest[i] == ps[i]);
            assert forall|j: int| i < j < ps.len() implies !is_target_named(
                #[trigger] ps[j],
                name,
            ) by {
                if j < n {
                    assert(rest[j] == ps[j]);
                }
            }
        }
    }
}

/// The package is a directory in the old format and has the given name.
pub open spec fn is_target_named(p: TomlView, name: Seq<char>) -> bool {
    match legacy_target(p) {
        Some(t) => t.0 == name,
        None => false,
    }
}

/// The `i`th package is the last directory of the given name.
pub open spec fn last_of_name(ps: Seq<TomlView>, i: int, name: Seq<char>) -> bool {
    &&& 0 <= i < ps.len()
    &&& is_target_named(ps[i], name)
    &&& forall|j: int| i < j < ps.len() ==> !is_target_named(#[trigger] ps[j], name)
}

/// What stands for a package in the new file.
pub open spec fn path_row(path: Seq<char>) -> Map<Seq<char>, Seq<char>> {
    Map::empty().insert("path"@, path)
}

/// Every package of the old lock that is a directory stands in the new file,
/// with its path. Of two with one name the later counts.
pub proof fn law_every_package_migrates(lock: TomlView, i: int, name: Seq<char>)
    requires
        last_of_name(packages_of(lock), i, name),
    ensures
        with_paths(legacy_targets(lock)).dom().contains(name),
        with_paths(legacy_targets(lock))[name] == path_row(
            legacy_target(packages_of(lock)[i])->Some_0.1,
        ),
{
    lemma_with_paths_of(packages_of(lock), name);
}

/// Nothing else stands in the new file.
pub proof fn law_nothing_else_migrates(lock: TomlView, name: Seq<char>)
    requires
        with_paths(legacy_targets(lock)).dom().contains(name),
    ensures
        exists|i: int| #[trigger] last_of_name(packages_of(lock), i, name),
{
    lemma_with_paths_of(packages_of(lock), name);
}

// ─── What is done ───────────────────────────────────────────────

/// The root of the project: as it is given, as the environment has it, or the
/// working directory.
pub open spec fn chosen_root(
    explicit: Option<Seq<char>>,
    env: Option<Seq<char>>,
    cwd: Result<Seq<char>, Seq<char>>,
) -> Result<Seq<char>, Seq<char>> {
    match (explicit, env) {
        (Some(r), _) => Ok(r),
        (None, Some(e)) if e.len() > 0 => Ok(e),
        _ => match cwd {
            Ok(d) => Ok(d),
            Err(c) => Err("Cannot determine cwd: "@ + c),
        },
    }
}

/// The root of the project.
pub fn choose_root(explicit: Option<&str>, env: Option<&str>, cwd: Result<String, String>) -> (r:
    Result<String, String>)
    ensures
        outcome_view(r) == chosen_root(opt_str(explicit), opt_str(env), outcome_view(cwd)),
{
    if let Some(s) = explicit {
        return Ok(s.to_owned());
    }
    if let Some(e) = env {
        if !e.is_empty() {
            return Ok(e.to_owned());
        }
    }
    match cwd {
        Ok(d) => Ok(d),
        Err(c) => {
            let mut m = "Cannot determine cwd: ".to_owned();
            m.append(c.as_str());
            Err(m)
        },
    }
}

/// What is to be done about a lock.
#[derive(Debug)]
pub enum MigrateStep {
    /// Nothing, for the given reason.
    Nothing(&'static str),
    /// These packages go to `alc.toml`, and the lock is set aside.
    Write(Vec<LinkTarget>),
}

/// What is to be done about the lock with the given content, if there is one.
/// An `alc.toml` that is there is never replaced.
pub fn plan_migration(content: Option<&str>, toml_path: &str, toml_exists: bool) -> (r: Result<
    MigrateStep,
    String,
>)
    ensures
        match r {
            Ok(MigrateStep::Nothing(reason)) => match content {
                None => reason@ == "alc.lock not found"@,
                Some(c) => !legacy_text(c@) && reason@
                    == "already new format or no local_dir entries"@,
            },
            Ok(MigrateStep::Write(v)) => match content {
                None => false,
                Some(c) => legacy_text(c@) && !toml_exists && target_views(v@) == targets_in(c@),
            },
            Err(m) => match content {
                None => false,
                Some(c) => legacy_text(c@) && toml_exists && m@ == "alc.toml already exists at "@
                    + toml_path@ + ". Remove it first or migrate manually."@,
            },
        },
{
    match content {
        None => Ok(MigrateStep::Nothing("alc.lock not found")),
        Some(c) => {
            if !detect_legacy_format(c) {
                return Ok(
                    MigrateStep::Nothing("already new format or no local_dir entries"),
                );
            }
            if toml_exists {
                let mut m = "alc.toml already exists at ".to_owned();
                m.append(toml_path);
                m.append(". Remove it first or migrate manually.");
                return Err(m);
            }
            Ok(MigrateStep::Write(legacy_packages(c)))
        },
    }
}

/// The text is a lock in the old format.
pub open spec fn legacy_text(content: Seq<char>) -> bool {
    match toml_content(content) {
        Some(doc) => is_legacy(doc),
        None => false,
    }
}

/// Where the lock is set aside.
pub fn backup_path(root: &str) -> (r: String)
    ensures
        r@ == joined_path(root@, "alc.lock.bak"@),
{
    join(root, "alc.lock.bak")
}

/// The answer where there is nothing to do.
pub fn nothing_answer(reason: &str) -> (r: Json)
    ensures
        r@ == JsonView::Object(
            seq![
                ("status"@, JsonView::Text("nothing to migrate"@)),
                ("reason"@, JsonView::Text(reason@)),
            ],
        ),
{
    let r = Json::object().with("status", Json::text("nothing to migrate")).with(
        "reason",
        Json::text(reason),
    );
    assert(r@.members() =~= seq![
        ("status"@, JsonView::Text("nothing to migrate"@)),
        ("reason"@, JsonView::Text(reason@)),
    ]);
    r
}

/// The answer after the files were written.
pub open spec fn migrated_view(toml_path: Seq<char>, backup: Seq<char>) -> JsonView {
    JsonView::Object(
        seq![
            ("migrated"@, JsonView::Bool(true)),
            ("alc_toml"@, JsonView::Text(toml_path)),
            ("backup"@, JsonView::Text(backup)),
            ("note"@, JsonView::Text("Run alc_update to generate new alc.lock"@)),
        ],
    )
}

/// The answer after the files were written.
pub fn migrated_answer(toml_path: &str, backup: &str) -> (r: Json)
    ensures
        r@ == migrated_view(toml_path@, backup@),
{
    let r = Json::object().with("migrated", Json::Bool(true)).with(
        "alc_toml",
        Json::text(toml_path),
    ).with("backup", Json::text(backup)).with(
        "note",
        Json::text("Run alc_update to generate new alc.lock"),
    );
    assert(r@.members() =~= migrated_view(toml_path@, backup@).members());
    r
}

} // verus!
