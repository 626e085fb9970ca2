//! JSON documents as the responses and the logs hold them.

use vstd::prelude::*;
use crate::text::{str_eq, texts};

verus! {

/// A number that is not an integer, held as it was read.
#[verifier::external_type_specification]
#[verifier::external_body]
pub struct ExNumber(serde_json::Number);

/// A document of the serializer, carried from the reader to the conversion and
/// from the conversion to the writer.
#[verifier::external_type_specification]
#[verifier::external_body]
pub struct ExValue(serde_json::Value);

/// A JSON document.
#[derive(Debug)]
pub enum Json {
    Null,
    Bool(bool),
    /// An integer that is not negative.
    UInt(u64),
    /// A negative integer.
    NegInt(i64),
    /// Any other number.
    Float(serde_json::Number),
    Text(String),
    Array(Vec<Json>),
    /// The members by name; no name stands twice.
    Object(Vec<(String, Json)>),
}

/// The content of a JSON document.
pub enum JsonView {
    Null,
    Bool(bool),
    UInt(u64),
    NegInt(i64),
    Float(serde_json::Number),
    Text(Seq<char>),
    Array(Seq<JsonView>),
    Object(Seq<(Seq<char>, JsonView)>),
}

/// The contents of a list of documents.
pub open spec fn views(v: Seq<Json>) -> Seq<JsonView> {
    v.map_values(|j: Json| j@)
}

/// The texts of `v` as a list of documents.
pub open spec fn text_views(v: Seq<Seq<char>>) -> Seq<JsonView> {
    v.map_values(|t: Seq<char>| JsonView::Text(t))
}

/// The contents of a list of members.
pub open spec fn member_views(v: Seq<(String, Json)>) -> Seq<(Seq<char>, JsonView)> {
    v.map_values(|m: (String, Json)| (m.0@, m.1@))
}

/// `name` is the name of a member of `ms`.
pub open spec fn has_member(ms: Seq<(Seq<char>, JsonView)>, name: Seq<char>) -> bool {
    exists|i: int| 0 <= i < ms.len() && (#[trigger] ms[i]).0 == name
}

/// The first member of `ms` with the name `name` is at `i`.
pub open spec fn member_at(ms: Seq<(Seq<char>, JsonView)>, name: Seq<char>, i: int) -> bool {
    &&& 0 <= i < ms.len()
    &&& ms[i].0 == name
    &&& forall|j: int| 0 <= j < i ==> (#[trigger] ms[j]).0 != name
}

/// The value of the member `name`, if there is one.
pub open spec fn member(ms: Seq<(Seq<char>, JsonView)>, name: Seq<char>) -> Option<JsonView> {
    if has_member(ms, name) {
        Some(ms[choose|i: int| member_at(ms, name, i)].1)
    } else {
        None
    }
}

/// `ms` with `value` as the value of `name`: in place of the value that stood
/// there, or as a new last member.
pub open spec fn with_member(
    ms: Seq<(Seq<char>, JsonView)>,
    name: Seq<char>,
    value: JsonView,
) -> Seq<(Seq<char>, JsonView)> {
    if has_member(ms, name) {
        ms.update(choose|i: int| member_at(ms, name, i), (name, value))
    } else {
        ms.push((name, value))
    }
}

impl JsonView {
    /// The members of an object; none of anything else.
    pub open spec fn members(self) -> Seq<(Seq<char>, JsonView)> {
        match self {
            JsonView::Object(ms) => ms,
            _ => Seq::empty(),
        }
    }

    /// The value of the member `name` of an object.
    pub open spec fn field(self, name: Seq<char>) -> Option<JsonView> {
        member(self.members(), name)
    }
}

proof fn lemma_first_member(ms: Seq<(Seq<char>, JsonView)>, name: Seq<char>, i: int, j: int)
    requires
        member_at(ms, name, i),
        member_at(ms, name, j),
    ensures
        i == j,
{
}

proof fn lemma_some_member(ms: Seq<(Seq<char>, JsonView)>, name: Seq<char>, i: int)
    requires
        0 <= i < ms.len(),
        ms[i].0 == name,
    ensures
        exists|c: int| member_at(ms, name, c),
    decreases i,
{
    if member_at(ms, name, i) {
    } else {
        let j = choose|j: int| 0 <= j < i && (#[trigger] ms[j]).0 == name;
        lemma_some_member(ms, name, j);
    }
}

/// A member that is set reads back, and the other members stay as they were.
pub proof fn law_set_reads_back(
    ms: Seq<(Seq<char>, JsonView)>,
    name: Seq<char>,
    value: JsonView,
    other: Seq<char>,
)
    ensures
        member(with_member(ms, name, value), other) == (if other == name {
            Some(value)
        } else {
            member(ms, other)
        }),
{
    let r = with_member(ms, name, value);
    if has_member(ms, name) {
        let w = choose|w: int| 0 <= w < ms.len() && (#[trigger] ms[w]).0 == name;
        lemma_some_member(ms, name, w);
        let c = choose|c: int| member_at(ms, name, c);
        assert forall|j: int| 0 <= j < ms.len() implies (#[trigger] r[j]).0 == ms[j].0 by {}
        if other == name {
            assert(r[c].0 == name);
            assert(member_at(r, name, c));
            let d = choose|d: int| member_at(r, name, d);
            lemma_first_member(r, name, c, d);
        } else {
            lemma_same_names(ms, r, other);
        }
    } else {
        let n = ms.len() as int;
        if other == name {
            assert(r[n].0 == name);
            assert(member_at(r, name, n));
            let d = choose|d: int| member_at(r, name, d);
            lemma_first_member(r, name, n, d);
        } else {
            if has_member(ms, other) {
                let w = choose|w: int| 0 <= w < ms.len() && (#[trigger] ms[w]).0 == other;
                lemma_some_member(ms, other, w);
                let c = choose|c: int| member_at(ms, other, c);
                assert(r[c].0 == other);
                assert(member_at(r, other, c));
                let d = choose|d: int| member_at(r, other, d);
                lemma_first_member(r, other, c, d);
            } else {
                assert(!has_member(r, other));
            }
        }
    }
}

/// A member of the first part of `r` is a member of `r`.
pub proof fn lemma_member_of_prefix(
    base: Seq<(Seq<char>, JsonView)>,
    r: Seq<(Seq<char>, JsonView)>,
    name: Seq<char>,
)
    requires
        base.len() <= r.len(),
        r.take(base.len() as int) == base,
        has_member(base, name),
    ensures
        member(r, name) == member(base, name),
{
    assert forall|j: int| 0 <= j < base.len() implies #[trigger] base[j] == r[j] by {
        assert(r.take(base.len() as int)[j] == r[j]);
    }
    let w = choose|w: int| 0 <= w < base.len() && (#[trigger] base[w]).0 == name;
    lemma_some_member(base, name, w);
    let c = choose|c: int| member_at(base, name, c);
    assert(r[c].0 == name);
    assert forall|j: int| 0 <= j < c implies (#[trigger] r[j]).0 != name by {
        assert(base[j] == r[j]);
    }
    assert(member_at(r, name, c));
    let d = choose|d: int| member_at(r, name, d);
    lemma_first_member(r, name, c, d);
}

proof fn lemma_same_names(
    a: Seq<(Seq<char>, JsonView)>,
    b: Seq<(Seq<char>, JsonView)>,
    name: Seq<char>,
)
    requires
        a.len() == b.len(),
        forall|j: int| 0 <= j < a.len() ==> (#[trigger] b[j]).0 == a[j].0,
        forall|j: int| 0 <= j < a.len() && a[j].0 == name ==> #[trigger] b[j] == a[j],
    ensures
        member(a, name) == member(b, name),
{
    if has_member(a, name) {
        let w = choose|w: int| 0 <= w < a.len() && (#[trigger] a[w]).0 == name;
        lemma_some_member(a, name, w);
        let c = choose|c: int| member_at(a, name, c);
        assert(b[c] == a[c]);
        assert(member_at(b, name, c));
        let d = choose|d: int| member_at(b, name, d);
        lemma_first_member(b, name, c, d);
    } else {
        if has_member(b, name) {
            let w = choose|w: int| 0 <= w < b.len() && (#[trigger] b[w]).0 == name;
            assert(a[w].0 == name);
        }
    }
}

impl Json {
    /// The document's content.
    pub open spec fn view(self) -> JsonView
        decreases self,
    {
        match self {
            Json::Null => JsonView::Null,
            Json::Bool(b) => JsonView::Bool(b),
            Json::UInt(n) => JsonView::UInt(n),
            Json::NegInt(n) => JsonView::NegInt(n),
            Json::Float(n) => JsonView::Float(n),
            Json::Text(t) => JsonView::Text(t@),
            Json::Array(v) => JsonView::Array(
                Seq::new(
                    v@.len(),
                    |i: int|
                        if 0 <= i < v@.len() {
                            v@[i].view()
                        } else {
                            JsonView::Null
                        },
                ),
            ),
            Json::Object(v) => JsonView::Object(
                Seq::new(
                    v@.len(),
                    |i: int|
                        if 0 <= i < v@.len() {
                            (v@[i].0@, v@[i].1.view())
                        } else {
                            (Seq::empty(), JsonView::Null)
                        },
                ),
            ),
        }
    }

    /// A text.
    pub fn text(s: &str) -> (r: Json)
        ensures
            r@ == JsonView::Text(s@),
    {
        Json::Text(s.to_owned())
    }

    /// A text, or null where there is none.
    pub fn opt_text(s: &Option<String>) -> (r: Json)
        ensures
            r@ == (match *s {
                Some(t) => JsonView::Text(t@),
                None => JsonView::Null,
            }),
    {
        match s {
            Some(t) => Json::Text(t.clone()),
            None => Json::Null,
        }
    }

    /// A list of documents.
    pub fn array(v: Vec<Json>) -> (r: Json)
        ensures
            r@ == JsonView::Array(views(v@)),
    {
        let ghost vs = v@;
        let r = Json::Array(v);
        proof {
            if let JsonView::Array(s) = r@ {
                assert(s =~= views(vs));
            }
        }
        r
    }

    /// A list of texts.
    pub fn texts(v: &Vec<String>) -> (r: Json)
        ensures
            r@ == JsonView::Array(text_views(texts(v@))),
    {
        let mut out: Vec<Json> = Vec::new();
        let mut i: usize = 0;
        while i < v.len()
            invariant
                i <= v@.len(),
                out@.len() == i,
                forall|k: int| 0 <= k < i ==> (#[trigger] out@[k])@ == JsonView::Text(v@[k]@),
            decreases v@.len() - i,
        {
            out.push(Json::Text(v[i].clone()));
            i = i + 1;
        }
        let ghost vs = out@;
        let r = Json::array(out);
        assert(views(vs) =~= text_views(texts(v@)));
        r
    }

    /// An object without members.
    pub fn object() -> (r: Json)
        ensures
            r@ == JsonView::Object(Seq::empty()),
    {
        let r = Json::Object(Vec::new());
        proof {
            if let JsonView::Object(s) = r@ {
                assert(s =~= Seq::<(Seq<char>, JsonView)>::empty());
            }
        }
        r
    }

    /// An object with the given members.
    pub fn object_of(v: Vec<(String, Json)>) -> (r: Json)
        ensures
            r@ == JsonView::Object(member_views(v@)),
    {
        let ghost vs = v@;
        let r = Json::Object(v);
        proof {
            if let JsonView::Object(s) = r@ {
                assert(s =~= member_views(vs));
            }
        }
        r
    }

    /// The object with one more member at its end.
    pub fn with(self, name: &str, value: Json) -> (r: Json)
        requires
            self is Object,
        ensures
            r is Object,
            r@ == JsonView::Object(self@.members().push((name@, value@))),
    {
        let ghost before = self@.members();
        match self {
            Json::Object(mut v) => {
                let ghost v0 = v@;
                v.push((name.to_owned(), value));
                let ghost v1 = v@;
                let r = Json::object_of(v);
                proof {
                    assert(before =~= member_views(v0));
                    assert(member_views(v1) =~= before.push((name@, value@)));
                }
                r
            },
            other => other,
        }
    }

    /// The value of the member `name` of an object.
    pub fn get(&self, name: &str) -> (r: Option<&Json>)
        ensures
            match r {
                Some(v) => self@.field(name@) == Some(v@),
                None => self@.field(name@) is None,
            },
    {
        match self {
            Json::Object(v) => {
                let ghost ms = self@.members();
                assert(ms =~= member_views(v@));
                match find_member(v, name) {
                    Some(i) => {
                        proof {
                            assert(ms[i as int].0 == name@);
                            let c = choose|c: int| member_at(ms, name@, c);
                            assert(member_at(ms, name@, i as int));
                            lemma_first_member(ms, name@, c, i as int);
                        }
                        Some(&v[i].1)
                    },
                    None => None,
                }
            },
            _ => None,
        }
    }

    /// The object with `value` as the value of `name`.
    pub fn set(self, name: &str, value: Json) -> (r: Json)
        requires
            self is Object,
        ensures
            r is Object,
            r@ == JsonView::Object(with_member(self@.members(), name@, value@)),
    {
        let ghost before = self@.members();
        match self {
            Json::Object(mut v) => {
                let ghost v0 = v@;
                assert(before =~= member_views(v0));
                match find_member(&v, name) {
                    Some(i) => {
                        proof {
                            assert(before[i as int].0 == name@);
                            let c = choose|c: int| member_at(before, name@, c);
                            assert(member_at(before, name@, i as int));
                            lemma_first_member(before, name@, c, i as int);
                        }
                        v[i] = (name.to_owned(), value);
                    },
                    None => {
                        v.push((name.to_owned(), value));
                    },
                }
                let ghost v1 = v@;
                let r = Json::object_of(v);
                assert(member_views(v1) =~= with_member(before, name@, value@));
                r
            },
            other => other,
        }
    }
}

/// The place of the first member of `v` with the name `name`.
fn find_member(v: &Vec<(String, Json)>, name: &str) -> (r: Option<usize>)
    ensures
        match r {
            Some(i) => member_at(member_views(v@), name@, i as int),
            None => !has_member(member_views(v@), name@),
        },
{
    let ghost ms = member_views(v@);
    let mut i: usize = 0;
    while i < v.len()
        invariant
            i <= v@.len(),
            ms == member_views(v@),
            forall|j: int| 0 <= j < i ==> (#[trigger] ms[j]).0 != name@,
        decreases v@.len() - i,
    {
        assert(ms[i as int].0 == v@[i as int].0@);
        if str_eq(v[i].0.as_str(), name) {
            return Some(i);
        }
        i = i + 1;
    }
    None
}

// ─── Reading and writing ────────────────────────────────────────

/// What `serde_json::from_str` reads in a text: the document's content, or the
/// error's text where the text is not JSON.
pub uninterp spec fn json_content(text: Seq<char>) -> Result<JsonView, Seq<char>>;

/// The text that `serde_json::Value::to_string` writes for a content.
pub uninterp spec fn json_text(content: JsonView) -> Seq<char>;

/// The text that the alternate form of `serde_json::Value` writes for a
/// content, on several lines.
pub uninterp spec fn json_pretty_text(content: JsonView) -> Seq<char>;

/// The text that the `Debug` form of `serde_json::Value` writes for a content.
pub uninterp spec fn json_debug_text(content: JsonView) -> Seq<char>;

/// A `serde_json::Value` as a document, variant by variant.
#[verifier::external_body]
fn json_of(v: serde_json::Value) -> (r: Json) {
    match v {
        serde_json::Value::Null => Json::Null,
        serde_json::Value::Bool(b) => Json::Bool(b),
        serde_json::Value::Number(n) => match (n.as_u64(), n.as_i64()) {
            (Some(u), _) => Json::UInt(u),
            (None, Some(i)) => Json::NegInt(i),
            (None, None) => Json::Float(n),
        },
        serde_json::Value::String(s) => Json::Text(s),
        serde_json::Value::Array(a) => Json::Array(a.into_iter().map(json_of).collect()),
        serde_json::Value::Object(m) => Json::Object(
            m.into_iter().map(|(k, v)| (k, json_of(v))).collect(),
        ),
    }
}

/// A document as a `serde_json::Value`, variant by variant.
#[verifier::external_body]
fn value_of(j: &Json) -> (r: serde_json::Value) {
    match j {
        Json::Null => serde_json::Value::Null,
        Json::Bool(b) => serde_json::Value::Bool(*b),
        Json::UInt(n) => serde_json::Value::from(*n),
        Json::NegInt(n) => serde_json::Value::from(*n),
        Json::Float(n) => serde_json::Value::Number(n.clone()),
        Json::Text(s) => serde_json::Value::String(s.clone()),
        Json::Array(v) => serde_json::Value::Array(v.iter().map(value_of).collect()),
        Json::Object(v) => serde_json::Value::Object(
            v.iter().map(|m| (m.0.clone(), value_of(&m.1))).collect(),
        ),
    }
}

/// The content that was read, or the error's text.
pub open spec fn read_view(r: Result<Json, String>) -> Result<JsonView, Seq<char>> {
    match r {
        Ok(j) => Ok(j@),
        Err(e) => Err(e@),
    }
}

impl Json {
    /// The document that `text` spells, or why it spells none.
    pub fn parse(text: &str) -> (r: Result<Json, String>)
        ensures
            read_view(r) == json_content(text@),
    {
        parse_json(text)
    }

    /// The document's text.
    pub fn render(&self) -> (r: String)
        ensures
            r@ == json_text(self@),
    {
        render_json(self)
    }

    /// The document as a developer sees it.
    pub fn render_debug(&self) -> (r: String)
        ensures
            r@ == json_debug_text(self@),
    {
        debug_json(self)
    }

    /// The document's text, on several lines.
    pub fn render_pretty(&self) -> (r: String)
        ensures
            r@ == json_pretty_text(self@),
    {
        render_json_pretty(self)
    }
}

/// The `Debug` form of `serde_json::Value`: the document as a developer sees it.
#[verifier::external_body]
fn debug_json(j: &Json) -> (r: String)
    ensures
        r@ == json_debug_text(j@),
{
    format!("{:?}", value_of(j))
}

/// `serde_json::from_str`: the document that `text` spells, or the text of the
/// error where it spells none.
#[verifier::external_body]
fn parse_json(text: &str) -> (r: Result<Json, String>)
    ensures
        read_view(r) == json_content(text@),
{
    serde_json::from_str::<serde_json::Value>(text).map(json_of).map_err(|e| e.to_string())
}

/// `serde_json::Value::to_string`: the document's text.
#[verifier::external_body]
fn render_json(j: &Json) -> (r: String)
    ensures
        r@ == json_text(j@),
{
    value_of(j).to_string()
}

/// The alternate form of `serde_json::Value`'s `Display`: the document's text
/// on several lines.
#[verifier::external_body]
fn render_json_pretty(j: &Json) -> (r: String)
    ensures
        r@ == json_pretty_text(j@),
{
    format!("{:#}", value_of(j))
}

/// `serde_json::Number::clone`: the same number.
pub assume_specification[ <serde_json::Number as Clone>::clone ](n: &serde_json::Number) -> (r:
    serde_json::Number)
    ensures
        r == *n,
;

impl Clone for Json {
    fn clone(&self) -> (r: Json)
        ensures
            r@ == self@,
        decreases self,
    {
        match self {
            Json::Null => Json::Null,
            Json::Bool(b) => Json::Bool(*b),
            Json::UInt(n) => Json::UInt(*n),
            Json::NegInt(n) => Json::NegInt(*n),
            Json::Float(n) => Json::Float(n.clone()),
            Json::Text(t) => Json::Text(t.clone()),
            Json::Array(v) => {
                let mut out: Vec<Json> = Vec::new();
                let mut i: usize = 0;
                while i < v.len()
                    invariant
                        i <= v@.len(),
                        *self == Json::Array(*v),
                        out@.len() == i,
                        forall|k: int| 0 <= k < i ==> (#[trigger] out@[k])@ == v@[k]@,
                    decreases v@.len() - i,
                {
                    assert(decreases_to!(*self => self->Array_0));
                    assert(decreases_to!(self->Array_0 => self->Array_0@));
                    assert(decreases_to!(self->Array_0@ => self->Array_0@[i as int]));
                    out.push(v[i].clone());
                    i = i + 1;
                }
                let r = Json::Array(out);
                proof {
                    if let (JsonView::Array(a), JsonView::Array(b)) = (r@, self@) {
                        assert(a =~= b);
                    }
                }
                r
            },
            Json::Object(v) => {
                let mut out: Vec<(String, Json)> = Vec::new();
                let mut i: usize = 0;
                while i < v.len()
                    invariant
                        i <= v@.len(),
                        *self == Json::Object(*v),
                        out@.len() == i,
                        forall|k: int|
                            0 <= k < i ==> (#[trigger] out@[k]).0@ == v@[k].0@ && out@[k].1@
                                == v@[k].1@,
                    decreases v@.len() - i,
                {
                    assert(decreases_to!(*self => self->Object_0));
                    assert(decreases_to!(self->Object_0 => self->Object_0@));
                    assert(decreases_to!(self->Object_0@ => self->Object_0@[i as int]));
                    assert(decreases_to!(v@[i as int] => v@[i as int].1));
                    out.push((v[i].0.clone(), v[i].1.clone()));
                    i = i + 1;
                }
                let r = Json::Object(out);
                proof {
                    if let (JsonView::Object(a), JsonView::Object(b)) = (r@, self@) {
                        assert(a =~= b);
                    }
                }
                r
            },
        }
    }
}

} // verus!
