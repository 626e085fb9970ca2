//! The environment that a run sees: what the context asks for, and how the
//! layers stand over each other.

use vstd::prelude::*;
use crate::json::{json_text, member, Json, JsonView};
use crate::name_map::NameMap;
use crate::paths::{absolute, is_absolute, join, joined_path};
use crate::text::{contains_name, opt_str, opt_text, texts};

verus! {

/// What the context asks for.
#[derive(Debug)]
pub struct EnvPlan {
    /// Names and values that stand over all others.
    pub inject: Vec<(String, String)>,
    /// The path of a file with names and values.
    pub dotenv: Option<String>,
    /// The environment of the process is visible.
    pub allow_os: bool,
}

/// Names and values as texts.
pub open spec fn pair_views(v: Seq<(String, String)>) -> Seq<(Seq<char>, Seq<char>)> {
    v.map_values(|p: (String, String)| (p.0@, p.1@))
}

/// The content of an `EnvPlan`.
#[verifier::ext_equal]
pub struct EnvPlanView {
    pub inject: Seq<(Seq<char>, Seq<char>)>,
    pub dotenv: Option<Seq<char>>,
    pub allow_os: bool,
}

impl View for EnvPlan {
    type V = EnvPlanView;

    open spec fn view(&self) -> EnvPlanView {
        EnvPlanView {
            inject: pair_views(self.inject@),
            dotenv: opt_text(self.dotenv),
            allow_os: self.allow_os,
        }
    }
}

/// The members of the environment that the context describes.
pub open spec fn env_members(ctx: JsonView) -> Seq<(Seq<char>, JsonView)> {
    match ctx.field("env"@) {
        Some(JsonView::Object(ms)) => ms,
        _ => Seq::empty(),
    }
}

/// The values of `ms`, which are all texts.
pub open spec fn text_members(ms: Seq<(Seq<char>, JsonView)>) -> Seq<(Seq<char>, Seq<char>)> {
    ms.map_values(
        |m: (Seq<char>, JsonView)|
            (
                m.0,
                match m.1 {
                    JsonView::Text(t) => t,
                    _ => Seq::empty(),
                },
            ),
    )
}

/// The member at `i` is the first whose value is no text.
pub open spec fn first_not_text(ms: Seq<(Seq<char>, JsonView)>, i: int) -> bool {
    &&& 0 <= i < ms.len()
    &&& !(ms[i].1 is Text)
    &&& forall|j: int| 0 <= j < i ==> (#[trigger] ms[j]).1 is Text
}

/// What is injected, or why it cannot be.
pub open spec fn injected(env: Seq<(Seq<char>, JsonView)>) -> Result<
    Seq<(Seq<char>, Seq<char>)>,
    Seq<char>,
> {
    match member(env, "inject"@) {
        None => Ok(Seq::empty()),
        Some(JsonView::Object(ms)) => if exists|i: int| first_not_text(ms, i) {
            let i = choose|i: int| first_not_text(ms, i);
            Err(
                "ctx.env.inject: value for key '"@ + ms[i].0 + "' must be a string, got "@
                    + json_text(ms[i].1),
            )
        } else {
            Ok(text_members(ms))
        },
        Some(v) => Err("ctx.env.inject must be an object, got "@ + json_text(v)),
    }
}

/// The path of the file, or why there is none where one is asked for.
pub open spec fn dotenv_path(env: Seq<(Seq<char>, JsonView)>, root: Option<Seq<char>>) -> Result<
    Option<Seq<char>>,
    Seq<char>,
> {
    match member(env, "dotenv"@) {
        Some(JsonView::Text(p)) => if absolute(p) {
            Ok(Some(p))
        } else {
            match root {
                Some(r) => Ok(Some(joined_path(r, p))),
                None => Err(
                    "ctx.env.dotenv: relative path '"@ + p + "' requires project_root to be set"@,
                ),
            }
        },
        _ => Ok(None),
    }
}

/// What the context asks for, or why it cannot be had.
pub open spec fn planned_env(ctx: JsonView, root: Option<Seq<char>>) -> Result<
    EnvPlanView,
    Seq<char>,
> {
    let env = env_members(ctx);
    match injected(env) {
        Err(e) => Err(e),
        Ok(inject) => match dotenv_path(env, root) {
            Err(e) => Err(e),
            Ok(dotenv) => Ok(
                EnvPlanView {
                    inject,
                    dotenv,
                    allow_os: member(env, "allow_os"@) == Some(JsonView::Bool(true)),
                },
            ),
        },
    }
}

fn inject_of(v: &Json) -> (r: Result<Vec<(String, String)>, String>)
    ensures
        match r {
            Ok(pairs) => v is Object && !(exists|i: int| first_not_text(v@.members(), i))
                && pair_views(pairs@) == text_members(v@.members()),
            Err(m) => if v is Object {
                exists|i: int| #[trigger]
                    first_not_text(v@.members(), i) && m@ == "ctx.env.inject: value for key '"@
                        + v@.members()[i].0 + "' must be a string, got "@ + json_text(
                        v@.members()[i].1,
                    )
            } else {
                m@ == "ctx.env.inject must be an object, got "@ + json_text(v@)
            },
        },
{
    match v {
        Json::Object(ms) => {
            let ghost mv = v@.members();
            let mut out: Vec<(String, String)> = Vec::new();
            let mut i: usize = 0;
            while i < ms.len()
                invariant
                    i <= ms@.len(),
                    *v == Json::Object(*ms),
                    mv == v@.members(),
                    mv.len() == ms@.len(),
                    out@.len() == i,
                    forall|j: int| 0 <= j < i ==> (#[trigger] mv[j]).1 is Text,
                    forall|j: int|
                        0 <= j < i ==> ((#[trigger] out@[j]).0@, out@[j].1@) == text_members(mv)[j],
                decreases ms@.len() - i,
            {
                assert(mv[i as int] == (ms@[i as int].0@, ms@[i as int].1@));
                match &ms[i].1 {
                    Json::Text(t) => {
                        out.push((ms[i].0.clone(), t.clone()));
                    },
                    other => {
                        let shown = other.render();
                        let mut m = "ctx.env.inject: value for key '".to_owned();
                        m.append(ms[i].0.as_str());
                        m.append("' must be a string, got ");
                        m.append(shown.as_str());
                        assert(first_not_text(mv, i as int));
                        return Err(m);
                    },
                }
                i = i + 1;
            }
            assert(pair_views(out@) =~= text_members(mv));
            Ok(out)
        },
        other => {
            let shown = other.render();
            let mut m = "ctx.env.inject must be an object, got ".to_owned();
            m.append(shown.as_str());
            Err(m)
        },
    }
}

proof fn lemma_first_not_text(ms: Seq<(Seq<char>, JsonView)>, i: int, j: int)
    requires
        first_not_text(ms, i),
        first_not_text(ms, j),
    ensures
        i == j,
{
    if i < j {
        assert(ms[i].1 is Text);
    } else if j < i {
        assert(ms[j].1 is Text);
    }
}

/// What the context asks for. A relative path is taken from the project root.
pub fn plan_env(ctx: &Json, project_root: Option<&str>) -> (r: Result<EnvPlan, String>)
    ensures
        match r {
            Ok(p) => planned_env(ctx@, opt_str(project_root)) == Ok::<EnvPlanView, Seq<char>>(p@),
            Err(m) => planned_env(ctx@, opt_str(project_root)) == Err::<EnvPlanView, Seq<char>>(
                m@,
            ),
        },
{
    let ghost env = env_members(ctx@);
    let none = Json::object();
    let e: &Json = match ctx.get("env") {
        Some(v) => match v {
            Json::Object(_) => v,
            _ => &none,
        },
        None => &none,
    };
    assert(e@.members() =~= env);
    let inject: Vec<(String, String)> = match e.get("inject") {
        None => Vec::new(),
        Some(v) => match inject_of(v) {
            Ok(p) => p,
            Err(m) => {
                proof {
                    if v is Object {
                        let i = choose|i: int| #[trigger]
                            first_not_text(v@.members(), i) && m@
                                == "ctx.env.inject: value for key '"@ + v@.members()[i].0
                                + "' must be a string, got "@ + json_text(v@.members()[i].1);
                        let c = choose|c: int| first_not_text(v@.members(), c);
                        lemma_first_not_text(v@.members(), i, c);
                    }
                }
                return Err(m);
            },
        },
    };
    assert(injected(env) == Ok::<Seq<(Seq<char>, Seq<char>)>, Seq<char>>(pair_views(inject@))) by {
        if member(env, "inject"@) is None {
            assert(pair_views(inject@) =~= Seq::empty());
        }
    }
    let dotenv = match e.get("dotenv") {
        Some(Json::Text(p)) => if is_absolute(p.as_str()) {
            Some(p.clone())
        } else {
            match project_root {
                Some(root) => Some(join(root, p.as_str())),
                None => {
                    let mut m = "ctx.env.dotenv: relative path '".to_owned();
                    m.append(p.as_str());
                    m.append("' requires project_root to be set");
                    return Err(m);
                },
            }
        },
        _ => None,
    };
    let allow_os = match e.get("allow_os") {
        Some(Json::Bool(b)) => *b,
        _ => false,
    };
    Ok(EnvPlan { inject, dotenv, allow_os })
}

// ─── Layers ─────────────────────────────────────────────────────

/// `m` with each of `pairs` set, the later ones over the earlier.
pub open spec fn with_all(m: Map<Seq<char>, String>, pairs: Seq<(String, String)>) -> Map<
    Seq<char>,
    String,
>
    decreases pairs.len(),
{
    if pairs.len() == 0 {
        m
    } else {
        with_all(m, pairs.drop_last()).insert(pairs.last().0@, pairs.last().1)
    }
}

/// The name may be seen: it is listed, or there is no list.
pub open spec fn may_see(allow: Option<Seq<Seq<char>>>, name: Seq<char>) -> bool {
    match allow {
        Some(names) => names.contains(name),
        None => true,
    }
}

/// The listed names as texts.
pub open spec fn listed_names(allow: Option<&Vec<String>>) -> Option<Seq<Seq<char>>> {
    match allow {
        Some(v) => Some(texts(v@)),
        None => None,
    }
}

/// The layers over each other, process environment lowest, without the names
/// that may not be seen.
pub open spec fn layered(
    os: Seq<(String, String)>,
    dotenv: Seq<(String, String)>,
    inject: Seq<(String, String)>,
    allow: Option<Seq<Seq<char>>>,
) -> Map<Seq<char>, String> {
    let all = with_all(with_all(with_all(Map::empty(), os), dotenv), inject);
    all.restrict(Set::new(|k: Seq<char>| may_see(allow, k)))
}

fn set_all(m: &mut NameMap<String>, pairs: &Vec<(String, String)>)
    ensures
        final(m)@ == with_all(old(m)@, pairs@),
{
    let ghost m0 = m@;
    let mut i: usize = 0;
    assert(pairs@.take(0) =~= Seq::empty());
    while i < pairs.len()
        invariant
            i <= pairs@.len(),
            m@ == with_all(m0, pairs@.take(i as int)),
        decreases pairs@.len() - i,
    {
        assert(pairs@.take(i + 1).drop_last() =~= pairs@.take(i as int));
        m.insert(pairs[i].0.clone(), pairs[i].1.clone());
        i = i + 1;
    }
    assert(pairs@.take(pairs@.len() as int) =~= pairs@);
}

/// The layers over each other: what is injected over the file, the file over
/// the process environment. Where there is a list only the listed names are
/// kept, none for an empty one.
pub fn merge_env(
    os: &Vec<(String, String)>,
    dotenv: &Vec<(String, String)>,
    inject: &Vec<(String, String)>,
    allow: Option<&Vec<String>>,
) -> (r: NameMap<String>)
    ensures
        r@ == layered(os@, dotenv@, inject@, listed_names(allow)),
{
    let mut all: NameMap<String> = NameMap::new();
    set_all(&mut all, os);
    set_all(&mut all, dotenv);
    set_all(&mut all, inject);
    let ghost m = all@;
    let ghost seen = Set::new(|k: Seq<char>| may_see(listed_names(allow), k));
    let names = match allow {
        Some(v) => v,
        None => {
            assert(m.restrict(seen) =~= m);
            return all;
        },
    };
    let ghost keys = all.keys();
    let mut out: NameMap<String> = NameMap::new();
    let n: usize = all.len();
    let mut i: usize = 0;
    while i < n
        invariant
            i <= n,
            n == keys.len(),
            keys == all.keys(),
            m == all@,
            listed_names(allow) == Some(texts(names@)),
            forall|k: Seq<char>| #[trigger] m.dom().contains(k) <==> keys.contains(k),
            forall|k: Seq<char>| #[trigger]
                out@.dom().contains(k) <==> may_see(listed_names(allow), k) && keys.take(
                    i as int,
                ).contains(k),
            forall|k: Seq<char>| #[trigger] out@.dom().contains(k) ==> out@[k] == m[k],
        decreases n - i,
    {
        let (k, v) = all.at(i);
        let ghost before = out@;
        let ghost ki = keys[i as int];
        proof {
            assert forall|t: Seq<char>| #[trigger] keys.take(i + 1).contains(t) <==> keys.take(
                i as int,
            ).contains(t) || t == ki by {
                let a = keys.take(i as int);
                let b = keys.take(i + 1);
                assert(b =~= a.push(ki));
                if a.contains(t) {
                    let j = choose|j: int| 0 <= j < a.len() && a[j] == t;
                    assert(b[j] == t);
                }
                if t == ki {
                    assert(b[i as int] == t);
                }
            }
        }
        if contains_name(names, k.as_str()) {
            out.insert(k.clone(), v.clone());
        }
        i = i + 1;
    }
    proof {
        assert(keys.take(n as int) =~= keys);
        assert forall|k: Seq<char>| #[trigger] out@.dom().contains(k) <==> m.restrict(
            seen,
        ).dom().contains(k) by {
            assert(m.dom().contains(k) <==> keys.contains(k));
        }
        assert(out@ =~= m.restrict(seen));
    }
    out
}

/// What `dotenvy::from_read_iter` reads in a file: each name in its order, with
/// its value where that refers to no other name, or the text of the first
/// error. The file alone decides all of it.
pub uninterp spec fn dotenv_content(file: Seq<u8>) -> Result<
    Seq<(Seq<char>, Option<Seq<char>>)>,
    Seq<char>,
>;

/// The byte that starts a reference to another name.
pub open spec fn refers(file: Seq<u8>) -> bool {
    file.contains(0x24)
}

/// The pair has the name of the entry `e`, and its value where `e` has one.
/// Where `plain` says so `e` has one.
pub open spec fn is_entry(e: (Seq<char>, Option<Seq<char>>), pair: (String, String), plain: bool) -> bool {
    &&& pair.0@ == e.0
    &&& plain || e.1 is Some ==> e.1 == Some(pair.1@)
}

/// The pairs are those of the entries, one by one.
pub open spec fn are_entries(
    entries: Seq<(Seq<char>, Option<Seq<char>>)>,
    pairs: Seq<(String, String)>,
    plain: bool,
) -> bool {
    &&& pairs.len() == entries.len()
    &&& forall|i: int| 0 <= i < pairs.len() ==> is_entry(entries[i], #[trigger] pairs[i], plain)
}

/// `pairs` may be what the file holds: they have its names, in its order, and
/// its values but for those that refer to another name.
pub open spec fn may_hold(file: Seq<u8>, pairs: Seq<(String, String)>) -> bool {
    match dotenv_content(file) {
        Ok(entries) => are_entries(entries, pairs, !refers(file)),
        Err(_) => false,
    }
}

/// `dotenvy::from_read_iter`: the names and values that the file holds, or the
/// text of the first error. What the file holds decides whether it can be read,
/// the error, the names, and each value that refers to no other name; in a file
/// without a `$` no value does. What a value with a reference comes to is left
/// unsaid: the name may be one of the process environment. A file without a
/// byte holds nothing.
#[verifier::external_body]
fn parse_dotenv(file: &[u8]) -> (r: Result<Vec<(String, String)>, String>)
    ensures
        match r {
            Ok(v) => may_hold(file@, v@),
            Err(e) => dotenv_content(file@) == Err::<
                Seq<(Seq<char>, Option<Seq<char>>)>,
                Seq<char>,
            >(e@),
        },
        file@.len() == 0 ==> r is Ok && r->Ok_0@.len() == 0,
{
    dotenvy::from_read_iter(file).collect::<Result<Vec<(String, String)>, dotenvy::Error>>().map_err(
        |e| e.to_string(),
    )
}

/// `m` is the error about the file at `path`, which holds `file`.
pub open spec fn is_parse_error(m: Seq<char>, path: Seq<char>, file: Seq<u8>) -> bool {
    match dotenv_content(file) {
        Ok(_) => false,
        Err(cause) => m == parse_error(path, cause),
    }
}

/// The error about the file at `path` for the given cause.
pub open spec fn parse_error(path: Seq<char>, cause: Seq<char>) -> Seq<char> {
    "ctx.env.dotenv: parse error in '"@ + path + "': "@ + cause
}

/// `m` is the environment for the plan `p`, where the file that it names holds
/// `file`.
pub open spec fn is_resolved_env(
    m: Map<Seq<char>, String>,
    p: EnvPlan,
    os: Seq<(String, String)>,
    file: Seq<u8>,
    allow: Option<Seq<Seq<char>>>,
) -> bool {
    exists|pairs: Seq<(String, String)>|
        (if p.dotenv is Some {
            may_hold(file, pairs)
        } else {
            pairs.len() == 0
        }) && m == #[trigger] layered(visible_os(p, os), pairs, p.inject@, allow)
}

/// The environment of the process, as far as the plan lets it be seen.
pub open spec fn visible_os(p: EnvPlan, os: Seq<(String, String)>) -> Seq<(String, String)> {
    if p.allow_os {
        os
    } else {
        Seq::empty()
    }
}

fn parse_error_text(path: &str, cause: &str) -> (r: String)
    ensures
        r@ == parse_error(path@, cause@),
{
    let mut m = "ctx.env.dotenv: parse error in '".to_owned();
    m.append(path);
    m.append("': ");
    m.append(cause);
    m
}

/// What came of reading the file that a plan names.
#[derive(Debug)]
pub enum EnvFile {
    /// It could not be opened, for the given cause.
    Unopened(String),
    /// It was opened and could not be read, for the given cause.
    Unread(String),
    Read(Vec<u8>),
}

/// What the file holds; nothing where it was not read.
pub open spec fn file_content(file: EnvFile) -> Seq<u8> {
    match file {
        EnvFile::Read(v) => v@,
        _ => Seq::empty(),
    }
}

/// The environment that a run sees. `os` is the environment of the process,
/// `dotenv` what came of reading the file that the plan names; without such a
/// file it does not matter.
pub fn resolve_env(
    plan: &EnvPlan,
    os: &Vec<(String, String)>,
    dotenv: &EnvFile,
    allow: Option<&Vec<String>>,
) -> (r: Result<NameMap<String>, String>)
    ensures
        match r {
            Ok(m) => is_resolved_env(m@, *plan, os@, file_content(*dotenv), listed_names(allow)) && (
            plan.dotenv is Some ==> dotenv is Read),
            Err(m) => match plan.dotenv {
                None => false,
                Some(path) => match *dotenv {
                    EnvFile::Unopened(e) => m@ == "ctx.env.dotenv: failed to open '"@ + path@ + "': "@
                        + e@,
                    EnvFile::Unread(e) => m@ == parse_error(path@, e@),
                    EnvFile::Read(file) => file@.len() > 0 && is_parse_error(m@, path@, file@),
                },
            },
        },
        r is Err <==> plan.dotenv is Some && match *dotenv {
            EnvFile::Read(file) => dotenv_content(file@) is Err,
            _ => true,
        },
{
    let none: Vec<(String, String)> = Vec::new();
    let mut pairs: Vec<(String, String)> = Vec::new();
    if let Some(path) = &plan.dotenv {
        match dotenv {
            EnvFile::Unopened(e) => {
                let mut m = "ctx.env.dotenv: failed to open '".to_owned();
                m.append(path.as_str());
                m.append("': ");
                m.append(e.as_str());
                return Err(m);
            },
            EnvFile::Unread(e) => {
                return Err(parse_error_text(path.as_str(), e.as_str()));
            },
            EnvFile::Read(bytes) => match parse_dotenv(bytes.as_slice()) {
                Ok(v) => {
                    pairs = v;
                },
                Err(e) => {
                    return Err(parse_error_text(path.as_str(), e.as_str()));
                },
            },
        }
    }
    let r = if plan.allow_os {
        merge_env(os, &pairs, &plan.inject, allow)
    } else {
        assert(none@ =~= Seq::empty());
        merge_env(&none, &pairs, &plan.inject, allow)
    };
    assert(is_resolved_env(r@, *plan, os@, file_content(*dotenv), listed_names(allow))) by {
        assert(r@ == layered(
            visible_os(*plan, os@),
            pairs@,
            plan.inject@,
            listed_names(allow),
        ));
    }
    Ok(r)
}

// ─── Laws ───────────────────────────────────────────────────────

/// Some pair of `v` has the name `k`.
pub open spec fn names_it(v: Seq<(String, String)>, k: Seq<char>) -> bool {
    exists|i: int| 0 <= i < v.len() && (#[trigger] v[i]).0@ == k
}

proof fn lemma_with_all(m: Map<Seq<char>, String>, v: Seq<(String, String)>, k: Seq<char>)
    ensures
        with_all(m, v).dom().contains(k) <==> m.dom().contains(k) || names_it(v, k),
        !names_it(v, k) ==> with_all(m, v)[k] == m[k],
        names_it(v, k) ==> with_all(m, v)[k] == with_all(Map::empty(), v)[k],
    decreases v.len(),
{
    if v.len() == 0 {
        assert(!names_it(v, k));
    } else {
        let d = v.drop_last();
        lemma_with_all(m, d, k);
        let n = v.len() - 1;
        if v[n].0@ == k {
            assert(names_it(v, k));
        } else {
            assert(names_it(v, k) <==> names_it(d, k)) by {
                if names_it(v, k) {
                    let i = choose|i: int| 0 <= i < v.len() && (#[trigger] v[i]).0@ == k;
                    assert(d[i].0@ == k);
                }
                if names_it(d, k) {
                    let i = choose|i: int| 0 <= i < d.len() && (#[trigger] d[i]).0@ == k;
                    assert(v[i].0@ == k);
                }
            }
        }
    }
}

/// What is injected stands over the file and over the process environment.
pub proof fn law_inject_wins(
    os: Seq<(String, String)>,
    dotenv: Seq<(String, String)>,
    inject: Seq<(String, String)>,
    allow: Option<Seq<Seq<char>>>,
    k: Seq<char>,
)
    requires
        names_it(inject, k),
        may_see(allow, k),
    ensures
        layered(os, dotenv, inject, allow).dom().contains(k),
        layered(os, dotenv, inject, allow)[k] == with_all(Map::empty(), inject)[k],
{
    lemma_with_all(with_all(with_all(Map::empty(), os), dotenv), inject, k);
}

/// The file stands over the process environment.
pub proof fn law_dotenv_wins_over_os(
    os: Seq<(String, String)>,
    dotenv: Seq<(String, String)>,
    inject: Seq<(String, String)>,
    allow: Option<Seq<Seq<char>>>,
    k: Seq<char>,
)
    requires
        names_it(dotenv, k),
        !names_it(inject, k),
        may_see(allow, k),
    ensures
        layered(os, dotenv, inject, allow).dom().contains(k),
        layered(os, dotenv, inject, allow)[k] == with_all(Map::empty(), dotenv)[k],
{
    lemma_with_all(with_all(with_all(Map::empty(), os), dotenv), inject, k);
    lemma_with_all(with_all(Map::empty(), os), dotenv, k);
}

/// Every name of the file is seen that may be, whatever its values refer to;
/// where nothing is injected for it, the last entry of the name that stands for
/// itself gives its value.
pub proof fn law_file_names_are_seen(
    m: Map<Seq<char>, String>,
    p: EnvPlan,
    os: Seq<(String, String)>,
    file: Seq<u8>,
    allow: Option<Seq<Seq<char>>>,
    i: int,
)
    requires
        is_resolved_env(m, p, os, file, allow),
        p.dotenv is Some,
        dotenv_content(file) is Ok,
        0 <= i < dotenv_content(file)->Ok_0.len(),
        may_see(allow, dotenv_content(file)->Ok_0[i].0),
    ensures
        ({
            let entries = dotenv_content(file)->Ok_0;
            let k = entries[i].0;
            &&& m.dom().contains(k)
            &&& !names_it(p.inject@, k) && entries[i].1 is Some && (forall|j: int|
                i < j < entries.len() ==> (#[trigger] entries[j]).0 != k) ==> Some(m[k]@)
                == entries[i].1
        }),
{
    let entries = dotenv_content(file)->Ok_0;
    let k = entries[i].0;
    let pairs = choose|pairs: Seq<(String, String)>|
        may_hold(file, pairs) && m == #[trigger] layered(visible_os(p, os), pairs, p.inject@, allow);
    assert(is_entry(entries[i], pairs[i], !refers(file)));
    assert(names_it(pairs, k));
    let below = with_all(Map::empty(), visible_os(p, os));
    lemma_with_all(with_all(below, pairs), p.inject@, k);
    lemma_with_all(below, pairs, k);
    if forall|j: int| i < j < entries.len() ==> (#[trigger] entries[j]).0 != k {
        assert forall|j: int| i < j < pairs.len() implies (#[trigger] pairs[j]).0@ != k by {
            assert(is_entry(entries[j], pairs[j], !refers(file)));
        }
        lemma_last_counts(Map::empty(), pairs, i);
    }
}

/// Of the pairs of one name the last gives the value.
proof fn lemma_last_counts(m: Map<Seq<char>, String>, v: Seq<(String, String)>, i: int)
    requires
        0 <= i < v.len(),
        forall|j: int| i < j < v.len() ==> (#[trigger] v[j]).0@ != v[i].0@,
    ensures
        with_all(m, v)[v[i].0@] == v[i].1,
    decreases v.len(),
{
    if i < v.len() - 1 {
        let d = v.drop_last();
        assert(v[v.len() - 1].0@ != v[i].0@);
        lemma_last_counts(m, d, i);
    }
}

/// Nothing is seen that no layer holds or that is not listed.
pub proof fn law_nothing_else_is_seen(
    os: Seq<(String, String)>,
    dotenv: Seq<(String, String)>,
    inject: Seq<(String, String)>,
    allow: Option<Seq<Seq<char>>>,
    k: Seq<char>,
)
    requires
        layered(os, dotenv, inject, allow).dom().contains(k),
    ensures
        names_it(os, k) || names_it(dotenv, k) || names_it(inject, k),
        may_see(allow, k),
{
    lemma_with_all(with_all(with_all(Map::empty(), os), dotenv), inject, k);
    lemma_with_all(with_all(Map::empty(), os), dotenv, k);
    lemma_with_all(Map::empty(), os, k);
}

/// A list keeps of what is seen without one exactly the listed names, each with
/// its value; an empty list keeps nothing.
pub proof fn law_list_filters_exactly(
    os: Seq<(String, String)>,
    dotenv: Seq<(String, String)>,
    inject: Seq<(String, String)>,
    names: Seq<Seq<char>>,
    k: Seq<char>,
)
    ensures
        layered(os, dotenv, inject, Some(names)).dom().contains(k) <==> layered(
            os,
            dotenv,
            inject,
            None,
        ).dom().contains(k) && names.contains(k),
        layered(os, dotenv, inject, Some(names)).dom().contains(k) ==> layered(
            os,
            dotenv,
            inject,
            Some(names),
        )[k] == layered(
            os,
            dotenv,
            inject,
            None,
        )[k],
        names.len() == 0 ==> layered(os, dotenv, inject, Some(names)) == Map::<
            Seq<char>,
            String,
        >::empty(),
{
    let all = with_all(with_all(with_all(Map::empty(), os), dotenv), inject);
    assert(layered(os, dotenv, inject, None) =~= all);
    if names.len() == 0 {
        assert(layered(os, dotenv, inject, Some(names)) =~= Map::<Seq<char>, String>::empty());
    }
}

} // verus!
