//! What a run sees of the environment.

use vstd::prelude::*;
use crate::env::{
    dotenv_content, dotenv_path, env_members, file_content, first_not_text, injected, is_entry,
    is_resolved_env, layered, may_hold, names_it, parse_error, planned_env, refers, text_members,
    visible_os, with_all, EnvFile, EnvPlan,
};
use crate::json::{json_text, member, JsonView};
use crate::paths::{absolute, joined_path};

verus! {

/// What the context describes is its `env`, where that is an object.
pub proof fn law_where_the_environment_is_described(ctx: JsonView)
    ensures
        ctx.field("env"@) matches Some(JsonView::Object(ms)) ==> env_members(ctx) == ms,
        !(ctx.field("env"@) matches Some(JsonView::Object(ms)) && true) ==> env_members(ctx).len()
            == 0,
{
}

/// What is injected are the texts of an object, each under its name; a value that
/// is no text, and anything but an object, is refused.
pub proof fn law_what_is_injected(env: Seq<(Seq<char>, JsonView)>, ms: Seq<(Seq<char>, JsonView)>, i: int)
    ensures
        member(env, "inject"@) is None ==> injected(env) == Ok::<
            Seq<(Seq<char>, Seq<char>)>,
            Seq<char>,
        >(Seq::empty()),
        member(env, "inject"@) matches Some(v) ==> !(v is Object) ==> injected(env) == Err::<
            Seq<(Seq<char>, Seq<char>)>,
            Seq<char>,
        >("ctx.env.inject must be an object, got "@ + json_text(v)),
        member(env, "inject"@) == Some(JsonView::Object(ms)) ==> (injected(env) is Ok <==> forall|
            j: int,
        |
            0 <= j < ms.len() ==> (#[trigger] ms[j]).1 is Text),
        member(env, "inject"@) == Some(JsonView::Object(ms)) && injected(env) is Ok ==> injected(
            env,
        )->Ok_0.len() == ms.len() && (0 <= i < ms.len() ==> (ms[i].1 matches JsonView::Text(t)
            && injected(env)->Ok_0[i] == (ms[i].0, t))),
        member(env, "inject"@) == Some(JsonView::Object(ms)) && 0 <= i < ms.len() && !(ms[i].1
            is Text) && (forall|j: int| 0 <= j < i ==> (#[trigger] ms[j]).1 is Text) ==> injected(env)
            == Err::<Seq<(Seq<char>, Seq<char>)>, Seq<char>>(
            "ctx.env.inject: value for key '"@ + ms[i].0 + "' must be a string, got "@ + json_text(
                ms[i].1,
            ),
        ),
{
    if member(env, "inject"@) == Some(JsonView::Object(ms)) {
        if exists|k: int| first_not_text(ms, k) {
            let k = choose|k: int| first_not_text(ms, k);
            assert(!(ms[k].1 is Text));
            if 0 <= i < ms.len() && !(ms[i].1 is Text) && (forall|j: int|
                0 <= j < i ==> (#[trigger] ms[j]).1 is Text) {
                assert(i == k);
            }
        } else {
            assert forall|j: int| 0 <= j < ms.len() implies (#[trigger] ms[j]).1 is Text by {
                if !(ms[j].1 is Text) {
                    lemma_first_not_text_is_there(ms, j);
                }
            }
            if 0 <= i < ms.len() {
                assert(ms[i].1 is Text);
                assert(text_members(ms)[i] == (ms[i].0, ms[i].1->Text_0));
            }
        }
    }
}

proof fn lemma_first_not_text_is_there(ms: Seq<(Seq<char>, JsonView)>, j: int)
    requires
        0 <= j < ms.len(),
        !(ms[j].1 is Text),
    ensures
        exists|k: int| first_not_text(ms, k),
    decreases j,
{
    if exists|i: int| 0 <= i < j && !((#[trigger] ms[i]).1 is Text) {
        let i = choose|i: int| 0 <= i < j && !((#[trigger] ms[i]).1 is Text);
        lemma_first_not_text_is_there(ms, i);
    } else {
        assert(first_not_text(ms, j));
    }
}

/// The file is at the path that is named, taken below the project where it is
/// relative; a relative path without a project is refused, and no file is read
/// where none is named.
pub proof fn law_where_the_file_is(
    env: Seq<(Seq<char>, JsonView)>,
    root: Option<Seq<char>>,
    p: Seq<char>,
)
    ensures
        member(env, "dotenv"@) == Some(JsonView::Text(p)) && absolute(p) ==> dotenv_path(env, root)
            == Ok::<Option<Seq<char>>, Seq<char>>(Some(p)),
        member(env, "dotenv"@) == Some(JsonView::Text(p)) && !absolute(p) ==> (root matches Some(r)
            ==> dotenv_path(env, root) == Ok::<Option<Seq<char>>, Seq<char>>(
            Some(joined_path(r, p)),
        )),
        member(env, "dotenv"@) == Some(JsonView::Text(p)) && !absolute(p) && root is None
            ==> dotenv_path(env, root) == Err::<Option<Seq<char>>, Seq<char>>(
            "ctx.env.dotenv: relative path '"@ + p + "' requires project_root to be set"@,
        ),
        !(member(env, "dotenv"@) matches Some(JsonView::Text(t)) && true) ==> dotenv_path(env, root)
            == Ok::<Option<Seq<char>>, Seq<char>>(None),
{
}

/// A plan is made exactly where what is injected and the file's path can be had; it
/// holds both, and lets the process environment be seen exactly where that is
/// asked for.
pub proof fn law_what_is_planned(ctx: JsonView, root: Option<Seq<char>>)
    ensures
        ({
            let env = env_members(ctx);
            let r = planned_env(ctx, root);
            &&& r is Ok <==> injected(env) is Ok && dotenv_path(env, root) is Ok
            &&& injected(env) is Err ==> r->Err_0 == injected(env)->Err_0
            &&& injected(env) is Ok && dotenv_path(env, root) is Err ==> r->Err_0 == dotenv_path(
                env,
                root,
            )->Err_0
            &&& r matches Ok(p) ==> p.inject == injected(env)->Ok_0 && p.dotenv == dotenv_path(
                env,
                root,
            )->Ok_0 && (p.allow_os <==> member(env, "allow_os"@) == Some(JsonView::Bool(true)))
        }),
{
}

/// One more pair stands over all before it and leaves the other names alone.
pub proof fn law_later_pairs_win(
    m: Map<Seq<char>, String>,
    pairs: Seq<(String, String)>,
    p: (String, String),
)
    ensures
        with_all(m, Seq::empty()) == m,
        with_all(m, pairs.push(p)) == with_all(m, pairs).insert(p.0@, p.1),
{
    assert(pairs.push(p).drop_last() =~= pairs);
}

/// A name is seen exactly where some layer holds it and it may be seen; where only
/// the process environment holds it, with the value that it has there.
pub proof fn law_what_is_seen(
    os: Seq<(String, String)>,
    dotenv: Seq<(String, String)>,
    inject: Seq<(String, String)>,
    allow: Option<Seq<Seq<char>>>,
    k: Seq<char>,
)
    ensures
        layered(os, dotenv, inject, allow).dom().contains(k) <==> (allow is None
            || allow->Some_0.contains(k)) && (names_it(os, k) || names_it(dotenv, k) || names_it(
            inject,
            k,
        )),
        layered(os, dotenv, inject, allow).dom().contains(k) && !names_it(dotenv, k) && !names_it(
            inject,
            k,
        ) ==> layered(os, dotenv, inject, allow)[k] == with_all(Map::empty(), os)[k],
{
    lemma_pairs_are_set(Map::empty(), os, k);
    let a = with_all(Map::empty(), os);
    lemma_pairs_are_set(a, dotenv, k);
    let b = with_all(a, dotenv);
    lemma_pairs_are_set(b, inject, k);
}

proof fn lemma_pairs_are_set(m: Map<Seq<char>, String>, v: Seq<(String, String)>, k: Seq<char>)
    ensures
        with_all(m, v).dom().contains(k) <==> m.dom().contains(k) || names_it(v, k),
        !names_it(v, k) ==> with_all(m, v)[k] == m[k],
    decreases v.len(),
{
    if v.len() > 0 {
        let rest = v.drop_last();
        lemma_pairs_are_set(m, rest, k);
        if names_it(rest, k) {
            let i = choose|i: int| 0 <= i < rest.len() && (#[trigger] rest[i]).0@ == k;
            assert(v[i].0@ == k);
        }
        if names_it(v, k) && !names_it(rest, k) {
            let i = choose|i: int| 0 <= i < v.len() && (#[trigger] v[i]).0@ == k;
            if i < rest.len() {
                assert(rest[i].0@ == k);
            }
        }
        assert(v[v.len() - 1] == v.last());
    }
}

/// Without a file the environment is what is injected over what the plan lets be seen
/// of the process environment; with one, its names are seen between the two.
pub proof fn law_what_a_plan_resolves_to(
    m: Map<Seq<char>, String>,
    p: EnvPlan,
    os: Seq<(String, String)>,
    file: Seq<u8>,
    allow: Option<Seq<Seq<char>>>,
    k: Seq<char>,
)
    requires
        is_resolved_env(m, p, os, file, allow),
    ensures
        p.dotenv is None ==> m == layered(visible_os(p, os), Seq::empty(), p.inject@, allow),
        p.dotenv is Some ==> dotenv_content(file) is Ok && (m.dom().contains(k) <==> (allow is None
            || allow->Some_0.contains(k)) && (names_it(visible_os(p, os), k) || names_it(p.inject@, k)
            || exists|i: int|
            0 <= i < dotenv_content(file)->Ok_0.len() && (#[trigger] dotenv_content(
                file,
            )->Ok_0[i]).0 == k)),
{
    let pairs = choose|pairs: Seq<(String, String)>|
        (if p.dotenv is Some {
            may_hold(file, pairs)
        } else {
            pairs.len() == 0
        }) && m == #[trigger] layered(visible_os(p, os), pairs, p.inject@, allow);
    if p.dotenv is None {
        assert(pairs =~= Seq::empty());
    } else {
        let entries = dotenv_content(file)->Ok_0;
        law_what_is_seen(visible_os(p, os), pairs, p.inject@, allow, k);
        if names_it(pairs, k) {
            let i = choose|i: int| 0 <= i < pairs.len() && (#[trigger] pairs[i]).0@ == k;
            assert(is_entry(entries[i], pairs[i], !refers(file)));
            assert(entries[i].0 == k);
        }
        if exists|i: int| 0 <= i < entries.len() && (#[trigger] entries[i]).0 == k {
            let i = choose|i: int| 0 <= i < entries.len() && (#[trigger] entries[i]).0 == k;
            assert(is_entry(entries[i], pairs[i], !refers(file)));
            assert(pairs[i].0@ == k);
        }
    }
}

/// What a file holds are its entries, one by one and by name; of a file without a
/// reference every value too, and of any the values that refer to nothing.
pub proof fn law_what_a_file_may_hold(file: Seq<u8>, pairs: Seq<(String, String)>, i: int)
    requires
        may_hold(file, pairs),
        0 <= i < pairs.len(),
    ensures
        ({
            let entries = dotenv_content(file)->Ok_0;
            &&& dotenv_content(file) is Ok && pairs.len() == entries.len()
            &&& pairs[i].0@ == entries[i].0
            &&& entries[i].1 matches Some(t) ==> pairs[i].1@ == t
            &&& !file.contains(0x24u8) ==> entries[i].1 == Some(pairs[i].1@)
        }),
{
    assert(is_entry(dotenv_content(file)->Ok_0[i], pairs[i], !refers(file)));
}

/// The process environment is seen exactly where the plan lets it be, and a file
/// that was not read holds nothing.
pub proof fn law_what_the_layers_are(p: EnvPlan, os: Seq<(String, String)>, file: EnvFile)
    ensures
        p.allow_os ==> visible_os(p, os) == os,
        !p.allow_os ==> visible_os(p, os).len() == 0,
        file matches EnvFile::Read(v) ==> file_content(file) == v@,
        !(file is Read) ==> file_content(file).len() == 0,
{
}

/// An error about a file names its path and the cause.
pub proof fn law_file_errors_are_told(path: Seq<char>, cause: Seq<char>)
    ensures
        parse_error(path, cause) == "ctx.env.dotenv: parse error in '"@ + path + "': "@ + cause,
{
}

} // verus!
