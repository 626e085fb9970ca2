//! What replies and contexts hold.

use vstd::prelude::*;
use crate::json::{json_content, json_text, law_set_reads_back, member, text_views, with_member, JsonView};
use crate::logs::text_of;
use crate::reply::{
    answered_type, is_library, normalized, pool_reply, spliced, spliced_text, strategy_context,
    type_named, type_source_named, with_warning, PkgType, TypeSource,
};

verus! {

/// A text stands for the object or list that it spells; everything else for itself.
pub proof fn law_what_a_text_stands_for(v: JsonView)
    ensures
        !(v is Text) ==> normalized(v) == v,
        v matches JsonView::Text(t) ==> ({
            let c = json_content(t);
            &&& c is Ok && (c->Ok_0 is Object || c->Ok_0 is Array) ==> normalized(v) == c->Ok_0
            &&& !(c is Ok && (c->Ok_0 is Object || c->Ok_0 is Array)) ==> normalized(v) == v
        }),
{
}

/// A context holds the task under `task`, and of the options every member but that.
pub proof fn law_what_a_context_holds(
    opts: Option<JsonView>,
    task: Option<Seq<char>>,
    name: Seq<char>,
)
    ensures
        ({
            let r = strategy_context(opts, task);
            let given = match opts {
                Some(v) => normalized(v).field(name),
                None => None,
            };
            &&& r is Object
            &&& task matches Some(t) ==> r.field("task"@) == Some(JsonView::Text(t))
            &&& name != "task"@ || task is None ==> r.field(name) == given
        }),
{
    let base = match opts {
        Some(v) => match normalized(v) {
            JsonView::Object(ms) => ms,
            _ => Seq::empty(),
        },
        None => Seq::empty(),
    };
    if let Some(t) = task {
        law_set_reads_back(base, "task"@, JsonView::Text(t), "task"@);
        law_set_reads_back(base, "task"@, JsonView::Text(t), name);
    }
    if let Some(v) = opts {
        assert(normalized(v).field(name) == member(normalized(v).members(), name));
    }
}

/// A member is added to a reply that is an object; what is none stays as it is.
pub proof fn law_members_are_added_to_objects(
    json: Seq<char>,
    doc: JsonView,
    name: Seq<char>,
    value: JsonView,
)
    ensures
        json_content(json) matches Ok(d) ==> d is Object ==> spliced_text(json, name, value)
            == json_text(spliced(d, name, value)),
        !(json_content(json) is Ok && json_content(json)->Ok_0 is Object) ==> spliced_text(
            json,
            name,
            value,
        ) == json,
        !(doc is Object) ==> spliced(doc, name, value) == doc,
        doc matches JsonView::Object(ms) ==> spliced(doc, name, value) == JsonView::Object(
            with_member(ms, name, value),
        ),
{
}

/// A warning is added exactly where there is one.
pub proof fn law_warnings_are_added(
    json: Seq<char>,
    name: Seq<char>,
    warning: Option<Seq<char>>,
)
    ensures
        warning is None ==> with_warning(json, name, warning) == json,
        warning matches Some(m) ==> with_warning(json, name, warning) == spliced_text(
            json,
            name,
            JsonView::Text(m),
        ),
{
}

/// The reply of a worker gets the warnings about search paths, about saving and
/// about reading again, each where there is one and in this order.
pub proof fn law_the_reply_of_a_worker(
    json: Seq<char>,
    warnings: Seq<Seq<char>>,
    save_error: Option<Seq<char>>,
    reload_warning: Option<Seq<char>>,
)
    ensures
        ({
            let a = if warnings.len() > 0 {
                spliced_text(json, "lib_path_warnings"@, JsonView::Array(text_views(warnings)))
            } else {
                json
            };
            let b = if save_error is Some {
                spliced_text(a, "pool_save_error"@, JsonView::Text(save_error->Some_0))
            } else {
                a
            };
            pool_reply(json, warnings, save_error, reload_warning) == if reload_warning is Some {
                spliced_text(
                    b,
                    "pool_cache_reload_warning"@,
                    JsonView::Text(reload_warning->Some_0),
                )
            } else {
                b
            }
        }),
{
}

/// What a package is for, and how that is known, is read from its answer where both
/// are named, and by these names only.
pub proof fn law_what_a_package_answers(answer: JsonView, t: Seq<char>)
    ensures
        type_named(t) == Some(PkgType::Runnable) <==> t == "runnable"@,
        type_named(t) == Some(PkgType::Library) <==> t == "library"@,
        type_source_named(t) == Some(TypeSource::Explicit) <==> t == "explicit"@,
        type_source_named(t) == Some(TypeSource::AutoDetectedRunnable) <==> t
            == "auto_detected_runnable"@,
        type_source_named(t) == Some(TypeSource::AutoDetectedLibrary) <==> t
            == "auto_detected_library"@,
        ({
            let a = text_of(answer, "type"@);
            let b = text_of(answer, "type_source"@);
            let known = a is Some && b is Some && type_named(a->Some_0) is Some
                && type_source_named(b->Some_0) is Some;
            &&& answered_type(answer) is Some <==> known
            &&& answered_type(answer) matches Some(x) ==> Some(x.0) == type_named(a->Some_0) && Some(
                x.1,
            ) == type_source_named(b->Some_0)
        }),
{
    reveal_strlit("runnable");
    reveal_strlit("library");
    reveal_strlit("explicit");
    reveal_strlit("auto_detected_runnable");
    reveal_strlit("auto_detected_library");
    assert("runnable"@.len() == 8 && "library"@.len() == 7 && "explicit"@.len() == 8);
    assert("auto_detected_runnable"@.len() == 22 && "auto_detected_library"@.len() == 21);
}

/// A package is known as a library exactly where it is known to be one.
pub proof fn law_what_is_a_library(kind: Option<(PkgType, TypeSource)>)
    ensures
        is_library(kind) <==> kind is Some && kind->Some_0.0 == PkgType::Library,
{
}

} // verus!
