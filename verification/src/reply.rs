//! Replies of a run: warnings that are added to them, contexts that are made
//! for a strategy, and where a response is sent.

use vstd::prelude::*;
use crate::json::{json_content, json_text, text_views, with_member, Json, JsonView};
use crate::logs::{get_text, text_of};
use crate::text::{opt_str, opt_text, str_eq, texts};

verus! {

// ─── Contexts ───────────────────────────────────────────────────

/// `v`, or what it spells where it is the text of an object or a list.
pub open spec fn normalized(v: JsonView) -> JsonView {
    match v {
        JsonView::Text(t) => match json_content(t) {
            Ok(JsonView::Object(ms)) => JsonView::Object(ms),
            Ok(JsonView::Array(a)) => JsonView::Array(a),
            _ => v,
        },
        _ => v,
    }
}

/// `v`, or the object or list that it spells where it is a text that spells one.
pub fn normalize_stringified_json_object(v: Json) -> (r: Json)
    ensures
        r@ == normalized(v@),
{
    let read = match &v {
        Json::Text(t) => Json::parse(t.as_str()),
        _ => {
            return v;
        },
    };
    match read {
        Ok(doc) => match &doc {
            Json::Object(_) | Json::Array(_) => doc,
            _ => v,
        },
        Err(_) => v,
    }
}

/// A text that spells an object or a list is read once: reading again changes
/// nothing.
pub proof fn law_normalizing_is_idempotent(v: JsonView)
    ensures
        normalized(normalized(v)) == normalized(v),
{
}

/// The context of a strategy: the options where they are an object, with the
/// task.
pub open spec fn strategy_context(opts: Option<JsonView>, task: Option<Seq<char>>) -> JsonView {
    let base = match opts {
        Some(v) => match normalized(v) {
            JsonView::Object(ms) => ms,
            _ => Seq::empty(),
        },
        None => Seq::empty(),
    };
    JsonView::Object(
        match task {
            Some(t) => with_member(base, "task"@, JsonView::Text(t)),
            None => base,
        },
    )
}

/// The context of a strategy: the options where they are an object, with the
/// task.
pub fn make_context(opts: Option<Json>, task: Option<&str>) -> (r: Json)
    ensures
        r@ == strategy_context(
            match opts {
                Some(o) => Some(o@),
                None => None,
            },
            opt_str(task),
        ),
{
    let base = match opts {
        Some(v) => {
            let n = normalize_stringified_json_object(v);
            match &n {
                Json::Object(_) => n,
                _ => Json::object(),
            }
        },
        None => Json::object(),
    };
    match task {
        Some(t) => base.set("task", Json::text(t)),
        None => base,
    }
}

// ─── Warnings ───────────────────────────────────────────────────

/// `doc` with `value` as its member `name`; anything but an object stays as it
/// is.
pub open spec fn spliced(doc: JsonView, name: Seq<char>, value: JsonView) -> JsonView {
    match doc {
        JsonView::Object(ms) => JsonView::Object(with_member(ms, name, value)),
        _ => doc,
    }
}

/// The reply `json` with `value` as its member `name`; what is not an object
/// stays as it is.
pub open spec fn spliced_text(json: Seq<char>, name: Seq<char>, value: JsonView) -> Seq<char> {
    match json_content(json) {
        Ok(JsonView::Object(ms)) => json_text(JsonView::Object(with_member(ms, name, value))),
        _ => json,
    }
}

/// The object `doc` with `value` as its member `name`; anything else as it is.
pub fn splice(doc: Json, name: &str, value: Json) -> (r: Json)
    ensures
        r@ == spliced(doc@, name@, value@),
{
    match &doc {
        Json::Object(_) => {},
        _ => {
            return doc;
        },
    }
    doc.set(name, value)
}

fn splice_text(json: &str, name: &str, value: Json) -> (r: String)
    ensures
        r@ == spliced_text(json@, name@, value@),
{
    match Json::parse(json) {
        Ok(doc) => {
            match &doc {
                Json::Object(_) => {},
                _ => {
                    return json.to_owned();
                },
            }
            splice(doc, name, value).render()
        },
        Err(_) => json.to_owned(),
    }
}

/// The reply `json` with the text `msg` as its member `name`.
pub fn splice_response_string(json: &str, name: &str, msg: &str) -> (r: String)
    ensures
        r@ == spliced_text(json@, name@, JsonView::Text(msg@)),
{
    splice_text(json, name, Json::text(msg))
}

/// The reply `json` with the warnings as its member `name`, if there are any.
pub fn splice_response_warnings(json: &str, name: &str, warnings: &Vec<String>) -> (r: String)
    ensures
        r@ == (if warnings@.len() == 0 {
            json@
        } else {
            spliced_text(json@, name@, JsonView::Array(text_views(texts(warnings@))))
        }),
{
    if warnings.len() == 0 {
        return json.to_owned();
    }
    splice_text(json, name, Json::texts(warnings))
}

/// The reply with a warning, if there is one.
pub open spec fn with_warning(
    json: Seq<char>,
    name: Seq<char>,
    warning: Option<Seq<char>>,
) -> Seq<char> {
    match warning {
        Some(m) => spliced_text(json, name, JsonView::Text(m)),
        None => json,
    }
}

/// The reply with a warning about saving it, if there is one.
pub fn splice_save_warning(json: &str, warning: Option<String>) -> (r: String)
    ensures
        r@ == with_warning(json@, "save_warning"@, opt_text(warning)),
{
    match warning {
        Some(m) => splice_response_string(json, "save_warning", m.as_str()),
        None => json.to_owned(),
    }
}

/// The reply with a warning about its transcript, if there is one.
pub fn splice_transcript_warning(json: &str, warning: Option<String>) -> (r: String)
    ensures
        r@ == with_warning(json@, "transcript_warning"@, opt_text(warning)),
{
    match warning {
        Some(m) => splice_response_string(json, "transcript_warning", m.as_str()),
        None => json.to_owned(),
    }
}

/// The reply of a finished step with its warnings: that about the transcript
/// stands in what is saved, that about saving only in the reply.
pub fn finish_reply(json: &str, transcript_warning: Option<String>, save_warning: Option<String>) -> (r:
    String)
    ensures
        r@ == with_warning(
            with_warning(json@, "transcript_warning"@, opt_text(transcript_warning)),
            "save_warning"@,
            opt_text(save_warning),
        ),
{
    let json = splice_transcript_warning(json, transcript_warning);
    splice_save_warning(json.as_str(), save_warning)
}

/// The reply of a worker with all warnings about it.
pub open spec fn pool_reply(
    json: Seq<char>,
    warnings: Seq<Seq<char>>,
    save_error: Option<Seq<char>>,
    reload_warning: Option<Seq<char>>,
) -> Seq<char> {
    let a = if warnings.len() == 0 {
        json
    } else {
        spliced_text(json, "lib_path_warnings"@, JsonView::Array(text_views(warnings)))
    };
    with_warning(
        with_warning(a, "pool_save_error"@, save_error),
        "pool_cache_reload_warning"@,
        reload_warning,
    )
}

/// The reply of a worker with the warnings about search paths, about saving the
/// registry and about reading it again.
pub fn finish_pool_reply(
    json: &str,
    warnings: &Vec<String>,
    save_error: Option<String>,
    reload_warning: Option<String>,
) -> (r: String)
    ensures
        r@ == pool_reply(json@, texts(warnings@), opt_text(save_error), opt_text(reload_warning)),
{
    assert(texts(warnings@).len() == warnings@.len());
    let json = splice_response_warnings(json, "lib_path_warnings", warnings);
    let json = match save_error {
        Some(m) => splice_response_string(json.as_str(), "pool_save_error", m.as_str()),
        None => json,
    };
    match reload_warning {
        Some(m) => splice_response_string(json.as_str(), "pool_cache_reload_warning", m.as_str()),
        None => json,
    }
}

/// A warning takes nothing away: the other members of the reply stay.
pub proof fn law_splicing_is_additive(
    ms: Seq<(Seq<char>, JsonView)>,
    name: Seq<char>,
    value: JsonView,
    other: Seq<char>,
)
    requires
        other != name,
    ensures
        spliced(JsonView::Object(ms), name, value).field(name) == Some(value),
        spliced(JsonView::Object(ms), name, value).field(other) == JsonView::Object(ms).field(
            other,
        ),
{
    crate::json::law_set_reads_back(ms, name, value, name);
    crate::json::law_set_reads_back(ms, name, value, other);
}

// ─── Code ───────────────────────────────────────────────────────

/// Where the code of a run comes from.
#[derive(Debug)]
pub enum CodeSource {
    Inline(String),
    File(String),
}

/// Where the code comes from: exactly one of code and a file.
pub fn resolve_code(code: Option<String>, code_file: Option<String>) -> (r: Result<
    CodeSource,
    String,
>)
    ensures
        match r {
            Ok(CodeSource::Inline(c)) => code == Some(c) && code_file is None,
            Ok(CodeSource::File(p)) => code is None && code_file == Some(p),
            Err(m) => (code is Some && code_file is Some && m@
                == "Provide either `code` or `code_file`, not both."@) || (code is None && code_file
                is None && m@ == "Either `code` or `code_file` must be provided."@),
        },
{
    match (code, code_file) {
        (Some(c), None) => Ok(CodeSource::Inline(c)),
        (None, Some(p)) => Ok(CodeSource::File(p)),
        (Some(_), Some(_)) => Err("Provide either `code` or `code_file`, not both.".to_owned()),
        (None, None) => Err("Either `code` or `code_file` must be provided.".to_owned()),
    }
}

// ─── Strategies ─────────────────────────────────────────────────

/// What a package is for.
#[derive(Debug, Clone, Copy, PartialEq, Eq, Structural)]
pub enum PkgType {
    /// It can be run.
    Runnable,
    /// Its modules are used by others.
    Library,
}

/// How it is known what a package is for.
#[derive(Debug, Clone, Copy, PartialEq, Eq, Structural)]
pub enum TypeSource {
    /// The package says so.
    Explicit,
    /// It can be run, and says nothing.
    AutoDetectedRunnable,
    /// It cannot be run, and says nothing.
    AutoDetectedLibrary,
}

/// The kind of package with the given name.
pub open spec fn type_named(t: Seq<char>) -> Option<PkgType> {
    if t == "runnable"@ {
        Some(PkgType::Runnable)
    } else if t == "library"@ {
        Some(PkgType::Library)
    } else {
        None
    }
}

/// The way of knowing with the given name.
pub open spec fn type_source_named(t: Seq<char>) -> Option<TypeSource> {
    if t == "explicit"@ {
        Some(TypeSource::Explicit)
    } else if t == "auto_detected_runnable"@ {
        Some(TypeSource::AutoDetectedRunnable)
    } else if t == "auto_detected_library"@ {
        Some(TypeSource::AutoDetectedLibrary)
    } else {
        None
    }
}

/// What a package answered about itself, where both parts are known.
pub open spec fn answered_type(answer: JsonView) -> Option<(PkgType, TypeSource)> {
    match (text_of(answer, "type"@), text_of(answer, "type_source"@)) {
        (Some(t), Some(s)) => match (type_named(t), type_source_named(s)) {
            (Some(a), Some(b)) => Some((a, b)),
            _ => None,
        },
        _ => None,
    }
}

/// What a package answered about itself, where both parts are known.
pub fn type_of_answer(answer: &Json) -> (r: Option<(PkgType, TypeSource)>)
    ensures
        r == answered_type(answer@),
{
    let t = match get_text(answer, "type") {
        Some(t) => t,
        None => {
            return None;
        },
    };
    let s = match get_text(answer, "type_source") {
        Some(s) => s,
        None => {
            return None;
        },
    };
    let a = if str_eq(t.as_str(), "runnable") {
        PkgType::Runnable
    } else if str_eq(t.as_str(), "library") {
        PkgType::Library
    } else {
        return None;
    };
    let b = if str_eq(s.as_str(), "explicit") {
        TypeSource::Explicit
    } else if str_eq(s.as_str(), "auto_detected_runnable") {
        TypeSource::AutoDetectedRunnable
    } else if str_eq(s.as_str(), "auto_detected_library") {
        TypeSource::AutoDetectedLibrary
    } else {
        return None;
    };
    Some((a, b))
}

/// The package is known to be a library.
pub open spec fn is_library(kind: Option<(PkgType, TypeSource)>) -> bool {
    match kind {
        Some((t, _)) => t == PkgType::Library,
        None => false,
    }
}

/// Whether the strategy may be run: a library may not. A package of which
/// nothing is known may.
pub fn check_runnable(strategy: &str, kind: Option<(PkgType, TypeSource)>) -> (r: Result<(), String>)
    ensures
        match r {
            Ok(_) => !is_library(kind),
            Err(m) => is_library(kind) && m@ == "Package '"@
                + strategy@
                + "' is a library package (type = \"library\"). Library packages provide reusable modules and do not have a run() entry point. Use alc_run with custom code to import this library."@,
        },
{
    if let Some((PkgType::Library, _)) = kind {
        let mut m = "Package '".to_owned();
        m.append(strategy);
        m.append(
            "' is a library package (type = \"library\"). Library packages provide reusable modules and do not have a run() entry point. Use alc_run with custom code to import this library.",
        );
        return Err(m);
    }
    Ok(())
}

/// Whether the strategy is there after the bundled packages were installed.
pub fn check_installed(strategy: &str, installed: bool) -> (r: Result<(), String>)
    ensures
        match r {
            Ok(_) => installed,
            Err(m) => !installed && m@ == "Package '"@ + strategy@
                + "' not found after installing bundled collection. Use alc_pkg_install to install it manually."@,
        },
{
    if installed {
        return Ok(());
    }
    let mut m = "Package '".to_owned();
    m.append(strategy);
    m.append(
        "' not found after installing bundled collection. Use alc_pkg_install to install it manually.",
    );
    Err(m)
}

/// The Lua code that asks the package `name` what it is for. `detect` is the
/// code that fills in what the package does not say.
pub fn make_type_code(name: &str, detect: &str) -> (r: String)
    ensures
        r@ == "package.loaded[\""@ + name@ + "\"] = nil; local pkg = require(\""@ + name@
            + "\"); local meta = pkg.meta or {}; "@ + detect@
            + "; return { type = meta.type, type_source = meta.type_source }"@,
{
    let mut r = "package.loaded[\"".to_owned();
    r.append(name);
    r.append("\"] = nil; local pkg = require(\"");
    r.append(name);
    r.append("\"); local meta = pkg.meta or {}; ");
    r.append(detect);
    r.append("; return { type = meta.type, type_source = meta.type_source }");
    r
}

// ─── Where a response goes ──────────────────────────────────────

/// Where a response goes.
#[derive(Debug, Clone, Copy, PartialEq, Eq, Structural)]
pub enum Route {
    /// To a worker that is known here.
    Pool,
    /// To a worker that the registry on disk knows; it is remembered here.
    PoolAfterReload,
    /// To a session of this process.
    InProcess,
}

/// Where the response for a session goes: to the worker that is known here, or
/// that the registry on disk knows, and else to this process. A registry that
/// cannot be read is an error only where it is needed.
pub fn route_response(known_here: bool, on_disk: Result<bool, String>) -> (r: Result<Route, String>)
    ensures
        match r {
            Ok(Route::Pool) => known_here,
            Ok(Route::PoolAfterReload) => !known_here && on_disk == Ok::<bool, String>(true),
            Ok(Route::InProcess) => !known_here && on_disk == Ok::<bool, String>(false),
            Err(m) => !known_here && (match on_disk {
                Err(e) => m@ == "Continue failed: "@ + e@,
                Ok(_) => false,
            }),
        },
{
    if known_here {
        return Ok(Route::Pool);
    }
    match on_disk {
        Ok(true) => Ok(Route::PoolAfterReload),
        Ok(false) => Ok(Route::InProcess),
        Err(e) => {
            let mut m = "Continue failed: ".to_owned();
            m.append(e.as_str());
            Err(m)
        },
    }
}

/// The reply to a batch of responses: that to the last one.
pub fn last_reply(replies: Vec<String>) -> (r: Result<String, String>)
    ensures
        match r {
            Ok(t) => replies@.len() > 0 && t == replies@.last(),
            Err(m) => replies@.len() == 0 && m@ == "Empty responses array"@,
        },
{
    let mut replies = replies;
    match replies.pop() {
        Some(t) => Ok(t),
        None => Err("Empty responses array".to_owned()),
    }
}

// ─── Finished sessions ──────────────────────────────────────────

/// The warning about the transcript of a step. Only a finished session has a
/// transcript; `strategy` is an error where the strategies cannot be looked up,
/// `written` what came of writing the transcript.
pub fn transcript_warning(
    finished: bool,
    session_id: &str,
    strategy: Result<(), String>,
    written: Result<Option<String>, String>,
) -> (r: Option<String>)
    ensures
        opt_text(r) == (if !finished {
            None::<Seq<char>>
        } else {
            match (strategy, written) {
                (Err(e), _) => Some(
                    "session_strategies mutex poisoned for '"@ + session_id@ + "': "@ + e@,
                ),
                (Ok(_), Err(e)) => Some(e@),
                (Ok(_), Ok(w)) => opt_text(w),
            }
        }),
{
    if !finished {
        return None;
    }
    match strategy {
        Err(e) => {
            let mut m = "session_strategies mutex poisoned for '".to_owned();
            m.append(session_id);
            m.append("': ");
            m.append(e.as_str());
            Some(m)
        },
        Ok(_) => match written {
            Err(e) => Some(e),
            Ok(w) => w,
        },
    }
}

/// The result of a step is saved: it finished an evaluation.
pub fn saves_evaluation(finished: bool, is_evaluation: bool) -> (r: bool)
    ensures
        r == (finished && is_evaluation),
{
    finished && is_evaluation
}

} // verus!
