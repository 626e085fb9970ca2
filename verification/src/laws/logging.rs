//! What is shown and listed of logs.

use vstd::prelude::*;
use crate::json::{json_content, json_pretty_text, json_text, law_set_reads_back, JsonView};
use crate::laws::tools::says;
use crate::logs::{
    at_most, info_view, is_log, is_newest_first_of, is_selection, listed, log_summary, nested,
    notes_of, or_null, rounds_fit, rounds_kept, search_path_json, shortened, shown_log, text_of,
    transcript_of, with_rounds, written_at, LogFile, LogSettings, SessionText, DEFAULT_LOG_LIMIT,
    DEFAULT_MAX_CHARS,
};
use crate::text::byte_len;

verus! {

/// A log is shown as it is where it is small enough, where no size is asked for,
/// and where it has no rounds; else with as many of its newest rounds as fit. Only
/// a large log that is no document is refused.
pub proof fn law_how_a_log_is_shown(raw: Seq<char>, max: nat)
    ensures
        ({
            let large = max > 0 && byte_len(raw) > max;
            let doc = json_content(raw)->Ok_0;
            let rounds = transcript_of(doc);
            let kept = rounds_kept(doc, rounds, rounds.len(), max);
            &&& !large ==> shown_log(raw, max) == Ok::<Seq<char>, Seq<char>>(raw)
            &&& shown_log(raw, max) is Err <==> large && json_content(raw) is Err
            &&& large ==> (json_content(raw) matches Err(e) ==> shown_log(raw, max) == Err::<
                Seq<char>,
                Seq<char>,
            >("Failed to parse log: "@ + e))
            &&& large && json_content(raw) is Ok && rounds.len() == 0 ==> shown_log(raw, max)
                == Ok::<Seq<char>, Seq<char>>(raw)
            &&& large && json_content(raw) is Ok && rounds.len() > 0 ==> shown_log(raw, max)
                == Ok::<Seq<char>, Seq<char>>(json_pretty_text(shortened(doc, kept)))
        }),
{
}

/// The rounds fit exactly where the text of the document with the newest of them
/// takes no more bytes than are asked for; that document differs in its rounds
/// alone.
pub proof fn law_when_rounds_fit(
    doc: JsonView,
    rounds: Seq<JsonView>,
    kept: nat,
    max: nat,
    other: Seq<char>,
)
    requires
        kept <= rounds.len(),
        other != "transcript"@,
    ensures
        rounds_fit(doc, rounds, kept, max) <==> byte_len(
            json_text(with_rounds(doc, rounds, kept)),
        ) <= max,
        transcript_of(with_rounds(doc, rounds, kept)) == rounds.subrange(
            rounds.len() - kept,
            rounds.len() as int,
        ),
        with_rounds(doc, rounds, kept).field(other) == doc.field(other),
{
    let value = JsonView::Array(rounds.skip(rounds.len() - kept));
    law_set_reads_back(doc.members(), "transcript"@, value, "transcript"@);
    law_set_reads_back(doc.members(), "transcript"@, value, other);
    assert(rounds.skip(rounds.len() - kept) =~= rounds.subrange(
        rounds.len() - kept,
        rounds.len() as int,
    ));
}

/// The rounds of a log are those that its transcript lists; without one there are
/// none.
pub proof fn law_rounds_of_a_log(doc: JsonView)
    ensures
        doc.field("transcript"@) matches Some(JsonView::Array(v)) ==> transcript_of(doc) == v,
        !(doc.field("transcript"@) matches Some(JsonView::Array(v)) && true) ==> transcript_of(
            doc,
        ).len() == 0,
{
}

/// A file is a session's log exactly where its name ends in `.json` and not in
/// `.meta.json`.
pub proof fn law_which_files_are_logs(f: LogFile)
    ensures
        is_log(f) <==> ".json"@.is_suffix_of(f.name@) && !".meta.json"@.is_suffix_of(f.name@),
{
}

/// Ordering files keeps every one of them and puts no older one before a newer.
pub proof fn law_ordering_keeps_every_file(r: Seq<LogFile>, s: Seq<LogFile>, f: LogFile)
    requires
        is_newest_first_of(r, s),
    ensures
        r.len() == s.len(),
        r.contains(f) <==> s.contains(f),
        forall|i: int, j: int| 0 <= i < j < r.len() ==> #[trigger] r[i].modified >= #[trigger] r[j].modified,
{
    lemma_written_at_has(r, f);
    lemma_written_at_has(s, f);
    assert(written_at(r, f.modified as int) == written_at(s, f.modified as int));
}

proof fn lemma_written_at_has(s: Seq<LogFile>, f: LogFile)
    ensures
        written_at(s, f.modified as int).contains(f) <==> s.contains(f),
{
    let p = |x: LogFile| x.modified == f.modified as int;
    assert(written_at(s, f.modified as int) == s.filter(p));
    if s.contains(f) {
        let i = choose|i: int| 0 <= i < s.len() && s[i] == f;
        s.lemma_filter_contains(p, i);
    }
    if s.filter(p).contains(f) {
        s.lemma_filter_contains_rev(p, f);
    }
}

/// The logs that are listed are logs of sessions, as many as are asked for or as
/// there are, and none that is left out is newer than one that is listed.
pub proof fn law_the_newest_logs_are_selected(
    r: Seq<LogFile>,
    files: Seq<LogFile>,
    limit: nat,
    f: LogFile,
    g: LogFile,
)
    requires
        is_selection(r, files, limit),
    ensures
        ({
            let logs = files.filter(|f: LogFile| is_log(f));
            r.len() == if limit < logs.len() {
                limit
            } else {
                logs.len()
            }
        }),
        r.contains(f) ==> files.contains(f) && is_log(f),
        files.contains(f) && is_log(f) && !r.contains(f) && r.contains(g) ==> g.modified >= f.modified,
        forall|i: int, j: int| 0 <= i < j < r.len() ==> #[trigger] r[i].modified >= #[trigger] r[j].modified,
{
    let p = |f: LogFile| is_log(f);
    let logs = files.filter(p);
    let all = choose|all: Seq<LogFile>|
        is_newest_first_of(all, files.filter(|f: LogFile| is_log(f))) && #[trigger] at_most(
            all,
            limit,
        ) == r;
    assert(is_newest_first_of(all, logs));
    law_ordering_keeps_every_file(all, logs, f);
    law_ordering_keeps_every_file(all, logs, g);
    if r.contains(f) {
        let i = choose|i: int| 0 <= i < r.len() && r[i] == f;
        assert(all[i] == f);
        assert(logs.contains(f));
        let k = choose|k: int| 0 <= k < logs.len() && logs[k] == f;
        files.lemma_filter_pred(p, k);
        files.lemma_filter_contains_rev(p, f);
    }
    if files.contains(f) && is_log(f) && !r.contains(f) && r.contains(g) {
        let i = choose|i: int| 0 <= i < files.len() && files[i] == f;
        files.lemma_filter_contains(p, i);
        assert(all.contains(f));
        let k = choose|k: int| 0 <= k < all.len() && all[k] == f;
        let j = choose|j: int| 0 <= j < r.len() && r[j] == g;
        if k < r.len() {
            assert(r[k] == f);
        }
        assert(all[j] == g);
    }
}

/// What is listed of a session: its summary as it is, or what its log is summed up
/// to; nothing where neither can be read.
pub proof fn law_what_is_listed_of_a_session(t: SessionText)
    ensures
        t matches SessionText::Summary(Some(s)) ==> (json_content(s@) matches Ok(doc) ==> listed(t)
            == Some(doc)),
        t matches SessionText::Log(Some(s)) ==> (json_content(s@) matches Ok(doc) ==> listed(t)
            == Some(log_summary(doc))),
        listed(t) is None <==> (match t {
            SessionText::Summary(o) => match o {
                Some(s) => json_content(s@) is Err,
                None => true,
            },
            SessionText::Log(o) => match o {
                Some(s) => json_content(s@) is Err,
                None => true,
            },
        }),
{
}

/// The summary of a log tells its session, its task, how long it took, its rounds
/// and calls, and how many notes it holds.
pub proof fn law_the_summary_of_a_log_is_whole(doc: JsonView)
    ensures
        ({
            let r = log_summary(doc);
            let stats = doc.field("stats"@);
            &&& doc.field("session_id"@) matches Some(JsonView::Text(t)) ==> says(
                r,
                "session_id"@,
                JsonView::Text(t),
            )
            &&& text_of(doc, "session_id"@) is None ==> says(
                r,
                "session_id"@,
                JsonView::Text("unknown"@),
            )
            &&& doc.field("task_hint"@) matches Some(JsonView::Text(t)) ==> says(
                r,
                "task_hint"@,
                JsonView::Text(t),
            )
            &&& text_of(doc, "task_hint"@) is None ==> says(r, "task_hint"@, JsonView::Null)
            &&& says(r, "elapsed_ms"@, or_null(nested(doc, "stats"@, "elapsed_ms"@)))
            &&& says(r, "rounds"@, or_null(nested(doc, "stats"@, "rounds"@)))
            &&& says(r, "llm_calls"@, or_null(nested(doc, "stats"@, "llm_calls"@)))
            &&& doc.field("notes"@) matches Some(JsonView::Array(v)) ==> says(
                r,
                "notes_count"@,
                JsonView::UInt(v.len() as u64),
            )
            &&& !(doc.field("notes"@) matches Some(JsonView::Array(v)) && true) ==> says(
                r,
                "notes_count"@,
                JsonView::UInt(0),
            )
        }),
{
    let ms = log_summary(doc).members();
    assert(ms[0].0 == "session_id"@);
    assert(ms[1].0 == "task_hint"@);
    assert(ms[2] == ("elapsed_ms"@, or_null(nested(doc, "stats"@, "elapsed_ms"@))));
    assert(ms[3] == ("rounds"@, or_null(nested(doc, "stats"@, "rounds"@))));
    assert(ms[4] == ("llm_calls"@, or_null(nested(doc, "stats"@, "llm_calls"@))));
    assert(ms[5] == ("notes_count"@, JsonView::UInt(notes_of(doc) as u64)));
}

/// A text member, and a member within a member, are read exactly where they stand;
/// what is not there is null.
pub proof fn law_members_are_read(
    doc: JsonView,
    name: Seq<char>,
    inner: Seq<char>,
    t: Seq<char>,
    v: JsonView,
)
    ensures
        text_of(doc, name) == Some(t) <==> doc.field(name) == Some(JsonView::Text(t)),
        nested(doc, name, inner) == Some(v) <==> (doc.field(name) matches Some(o) && o.field(inner)
            == Some(v)),
        or_null(Some(v)) == v,
        or_null(None) == JsonView::Null,
{
}

/// The diagnosis tells the versions, where the logs go and whether they do, every
/// search path in order, and the packages directory where there is one.
pub proof fn law_the_diagnosis_is_whole(
    s: LogSettings,
    search_paths: Seq<(String, String)>,
    packages_dir: Option<Seq<char>>,
)
    ensures
        ({
            let doc = JsonView::Object(info_view(s, search_paths, packages_dir));
            &&& says(doc, "version"@, JsonView::Text(s.version@))
            &&& says(doc, "preset_catalog_version"@, JsonView::Text(s.preset_catalog_version@))
            &&& says(doc, "log_enabled"@, JsonView::Bool(s.log_enabled))
            &&& says(
                doc,
                "tracing"@,
                JsonView::Text(
                    if s.log_dir is Some {
                        "file + stderr"@
                    } else {
                        "stderr only"@
                    },
                ),
            )
            &&& says(
                doc,
                "log_dir"@,
                JsonView::Object(
                    seq![
                        (
                            "resolved"@,
                            match s.log_dir {
                                Some(d) => JsonView::Text(d@),
                                None => JsonView::Null,
                            },
                        ),
                        ("source"@, JsonView::Text(s.log_dir_source@)),
                    ],
                ),
            )
            &&& says(
                doc,
                "search_paths"@,
                JsonView::Array(
                    Seq::new(search_paths.len(), |i: int| search_path_json(search_paths[i])),
                ),
            )
            &&& packages_dir matches Some(d) ==> says(doc, "packages_dir"@, JsonView::Text(d))
            &&& doc.members().len() == if packages_dir is Some {
                7int
            } else {
                6
            }
        }),
{
    let ms = info_view(s, search_paths, packages_dir);
    assert(ms[0] == ("version"@, JsonView::Text(s.version@)));
    assert(ms[1] == ("preset_catalog_version"@, JsonView::Text(s.preset_catalog_version@)));
    assert(ms[2].0 == "log_dir"@);
    assert(ms[3] == ("log_enabled"@, JsonView::Bool(s.log_enabled)));
    assert(ms[4].0 == "tracing"@);
    assert(ms[5].0 == "search_paths"@);
    assert(ms[5].1->Array_0 =~= Seq::new(
        search_paths.len(),
        |i: int| search_path_json(search_paths[i]),
    ));
    if let Some(d) = packages_dir {
        assert(ms[6] == ("packages_dir"@, JsonView::Text(d)));
    }
}

/// A search path is told with its source.
pub proof fn law_a_search_path_is_told_whole(p: (String, String))
    ensures
        says(search_path_json(p), "path"@, JsonView::Text(p.0@)),
        says(search_path_json(p), "source"@, JsonView::Text(p.1@)),
{
    let ms = search_path_json(p).members();
    assert(ms[0] == ("path"@, JsonView::Text(p.0@)));
    assert(ms[1] == ("source"@, JsonView::Text(p.1@)));
}

/// How much is shown and listed where nothing is asked for.
pub proof fn law_default_limits()
    ensures
        DEFAULT_MAX_CHARS == 100_000,
        DEFAULT_LOG_LIMIT == 50,
{
}

} // verus!
