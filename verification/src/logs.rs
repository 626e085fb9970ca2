//! Session logs: what the log directory holds, how one log is shown within a
//! size limit, and what the logged sessions add up to.

use vstd::prelude::*;
use crate::json::{
    json_content, json_pretty_text, json_text, law_set_reads_back, views, with_member, Json,
    JsonView,
};
use crate::paths::{split_extension, stem_of};
use crate::text::{byte_count, byte_len, ends_with, opt_str};

verus! {

/// How many characters of a log are shown where no limit is asked for.
pub const DEFAULT_MAX_CHARS: usize = 100_000;

/// How many sessions are listed where no limit is asked for.
pub const DEFAULT_LOG_LIMIT: usize = 50;

// ─── One log, within a size limit ───────────────────────────────

/// `doc` with only the last `kept` rounds of its transcript.
pub open spec fn with_rounds(doc: JsonView, rounds: Seq<JsonView>, kept: nat) -> JsonView {
    JsonView::Object(
        with_member(
            doc.members(),
            "transcript"@,
            JsonView::Array(rounds.skip(rounds.len() - kept)),
        ),
    )
}

/// With the last `kept` rounds the document's text takes no more than `max`
/// bytes.
pub open spec fn rounds_fit(doc: JsonView, rounds: Seq<JsonView>, kept: nat, max: nat) -> bool {
    byte_len(json_text(with_rounds(doc, rounds, kept))) <= max
}

/// The number of rounds that are kept: the largest, up to `most`, with which
/// the document fits, or none.
pub open spec fn rounds_kept(doc: JsonView, rounds: Seq<JsonView>, most: nat, max: nat) -> nat
    decreases most,
{
    if most == 0 || rounds_fit(doc, rounds, most, max) {
        most
    } else {
        rounds_kept(doc, rounds, (most - 1) as nat, max)
    }
}

/// The rounds of the transcript of `doc`; none where it has no transcript.
pub open spec fn transcript_of(doc: JsonView) -> Seq<JsonView> {
    match doc.field("transcript"@) {
        Some(JsonView::Array(rounds)) => rounds,
        _ => Seq::empty(),
    }
}

/// `doc` with the last `kept` rounds and a note of how many there were.
pub open spec fn shortened(doc: JsonView, kept: nat) -> JsonView {
    let rounds = transcript_of(doc);
    let ms = with_rounds(doc, rounds, kept).members();
    let ms1 = with_member(ms, "truncated"@, JsonView::Bool(true));
    let ms2 = with_member(ms1, "original_rounds"@, JsonView::UInt(rounds.len() as u64));
    JsonView::Object(with_member(ms2, "returned_rounds"@, JsonView::UInt(kept as u64)))
}

/// What is shown of the log `raw` where `max` bytes are asked for, 0 meaning
/// any number.
pub open spec fn shown_log(raw: Seq<char>, max: nat) -> Result<Seq<char>, Seq<char>> {
    if max == 0 || byte_len(raw) <= max {
        Ok(raw)
    } else {
        match json_content(raw) {
            Err(e) => Err("Failed to parse log: "@ + e),
            Ok(doc) => {
                let rounds = transcript_of(doc);
                if rounds.len() == 0 {
                    Ok(raw)
                } else {
                    Ok(
                        json_pretty_text(
                            shortened(doc, rounds_kept(doc, rounds, rounds.len(), max)),
                        ),
                    )
                }
            },
        }
    }
}

/// A text, or the text of an error.
pub open spec fn outcome_view(r: Result<String, String>) -> Result<Seq<char>, Seq<char>> {
    match r {
        Ok(t) => Ok(t@),
        Err(e) => Err(e@),
    }
}

/// The last `kept` of `rounds`, as a list.
fn last_rounds(rounds: &Vec<Json>, kept: usize) -> (r: Json)
    requires
        kept <= rounds@.len(),
    ensures
        r@ == JsonView::Array(views(rounds@).skip(rounds@.len() - kept)),
{
    let n: usize = rounds.len();
    let mut out: Vec<Json> = Vec::new();
    let mut i: usize = n - kept;
    while i < n
        invariant
            n == rounds@.len(),
            n - kept <= i <= n,
            kept <= n,
            out@.len() == i - (n - kept),
            forall|k: int| 0 <= k < out@.len() ==> (#[trigger] out@[k])@ == rounds@[n - kept + k]@,
        decreases n - i,
    {
        out.push(rounds[i].clone());
        i = i + 1;
    }
    let ghost v = out@;
    let r = Json::array(out);
    assert(views(v) =~= views(rounds@).skip(n - kept));
    r
}

/// The largest number of last rounds with which the text of `doc` takes no more
/// than `max` bytes; 0 where there is none.
pub fn count_kept(doc: &Json, rounds: &Vec<Json>, max: usize) -> (r: usize)
    requires
        doc is Object,
    ensures
        r <= rounds@.len(),
        r == 0 || rounds_fit(doc@, views(rounds@), r as nat, max as nat),
        forall|k: nat|
            r < k <= rounds@.len() ==> !(#[trigger] rounds_fit(
                doc@,
                views(rounds@),
                k,
                max as nat,
            )),
        r == rounds_kept(doc@, views(rounds@), rounds@.len(), max as nat),
{
    let ghost all = rounds_kept(doc@, views(rounds@), rounds@.len(), max as nat);
    let mut kept: usize = rounds.len();
    while kept > 0
        invariant
            doc is Object,
            kept <= rounds@.len(),
            all == rounds_kept(doc@, views(rounds@), kept as nat, max as nat),
            forall|k: nat|
                kept < k <= rounds@.len() ==> !(#[trigger] rounds_fit(
                    doc@,
                    views(rounds@),
                    k,
                    max as nat,
                )),
        ensures
            kept <= rounds@.len(),
            kept == all,
            kept == 0 || rounds_fit(doc@, views(rounds@), kept as nat, max as nat),
            forall|k: nat|
                kept < k <= rounds@.len() ==> !(#[trigger] rounds_fit(
                    doc@,
                    views(rounds@),
                    k,
                    max as nat,
                )),
        decreases kept,
    {
        let part = doc.clone();
        assert(part is Object) by {
            assert(part@ is Object);
        }
        let part = part.set("transcript", last_rounds(rounds, kept));
        let text = part.render();
        if byte_count(text.as_str()) <= max {
            break;
        }
        kept = kept - 1;
    }
    kept
}

/// The rounds of the transcript of `doc`; none where it has no transcript.
pub fn rounds_of(doc: &Json) -> (r: Vec<Json>)
    ensures
        views(r@) == transcript_of(doc@),
        r@.len() > 0 ==> doc is Object,
{
    let mut out: Vec<Json> = Vec::new();
    match doc.get("transcript") {
        Some(Json::Array(v)) => {
            let mut i: usize = 0;
            while i < v.len()
                invariant
                    i <= v@.len(),
                    out@.len() == i,
                    forall|k: int| 0 <= k < i ==> (#[trigger] out@[k])@ == v@[k]@,
                decreases v@.len() - i,
            {
                out.push(v[i].clone());
                i = i + 1;
            }
            assert(views(out@) =~= transcript_of(doc@));
        },
        _ => {
            assert(views(out@) =~= transcript_of(doc@));
        },
    }
    out
}

/// `doc` with the last `kept` of its rounds and a note of how many there were.
pub fn shorten(doc: Json, rounds: &Vec<Json>, kept: usize) -> (r: Json)
    requires
        doc is Object,
        views(rounds@) == transcript_of(doc@),
        kept <= rounds@.len(),
    ensures
        r@ == shortened(doc@, kept as nat),
{
    assert(views(rounds@).len() == rounds@.len());
    let n: u64 = rounds.len() as u64;
    let k: u64 = kept as u64;
    doc.set("transcript", last_rounds(rounds, kept)).set("truncated", Json::Bool(true)).set(
        "original_rounds",
        Json::UInt(n),
    ).set("returned_rounds", Json::UInt(k))
}

/// What is shown of the log whose text is `raw`: all of it where it takes no
/// more than `max_chars` bytes (0 for any number), and else the document with
/// as many of its newest rounds as fit.
pub fn log_read(raw: &str, max_chars: usize) -> (r: Result<String, String>)
    ensures
        outcome_view(r) == shown_log(raw@, max_chars as nat),
{
    if max_chars == 0 || byte_count(raw) <= max_chars {
        return Ok(raw.to_owned());
    }
    match Json::parse(raw) {
        Err(e) => {
            let mut m = "Failed to parse log: ".to_owned();
            m.append(e.as_str());
            Err(m)
        },
        Ok(doc) => {
            let rounds = rounds_of(&doc);
            assert(views(rounds@).len() == rounds@.len());
            if rounds.len() == 0 {
                return Ok(raw.to_owned());
            }
            let kept: usize = count_kept(&doc, &rounds, max_chars);
            Ok(shorten(doc, &rounds, kept).render_pretty())
        },
    }
}

/// The rounds that are kept fit, unless none is kept, and no larger number of
/// them would.
pub proof fn law_most_rounds_are_kept(doc: JsonView, rounds: Seq<JsonView>, most: nat, max: nat)
    ensures
        rounds_kept(doc, rounds, most, max) <= most,
        rounds_kept(doc, rounds, most, max) == 0 || rounds_fit(
            doc,
            rounds,
            rounds_kept(doc, rounds, most, max),
            max,
        ),
        forall|k: nat|
            rounds_kept(doc, rounds, most, max) < k <= most ==> !(#[trigger] rounds_fit(
                doc,
                rounds,
                k,
                max,
            )),
    decreases most,
{
    if most > 0 && !rounds_fit(doc, rounds, most, max) {
        law_most_rounds_are_kept(doc, rounds, (most - 1) as nat, max);
    }
}

/// A shortened log holds the newest rounds, in their order, says how many there
/// were and how many are left, and keeps its other members.
pub proof fn law_shortened_keeps_the_newest(doc: JsonView, kept: nat, other: Seq<char>)
    requires
        kept <= transcript_of(doc).len(),
        other != "transcript"@,
        other != "truncated"@,
        other != "original_rounds"@,
        other != "returned_rounds"@,
    ensures
        transcript_of(shortened(doc, kept)) == transcript_of(doc).skip(
            transcript_of(doc).len() - kept,
        ),
        shortened(doc, kept).field("truncated"@) == Some(JsonView::Bool(true)),
        shortened(doc, kept).field("original_rounds"@) == Some(
            JsonView::UInt(transcript_of(doc).len() as u64),
        ),
        shortened(doc, kept).field("returned_rounds"@) == Some(JsonView::UInt(kept as u64)),
        shortened(doc, kept).field(other) == doc.field(other),
{
    reveal_strlit("transcript");
    reveal_strlit("truncated");
    reveal_strlit("original_rounds");
    reveal_strlit("returned_rounds");
    assert("transcript"@.len() == 10);
    assert("truncated"@.len() == 9);
    assert("original_rounds"@.len() == 15);
    assert("returned_rounds"@.len() == 15);
    assert("original_rounds"@[0] == 'o');
    assert("returned_rounds"@[0] == 'r');
    let rounds = transcript_of(doc);
    let last = JsonView::Array(rounds.skip(rounds.len() - kept));
    let all = JsonView::UInt(rounds.len() as u64);
    let left = JsonView::UInt(kept as u64);
    let ms0 = doc.members();
    let ms1 = with_member(ms0, "transcript"@, last);
    let ms2 = with_member(ms1, "truncated"@, JsonView::Bool(true));
    let ms3 = with_member(ms2, "original_rounds"@, all);
    let names = seq!["transcript"@, "truncated"@, "original_rounds"@, "returned_rounds"@, other];
    assert forall|i: int| 0 <= i < 5 implies shortened(doc, kept).field(#[trigger] names[i]) == (
    if i == 0 {
        Some(last)
    } else if i == 1 {
        Some(JsonView::Bool(true))
    } else if i == 2 {
        Some(all)
    } else if i == 3 {
        Some(left)
    } else {
        doc.field(other)
    }) by {
        law_set_reads_back(ms0, "transcript"@, last, names[i]);
        law_set_reads_back(ms1, "truncated"@, JsonView::Bool(true), names[i]);
        law_set_reads_back(ms2, "original_rounds"@, all, names[i]);
        law_set_reads_back(ms3, "returned_rounds"@, left, names[i]);
    }
    assert(names[0] == "transcript"@ && names[1] == "truncated"@ && names[2] == "original_rounds"@
        && names[3] == "returned_rounds"@ && names[4] == other);
}

// ─── The list of sessions ───────────────────────────────────────

/// A file of the log directory: its name and when it was last written, in
/// nanoseconds since the epoch.
#[derive(Debug)]
pub struct LogFile {
    pub name: String,
    pub modified: i128,
}

/// The file holds the log of a session, not the summary beside one.
pub open spec fn is_log(f: LogFile) -> bool {
    ".json"@.is_suffix_of(f.name@) && !".meta.json"@.is_suffix_of(f.name@)
}

/// The files of `s` that were last written at `t`, in their order.
pub open spec fn written_at(s: Seq<LogFile>, t: int) -> Seq<LogFile> {
    s.filter(|f: LogFile| f.modified == t)
}

/// No file comes before one that was written later.
pub open spec fn newest_first(s: Seq<LogFile>) -> bool {
    forall|i: int, j: int|
        0 <= i < j < s.len() ==> #[trigger] s[i].modified >= #[trigger] s[j].modified
}

/// `r` holds the files of `s`, newest first; files written at the same time
/// keep their order.
pub open spec fn is_newest_first_of(r: Seq<LogFile>, s: Seq<LogFile>) -> bool {
    &&& newest_first(r)
    &&& r.len() == s.len()
    &&& forall|t: int| #[trigger] written_at(r, t) == written_at(s, t)
}

proof fn lemma_written_at_insert(out: Seq<LogFile>, pos: int, x: LogFile, t: int)
    requires
        0 <= pos <= out.len(),
        forall|i: int| pos <= i < out.len() ==> (#[trigger] out[i]).modified < x.modified,
    ensures
        written_at(out.insert(pos, x), t) == written_at(out.push(x), t),
{
    let p = |f: LogFile| f.modified == t;
    let a = out.take(pos);
    let b = out.skip(pos);
    let one = seq![x];
    assert(out.insert(pos, x) =~= a + (one + b));
    assert(out.push(x) =~= a + (b + one));
    Seq::filter_distributes_over_add(a, one + b, p);
    Seq::filter_distributes_over_add(a, b + one, p);
    Seq::filter_distributes_over_add(one, b, p);
    Seq::filter_distributes_over_add(b, one, p);
    if x.modified == t {
        assert forall|i: int| 0 <= i < b.len() implies !p(#[trigger] b[i]) by {
            assert(b[i] == out[pos + i]);
        }
        b.lemma_all_neg_filter_empty(p);
        assert(b.filter(p) =~= Seq::<LogFile>::empty());
    } else {
        assert forall|i: int| 0 <= i < one.len() implies !p(#[trigger] one[i]) by {}
        one.lemma_all_neg_filter_empty(p);
        assert(one.filter(p) =~= Seq::<LogFile>::empty());
    }
    assert(one.filter(p) + b.filter(p) =~= b.filter(p) + one.filter(p));
}

/// The files of `v`, newest first; files written at the same time keep their
/// order.
pub fn sort_newest_first(v: Vec<LogFile>) -> (r: Vec<LogFile>)
    ensures
        is_newest_first_of(r@, v@),
{
    let ghost orig = v@;
    let mut out: Vec<LogFile> = Vec::new();
    let n: usize = v.len();
    assert(orig.take(0) =~= out@);
    for x in it: v
        invariant
            it.seq() == orig,
            n == orig.len(),
            newest_first(out@),
            out@.len() == it.index(),
            forall|t: int| #[trigger] written_at(out@, t) == written_at(orig.take(it.index() as int), t),
    {
        let ghost i = it.index() as int;
        let ghost out0 = out@;
        let mut pos: usize = out.len();
        while pos > 0 && out[pos - 1].modified < x.modified
            invariant
                pos <= out@.len(),
                out@ == out0,
                forall|k: int| pos <= k < out@.len() ==> (#[trigger] out@[k]).modified < x.modified,
            decreases pos,
        {
            pos = pos - 1;
        }
        out.insert(pos, x);
        proof {
            assert(x == orig[i]);
            assert(orig.take(i + 1) =~= orig.take(i).push(x));
            assert forall|t: int| #[trigger] written_at(out@, t) == written_at(
                orig.take(i + 1),
                t,
            ) by {
                let p = |f: LogFile| f.modified == t;
                lemma_written_at_insert(out0, pos as int, x, t);
                assert(written_at(out0, t) == written_at(orig.take(i), t));
                Seq::filter_distributes_over_add(out0, seq![x], p);
                Seq::filter_distributes_over_add(orig.take(i), seq![x], p);
                assert(out0.push(x) =~= out0 + seq![x]);
                assert(orig.take(i).push(x) =~= orig.take(i) + seq![x]);
            }
        }
    }
    assert(orig.take(orig.len() as int) =~= orig);
    out
}

/// The first `n` files of `s`, or all of them where there are fewer.
pub open spec fn at_most(s: Seq<LogFile>, n: nat) -> Seq<LogFile> {
    if n < s.len() {
        s.take(n as int)
    } else {
        s
    }
}

/// `r` are the logs to list among `files`, at most `limit` of them, newest
/// first.
pub open spec fn is_selection(r: Seq<LogFile>, files: Seq<LogFile>, limit: nat) -> bool {
    exists|all: Seq<LogFile>|
        is_newest_first_of(all, files.filter(|f: LogFile| is_log(f))) && #[trigger] at_most(
            all,
            limit,
        ) == r
}

/// The logs to list: those of sessions, newest first, at most `limit` of them.
pub fn select_logs(files: Vec<LogFile>, limit: usize) -> (r: Vec<LogFile>)
    ensures
        is_selection(r@, files@, limit as nat),
{
    let ghost orig = files@;
    let ghost p = |f: LogFile| is_log(f);
    let mut logs: Vec<LogFile> = Vec::new();
    proof {
        reveal(Seq::filter);
        assert(orig.take(0).filter(p) =~= logs@);
    }
    for f in it: files
        invariant
            it.seq() == orig,
            p == (|f: LogFile| is_log(f)),
            logs@ == orig.take(it.index() as int).filter(p),
    {
        let ghost i = it.index() as int;
        let ghost before = logs@;
        proof {
            assert(orig.take(i + 1) =~= orig.take(i) + seq![f]);
            Seq::filter_distributes_over_add(orig.take(i), seq![f], p);
            reveal(Seq::filter);
            reveal_with_fuel(Seq::filter, 2);
            assert(seq![f].drop_last() =~= Seq::<LogFile>::empty());
            assert(seq![f].filter(p) =~= if p(f) {
                seq![f]
            } else {
                Seq::<LogFile>::empty()
            });
        }
        if ends_with(f.name.as_str(), ".json") && !ends_with(f.name.as_str(), ".meta.json") {
            logs.push(f);
            assert(logs@ =~= before + seq![f]);
        } else {
            assert(before =~= before + Seq::<LogFile>::empty());
        }
    }
    assert(orig.take(orig.len() as int) =~= orig);
    let mut out = sort_newest_first(logs);
    let ghost all = out@;
    if out.len() > limit {
        out.truncate(limit);
    }
    assert(at_most(all, limit as nat) =~= out@);
    out
}

/// The name of the summary that stands beside the log `name`.
pub fn summary_name(name: &str) -> (r: String)
    ensures
        r@ == stem_of(name@) + ".meta.json"@,
{
    let mut r = split_extension(name).0;
    r.append(".meta.json");
    r
}

/// What was found of one session: its summary where there is one, and else its
/// log; nothing where the file could not be read.
#[derive(Debug)]
pub enum SessionText {
    Summary(Option<String>),
    Log(Option<String>),
}

/// The value of `inner` in the member `outer` of `doc`.
pub open spec fn nested(doc: JsonView, outer: Seq<char>, inner: Seq<char>) -> Option<JsonView> {
    match doc.field(outer) {
        Some(o) => o.field(inner),
        None => None,
    }
}

/// A value, or null where there is none.
pub open spec fn or_null(v: Option<JsonView>) -> JsonView {
    match v {
        Some(j) => j,
        None => JsonView::Null,
    }
}

/// The text that the member `name` of `doc` holds.
pub open spec fn text_of(doc: JsonView, name: Seq<char>) -> Option<Seq<char>> {
    match doc.field(name) {
        Some(JsonView::Text(t)) => Some(t),
        _ => None,
    }
}

/// The number of notes in the log `doc`.
pub open spec fn notes_of(doc: JsonView) -> nat {
    match doc.field("notes"@) {
        Some(JsonView::Array(v)) => v.len(),
        _ => 0,
    }
}

/// The summary of the log `doc`.
pub open spec fn log_summary(doc: JsonView) -> JsonView {
    JsonView::Object(
        seq![
            (
                "session_id"@,
                JsonView::Text(
                    match text_of(doc, "session_id"@) {
                        Some(t) => t,
                        None => "unknown"@,
                    },
                ),
            ),
            (
                "task_hint"@,
                match text_of(doc, "task_hint"@) {
                    Some(t) => JsonView::Text(t),
                    None => JsonView::Null,
                },
            ),
            ("elapsed_ms"@, or_null(nested(doc, "stats"@, "elapsed_ms"@))),
            ("rounds"@, or_null(nested(doc, "stats"@, "rounds"@))),
            ("llm_calls"@, or_null(nested(doc, "stats"@, "llm_calls"@))),
            ("notes_count"@, JsonView::UInt(notes_of(doc) as u64)),
        ],
    )
}

/// What is listed of one session, if anything.
pub open spec fn listed(t: SessionText) -> Option<JsonView> {
    match t {
        SessionText::Summary(Some(s)) => match json_content(s@) {
            Ok(doc) => Some(doc),
            Err(_) => None,
        },
        SessionText::Log(Some(s)) => match json_content(s@) {
            Ok(doc) => Some(log_summary(doc)),
            Err(_) => None,
        },
        _ => None,
    }
}

/// The value of `inner` in the member `outer` of `doc`.
fn get_nested<'a>(doc: &'a Json, outer: &str, inner: &str) -> (r: Option<&'a Json>)
    ensures
        match r {
            Some(v) => nested(doc@, outer@, inner@) == Some(v@),
            None => nested(doc@, outer@, inner@) is None,
        },
{
    match doc.get(outer) {
        Some(o) => o.get(inner),
        None => None,
    }
}

fn or_null_of(v: Option<&Json>) -> (r: Json)
    ensures
        r@ == or_null(
            match v {
                Some(j) => Some(j@),
                None => None,
            },
        ),
{
    match v {
        Some(j) => j.clone(),
        None => Json::Null,
    }
}

/// The text that the member `name` of `doc` holds.
pub fn get_text(doc: &Json, name: &str) -> (r: Option<String>)
    ensures
        crate::text::opt_text(r) == text_of(doc@, name@),
{
    match doc.get(name) {
        Some(Json::Text(t)) => Some(t.clone()),
        _ => None,
    }
}

/// The summary of the log `doc`.
pub fn summarize(doc: &Json) -> (r: Json)
    ensures
        r@ == log_summary(doc@),
{
    let id = match get_text(doc, "session_id") {
        Some(t) => t,
        None => "unknown".to_owned(),
    };
    let hint = get_text(doc, "task_hint");
    let notes: u64 = match doc.get("notes") {
        Some(Json::Array(v)) => v.len() as u64,
        _ => 0,
    };
    let r = Json::object().with("session_id", Json::Text(id)).with(
        "task_hint",
        Json::opt_text(&hint),
    ).with("elapsed_ms", or_null_of(get_nested(doc, "stats", "elapsed_ms"))).with(
        "rounds",
        or_null_of(get_nested(doc, "stats", "rounds")),
    ).with("llm_calls", or_null_of(get_nested(doc, "stats", "llm_calls"))).with(
        "notes_count",
        Json::UInt(notes),
    );
    assert(r@.members() =~= log_summary(doc@).members());
    r
}

/// The sessions that the texts tell of, in their order; what cannot be read is
/// left out.
pub fn list_sessions(found: &Vec<SessionText>) -> (r: Json)
    ensures
        r@ == JsonView::Object(
            seq![("sessions"@, JsonView::Array(found@.filter_map(|t: SessionText| listed(t))))],
        ),
{
    let ghost f = |t: SessionText| listed(t);
    let mut out: Vec<Json> = Vec::new();
    let mut i: usize = 0;
    assert(found@.take(0).filter_map(f) =~= views(out@)) by {
        reveal(Seq::filter_map);
    }
    while i < found.len()
        invariant
            i <= found@.len(),
            f == (|t: SessionText| listed(t)),
            views(out@) == found@.take(i as int).filter_map(f),
        decreases found@.len() - i,
    {
        let ghost before = out@;
        proof {
            found@.lemma_filter_map_take_succ(f, i as int);
        }
        match &found[i] {
            SessionText::Summary(Some(s)) => {
                if let Ok(doc) = Json::parse(s.as_str()) {
                    out.push(doc);
                    assert(views(out@) =~= views(before).push(doc@));
                }
            },
            SessionText::Log(Some(s)) => {
                if let Ok(doc) = Json::parse(s.as_str()) {
                    let sum = summarize(&doc);
                    out.push(sum);
                    assert(views(out@) =~= views(before).push(sum@));
                }
            },
            _ => {},
        }
        i = i + 1;
    }
    assert(found@.take(found@.len() as int) =~= found@);
    let r = Json::object().with("sessions", Json::array(out));
    assert(r@.members() =~= seq![
        ("sessions"@, JsonView::Array(found@.filter_map(f))),
    ]);
    r
}

// ─── Configuration ──────────────────────────────────────────────

/// Where the logs go, as the diagnosis shows it.
#[derive(Debug)]
pub struct LogSettings {
    pub version: String,
    pub preset_catalog_version: String,
    pub log_dir: Option<String>,
    pub log_dir_source: String,
    pub log_enabled: bool,
}

/// One search path as the diagnosis shows it.
pub open spec fn search_path_json(p: (String, String)) -> JsonView {
    JsonView::Object(
        seq![("path"@, JsonView::Text(p.0@)), ("source"@, JsonView::Text(p.1@))],
    )
}

/// The diagnosis: versions, logging, the search paths (path and source, highest
/// priority first), and the packages directory where there is one.
pub open spec fn info_view(
    s: LogSettings,
    search_paths: Seq<(String, String)>,
    packages_dir: Option<Seq<char>>,
) -> Seq<(Seq<char>, JsonView)> {
    seq![
        ("version"@, JsonView::Text(s.version@)),
        ("preset_catalog_version"@, JsonView::Text(s.preset_catalog_version@)),
        (
            "log_dir"@,
            JsonView::Object(
                seq![
                    (
                        "resolved"@,
                        match s.log_dir {
                            Some(d) => JsonView::Text(d@),
                            None => JsonView::Null,
                        },
                    ),
                    ("source"@, JsonView::Text(s.log_dir_source@)),
                ],
            ),
        ),
        ("log_enabled"@, JsonView::Bool(s.log_enabled)),
        (
            "tracing"@,
            JsonView::Text(
                if s.log_dir is Some {
                    "file + stderr"@
                } else {
                    "stderr only"@
                },
            ),
        ),
        (
            "search_paths"@,
            JsonView::Array(search_paths.map_values(|p: (String, String)| search_path_json(p))),
        ),
    ] + match packages_dir {
        Some(d) => seq![("packages_dir"@, JsonView::Text(d))],
        None => Seq::empty(),
    }
}

/// The search paths as the diagnosis shows them.
pub fn search_paths_json(search_paths: &Vec<(String, String)>) -> (r: Json)
    ensures
        r@ == JsonView::Array(
            search_paths@.map_values(|p: (String, String)| search_path_json(p)),
        ),
{
    let mut paths: Vec<Json> = Vec::new();
    let mut i: usize = 0;
    while i < search_paths.len()
        invariant
            i <= search_paths@.len(),
            paths@.len() == i,
            forall|k: int|
                0 <= k < i ==> (#[trigger] paths@[k])@ == search_path_json(search_paths@[k]),
        decreases search_paths@.len() - i,
    {
        let p = Json::object().with("path", Json::text(search_paths[i].0.as_str())).with(
            "source",
            Json::text(search_paths[i].1.as_str()),
        );
        assert(p@.members() =~= search_path_json(search_paths@[i as int]).members());
        paths.push(p);
        i = i + 1;
    }
    let ghost ps = paths@;
    assert(views(ps) =~= search_paths@.map_values(|p: (String, String)| search_path_json(p)));
    Json::array(paths)
}

/// The diagnosis of the configuration.
pub fn info(
    s: &LogSettings,
    search_paths: &Vec<(String, String)>,
    packages_dir: Option<&str>,
) -> (r: Json)
    ensures
        r@ == JsonView::Object(info_view(*s, search_paths@, opt_str(packages_dir))),
{
    let dir = Json::object().with("resolved", Json::opt_text(&s.log_dir)).with(
        "source",
        Json::text(s.log_dir_source.as_str()),
    );
    let tracing = if s.log_dir.is_some() {
        "file + stderr"
    } else {
        "stderr only"
    };
    let ghost dv = dir@;
    assert(dv.members() =~= info_view(
        *s,
        search_paths@,
        opt_str(packages_dir),
    )[2].1.members());
    let r = Json::object().with("version", Json::text(s.version.as_str())).with(
        "preset_catalog_version",
        Json::text(s.preset_catalog_version.as_str()),
    ).with("log_dir", dir).with("log_enabled", Json::Bool(s.log_enabled)).with(
        "tracing",
        Json::text(tracing),
    ).with("search_paths", search_paths_json(search_paths));
    let r = match packages_dir {
        Some(d) => r.with("packages_dir", Json::text(d)),
        None => r,
    };
    assert(r@.members() =~= info_view(*s, search_paths@, opt_str(packages_dir)));
    r
}

/// The log directory, or the error where none is configured.
pub fn require_log_dir(log_dir: Option<&str>) -> (r: Result<String, String>)
    ensures
        outcome_view(r) == match log_dir {
            Some(d) => Ok::<Seq<char>, Seq<char>>(d@),
            None => Err("File logging is not available (no writable log directory)"@),
        },
{
    match log_dir {
        Some(d) => Ok(d.to_owned()),
        None => Err("File logging is not available (no writable log directory)".to_owned()),
    }
}

/// The reply to a note that was added.
pub fn note_added(session_id: &str, notes: u64) -> (r: Json)
    ensures
        r@ == JsonView::Object(
            seq![
                ("session_id"@, JsonView::Text(session_id@)),
                ("notes_count"@, JsonView::UInt(notes)),
            ],
        ),
{
    let r = Json::object().with("session_id", Json::text(session_id)).with(
        "notes_count",
        Json::UInt(notes),
    );
    assert(r@.members() =~= seq![
        ("session_id"@, JsonView::Text(session_id@)),
        ("notes_count"@, JsonView::UInt(notes)),
    ]);
    r
}

/// What is asked of the logs.
#[derive(Debug)]
pub enum LogRequest {
    /// The log of a session, within a number of characters.
    Read { session_id: String, max_chars: usize },
    /// The newest sessions.
    List { limit: usize },
}

/// What is asked of the logs: one log where a session is named, and else a
/// list.
pub fn log_view(session_id: Option<&str>, limit: Option<usize>, max_chars: Option<usize>) -> (r:
    LogRequest)
    ensures
        match (session_id, r) {
            (Some(s), LogRequest::Read { session_id: t, max_chars: n }) => t@ == s@ && n == (
            match max_chars {
                Some(m) => m,
                None => DEFAULT_MAX_CHARS,
            }),
            (None, LogRequest::List { limit: n }) => n == (match limit {
                Some(m) => m,
                None => DEFAULT_LOG_LIMIT,
            }),
            _ => false,
        },
{
    match session_id {
        Some(s) => LogRequest::Read {
            session_id: s.to_owned(),
            max_chars: match max_chars {
                Some(m) => m,
                None => DEFAULT_MAX_CHARS,
            },
        },
        None => LogRequest::List {
            limit: match limit {
                Some(m) => m,
                None => DEFAULT_LOG_LIMIT,
            },
        },
    }
}

/// The error where a session has no log.
pub fn log_not_found(session_id: &str) -> (r: String)
    ensures
        r@ == "Log file not found for session '"@ + session_id@ + "'"@,
{
    let mut r = "Log file not found for session '".to_owned();
    r.append(session_id);
    r.append("'");
    r
}

} // verus!
