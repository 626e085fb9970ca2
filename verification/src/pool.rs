//! The registry of workers: which are shown, which are stopped, and which stay.

use vstd::prelude::*;
use crate::health::{is_meant, meant};
use crate::install::list_doc;
use crate::json::{views, Json, JsonView};
use crate::text::{decimal, decimal_of, opt_str, texts};

verus! {

/// A worker of the registry.
#[derive(Debug)]
pub struct PoolSessionEntry {
    pub sid: String,
    pub pid: u32,
    pub sock: String,
    pub version: String,
    pub created_at: String,
}

/// The largest number that names a process.
pub const MAX_PID: u32 = 2_147_483_647;

/// The workers that are meant.
pub open spec fn meant_entries(entries: Seq<PoolSessionEntry>, sid: Option<Seq<char>>) -> Seq<
    PoolSessionEntry,
> {
    entries.filter(|e: PoolSessionEntry| is_meant(sid, e.sid@))
}

// ─── Answers ────────────────────────────────────────────────────

/// A live worker as a document.
pub open spec fn worker_view(e: PoolSessionEntry) -> JsonView {
    JsonView::Object(
        seq![
            ("sid"@, JsonView::Text(e.sid@)),
            ("pid"@, JsonView::UInt(e.pid as u64)),
            ("sock"@, JsonView::Text(e.sock@)),
            ("version"@, JsonView::Text(e.version@)),
        ],
    )
}

/// A worker with its state as a document.
pub open spec fn status_view(e: PoolSessionEntry) -> JsonView {
    JsonView::Object(
        seq![
            ("sid"@, JsonView::Text(e.sid@)),
            ("pid"@, JsonView::UInt(e.pid as u64)),
            ("sock"@, JsonView::Text(e.sock@)),
            ("version"@, JsonView::Text(e.version@)),
            ("created_at"@, JsonView::Text(e.created_at@)),
            ("status"@, JsonView::Text("running"@)),
        ],
    )
}

/// The answer with workers.
pub open spec fn sessions_view(sessions: Seq<JsonView>, pool_version: Seq<char>) -> JsonView {
    JsonView::Object(
        seq![
            ("sessions"@, JsonView::Array(sessions)),
            ("pool_version"@, JsonView::Text(pool_version)),
        ],
    )
}

fn worker_json(e: &PoolSessionEntry) -> (r: Json)
    ensures
        r is Object,
        r@ == worker_view(*e),
{
    let r = Json::object().with("sid", Json::text(e.sid.as_str())).with(
        "pid",
        Json::UInt(e.pid as u64),
    ).with("sock", Json::text(e.sock.as_str())).with("version", Json::text(e.version.as_str()));
    assert(r@.members() =~= worker_view(*e).members());
    r
}

fn sessions_json(sessions: Vec<Json>, pool_version: &str) -> (r: Json)
    ensures
        r@ == sessions_view(views(sessions@), pool_version@),
{
    let ghost s = sessions@;
    let r = Json::object().with("sessions", Json::array(sessions)).with(
        "pool_version",
        Json::text(pool_version),
    );
    assert(r@.members() =~= sessions_view(views(s), pool_version@).members());
    r
}

/// The answer with all live workers.
pub fn ensure_answer(live: &Vec<PoolSessionEntry>, pool_version: &str) -> (r: Json)
    ensures
        r@ == sessions_view(
            live@.map_values(|e: PoolSessionEntry| worker_view(e)),
            pool_version@,
        ),
{
    let mut out: Vec<Json> = Vec::new();
    let mut i: usize = 0;
    while i < live.len()
        invariant
            i <= live@.len(),
            out@.len() == i,
            forall|k: int| 0 <= k < i ==> (#[trigger] out@[k])@ == worker_view(live@[k]),
        decreases live@.len() - i,
    {
        out.push(worker_json(&live[i]));
        i = i + 1;
    }
    assert(views(out@) =~= live@.map_values(|e: PoolSessionEntry| worker_view(e)));
    sessions_json(out, pool_version)
}

/// The state of a worker that is meant, as a document.
pub open spec fn shown_status(e: PoolSessionEntry, sid: Option<Seq<char>>) -> Option<JsonView> {
    if is_meant(sid, e.sid@) {
        Some(status_view(e))
    } else {
        None
    }
}

/// The answer with the live workers that are meant.
pub fn status_answer(live: &Vec<PoolSessionEntry>, sid: Option<&str>, pool_version: &str) -> (r:
    Json)
    ensures
        r@ == sessions_view(
            live@.filter_map(|e: PoolSessionEntry| shown_status(e, opt_str(sid))),
            pool_version@,
        ),
{
    let ghost f = |e: PoolSessionEntry| shown_status(e, opt_str(sid));
    let mut out: Vec<Json> = Vec::new();
    let mut i: usize = 0;
    proof {
        reveal(Seq::filter_map);
        assert(live@.take(0).filter_map(f) =~= views(out@));
    }
    while i < live.len()
        invariant
            i <= live@.len(),
            f == (|e: PoolSessionEntry| shown_status(e, opt_str(sid))),
            views(out@) == live@.take(i as int).filter_map(f),
        decreases live@.len() - i,
    {
        proof {
            live@.lemma_filter_map_take_succ(f, i as int);
        }
        let ghost before = out@;
        let e = &live[i];
        if meant(sid, e.sid.as_str()) {
            let j = worker_json(e).with("created_at", Json::text(e.created_at.as_str())).with(
                "status",
                Json::text("running"),
            );
            assert(j@.members() =~= status_view(*e).members());
            let ghost jv = j@;
            out.push(j);
            assert(views(out@) =~= views(before).push(jv));
        }
        assert(views(out@) =~= live@.take(i + 1).filter_map(f));
        i = i + 1;
    }
    assert(live@.take(live@.len() as int) =~= live@);
    sessions_json(out, pool_version)
}

// ─── Stopping ───────────────────────────────────────────────────

/// Why no signal may be sent to the process of the worker, if none may: 0 would
/// reach every process of the group, and larger numbers name no process.
pub open spec fn pid_fault(e: PoolSessionEntry) -> Option<Seq<char>> {
    if e.pid == 0 {
        Some(
            "sid="@ + e.sid@ + ": pid="@ + decimal(e.pid as nat)
                + " is not a valid POSIX target pid (must be > 0); skipping SIGTERM"@,
        )
    } else if e.pid > MAX_PID {
        Some(
            "sid="@ + e.sid@ + ": pid="@ + decimal(e.pid as nat)
                + " exceeds i32::MAX, cannot send SIGTERM (K-52)"@,
        )
    } else {
        None
    }
}

/// The number to send a signal to, or why none may be sent.
pub fn signal_target(e: &PoolSessionEntry) -> (r: Result<i32, String>)
    ensures
        match r {
            Ok(p) => pid_fault(*e) is None && p == e.pid && p > 0,
            Err(m) => pid_fault(*e) == Some(m@),
        },
{
    if 0 < e.pid && e.pid <= MAX_PID {
        return Ok(e.pid as i32);
    }
    let pid = decimal_of(e.pid as u64);
    let mut m = "sid=".to_owned();
    m.append(e.sid.as_str());
    m.append(": pid=");
    m.append(pid.as_str());
    if e.pid == 0 {
        m.append(" is not a valid POSIX target pid (must be > 0); skipping SIGTERM");
    } else {
        m.append(" exceeds i32::MAX, cannot send SIGTERM (K-52)");
    }
    Err(m)
}

/// What came of a signal.
#[derive(Debug)]
pub enum SignalOutcome {
    /// It was sent.
    Sent,
    /// There is no such process.
    NoSuchProcess,
    /// It could not be sent, for the given cause.
    Failed(String),
    /// The platform has no such signal.
    Unsupported,
    /// None was sent, since the number names no process.
    NotSent,
}

/// What became of the workers that were to be stopped.
#[derive(Debug)]
pub struct StopReport {
    pub stopped: Vec<String>,
    pub errors: Vec<String>,
}

/// The content of a `StopReport`.
#[verifier::ext_equal]
pub struct StopView {
    pub stopped: Seq<Seq<char>>,
    pub errors: Seq<Seq<char>>,
}

impl View for StopReport {
    type V = StopView;

    open spec fn view(&self) -> StopView {
        StopView { stopped: texts(self.stopped@), errors: texts(self.errors@) }
    }
}

/// The report with what became of the worker `e`. A process that is gone counts
/// as stopped.
pub open spec fn after_stop(s: StopView, e: PoolSessionEntry, o: SignalOutcome) -> StopView {
    match pid_fault(e) {
        Some(m) => StopView { errors: s.errors.push(m), ..s },
        None => match o {
            SignalOutcome::Sent | SignalOutcome::NoSuchProcess => StopView {
                stopped: s.stopped.push(e.sid@),
                ..s
            },
            SignalOutcome::Failed(c) => StopView {
                errors: s.errors.push("sid="@ + e.sid@ + ": SIGTERM failed: "@ + c@),
                ..s
            },
            SignalOutcome::Unsupported => StopView {
                errors: s.errors.push(
                    "sid="@ + e.sid@ + ": SIGTERM not supported on this platform"@,
                ),
                ..s
            },
            SignalOutcome::NotSent => s,
        },
    }
}

impl StopReport {
    pub fn new() -> (r: StopReport)
        ensures
            r@ == (StopView { stopped: Seq::empty(), errors: Seq::empty() }),
    {
        let r = StopReport { stopped: Vec::new(), errors: Vec::new() };
        assert(r@ =~= StopView { stopped: Seq::empty(), errors: Seq::empty() });
        r
    }

    /// Takes what became of the worker `e` into account.
    pub fn record(&mut self, e: &PoolSessionEntry, outcome: &SignalOutcome)
        ensures
            final(self)@ == after_stop(old(self)@, *e, *outcome),
    {
        let ghost s0 = self@;
        match signal_target(e) {
            Err(m) => {
                self.errors.push(m);
            },
            Ok(_) => match outcome {
                SignalOutcome::Sent | SignalOutcome::NoSuchProcess => {
                    self.stopped.push(e.sid.clone());
                },
                SignalOutcome::Failed(c) => {
                    let mut m = "sid=".to_owned();
                    m.append(e.sid.as_str());
                    m.append(": SIGTERM failed: ");
                    m.append(c.as_str());
                    self.errors.push(m);
                },
                SignalOutcome::Unsupported => {
                    let mut m = "sid=".to_owned();
                    m.append(e.sid.as_str());
                    m.append(": SIGTERM not supported on this platform");
                    self.errors.push(m);
                },
                SignalOutcome::NotSent => {},
            },
        }
        assert(self@ =~= after_stop(s0, *e, *outcome));
    }

    /// The report as a document.
    pub fn to_json(&self) -> (r: Json)
        ensures
            r@ == JsonView::Object(
                seq![
                    ("stopped"@, list_doc(self@.stopped)),
                    ("errors"@, list_doc(self@.errors)),
                ],
            ),
    {
        let r = Json::object().with("stopped", Json::texts(&self.stopped)).with(
            "errors",
            Json::texts(&self.errors),
        );
        assert(r@.members() =~= seq![
            ("stopped"@, list_doc(self@.stopped)),
            ("errors"@, list_doc(self@.errors)),
        ]);
        r
    }
}

/// The workers that are to be stopped, and those that stay registered: every
/// worker that is meant leaves the registry, whatever comes of the signal.
pub fn split_targets(entries: Vec<PoolSessionEntry>, sid: Option<&str>) -> (r: (
    Vec<PoolSessionEntry>,
    Vec<PoolSessionEntry>,
))
    ensures
        r.0@ == meant_entries(entries@, opt_str(sid)),
        r.1@ == entries@.filter(|e: PoolSessionEntry| !is_meant(opt_str(sid), e.sid@)),
{
    let ghost all = entries@;
    let ghost p = |e: PoolSessionEntry| is_meant(opt_str(sid), e.sid@);
    let ghost q = |e: PoolSessionEntry| !is_meant(opt_str(sid), e.sid@);
    let mut targets: Vec<PoolSessionEntry> = Vec::new();
    let mut rest: Vec<PoolSessionEntry> = Vec::new();
    proof {
        reveal(Seq::filter);
        assert(all.take(0).filter(p) =~= targets@);
        assert(all.take(0).filter(q) =~= rest@);
    }
    for e in it: entries
        invariant
            it.seq() == all,
            p == (|e: PoolSessionEntry| is_meant(opt_str(sid), e.sid@)),
            q == (|e: PoolSessionEntry| !is_meant(opt_str(sid), e.sid@)),
            targets@ == all.take(it.index() as int).filter(p),
            rest@ == all.take(it.index() as int).filter(q),
    {
        let ghost i = it.index() as int;
        proof {
            reveal(Seq::filter);
            assert(all.take(i + 1).drop_last() =~= all.take(i));
            assert(all.take(i + 1).last() == e);
        }
        if meant(sid, e.sid.as_str()) {
            targets.push(e);
        } else {
            rest.push(e);
        }
    }
    assert(all.take(all.len() as int) =~= all);
    (targets, rest)
}

/// No signal is ever meant for a group of processes: a number to which one is
/// sent is positive.
pub proof fn law_no_group_is_signalled(e: PoolSessionEntry)
    requires
        pid_fault(e) is None,
    ensures
        0 < e.pid <= MAX_PID,
{
}

/// Every worker that is meant leaves the registry, and no other does.
pub proof fn law_stopping_clears_the_meant(
    entries: Seq<PoolSessionEntry>,
    sid: Option<Seq<char>>,
    e: PoolSessionEntry,
)
    requires
        entries.contains(e),
    ensures
        entries.filter(|x: PoolSessionEntry| !is_meant(sid, x.sid@)).contains(e) <==> !is_meant(
            sid,
            e.sid@,
        ),
{
    let q = |x: PoolSessionEntry| !is_meant(sid, x.sid@);
    let f = entries.filter(q);
    if f.contains(e) {
        let i = choose|i: int| 0 <= i < f.len() && f[i] == e;
        entries.lemma_filter_pred(q, i);
    }
    if q(e) {
        let i = choose|i: int| 0 <= i < entries.len() && entries[i] == e;
        entries.lemma_filter_contains(q, i);
    }
}

} // verus!
