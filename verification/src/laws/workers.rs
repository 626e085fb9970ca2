//! Which workers are shown and stopped.

use vstd::prelude::*;
use crate::json::JsonView;
use crate::laws::tools::says;
use crate::pool::{
    after_stop, meant_entries, pid_fault, sessions_view, shown_status, status_view, worker_view,
    PoolSessionEntry, SignalOutcome, StopView,
};
use crate::text::decimal;

verus! {

/// The workers that are meant are those with the given name, or all.
pub proof fn law_which_workers_are_meant(
    entries: Seq<PoolSessionEntry>,
    sid: Option<Seq<char>>,
    e: PoolSessionEntry,
)
    ensures
        meant_entries(entries, sid).contains(e) <==> entries.contains(e) && (sid is None || sid
            == Some(e.sid@)),
{
    let p = |e: PoolSessionEntry| crate::health::is_meant(sid, e.sid@);
    assert(meant_entries(entries, sid) == entries.filter(p));
    if meant_entries(entries, sid).contains(e) {
        let i = choose|i: int| 0 <= i < entries.filter(p).len() && entries.filter(p)[i] == e;
        entries.lemma_filter_pred(p, i);
        entries.lemma_filter_contains_rev(p, e);
    }
    if entries.contains(e) && (sid is None || sid == Some(e.sid@)) {
        let i = choose|i: int| 0 <= i < entries.len() && entries[i] == e;
        entries.lemma_filter_contains(p, i);
    }
}

/// A worker is told with its name, its process, its socket and its version; its
/// state also with its time, and only where it is meant.
pub proof fn law_workers_are_told_whole(e: PoolSessionEntry, sid: Option<Seq<char>>)
    ensures
        says(worker_view(e), "sid"@, JsonView::Text(e.sid@)),
        says(worker_view(e), "pid"@, JsonView::UInt(e.pid as u64)),
        says(worker_view(e), "sock"@, JsonView::Text(e.sock@)),
        says(worker_view(e), "version"@, JsonView::Text(e.version@)),
        says(status_view(e), "sid"@, JsonView::Text(e.sid@)),
        says(status_view(e), "pid"@, JsonView::UInt(e.pid as u64)),
        says(status_view(e), "sock"@, JsonView::Text(e.sock@)),
        says(status_view(e), "version"@, JsonView::Text(e.version@)),
        says(status_view(e), "created_at"@, JsonView::Text(e.created_at@)),
        says(status_view(e), "status"@, JsonView::Text("running"@)),
        shown_status(e, sid) == (if sid is None || sid == Some(e.sid@) {
            Some(status_view(e))
        } else {
            None
        }),
{
    let a = worker_view(e).members();
    assert(a[0] == ("sid"@, JsonView::Text(e.sid@)));
    assert(a[1] == ("pid"@, JsonView::UInt(e.pid as u64)));
    assert(a[2] == ("sock"@, JsonView::Text(e.sock@)));
    assert(a[3] == ("version"@, JsonView::Text(e.version@)));
    let b = status_view(e).members();
    assert(b[0] == a[0] && b[1] == a[1] && b[2] == a[2] && b[3] == a[3]);
    assert(b[4] == ("created_at"@, JsonView::Text(e.created_at@)));
    assert(b[5] == ("status"@, JsonView::Text("running"@)));
}

/// The answer holds the workers and the version of the pool.
pub proof fn law_the_answer_about_workers_is_whole(
    sessions: Seq<JsonView>,
    pool_version: Seq<char>,
)
    ensures
        says(sessions_view(sessions, pool_version), "sessions"@, JsonView::Array(sessions)),
        says(
            sessions_view(sessions, pool_version),
            "pool_version"@,
            JsonView::Text(pool_version),
        ),
{
    let ms = sessions_view(sessions, pool_version).members();
    assert(ms[0] == ("sessions"@, JsonView::Array(sessions)));
    assert(ms[1] == ("pool_version"@, JsonView::Text(pool_version)));
}

/// A process can be signalled exactly where its number is positive and within 31
/// bits.
pub proof fn law_which_processes_can_be_signalled(e: PoolSessionEntry)
    ensures
        pid_fault(e) is None <==> 0 < e.pid <= i32::MAX,
        e.pid == 0 ==> pid_fault(e) == Some(
            "sid="@ + e.sid@ + ": pid="@ + decimal(0)
                + " is not a valid POSIX target pid (must be > 0); skipping SIGTERM"@,
        ),
        e.pid > i32::MAX ==> pid_fault(e) == Some(
            "sid="@ + e.sid@ + ": pid="@ + decimal(e.pid as nat)
                + " exceeds i32::MAX, cannot send SIGTERM (K-52)"@,
        ),
{
}

/// A worker counts as stopped exactly where its process can be signalled and was,
/// or is gone; every other end but that nothing was sent is an error.
pub proof fn law_which_workers_are_stopped(s: StopView, e: PoolSessionEntry, o: SignalOutcome)
    ensures
        ({
            let r = after_stop(s, e, o);
            let sound = pid_fault(e) is None;
            &&& r.stopped == (if sound && (o is Sent || o is NoSuchProcess) {
                s.stopped.push(e.sid@)
            } else {
                s.stopped
            })
            &&& !sound ==> r.errors == s.errors.push(pid_fault(e)->Some_0)
            &&& sound ==> (o matches SignalOutcome::Failed(c) ==> r.errors == s.errors.push(
                "sid="@ + e.sid@ + ": SIGTERM failed: "@ + c@,
            ))
            &&& sound && o is Unsupported ==> r.errors == s.errors.push(
                "sid="@ + e.sid@ + ": SIGTERM not supported on this platform"@,
            )
            &&& sound && (o is Sent || o is NoSuchProcess || o is NotSent) ==> r.errors == s.errors
        }),
{
}

} // verus!
