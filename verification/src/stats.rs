//! What the logged sessions add up to, by strategy.

use vstd::prelude::*;
use crate::json::{json_content, Json, JsonView};
use crate::logs::{get_text, nested, text_of};
use crate::name_map::{strictly_ascending, NameMap};
use crate::text::{ends_with, opt_str, str_eq, strip_suffix};

verus! {

/// A file of the log directory, with what decides whether it counts.
#[derive(Debug)]
pub struct StatsFile {
    pub name: String,
    /// The text, where it could be read.
    pub text: Option<String>,
    /// A summary stands beside this log.
    pub has_summary: bool,
    /// When it was last written, in milliseconds since the epoch; 0 where that
    /// is not known.
    pub modified_ms: u64,
}

/// The numbers of one session.
#[derive(Debug)]
pub struct SessionFigures {
    pub strategy: String,
    pub elapsed_ms: u64,
    pub llm_calls: u64,
    pub rounds: u64,
    pub prompt_chars: u64,
    pub response_chars: u64,
    pub prompt_tokens: u64,
    pub response_tokens: u64,
}

/// The numbers of one session, as a value.
#[verifier::ext_equal]
pub struct FiguresView {
    pub strategy: Seq<char>,
    pub elapsed_ms: u64,
    pub llm_calls: u64,
    pub rounds: u64,
    pub prompt_chars: u64,
    pub response_chars: u64,
    pub prompt_tokens: u64,
    pub response_tokens: u64,
}

impl View for SessionFigures {
    type V = FiguresView;

    open spec fn view(&self) -> FiguresView {
        FiguresView {
            strategy: self.strategy@,
            elapsed_ms: self.elapsed_ms,
            llm_calls: self.llm_calls,
            rounds: self.rounds,
            prompt_chars: self.prompt_chars,
            response_chars: self.response_chars,
            prompt_tokens: self.prompt_tokens,
            response_tokens: self.response_tokens,
        }
    }
}

/// The number that is held, or 0 where none is.
pub open spec fn count_or_zero(v: Option<JsonView>) -> u64 {
    match v {
        Some(JsonView::UInt(n)) => n,
        _ => 0,
    }
}

/// The strategy that `doc` names.
pub open spec fn strategy_of(doc: JsonView) -> Seq<char> {
    match text_of(doc, "strategy"@) {
        Some(t) => t,
        None => "unknown"@,
    }
}

/// The numbers in the summary `doc`.
pub open spec fn summary_figures(doc: JsonView) -> FiguresView {
    FiguresView {
        strategy: strategy_of(doc),
        elapsed_ms: count_or_zero(doc.field("elapsed_ms"@)),
        llm_calls: count_or_zero(doc.field("llm_calls"@)),
        rounds: count_or_zero(doc.field("rounds"@)),
        prompt_chars: count_or_zero(doc.field("total_prompt_chars"@)),
        response_chars: count_or_zero(doc.field("total_response_chars"@)),
        prompt_tokens: count_or_zero(nested(doc, "prompt_tokens"@, "tokens"@)),
        response_tokens: count_or_zero(nested(doc, "response_tokens"@, "tokens"@)),
    }
}

/// The numbers in the log `doc`; logs hold no token counts.
pub open spec fn log_figures(doc: JsonView) -> FiguresView {
    FiguresView {
        strategy: strategy_of(doc),
        elapsed_ms: count_or_zero(nested(doc, "stats"@, "elapsed_ms"@)),
        llm_calls: count_or_zero(nested(doc, "stats"@, "llm_calls"@)),
        rounds: count_or_zero(nested(doc, "stats"@, "rounds"@)),
        prompt_chars: count_or_zero(nested(doc, "stats"@, "total_prompt_chars"@)),
        response_chars: count_or_zero(nested(doc, "stats"@, "total_response_chars"@)),
        prompt_tokens: 0,
        response_tokens: 0,
    }
}

/// The numbers that the file `f` tells, if it tells of a session.
pub open spec fn figures_in(f: StatsFile) -> Option<FiguresView> {
    match f.text {
        None => None,
        Some(t) => match json_content(t@) {
            Err(_) => None,
            Ok(doc) => if ".meta.json"@.is_suffix_of(f.name@) {
                Some(summary_figures(doc))
            } else if ".json"@.is_suffix_of(f.name@) && !f.has_summary {
                Some(log_figures(doc))
            } else {
                None
            },
        },
    }
}

/// The numbers that the file `f` adds under the filters, if any.
pub open spec fn counted(f: StatsFile, strategy: Option<Seq<char>>, cutoff_ms: Option<u64>) -> Option<
    FiguresView,
> {
    let recent = match cutoff_ms {
        Some(c) => f.modified_ms >= c,
        None => true,
    };
    match figures_in(f) {
        Some(s) => if recent && (strategy is None || strategy == Some(s.strategy)) {
            Some(s)
        } else {
            None
        },
        None => None,
    }
}

/// The sessions that `files` tell of under the filters.
pub open spec fn sessions_in(
    files: Seq<StatsFile>,
    strategy: Option<Seq<char>>,
    cutoff_ms: Option<u64>,
) -> Seq<FiguresView> {
    files.filter_map(|f: StatsFile| counted(f, strategy, cutoff_ms))
}

/// What sessions add up to.
pub struct Totals {
    pub count: nat,
    pub elapsed_ms: nat,
    pub llm_calls: nat,
    pub rounds: nat,
    pub prompt_chars: nat,
    pub response_chars: nat,
    pub prompt_tokens: nat,
    pub response_tokens: nat,
}

impl Totals {
    pub open spec fn zero() -> Totals {
        Totals {
            count: 0,
            elapsed_ms: 0,
            llm_calls: 0,
            rounds: 0,
            prompt_chars: 0,
            response_chars: 0,
            prompt_tokens: 0,
            response_tokens: 0,
        }
    }

    pub open spec fn plus(self, s: FiguresView) -> Totals {
        Totals {
            count: self.count + 1,
            elapsed_ms: self.elapsed_ms + s.elapsed_ms as nat,
            llm_calls: self.llm_calls + s.llm_calls as nat,
            rounds: self.rounds + s.rounds as nat,
            prompt_chars: self.prompt_chars + s.prompt_chars as nat,
            response_chars: self.response_chars + s.response_chars as nat,
            prompt_tokens: self.prompt_tokens + s.prompt_tokens as nat,
            response_tokens: self.response_tokens + s.response_tokens as nat,
        }
    }

    /// Each sum, and the sum of all tokens, can be held in 64 bits.
    pub open spec fn fits(self) -> bool {
        &&& self.elapsed_ms <= u64::MAX
        &&& self.llm_calls <= u64::MAX
        &&& self.rounds <= u64::MAX
        &&& self.prompt_chars <= u64::MAX
        &&& self.response_chars <= u64::MAX
        &&& self.prompt_tokens + self.response_tokens <= u64::MAX
    }
}

/// What the sessions of `s` with the strategy `k` add up to.
pub open spec fn totals(s: Seq<FiguresView>, k: Seq<char>) -> Totals
    decreases s.len(),
{
    if s.len() == 0 {
        Totals::zero()
    } else {
        let before = totals(s.drop_last(), k);
        if s.last().strategy == k {
            before.plus(s.last())
        } else {
            before
        }
    }
}

/// Some session of `s` has the strategy `k`.
pub open spec fn has_strategy(s: Seq<FiguresView>, k: Seq<char>) -> bool {
    exists|i: int| 0 <= i < s.len() && (#[trigger] s[i]).strategy == k
}

/// The sums of every strategy can be held in 64 bits.
pub open spec fn all_fit(s: Seq<FiguresView>) -> bool {
    forall|k: Seq<char>| (#[trigger] totals(s, k)).fits()
}

proof fn lemma_totals_grow(s: Seq<FiguresView>, i: int, k: Seq<char>)
    requires
        0 <= i <= s.len(),
        totals(s, k).fits(),
    ensures
        totals(s.take(i), k).fits(),
    decreases s.len() - i,
{
    if i == s.len() {
        assert(s.take(i) =~= s);
    } else {
        lemma_totals_grow(s, i + 1, k);
        assert(s.take(i + 1).drop_last() =~= s.take(i));
    }
}

/// What the sessions with one strategy add up to.
#[derive(Debug)]
pub struct StrategyTotals {
    pub count: u64,
    pub elapsed_ms: u64,
    pub llm_calls: u64,
    pub rounds: u64,
    pub prompt_chars: u64,
    pub response_chars: u64,
    pub prompt_tokens: u64,
    pub response_tokens: u64,
}

impl View for StrategyTotals {
    type V = Totals;

    open spec fn view(&self) -> Totals {
        Totals {
            count: self.count as nat,
            elapsed_ms: self.elapsed_ms as nat,
            llm_calls: self.llm_calls as nat,
            rounds: self.rounds as nat,
            prompt_chars: self.prompt_chars as nat,
            response_chars: self.response_chars as nat,
            prompt_tokens: self.prompt_tokens as nat,
            response_tokens: self.response_tokens as nat,
        }
    }
}

impl StrategyTotals {
    fn zero() -> (r: StrategyTotals)
        ensures
            r@ == Totals::zero(),
    {
        StrategyTotals {
            count: 0,
            elapsed_ms: 0,
            llm_calls: 0,
            rounds: 0,
            prompt_chars: 0,
            response_chars: 0,
            prompt_tokens: 0,
            response_tokens: 0,
        }
    }

    /// These sums with one more session, where they can be held.
    fn plus(&self, s: &SessionFigures) -> (r: Option<StrategyTotals>)
        requires
            self.count < u64::MAX,
        ensures
            match r {
                Some(t) => t@ == self@.plus(s@) && t@.fits(),
                None => !self@.plus(s@).fits(),
            },
    {
        let elapsed_ms: u64 = self.elapsed_ms.checked_add(s.elapsed_ms)?;
        let llm_calls: u64 = self.llm_calls.checked_add(s.llm_calls)?;
        let rounds: u64 = self.rounds.checked_add(s.rounds)?;
        let prompt_chars: u64 = self.prompt_chars.checked_add(s.prompt_chars)?;
        let response_chars: u64 = self.response_chars.checked_add(s.response_chars)?;
        let prompt_tokens: u64 = self.prompt_tokens.checked_add(s.prompt_tokens)?;
        let response_tokens: u64 = self.response_tokens.checked_add(s.response_tokens)?;
        prompt_tokens.checked_add(response_tokens)?;
        Some(
            StrategyTotals {
                count: self.count + 1,
                elapsed_ms,
                llm_calls,
                rounds,
                prompt_chars,
                response_chars,
                prompt_tokens,
                response_tokens,
            },
        )
    }
}

fn count_of(v: Option<&Json>) -> (r: u64)
    ensures
        r == count_or_zero(
            match v {
                Some(j) => Some(j@),
                None => None,
            },
        ),
{
    match v {
        Some(Json::UInt(n)) => *n,
        _ => 0,
    }
}

fn nested_count(doc: &Json, outer: &str, inner: &str) -> (r: u64)
    ensures
        r == count_or_zero(nested(doc@, outer@, inner@)),
{
    match doc.get(outer) {
        Some(o) => count_of(o.get(inner)),
        None => 0,
    }
}

fn named_strategy(doc: &Json) -> (r: String)
    ensures
        r@ == strategy_of(doc@),
{
    match get_text(doc, "strategy") {
        Some(t) => t,
        None => "unknown".to_owned(),
    }
}

/// The numbers in a summary.
pub fn figures_of_summary(doc: &Json) -> (r: SessionFigures)
    ensures
        r@ == summary_figures(doc@),
{
    SessionFigures {
        strategy: named_strategy(doc),
        elapsed_ms: count_of(doc.get("elapsed_ms")),
        llm_calls: count_of(doc.get("llm_calls")),
        rounds: count_of(doc.get("rounds")),
        prompt_chars: count_of(doc.get("total_prompt_chars")),
        response_chars: count_of(doc.get("total_response_chars")),
        prompt_tokens: nested_count(doc, "prompt_tokens", "tokens"),
        response_tokens: nested_count(doc, "response_tokens", "tokens"),
    }
}

/// The numbers in a log.
pub fn figures_of_log(doc: &Json) -> (r: SessionFigures)
    ensures
        r@ == log_figures(doc@),
{
    SessionFigures {
        strategy: named_strategy(doc),
        elapsed_ms: nested_count(doc, "stats", "elapsed_ms"),
        llm_calls: nested_count(doc, "stats", "llm_calls"),
        rounds: nested_count(doc, "stats", "rounds"),
        prompt_chars: nested_count(doc, "stats", "total_prompt_chars"),
        response_chars: nested_count(doc, "stats", "total_response_chars"),
        prompt_tokens: 0,
        response_tokens: 0,
    }
}

/// The name of the summary that would stand beside the log `name`.
pub fn summary_beside(name: &str) -> (r: String)
    ensures
        match r@ {
            t => if ".json"@.is_suffix_of(name@) {
                t == name@.take(name@.len() - ".json"@.len()) + ".meta.json"@
            } else {
                t == name@ + ".meta.json"@
            },
        },
{
    let mut r = match strip_suffix(name, ".json") {
        Some(t) => {
            assert(name@.take(name@.len() - ".json"@.len()) =~= t@);
            assert(".json"@.is_suffix_of(name@)) by {
                assert(name@.skip(t@.len() as int) =~= ".json"@);
            }
            t
        },
        None => name.to_owned(),
    };
    r.append(".meta.json");
    r
}

/// The numbers that the file `f` adds under the filters, if any.
fn figures_counted(f: &StatsFile, strategy: Option<&str>, cutoff_ms: Option<u64>) -> (r: Option<
    SessionFigures,
>)
    ensures
        match r {
            Some(s) => counted(*f, opt_str(strategy), cutoff_ms) == Some(s@),
            None => counted(*f, opt_str(strategy), cutoff_ms) is None,
        },
{
    let text = match &f.text {
        Some(t) => t,
        None => {
            return None;
        },
    };
    let summary = ends_with(f.name.as_str(), ".meta.json");
    if !summary && (!ends_with(f.name.as_str(), ".json") || f.has_summary) {
        return None;
    }
    let doc = match Json::parse(text.as_str()) {
        Ok(d) => d,
        Err(_) => {
            return None;
        },
    };
    if let Some(c) = cutoff_ms {
        if f.modified_ms < c {
            return None;
        }
    }
    let s = if summary {
        figures_of_summary(&doc)
    } else {
        figures_of_log(&doc)
    };
    if let Some(k) = strategy {
        if !str_eq(s.strategy.as_str(), k) {
            return None;
        }
    }
    Some(s)
}

/// The sums of all counted sessions, by strategy.
#[derive(Debug)]
pub struct StatsReport {
    pub total: u64,
    pub strategies: NameMap<StrategyTotals>,
}

/// `r` holds what the sessions `s` add up to.
pub open spec fn is_report(r: StatsReport, s: Seq<FiguresView>) -> bool {
    &&& r.total == s.len()
    &&& forall|k: Seq<char>| #[trigger] r.strategies@.dom().contains(k) <==> has_strategy(s, k)
    &&& forall|k: Seq<char>|
        #[trigger] r.strategies@.dom().contains(k) ==> r.strategies@[k]@ == totals(s, k)
}

proof fn lemma_absent_totals(s: Seq<FiguresView>, k: Seq<char>)
    requires
        !has_strategy(s, k),
    ensures
        totals(s, k) == Totals::zero(),
    decreases s.len(),
{
    if s.len() > 0 {
        let d = s.drop_last();
        assert(s[s.len() - 1].strategy != k);
        assert forall|i: int| 0 <= i < d.len() implies (#[trigger] d[i]).strategy != k by {
            assert(s[i].strategy != k);
        }
        lemma_absent_totals(d, k);
    }
}

proof fn lemma_count_bound(s: Seq<FiguresView>, k: Seq<char>)
    ensures
        totals(s, k).count <= s.len(),
    decreases s.len(),
{
    if s.len() > 0 {
        lemma_count_bound(s.drop_last(), k);
    }
}

proof fn lemma_strategy_push(s: Seq<FiguresView>, x: FiguresView, k: Seq<char>)
    ensures
        has_strategy(s.push(x), k) <==> has_strategy(s, k) || x.strategy == k,
{
    let t = s.push(x);
    if has_strategy(s, k) {
        let i = choose|i: int| 0 <= i < s.len() && (#[trigger] s[i]).strategy == k;
        assert(t[i].strategy == k);
    }
    if x.strategy == k {
        assert(t[s.len() as int].strategy == k);
    }
    if has_strategy(t, k) {
        let i = choose|i: int| 0 <= i < t.len() && (#[trigger] t[i]).strategy == k;
        if i < s.len() {
            assert(s[i].strategy == k);
        }
    }
}

/// What the sessions that `files` tell of add up to, by strategy, under the
/// filters; nothing where a sum cannot be held in 64 bits.
pub fn stats(files: &Vec<StatsFile>, strategy: Option<&str>, cutoff_ms: Option<u64>) -> (r: Option<
    StatsReport,
>)
    ensures
        match r {
            Some(report) => is_report(
                report,
                sessions_in(files@, opt_str(strategy), cutoff_ms),
            ) && all_fit(sessions_in(files@, opt_str(strategy), cutoff_ms)),
            None => !all_fit(sessions_in(files@, opt_str(strategy), cutoff_ms)),
        },
{
    let ghost f = |x: StatsFile| counted(x, opt_str(strategy), cutoff_ms);
    let ghost all = files@.filter_map(f);
    let mut report = StatsReport { total: 0, strategies: NameMap::new() };
    let mut i: usize = 0;
    proof {
        reveal(Seq::filter_map);
        assert(files@.take(0).filter_map(f) =~= Seq::empty());
    }
    while i < files.len()
        invariant
            i <= files@.len(),
            f == (|x: StatsFile| counted(x, opt_str(strategy), cutoff_ms)),
            all == files@.filter_map(f),
            is_report(report, files@.take(i as int).filter_map(f)),
            all_fit(files@.take(i as int).filter_map(f)),
            files@.take(i as int).filter_map(f).len() <= i,
        decreases files@.len() - i,
    {
        let ghost s = files@.take(i as int).filter_map(f);
        proof {
            files@.lemma_filter_map_take_succ(f, i as int);
        }
        if let Some(x) = figures_counted(&files[i], strategy, cutoff_ms) {
            let ghost t = s.push(x@);
            let ghost k0 = x.strategy@;
            let ghost m0 = report.strategies@;
            proof {
                assert(t.drop_last() =~= s);
                lemma_count_bound(s, k0);
                if !has_strategy(s, k0) {
                    lemma_absent_totals(s, k0);
                }
                lemma_strategy_push(s, x@, k0);
            }
            let next = match report.strategies.get(x.strategy.as_str()) {
                Some(old) => old.plus(&x),
                None => StrategyTotals::zero().plus(&x),
            };
            match next {
                None => {
                    proof {
                        assert(!totals(t, k0).fits());
                        assert(files@.take(i + 1).filter_map(f) == t);
                        lemma_prefix_of_filter_map(files@, f, i + 1);
                        assert(all.take(t.len() as int) =~= t);
                        if all_fit(all) {
                            assert(totals(all, k0).fits());
                            lemma_totals_grow(all, t.len() as int, k0);
                        }
                    }
                    return None;
                },
                Some(sum) => {
                    report.strategies.insert(x.strategy, sum);
                    report.total = report.total + 1;
                    proof {
                        assert(files@.take(i + 1).filter_map(f) =~= t);
                        assert forall|k: Seq<char>| (#[trigger] totals(t, k)).fits() by {
                            assert(totals(s, k).fits());
                            if k == k0 && !has_strategy(s, k0) {
                                assert(totals(t, k) == Totals::zero().plus(x@));
                            }
                        }
                        assert forall|k: Seq<char>| #[trigger]
                            report.strategies@.dom().contains(k) <==> has_strategy(t, k) by {
                            lemma_strategy_push(s, x@, k);
                            assert(m0.dom().contains(k) <==> has_strategy(s, k));
                        }
                        assert forall|k: Seq<char>| #[trigger]
                            report.strategies@.dom().contains(k) implies report.strategies@[k]@
                            == totals(t, k) by {
                            assert(m0.dom().contains(k) <==> has_strategy(s, k));
                        }
                    }
                },
            }
        } else {
            assert(files@.take(i + 1).filter_map(f) =~= s);
        }
        i = i + 1;
    }
    assert(files@.take(files@.len() as int) =~= files@);
    Some(report)
}

proof fn lemma_prefix_of_filter_map(
    v: Seq<StatsFile>,
    f: spec_fn(StatsFile) -> Option<FiguresView>,
    i: int,
)
    requires
        0 <= i <= v.len(),
    ensures
        v.take(i).filter_map(f).len() <= v.filter_map(f).len(),
        v.filter_map(f).take(v.take(i).filter_map(f).len() as int) == v.take(i).filter_map(f),
    decreases v.len() - i,
{
    let a = v.take(i).filter_map(f);
    if i == v.len() {
        assert(v.take(i) =~= v);
        assert(a.take(a.len() as int) =~= a);
    } else {
        lemma_prefix_of_filter_map(v, f, i + 1);
        v.lemma_filter_map_take_succ(f, i);
        let b = v.take(i + 1).filter_map(f);
        let c = v.filter_map(f);
        assert(b.take(a.len() as int) =~= a);
        assert(c.take(a.len() as int) =~= c.take(b.len() as int).take(a.len() as int));
    }
}

/// The milliseconds of a day.
pub const DAY_MS: u64 = 86_400_000;

/// The time, in milliseconds since the epoch, from which on a session is one of
/// the last `days` days at the time `now_ms`: the epoch where the days reach
/// back before it.
pub open spec fn cutoff_of(now_ms: u64, days: u64) -> int {
    if days * DAY_MS <= now_ms {
        now_ms - days * DAY_MS
    } else {
        0
    }
}

/// The time, in milliseconds since the epoch, from which on a session is one of
/// the last `days` days at the time `now_ms`.
pub fn cutoff_ms(now_ms: u64, days: u64) -> (r: u64)
    ensures
        r == cutoff_of(now_ms, days),
{
    if days <= now_ms / DAY_MS {
        now_ms - days * DAY_MS
    } else {
        0
    }
}

/// `sum` shared among `count`, rounded to the nearest whole number, halves up.
pub open spec fn averaged(sum: nat, count: nat) -> nat {
    let c = if count == 0 {
        1
    } else {
        count
    };
    (sum + c / 2) / c
}

fn average(sum: u64, count: u64) -> (r: u64)
    ensures
        r == averaged(sum as nat, count as nat),
{
    let c: u128 = if count == 0 {
        1
    } else {
        count as u128
    };
    let n: u128 = sum as u128 + c / 2;
    let q: u128 = n / c;
    proof {
        let (si, ci, qi) = (sum as int, c as int, q as int);
        if ci == 1 {
            assert(qi == si) by (nonlinear_arith)
                requires
                    ci == 1,
                    qi == (si + ci / 2) / ci,
            ;
        } else if si == 0 {
            assert(qi == 0) by (nonlinear_arith)
                requires
                    ci >= 2,
                    qi == (0 + ci / 2) / ci,
            ;
        } else {
            assert(qi <= si) by (nonlinear_arith)
                requires
                    ci >= 2,
                    qi == (si + ci / 2) / ci,
                    si >= 1,
            ;
        }
    }
    q as u64
}

/// What is reported of the sessions with one strategy.
pub open spec fn totals_json(t: Totals) -> JsonView {
    JsonView::Object(
        seq![
            ("count"@, JsonView::UInt(t.count as u64)),
            ("avg_elapsed_ms"@, JsonView::UInt(averaged(t.elapsed_ms, t.count) as u64)),
            ("avg_llm_calls"@, JsonView::UInt(averaged(t.llm_calls, t.count) as u64)),
            ("avg_rounds"@, JsonView::UInt(averaged(t.rounds, t.count) as u64)),
            ("total_prompt_chars"@, JsonView::UInt(t.prompt_chars as u64)),
            ("total_response_chars"@, JsonView::UInt(t.response_chars as u64)),
            ("total_prompt_tokens"@, JsonView::UInt(t.prompt_tokens as u64)),
            ("total_response_tokens"@, JsonView::UInt(t.response_tokens as u64)),
            ("total_tokens"@, JsonView::UInt((t.prompt_tokens + t.response_tokens) as u64)),
        ],
    )
}

impl StrategyTotals {
    /// What is reported of these sessions.
    pub fn to_json(&self) -> (r: Json)
        requires
            self@.fits(),
        ensures
            r@ == totals_json(self@),
    {
        let tokens: u64 = self.prompt_tokens + self.response_tokens;
        let r = Json::object().with("count", Json::UInt(self.count)).with(
            "avg_elapsed_ms",
            Json::UInt(average(self.elapsed_ms, self.count)),
        ).with("avg_llm_calls", Json::UInt(average(self.llm_calls, self.count))).with(
            "avg_rounds",
            Json::UInt(average(self.rounds, self.count)),
        ).with("total_prompt_chars", Json::UInt(self.prompt_chars)).with(
            "total_response_chars",
            Json::UInt(self.response_chars),
        ).with("total_prompt_tokens", Json::UInt(self.prompt_tokens)).with(
            "total_response_tokens",
            Json::UInt(self.response_tokens),
        ).with("total_tokens", Json::UInt(tokens));
        assert(r@.members() =~= totals_json(self@).members());
        r
    }
}

/// What is reported of each strategy, in the order of `keys`.
pub open spec fn strategies_json(
    keys: Seq<Seq<char>>,
    m: Map<Seq<char>, StrategyTotals>,
) -> JsonView {
    JsonView::Object(keys.map_values(|k: Seq<char>| (k, totals_json(m[k]@))))
}

impl StatsReport {
    /// The sums of every strategy can be held in 64 bits.
    pub open spec fn fits(self) -> bool {
        forall|k: Seq<char>|
            #[trigger] self.strategies@.dom().contains(k) ==> self.strategies@[k]@.fits()
    }

    /// The report as a document, with what is known of the card sinks.
    pub fn to_json(&self, card_sinks: Json) -> (r: Json)
        requires
            self.fits(),
        ensures
            strictly_ascending(self.strategies.keys()),
            r@ == JsonView::Object(
                seq![
                    ("total_sessions"@, JsonView::UInt(self.total)),
                    ("strategies"@, strategies_json(self.strategies.keys(), self.strategies@)),
                    ("card_sinks"@, card_sinks@),
                ],
            ),
    {
        let ghost keys = self.strategies.keys();
        let ghost m = self.strategies@;
        let n: usize = self.strategies.len();
        let mut out: Vec<(String, Json)> = Vec::new();
        let mut i: usize = 0;
        while i < n
            invariant
                i <= n,
                n == keys.len(),
                keys == self.strategies.keys(),
                m == self.strategies@,
                self.fits(),
                forall|k: Seq<char>| #[trigger] m.dom().contains(k) <==> keys.contains(k),
                out@.len() == i,
                forall|k: int|
                    0 <= k < i ==> (#[trigger] out@[k]).0@ == keys[k] && out@[k].1@ == totals_json(
                        m[keys[k]]@,
                    ),
            decreases n - i,
        {
            let (k, t) = self.strategies.at(i);
            assert(keys.contains(keys[i as int]));
            assert(m.dom().contains(keys[i as int]));
            let name = k.clone();
            let doc = t.to_json();
            out.push((name, doc));
            i = i + 1;
        }
        let ghost v = out@;
        let strategies = Json::object_of(out);
        proof {
            assert(crate::json::member_views(v) =~= strategies_json(keys, m).members());
        }
        let r = Json::object().with("total_sessions", Json::UInt(self.total)).with(
            "strategies",
            strategies,
        ).with("card_sinks", card_sinks);
        assert(r@.members() =~= seq![
            ("total_sessions"@, JsonView::UInt(self.total)),
            ("strategies"@, strategies_json(keys, m)),
            ("card_sinks"@, card_sinks@),
        ]);
        r
    }
}

/// The report where there is no log directory: no session, no strategy.
pub fn empty_report(card_sinks: Json) -> (r: Json)
    ensures
        r@ == JsonView::Object(
            seq![
                ("total_sessions"@, JsonView::UInt(0)),
                ("strategies"@, JsonView::Object(Seq::empty())),
                ("card_sinks"@, card_sinks@),
            ],
        ),
{
    let r = Json::object().with("total_sessions", Json::UInt(0)).with(
        "strategies",
        Json::object(),
    ).with("card_sinks", card_sinks);
    assert(r@.members() =~= seq![
        ("total_sessions"@, JsonView::UInt(0)),
        ("strategies"@, JsonView::Object(Seq::empty())),
        ("card_sinks"@, card_sinks@),
    ]);
    r
}

// ─── Laws ───────────────────────────────────────────────────────

proof fn lemma_sessions_step(
    files: Seq<StatsFile>,
    strategy: Option<Seq<char>>,
    cutoff: Option<u64>,
)
    requires
        files.len() > 0,
    ensures
        sessions_in(files, strategy, cutoff) == match counted(files.last(), strategy, cutoff) {
            Some(s) => sessions_in(files.drop_last(), strategy, cutoff).push(s),
            None => sessions_in(files.drop_last(), strategy, cutoff),
        },
{
    let f = |x: StatsFile| counted(x, strategy, cutoff);
    let n = files.len() - 1;
    files.lemma_filter_map_take_succ(f, n);
    assert(files.take(n + 1) =~= files);
    assert(files.take(n) =~= files.drop_last());
    match f(files[n]) {
        Some(s) => {
            assert(files.drop_last().filter_map(f) + seq![s] =~= files.drop_last().filter_map(
                f,
            ).push(s));
        },
        None => {
            assert(files.drop_last().filter_map(f) + Seq::<FiguresView>::empty()
                =~= files.drop_last().filter_map(f));
        },
    }
}

/// Filtering by a strategy leaves the sums of that strategy as they are, and
/// leaves nothing of the others.
pub proof fn law_strategy_filter_is_exact(
    files: Seq<StatsFile>,
    strategy: Seq<char>,
    cutoff: Option<u64>,
    k: Seq<char>,
)
    ensures
        totals(sessions_in(files, Some(strategy), cutoff), k) == (if k == strategy {
            totals(sessions_in(files, None, cutoff), k)
        } else {
            Totals::zero()
        }),
    decreases files.len(),
{
    if files.len() == 0 {
        reveal(Seq::filter_map);
        assert(sessions_in(files, Some(strategy), cutoff) =~= Seq::empty());
        assert(sessions_in(files, None, cutoff) =~= Seq::empty());
    } else {
        let d = files.drop_last();
        law_strategy_filter_is_exact(d, strategy, cutoff, k);
        lemma_sessions_step(files, Some(strategy), cutoff);
        lemma_sessions_step(files, None, cutoff);
        let a = sessions_in(d, Some(strategy), cutoff);
        let b = sessions_in(d, None, cutoff);
        match counted(files.last(), None, cutoff) {
            Some(s) => {
                assert(a.push(s).drop_last() =~= a);
                assert(b.push(s).drop_last() =~= b);
            },
            None => {},
        }
    }
}

/// A file written before the cutoff changes nothing.
pub proof fn law_old_files_do_not_count(
    files: Seq<StatsFile>,
    f: StatsFile,
    strategy: Option<Seq<char>>,
    cutoff: u64,
)
    requires
        f.modified_ms < cutoff,
    ensures
        sessions_in(files.push(f), strategy, Some(cutoff)) == sessions_in(
            files,
            strategy,
            Some(cutoff),
        ),
{
    lemma_sessions_step(files.push(f), strategy, Some(cutoff));
    assert(files.push(f).drop_last() =~= files);
}

/// A log beside which a summary stands is not counted twice: it changes nothing.
pub proof fn law_log_with_summary_does_not_count(
    files: Seq<StatsFile>,
    f: StatsFile,
    strategy: Option<Seq<char>>,
    cutoff: Option<u64>,
)
    requires
        f.has_summary,
        !".meta.json"@.is_suffix_of(f.name@),
    ensures
        sessions_in(files.push(f), strategy, cutoff) == sessions_in(files, strategy, cutoff),
{
    lemma_sessions_step(files.push(f), strategy, cutoff);
    assert(files.push(f).drop_last() =~= files);
}

/// Where the days reach back to the epoch or before it, no file is too old.
pub proof fn law_days_before_the_epoch_drop_nothing(
    files: Seq<StatsFile>,
    strategy: Option<Seq<char>>,
    now_ms: u64,
    days: u64,
)
    requires
        days * DAY_MS >= now_ms,
    ensures
        sessions_in(files, strategy, Some(cutoff_of(now_ms, days) as u64)) == sessions_in(
            files,
            strategy,
            None,
        ),
    decreases files.len(),
{
    let cutoff = Some(cutoff_of(now_ms, days) as u64);
    if files.len() == 0 {
        reveal(Seq::filter_map);
        assert(sessions_in(files, strategy, cutoff) =~= sessions_in(files, strategy, None));
    } else {
        law_days_before_the_epoch_drop_nothing(files.drop_last(), strategy, now_ms, days);
        lemma_sessions_step(files, strategy, cutoff);
        lemma_sessions_step(files, strategy, None);
    }
}

} // verus!
