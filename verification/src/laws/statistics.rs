//! What sessions add up to.

use vstd::prelude::*;
use crate::json::{json_content, JsonView};
use crate::laws::tools::{lemma_filter_map_push, says};
use crate::logs::nested;
use crate::stats::{
    averaged, count_or_zero, counted, cutoff_of, figures_in, has_strategy, log_figures, sessions_in,
    strategies_json, strategy_of, summary_figures, totals, totals_json, FiguresView, StatsFile,
    StrategyTotals, Totals, DAY_MS,
};
use vstd::arithmetic::div_mod::lemma_fundamental_div_mod;

verus! {

/// A number is read as it stands; what is not there or is none counts nothing.
pub proof fn law_numbers_are_read(v: Option<JsonView>)
    ensures
        v matches Some(JsonView::UInt(n)) ==> count_or_zero(v) == n,
        !(v matches Some(JsonView::UInt(n)) && true) ==> count_or_zero(v) == 0,
{
}

/// A document tells its strategy, or that it is not known.
pub proof fn law_strategies_are_read(doc: JsonView)
    ensures
        doc.field("strategy"@) matches Some(JsonView::Text(t)) ==> strategy_of(doc) == t,
        !(doc.field("strategy"@) matches Some(JsonView::Text(t)) && true) ==> strategy_of(doc)
            == "unknown"@,
{
}

/// The numbers of a summary are its own members, the tokens within theirs.
pub proof fn law_figures_of_a_summary(doc: JsonView)
    ensures
        ({
            let f = summary_figures(doc);
            &&& f.strategy == strategy_of(doc)
            &&& f.elapsed_ms == count_or_zero(doc.field("elapsed_ms"@))
            &&& f.llm_calls == count_or_zero(doc.field("llm_calls"@))
            &&& f.rounds == count_or_zero(doc.field("rounds"@))
            &&& f.prompt_chars == count_or_zero(doc.field("total_prompt_chars"@))
            &&& f.response_chars == count_or_zero(doc.field("total_response_chars"@))
            &&& f.prompt_tokens == count_or_zero(nested(doc, "prompt_tokens"@, "tokens"@))
            &&& f.response_tokens == count_or_zero(nested(doc, "response_tokens"@, "tokens"@))
        }),
{
}

/// The numbers of a log stand in its `stats`; it holds no tokens.
pub proof fn law_figures_of_a_log(doc: JsonView)
    ensures
        ({
            let f = log_figures(doc);
            &&& f.strategy == strategy_of(doc)
            &&& f.elapsed_ms == count_or_zero(nested(doc, "stats"@, "elapsed_ms"@))
            &&& f.llm_calls == count_or_zero(nested(doc, "stats"@, "llm_calls"@))
            &&& f.rounds == count_or_zero(nested(doc, "stats"@, "rounds"@))
            &&& f.prompt_chars == count_or_zero(nested(doc, "stats"@, "total_prompt_chars"@))
            &&& f.response_chars == count_or_zero(nested(doc, "stats"@, "total_response_chars"@))
            &&& f.prompt_tokens == 0 && f.response_tokens == 0
        }),
{
}

/// A file tells of a session exactly where it can be read and is a summary, or a
/// log without one.
pub proof fn law_which_files_tell_of_a_session(f: StatsFile)
    ensures
        ({
            let summary = ".meta.json"@.is_suffix_of(f.name@);
            let log = !summary && ".json"@.is_suffix_of(f.name@) && !f.has_summary;
            let read = f.text is Some && json_content(f.text->Some_0@) is Ok;
            let doc = json_content(f.text->Some_0@)->Ok_0;
            &&& figures_in(f) is Some <==> read && (summary || log)
            &&& read && summary ==> figures_in(f) == Some(summary_figures(doc))
            &&& read && log ==> figures_in(f) == Some(log_figures(doc))
        }),
{
}

/// A session counts exactly where it is not older than the cutoff and has the
/// strategy that is asked for, if any is.
pub proof fn law_which_sessions_count(
    f: StatsFile,
    strategy: Option<Seq<char>>,
    cutoff: Option<u64>,
)
    ensures
        ({
            let s = figures_in(f)->Some_0;
            &&& counted(f, strategy, cutoff) is Some <==> figures_in(f) is Some && (cutoff is None
                || f.modified_ms >= cutoff->Some_0) && (strategy is None || strategy->Some_0
                == s.strategy)
            &&& counted(f, strategy, cutoff) matches Some(c) ==> c == s
        }),
{
}

/// One more file adds its session behind the others, where it counts, and changes
/// nothing where it does not.
pub proof fn law_every_session_is_taken(
    files: Seq<StatsFile>,
    f: StatsFile,
    strategy: Option<Seq<char>>,
    cutoff: Option<u64>,
)
    ensures
        sessions_in(Seq::empty(), strategy, cutoff).len() == 0,
        counted(f, strategy, cutoff) matches Some(s) ==> sessions_in(files.push(f), strategy, cutoff)
            == sessions_in(files, strategy, cutoff).push(s),
        counted(f, strategy, cutoff) is None ==> sessions_in(files.push(f), strategy, cutoff)
            == sessions_in(files, strategy, cutoff),
{
    let g = |f: StatsFile| counted(f, strategy, cutoff);
    assert(sessions_in(files, strategy, cutoff) == files.filter_map(g));
    assert(sessions_in(files.push(f), strategy, cutoff) == files.push(f).filter_map(g));
    lemma_filter_map_push(files, f, g);
    reveal(Seq::filter_map);
    assert(sessions_in(Seq::empty(), strategy, cutoff) =~= Seq::empty());
}

/// One more session adds each of its numbers to the sums of its strategy, and
/// nothing to those of the others.
pub proof fn law_every_session_adds_its_numbers(s: Seq<FiguresView>, x: FiguresView, k: Seq<char>)
    ensures
        totals(Seq::empty(), k) == Totals::zero(),
        k != x.strategy ==> totals(s.push(x), k) == totals(s, k),
        k == x.strategy ==> ({
            let a = totals(s, k);
            let b = totals(s.push(x), k);
            &&& b.count == a.count + 1
            &&& b.elapsed_ms == a.elapsed_ms + x.elapsed_ms
            &&& b.llm_calls == a.llm_calls + x.llm_calls
            &&& b.rounds == a.rounds + x.rounds
            &&& b.prompt_chars == a.prompt_chars + x.prompt_chars
            &&& b.response_chars == a.response_chars + x.response_chars
            &&& b.prompt_tokens == a.prompt_tokens + x.prompt_tokens
            &&& b.response_tokens == a.response_tokens + x.response_tokens
        }),
        ({
            let z = Totals::zero();
            z.count == 0 && z.elapsed_ms == 0 && z.llm_calls == 0 && z.rounds == 0 && z.prompt_chars
                == 0 && z.response_chars == 0 && z.prompt_tokens == 0 && z.response_tokens == 0
        }),
{
    assert(s.push(x).drop_last() =~= s);
}

/// A strategy is reported exactly where some session has it.
pub proof fn law_reported_strategies(s: Seq<FiguresView>, x: FiguresView, k: Seq<char>)
    ensures
        !has_strategy(Seq::empty(), k),
        has_strategy(s.push(x), k) <==> has_strategy(s, k) || x.strategy == k,
{
    let t = s.push(x);
    if has_strategy(s, k) {
        let i = choose|i: int| 0 <= i < s.len() && (#[trigger] s[i]).strategy == k;
        assert(t[i].strategy == k);
    }
    if x.strategy == k {
        assert(t[s.len() as int].strategy == k);
    }
    if has_strategy(t, k) {
        let i = choose|i: int| 0 <= i < t.len() && (#[trigger] t[i]).strategy == k;
        if i < s.len() {
            assert(s[i].strategy == k);
        }
    }
}

/// Sums can be held exactly where each of them, and all tokens together, are within
/// 64 bits.
pub proof fn law_when_sums_can_be_held(t: Totals)
    ensures
        t.fits() <==> t.elapsed_ms <= u64::MAX && t.llm_calls <= u64::MAX && t.rounds <= u64::MAX
            && t.prompt_chars <= u64::MAX && t.response_chars <= u64::MAX && t.prompt_tokens
            + t.response_tokens <= u64::MAX,
{
}

/// The cutoff lies the given number of days back, and never before the epoch.
pub proof fn law_the_cutoff_lies_days_back(now_ms: u64, days: u64)
    ensures
        DAY_MS == 24 * 60 * 60 * 1000,
        days * DAY_MS <= now_ms ==> cutoff_of(now_ms, days) + days * DAY_MS == now_ms,
        days * DAY_MS >= now_ms ==> cutoff_of(now_ms, days) == 0,
        0 <= cutoff_of(now_ms, days) <= now_ms,
{
}

/// An average is the whole number nearest to the sum's share, and of two as near
/// the larger.
pub proof fn law_averages_are_nearest(sum: nat, count: nat)
    requires
        count > 0,
    ensures
        2 * (sum - averaged(sum, count) * count) < count,
        2 * (averaged(sum, count) * count - sum) <= count,
        averaged(sum, 0) == sum,
{
    let a = averaged(sum, count);
    let n = sum + count / 2;
    lemma_fundamental_div_mod(n as int, count as int);
    assert(n == count * a + n % count);
    assert(count * a == a * count) by (nonlinear_arith);
    assert(averaged(sum, 0) == (sum + 1nat / 2) / 1nat);
}

/// The report of a strategy tells its count, its averages and its sums, and all
/// tokens together.
pub proof fn law_the_report_of_a_strategy_is_whole(t: Totals)
    ensures
        says(totals_json(t), "count"@, JsonView::UInt(t.count as u64)),
        says(
            totals_json(t),
            "avg_elapsed_ms"@,
            JsonView::UInt(averaged(t.elapsed_ms, t.count) as u64),
        ),
        says(totals_json(t), "avg_llm_calls"@, JsonView::UInt(averaged(t.llm_calls, t.count) as u64)),
        says(totals_json(t), "avg_rounds"@, JsonView::UInt(averaged(t.rounds, t.count) as u64)),
        says(totals_json(t), "total_prompt_chars"@, JsonView::UInt(t.prompt_chars as u64)),
        says(totals_json(t), "total_response_chars"@, JsonView::UInt(t.response_chars as u64)),
        says(totals_json(t), "total_prompt_tokens"@, JsonView::UInt(t.prompt_tokens as u64)),
        says(totals_json(t), "total_response_tokens"@, JsonView::UInt(t.response_tokens as u64)),
        says(
            totals_json(t),
            "total_tokens"@,
            JsonView::UInt((t.prompt_tokens + t.response_tokens) as u64),
        ),
{
    let ms = totals_json(t).members();
    assert(ms[0] == ("count"@, JsonView::UInt(t.count as u64)));
    assert(ms[1].0 == "avg_elapsed_ms"@);
    assert(ms[2].0 == "avg_llm_calls"@);
    assert(ms[3].0 == "avg_rounds"@);
    assert(ms[4].0 == "total_prompt_chars"@);
    assert(ms[5].0 == "total_response_chars"@);
    assert(ms[6].0 == "total_prompt_tokens"@);
    assert(ms[7].0 == "total_response_tokens"@);
    assert(ms[8].0 == "total_tokens"@);
}

/// Every strategy is reported under its name, in order.
pub proof fn law_every_strategy_is_reported(
    keys: Seq<Seq<char>>,
    m: Map<Seq<char>, StrategyTotals>,
    i: int,
)
    requires
        0 <= i < keys.len(),
    ensures
        strategies_json(keys, m).members().len() == keys.len(),
        strategies_json(keys, m).members()[i] == (keys[i], totals_json(m[keys[i]]@)),
{
}

} // verus!
