//! What a diagnosis finds, and what code requires.

use vstd::prelude::*;
use crate::doctor::{
    absent_subs, after_blanks, after_records, comment_end, diagnosis, direct_sub, fault_entry,
    finding_docs, full_diagnosis, incomplete_advice, incomplete_entry, is_comment, is_require,
    missing_advice, opens_long, place_before, plain_end, quoted_argument, sub_at, subs_from,
    token_end, with_outcome, word_end, BucketsView, InstalledState, OutcomeView,
};
use crate::health::{dangling_reason, finding_json, Finding};
use crate::json::{text_views, JsonView};
use crate::laws::tools::says;
use crate::source::SourceView;
use crate::text::{opt_text, quoted, texts};

verus! {

/// The numbers below `n`.
pub open spec fn numbers(n: int) -> Seq<int> {
    Seq::new(n as nat, |i: int| i)
}

/// Every required submodule that is not there is listed, in the order in which
/// they are required, and nothing else is.
pub proof fn law_every_missing_submodule_is_listed(
    subs: Seq<Seq<char>>,
    present: Seq<bool>,
    t: Seq<char>,
)
    requires
        present.len() == subs.len(),
    ensures
        absent_subs(subs, present, subs.len() as int).contains(t) <==> exists|i: int|
            0 <= i < subs.len() && !present[i] && #[trigger] subs[i] == t,
        absent_subs(subs, present, subs.len() as int) == numbers(subs.len() as int).filter(
            |i: int| !present[i],
        ).map_values(|i: int| subs[i]),
{
    lemma_absent_is_filter(subs, present, subs.len() as int);
    let p = |i: int| !present[i];
    let f = |i: int| subs[i];
    let all = numbers(subs.len() as int);
    let picked = all.filter(p);
    let r = picked.map_values(f);
    if r.contains(t) {
        let k = choose|k: int| 0 <= k < r.len() && r[k] == t;
        all.lemma_filter_pred(p, k);
        assert(picked.contains(picked[k]));
        all.lemma_filter_contains_rev(p, picked[k]);
        assert(subs[picked[k]] == t);
    }
    if exists|i: int| 0 <= i < subs.len() && !present[i] && #[trigger] subs[i] == t {
        let i = choose|i: int| 0 <= i < subs.len() && !present[i] && #[trigger] subs[i] == t;
        assert(all[i] == i);
        all.lemma_filter_contains(p, i);
        let k = choose|k: int| 0 <= k < picked.len() && picked[k] == i;
        assert(r[k] == t);
    }
}

proof fn lemma_absent_is_filter(subs: Seq<Seq<char>>, present: Seq<bool>, n: int)
    requires
        0 <= n,
    ensures
        absent_subs(subs, present, n) == numbers(n).filter(|i: int| !present[i]).map_values(
            |i: int| subs[i],
        ),
    decreases n,
{
    reveal(Seq::filter);
    let p = |i: int| !present[i];
    let f = |i: int| subs[i];
    if n > 0 {
        lemma_absent_is_filter(subs, present, n - 1);
        assert(numbers(n).drop_last() =~= numbers(n - 1));
        let before = numbers(n - 1).filter(p);
        assert(before.push(n - 1).map_values(f) =~= before.map_values(f).push(subs[n - 1]));
        assert(absent_subs(subs, present, n) =~= numbers(n).filter(p).map_values(f));
    } else {
        assert(absent_subs(subs, present, n) =~= numbers(n).filter(p).map_values(f));
    }
}

/// A recorded package is healthy exactly where it is there with all that it
/// requires of itself, incomplete where it is there and something of that is
/// not, a dangling link where a link in its place leads nowhere, and missing
/// where nothing stands there.
pub proof fn law_packages_are_diagnosed(s: InstalledState)
    requires
        s.well_formed(),
    ensures
        ({
            let whole = forall|i: int| 0 <= i < s.subs@.len() ==> #[trigger] s.present@[i];
            &&& diagnosis(s) is Healthy <==> s.place.alive && whole
            &&& diagnosis(s) is IncompletePkg <==> s.place.alive && !whole
            &&& diagnosis(s) is SymlinkDangling <==> !s.place.alive && s.place.is_symlink
            &&& diagnosis(s) is InstalledMissing <==> !s.place.alive && !s.place.is_symlink
        }),
        diagnosis(s) matches OutcomeView::IncompletePkg(missing, advice) ==> advice
            == incomplete_advice(s.name@, s.place.is_symlink) && forall|t: Seq<char>|
            #[trigger] missing.contains(t) <==> exists|i: int|
                0 <= i < s.subs@.len() && !s.present@[i] && (#[trigger] s.subs@[i])@ == t,
        diagnosis(s) matches OutcomeView::SymlinkDangling(reason, _) ==> reason == dangling_reason(
            opt_text(s.place.link_target),
        ),
        diagnosis(s) matches OutcomeView::InstalledMissing(reason, advice) ==> reason
            == "installed directory missing: "@ + s.dest@ && advice == missing_advice(
            s.name@,
            s.source@,
        ),
{
    let subs = texts(s.subs@);
    let absent = absent_subs(subs, s.present@, s.subs@.len() as int);
    assert forall|t: Seq<char>| #[trigger] absent.contains(t) <==> exists|i: int|
        0 <= i < s.subs@.len() && !s.present@[i] && (#[trigger] s.subs@[i])@ == t by {
        law_every_missing_submodule_is_listed(subs, s.present@, t);
        if absent.contains(t) {
            let i = choose|i: int|
                0 <= i < subs.len() && !s.present@[i] && #[trigger] subs[i] == t;
            assert(s.subs@[i]@ == t);
        }
        if exists|i: int| 0 <= i < s.subs@.len() && !s.present@[i] && (#[trigger] s.subs@[i])@ == t {
            let i = choose|i: int|
                0 <= i < s.subs@.len() && !s.present@[i] && (#[trigger] s.subs@[i])@ == t;
            assert(subs[i] == t);
        }
    }
    if absent.len() > 0 {
        assert(absent.contains(absent[0]));
    }
    if exists|i: int| 0 <= i < s.subs@.len() && !(#[trigger] s.present@[i]) {
        let i = choose|i: int| 0 <= i < s.subs@.len() && !(#[trigger] s.present@[i]);
        assert(s.subs@[i]@ == subs[i]);
        assert(absent.contains(subs[i]));
    }
}

/// Each state goes to the bucket of its own, with the name of its package, and
/// the other buckets stay as they are.
pub proof fn law_outcomes_go_to_their_buckets(b: BucketsView, name: Seq<char>, o: OutcomeView)
    ensures
        ({
            let r = with_outcome(b, name, o);
            let named = JsonView::Text(name);
            &&& r.path_missing == b.path_missing
            &&& o is Healthy ==> r.healthy.len() == b.healthy.len() + 1 && r.healthy.drop_last()
                == b.healthy && says(r.healthy.last(), "name"@, named)
            &&& !(o is Healthy) ==> r.healthy == b.healthy
            &&& o is SymlinkDangling ==> r.symlink_dangling.len() == b.symlink_dangling.len() + 1
                && r.symlink_dangling.drop_last() == b.symlink_dangling && says(
                r.symlink_dangling.last(),
                "name"@,
                named,
            )
            &&& !(o is SymlinkDangling) ==> r.symlink_dangling == b.symlink_dangling
            &&& o is InstalledMissing ==> r.installed_missing.len() == b.installed_missing.len() + 1
                && r.installed_missing.drop_last() == b.installed_missing && says(
                r.installed_missing.last(),
                "name"@,
                named,
            )
            &&& !(o is InstalledMissing) ==> r.installed_missing == b.installed_missing
            &&& o is IncompletePkg ==> r.incomplete_pkg.len() == b.incomplete_pkg.len() + 1
                && r.incomplete_pkg.drop_last() == b.incomplete_pkg && says(
                r.incomplete_pkg.last(),
                "name"@,
                named,
            )
            &&& !(o is IncompletePkg) ==> r.incomplete_pkg == b.incomplete_pkg
        }),
        o matches OutcomeView::SymlinkDangling(reason, advice) ==> says(
            with_outcome(b, name, o).symlink_dangling.last(),
            "reason"@,
            JsonView::Text(reason),
        ) && says(
            with_outcome(b, name, o).symlink_dangling.last(),
            "suggestion"@,
            JsonView::Text(advice),
        ),
        o matches OutcomeView::InstalledMissing(reason, advice) ==> says(
            with_outcome(b, name, o).installed_missing.last(),
            "reason"@,
            JsonView::Text(reason),
        ) && says(
            with_outcome(b, name, o).installed_missing.last(),
            "suggestion"@,
            JsonView::Text(advice),
        ),
        o matches OutcomeView::IncompletePkg(missing, advice) ==> says(
            with_outcome(b, name, o).incomplete_pkg.last(),
            "missing_subs"@,
            JsonView::Array(text_views(missing)),
        ) && says(
            with_outcome(b, name, o).incomplete_pkg.last(),
            "suggestion"@,
            JsonView::Text(advice),
        ),
{
    let r = with_outcome(b, name, o);
    match o {
        OutcomeView::Healthy => {
            assert(r.healthy.drop_last() =~= b.healthy);
            assert(r.healthy.last().members()[0] == ("name"@, JsonView::Text(name)));
        },
        OutcomeView::SymlinkDangling(reason, advice) => {
            assert(r.symlink_dangling.drop_last() =~= b.symlink_dangling);
            law_a_fault_is_told_whole(name, "symlink_dangling"@, reason, advice);
        },
        OutcomeView::InstalledMissing(reason, advice) => {
            assert(r.installed_missing.drop_last() =~= b.installed_missing);
            law_a_fault_is_told_whole(name, "installed_missing"@, reason, advice);
        },
        OutcomeView::IncompletePkg(missing, advice) => {
            assert(r.incomplete_pkg.drop_last() =~= b.incomplete_pkg);
            let ms = incomplete_entry(name, missing, advice).members();
            assert(ms[0] == ("name"@, JsonView::Text(name)));
            assert(ms[2] == ("missing_subs"@, JsonView::Array(text_views(missing))));
            assert(ms[3] == ("suggestion"@, JsonView::Text(advice)));
        },
    }
}

/// A fault is told with its package, its kind, its reason and what to do.
pub proof fn law_a_fault_is_told_whole(
    name: Seq<char>,
    kind: Seq<char>,
    reason: Seq<char>,
    advice: Seq<char>,
)
    ensures
        says(fault_entry(name, kind, reason, advice), "name"@, JsonView::Text(name)),
        says(fault_entry(name, kind, reason, advice), "kind"@, JsonView::Text(kind)),
        says(fault_entry(name, kind, reason, advice), "reason"@, JsonView::Text(reason)),
        says(fault_entry(name, kind, reason, advice), "suggestion"@, JsonView::Text(advice)),
{
    let ms = fault_entry(name, kind, reason, advice).members();
    assert(ms[0] == ("name"@, JsonView::Text(name)));
    assert(ms[1] == ("kind"@, JsonView::Text(kind)));
    assert(ms[2] == ("reason"@, JsonView::Text(reason)));
    assert(ms[3] == ("suggestion"@, JsonView::Text(advice)));
}

/// One more recorded package adds what was found of it where it is meant, and
/// nothing where another is asked for.
pub proof fn law_every_meant_record_is_diagnosed(
    b: BucketsView,
    states: Seq<InstalledState>,
    s: InstalledState,
    target: Option<Seq<char>>,
)
    ensures
        after_records(b, Seq::empty(), target) == b,
        target is None || target == Some(s.name@) ==> after_records(b, states.push(s), target)
            == with_outcome(after_records(b, states, target), s.name@, diagnosis(s)),
        target matches Some(t) && t != s.name@ ==> after_records(b, states.push(s), target)
            == after_records(b, states, target),
{
    assert(states.push(s).drop_last() =~= states);
}

/// A whole diagnosis holds what was found of the recorded packages, and every
/// dangling link and missing directory that no record accounts for.
pub proof fn law_a_diagnosis_holds_every_finding(
    states: Seq<InstalledState>,
    target: Option<Seq<char>>,
    dangling: Seq<Finding>,
    gone: Seq<Finding>,
)
    ensures
        ({
            let r = full_diagnosis(states, target, dangling, gone);
            let b = after_records(BucketsView::empty(), states, target);
            &&& r.healthy == b.healthy && r.installed_missing == b.installed_missing
                && r.incomplete_pkg == b.incomplete_pkg
            &&& r.symlink_dangling == b.symlink_dangling + Seq::new(
                dangling.len(),
                |i: int| finding_json(dangling[i]@),
            )
            &&& r.path_missing == b.path_missing + Seq::new(
                gone.len(),
                |i: int| finding_json(gone[i]@),
            )
        }),
        BucketsView::empty() == (BucketsView {
            healthy: Seq::empty(),
            installed_missing: Seq::empty(),
            symlink_dangling: Seq::empty(),
            path_missing: Seq::empty(),
            incomplete_pkg: Seq::empty(),
        }),
{
    assert(finding_docs(dangling) =~= Seq::new(
        dangling.len(),
        |i: int| finding_json(dangling[i]@),
    ));
    assert(finding_docs(gone) =~= Seq::new(gone.len(), |i: int| finding_json(gone[i]@)));
}

/// The diagnosis always has its five lists, and something was found exactly where
/// one of them is not empty.
pub proof fn law_a_diagnosis_has_five_lists(b: BucketsView)
    ensures
        says(b.json(), "healthy"@, JsonView::Array(b.healthy)),
        says(b.json(), "incomplete_pkg"@, JsonView::Array(b.incomplete_pkg)),
        says(b.json(), "installed_missing"@, JsonView::Array(b.installed_missing)),
        says(b.json(), "symlink_dangling"@, JsonView::Array(b.symlink_dangling)),
        says(b.json(), "path_missing"@, JsonView::Array(b.path_missing)),
        b.json().members().len() == 5,
        !b.matched() <==> b.healthy.len() == 0 && b.incomplete_pkg.len() == 0
            && b.installed_missing.len() == 0 && b.symlink_dangling.len() == 0
            && b.path_missing.len() == 0,
{
    let ms = b.json().members();
    assert(ms[0] == ("healthy"@, JsonView::Array(b.healthy)));
    assert(ms[1] == ("incomplete_pkg"@, JsonView::Array(b.incomplete_pkg)));
    assert(ms[2] == ("installed_missing"@, JsonView::Array(b.installed_missing)));
    assert(ms[3] == ("symlink_dangling"@, JsonView::Array(b.symlink_dangling)));
    assert(ms[4] == ("path_missing"@, JsonView::Array(b.path_missing)));
}

/// What to do about a package that is gone follows its origin: a bundled one
/// comes with the program, a repository and a directory are installed from again,
/// and of the others the origin is to be recorded anew.
pub proof fn law_advice_follows_the_origin(name: Seq<char>, source: SourceView)
    ensures
        source is Bundled ==> "alc_init"@.is_prefix_of(missing_advice(name, source)),
        source matches SourceView::Path(p) ==> ("alc_pkg_install("@ + quoted(p)).is_prefix_of(
            missing_advice(name, source),
        ),
        source matches SourceView::Git(u, _) ==> ("alc_pkg_install("@ + quoted(u)).is_prefix_of(
            missing_advice(name, source),
        ),
        source is Installed ==> "alc_pkg_install <path-or-url> to re-record source"@.is_prefix_of(
            missing_advice(name, source),
        ),
        source is Unknown ==> "alc_hub_reindex then alc_pkg_install"@.is_prefix_of(
            missing_advice(name, source),
        ),
        "Re-run alc_pkg_link"@.is_prefix_of(incomplete_advice(name, true)),
        "Run alc_pkg_install --force"@.is_prefix_of(incomplete_advice(name, false)),
{
    reveal_strlit("alc_init");
    reveal_strlit("alc_init (reinstalls bundled packages from the algocline binary)");
    reveal_strlit("alc_pkg_install <path-or-url> to re-record source");
    reveal_strlit("alc_pkg_install <path-or-url> to re-record source for ");
    reveal_strlit("alc_hub_reindex then alc_pkg_install");
    reveal_strlit("alc_hub_reindex then alc_pkg_install <path-or-url> for ");
    reveal_strlit("Re-run alc_pkg_link");
    reveal_strlit("Re-run alc_pkg_link <path> to re-link ");
    reveal_strlit("Run alc_pkg_install --force");
    reveal_strlit("Run alc_pkg_install --force ");
}

// ─── Code ───────────────────────────────────────────────────────

/// A module names a submodule of the package exactly where it is the package's
/// name, a dot and a name without a dot.
pub proof fn law_direct_submodules(module: Seq<char>, pkg: Seq<char>, sub: Seq<char>)
    ensures
        direct_sub(module, pkg) == Some(sub) <==> module == pkg + "."@ + sub && sub.len() > 0
            && !sub.contains('.'),
{
    reveal_strlit(".");
    let prefix = pkg + "."@;
    if module == pkg + "."@ + sub {
        assert(module.skip(prefix.len() as int) =~= sub);
        assert(prefix =~= module.take(prefix.len() as int));
    }
    if prefix.is_prefix_of(module) {
        assert(module =~= prefix + module.skip(prefix.len() as int));
    }
}

/// None of the characters of `t` ends or escapes anything in quotes `q`.
pub open spec fn is_plain_in(t: Seq<char>, q: char) -> bool {
    forall|i: int|
        0 <= i < t.len() ==> {
            let c = #[trigger] t[i];
            c != q && c != '\\' && c != '\n' && c != '\r'
        }
}

/// Code that begins with a call of `require` with the name of a submodule in
/// quotes, single or double, requires that submodule, whatever follows.
pub proof fn law_a_call_requires_its_module(
    pkg: Seq<char>,
    sub: Seq<char>,
    q: char,
    rest: Seq<char>,
)
    requires
        q == '"' || q == '\'',
        is_plain_in(pkg, q),
        is_plain_in(sub, q),
        sub.len() > 0,
        !sub.contains('.'),
    ensures
        subs_from("require("@ + seq![q] + pkg + "."@ + sub + seq![q] + ")"@ + rest, 0, pkg).contains(
            sub,
        ),
{
    reveal_strlit("require(");
    reveal_strlit("require");
    reveal_strlit(".");
    reveal_strlit(")");
    let module = pkg + "."@ + sub;
    let s = "require("@ + seq![q] + pkg + "."@ + sub + seq![q] + ")"@ + rest;
    assert("require("@.len() == 8);
    assert(s[0] == 'r' && s[1] == 'e' && s[2] == 'q' && s[3] == 'u' && s[4] == 'i' && s[5] == 'r'
        && s[6] == 'e' && s[7] == '(' && s[8] == q);
    reveal_with_fuel(word_end, 9);
    assert(word_end(s, 0) == 7);
    assert(s.subrange(0, 7) =~= "require"@);
    assert(place_before(s, 0) is None);
    assert(is_require(s, 0));
    assert(!opens_long(s, 0));
    let e: int = 9 + module.len() as int;
    assert forall|k: int| 9 <= k < e implies s[k] == module[k - 9] by {}
    assert(s[e] == q && s[e + 1] == ')');
    assert forall|k: int| 9 <= k < e implies s[k] != q && s[k] != '\\' && s[k] != '\n' && s[k]
        != '\r' by {
        let j = k - 9;
        if j < pkg.len() {
            assert(module[j] == pkg[j]);
        } else if j == pkg.len() {
            assert(module[j] == '.');
        } else {
            assert(module[j] == sub[j - pkg.len() - 1]);
        }
    }
    lemma_plain_end(s, q, 9, e);
    assert(after_blanks(s, 7) == 7);
    assert(after_blanks(s, 8) == 8);
    assert(after_blanks(s, e + 1) == e + 1);
    assert(s.subrange(9, e) =~= module);
    assert(quoted_argument(s, 7) == Some(module));
    law_direct_submodules(module, pkg, sub);
    assert(sub_at(s, 0, pkg) == Some(sub));
    let r = subs_from(s, 0, pkg);
    assert(r[0] == sub);
}

proof fn lemma_plain_end(s: Seq<char>, q: char, i: int, e: int)
    requires
        0 <= i <= e < s.len(),
        s[e] == q,
        forall|k: int| i <= k < e ==> #[trigger] s[k] != q && s[k] != '\\' && s[k] != '\n' && s[k] != '\r',
    ensures
        plain_end(s, q, i) == Some(e),
    decreases e - i,
{
    if i < e {
        lemma_plain_end(s, q, i + 1, e);
    }
}

/// A word that is not `require` requires nothing, and neither does a longer word
/// that holds it; the scan goes on behind it.
pub proof fn law_other_words_require_nothing(s: Seq<char>, i: int, pkg: Seq<char>)
    requires
        0 <= i < s.len(),
        s.subrange(i, word_end(s, i)) != "require"@,
    ensures
        subs_from(s, i, pkg) == subs_from(s, token_end(s, i), pkg),
{
}

/// A line comment goes to the end of its line and no further.
pub proof fn law_a_line_comment_ends_with_its_line(s: Seq<char>, i: int)
    requires
        is_comment(s, i),
        !opens_long(s, i + 2),
    ensures
        ({
            let e = token_end(s, i);
            &&& e <= s.len()
            &&& e < s.len() ==> s[e] == '\n' || s[e] == '\r'
            &&& forall|k: int| i + 2 <= k < e ==> #[trigger] s[k] != '\n' && s[k] != '\r'
        }),
{
    lemma_comment_end(s, i + 2);
}

proof fn lemma_comment_end(s: Seq<char>, i: int)
    requires
        0 <= i <= s.len(),
    ensures
        ({
            let e = comment_end(s, i);
            &&& i <= e <= s.len()
            &&& e < s.len() ==> s[e] == '\n' || s[e] == '\r'
            &&& forall|k: int| i <= k < e ==> #[trigger] s[k] != '\n' && s[k] != '\r'
        }),
    decreases s.len() - i,
{
    if i < s.len() && s[i] != '\n' && s[i] != '\r' {
        lemma_comment_end(s, i + 1);
    }
}

} // verus!
