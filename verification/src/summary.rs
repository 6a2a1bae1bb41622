use vstd::prelude::*;
use vstd::pervasive::VecAdditionalExecFns;
use crate::engine::{evaluate, ErrorKind};
use crate::model::{
    cell_failures, check_failures, count_matching, first_matching, lemma_check_failures_step,
    lemma_count_push, lemma_first_push, lemma_none_found_iff_none_counted, row_failures,
    row_failures_upto, sat, table_failures, table_failures_upto, Failure,
};
use crate::rules::{find_checks, rule_map_of, rules_model, ColumnRule, RuleType};

verus! {

/// The tally of one failure kind within one column: how often it was seen and
/// the first offending value, which is never overwritten once set.
pub struct KindStat {
    pub kind: ErrorKind,
    pub count: usize,
    pub example: String,
}

pub struct KindStatModel {
    pub kind: ErrorKind,
    pub count: nat,
    pub example: Seq<char>,
}

impl View for KindStat {
    type V = KindStatModel;

    open spec fn view(&self) -> KindStatModel {
        KindStatModel { kind: self.kind, count: self.count as nat, example: self.example@ }
    }
}

/// All tallies of one column, one entry per failure kind seen there.
pub struct ColumnStats {
    pub column: String,
    pub kinds: Vec<KindStat>,
}

pub struct ColumnStatsModel {
    pub column: Seq<char>,
    pub kinds: Seq<KindStatModel>,
}

impl View for ColumnStats {
    type V = ColumnStatsModel;

    open spec fn view(&self) -> ColumnStatsModel {
        ColumnStatsModel {
            column: self.column@,
            kinds: self.kinds@.map_values(|k: KindStat| k@),
        }
    }
}

/// The aggregate a full scan produces: per-column, per-kind counts with first
/// examples, and the grand total of failing checks.
pub struct ErrorSummary {
    pub stats: Vec<ColumnStats>,
    pub total_errors: usize,
}

pub open spec fn stats_model(stats: Seq<ColumnStats>) -> Seq<ColumnStatsModel> {
    stats.map_values(|c: ColumnStats| c@)
}

pub open spec fn kinds_sum(kinds: Seq<KindStatModel>) -> int
    decreases kinds.len(),
{
    if kinds.len() == 0 {
        0
    } else {
        kinds_sum(kinds.drop_last()) + kinds.last().count
    }
}

pub open spec fn stats_sum(stats: Seq<ColumnStatsModel>) -> int
    decreases stats.len(),
{
    if stats.len() == 0 {
        0
    } else {
        stats_sum(stats.drop_last()) + kinds_sum(stats.last().kinds)
    }
}

pub open spec fn stats_keys_unique(stats: Seq<ColumnStatsModel>) -> bool {
    &&& forall|p: int, q: int|
        0 <= p < q < stats.len() ==> stats[p].column != stats[q].column
    &&& forall|p: int, a: int, b: int|
        0 <= p < stats.len() && 0 <= a < b < stats[p].kinds.len() ==> stats[p].kinds[a].kind
            != stats[p].kinds[b].kind
}

/// One tally is right for the scanned failures: its count is the number of
/// matching failures, clipped to a machine word, and its example is the first
/// matching failure's value.
pub open spec fn kind_entry_ok(column: Seq<char>, e: KindStatModel, evs: Seq<Failure>) -> bool {
    &&& e.count == sat(count_matching(evs, column, e.kind))
    &&& first_matching(evs, column, e.kind) == Some(e.example)
}

pub open spec fn stats_entries_ok(stats: Seq<ColumnStatsModel>, evs: Seq<Failure>) -> bool {
    forall|p: int, a: int|
        0 <= p < stats.len() && 0 <= a < stats[p].kinds.len() ==> kind_entry_ok(
            stats[p].column,
            #[trigger] stats[p].kinds[a],
            evs,
        )
}

pub open spec fn stats_has_key(
    stats: Seq<ColumnStatsModel>,
    column: Seq<char>,
    kind: ErrorKind,
) -> bool {
    exists|p: int, a: int|
        0 <= p < stats.len() && 0 <= a < stats[p].kinds.len() && stats[p].column == column && (
        #[trigger] stats[p].kinds[a]).kind == kind
}

/// Every failure that was scanned has its tally present.
pub open spec fn stats_complete(stats: Seq<ColumnStatsModel>, evs: Seq<Failure>) -> bool {
    forall|i: int|
        0 <= i < evs.len() ==> stats_has_key(stats, (#[trigger] evs[i]).column, evs[i].kind)
}

pub open spec fn stats_ok(stats: Seq<ColumnStatsModel>, evs: Seq<Failure>) -> bool {
    &&& stats_keys_unique(stats)
    &&& stats_entries_ok(stats, evs)
    &&& stats_complete(stats, evs)
    &&& forall|p: int| 0 <= p < stats.len() ==> (#[trigger] stats[p]).kinds.len() > 0
    &&& evs.len() <= usize::MAX as nat ==> stats_sum(stats) == evs.len()
}

/// What a summary says of the failures of a scan: right tallies, nothing
/// missing, and a grand total that the per-kind counts add up to.
pub open spec fn summary_wf(stats: Seq<ColumnStatsModel>, total: nat, evs: Seq<Failure>) -> bool {
    &&& stats_ok(stats, evs)
    &&& total == sat(evs.len())
}

proof fn lemma_count_le_len(evs: Seq<Failure>, column: Seq<char>, kind: ErrorKind)
    ensures
        count_matching(evs, column, kind) <= evs.len(),
    decreases evs.len(),
{
    if evs.len() > 0 {
        lemma_count_le_len(evs.drop_last(), column, kind);
    }
}

proof fn lemma_kinds_sum_update(kinds: Seq<KindStatModel>, a: int, e: KindStatModel)
    requires
        0 <= a < kinds.len(),
    ensures
        kinds_sum(kinds.update(a, e)) == kinds_sum(kinds) - kinds[a].count + e.count,
    decreases kinds.len(),
{
    let u = kinds.update(a, e);
    if a == kinds.len() - 1 {
        assert(u.drop_last() =~= kinds.drop_last());
        assert(u.last() == e);
    } else {
        assert(u.drop_last() =~= kinds.drop_last().update(a, e));
        assert(u.last() == kinds.last());
        lemma_kinds_sum_update(kinds.drop_last(), a, e);
    }
}

proof fn lemma_kinds_sum_push(kinds: Seq<KindStatModel>, e: KindStatModel)
    ensures
        kinds_sum(kinds.push(e)) == kinds_sum(kinds) + e.count,
{
    assert(kinds.push(e).drop_last() =~= kinds);
    assert(kinds.push(e).last() == e);
}

proof fn lemma_stats_sum_update(stats: Seq<ColumnStatsModel>, p: int, cs: ColumnStatsModel)
    requires
        0 <= p < stats.len(),
    ensures
        stats_sum(stats.update(p, cs)) == stats_sum(stats) - kinds_sum(stats[p].kinds) + kinds_sum(
            cs.kinds,
        ),
    decreases stats.len(),
{
    let u = stats.update(p, cs);
    if p == stats.len() - 1 {
        assert(u.drop_last() =~= stats.drop_last());
        assert(u.last() == cs);
    } else {
        assert(u.drop_last() =~= stats.drop_last().update(p, cs));
        assert(u.last() == stats.last());
        lemma_stats_sum_update(stats.drop_last(), p, cs);
    }
}

proof fn lemma_stats_sum_push(stats: Seq<ColumnStatsModel>, cs: ColumnStatsModel)
    ensures
        stats_sum(stats.push(cs)) == stats_sum(stats) + kinds_sum(cs.kinds),
{
    assert(stats.push(cs).drop_last() =~= stats);
    assert(stats.push(cs).last() == cs);
}

fn find_column(stats: &Vec<ColumnStats>, column: &String) -> (r: Option<usize>)
    ensures
        r matches Some(p) ==> (p as int) < stats@.len() && stats_model(stats@)[p as int].column
            == column@,
        r is None ==> forall|p: int|
            0 <= p < stats@.len() ==> stats_model(stats@)[p].column != column@,
{
    let mut p: usize = 0;
    while p < stats.len()
        invariant
            p <= stats.len(),
            forall|q: int| 0 <= q < p ==> stats_model(stats@)[q].column != column@,
        decreases stats.len() - p,
    {
        if stats[p].column == *column {
            return Some(p);
        }
        p = p + 1;
    }
    None
}

fn find_kind(kinds: &Vec<KindStat>, kind: ErrorKind) -> (r: Option<usize>)
    ensures
        r matches Some(a) ==> (a as int) < kinds@.len() && kinds@[a as int].kind == kind,
        r is None ==> forall|b: int| 0 <= b < kinds@.len() ==> kinds@[b].kind != kind,
{
    let mut a: usize = 0;
    while a < kinds.len()
        invariant
            a <= kinds.len(),
            forall|b: int| 0 <= b < a ==> kinds@[b].kind != kind,
        decreases kinds.len() - a,
    {
        if kinds[a].kind == kind {
            return Some(a);
        }
        a = a + 1;
    }
    None
}

/// Folds one failure into the tallies: bumps its count, creating the entry at
/// first sight, and keeps the first example.
fn record_failure(
    stats: &mut Vec<ColumnStats>,
    column: &String,
    kind: ErrorKind,
    value: &String,
    Ghost(evs): Ghost<Seq<Failure>>,
)
    requires
        stats_ok(stats_model(old(stats)@), evs),
    ensures
        stats_ok(
            stats_model(final(stats)@),
            evs.push(Failure { column: column@, kind, value: value@ }),
        ),
{
    let ghost ev = Failure { column: column@, kind, value: value@ };
    let ghost evs2 = evs.push(ev);
    let ghost old_model = stats_model(stats@);
    proof {
        lemma_count_le_len(evs, column@, kind);
        // every existing tally keeps its meaning under the new failure
        assert forall|c: Seq<char>, k: ErrorKind| !(c == column@ && k == kind) implies {
            &&& count_matching(evs2, c, k) == count_matching(evs, c, k)
            &&& first_matching(evs2, c, k) == first_matching(evs, c, k)
        } by {
            lemma_count_push(evs, ev, c, k);
            lemma_first_push(evs, ev, c, k);
        }
        lemma_count_push(evs, ev, column@, kind);
        lemma_first_push(evs, ev, column@, kind);
        lemma_none_found_iff_none_counted(evs, column@, kind);
    }
    match find_column(stats, column) {
        Some(p) => {
            let mut cs = stats.remove(p);
            let ghost old_kinds = cs@.kinds;
            let ghost mut ka: int = 0;
            match find_kind(&cs.kinds, kind) {
                Some(a) => {
                    let old_count = cs.kinds[a].count;
                    let k2 = cs.kinds[a].kind;
                    let ex = cs.kinds[a].example.clone();
                    let nc = if old_count < usize::MAX {
                        old_count + 1
                    } else {
                        old_count
                    };
                    cs.kinds.set(a, KindStat { kind: k2, count: nc, example: ex });
                    proof {
                        ka = a as int;
                        assert(cs@.kinds =~= old_kinds.update(
                            a as int,
                            KindStatModel { kind: k2, count: nc as nat, example: ex@ },
                        ));
                        lemma_kinds_sum_update(
                            old_kinds,
                            a as int,
                            KindStatModel { kind: k2, count: nc as nat, example: ex@ },
                        );
                    }
                },
                None => {
                    proof {
                        // the key was absent, so nothing was counted for it yet
                        if count_matching(evs, column@, kind) > 0 {
                            lemma_count_positive_event(evs, column@, kind);
                            let i = choose|i: int|
                                0 <= i < evs.len() && evs[i].column == column@ && evs[i].kind
                                    == kind;
                            assert(stats_has_key(old_model, column@, kind));
                            let (pp, aa) = choose|pp: int, aa: int|
                                0 <= pp < old_model.len() && 0 <= aa
                                    < old_model[pp].kinds.len() && old_model[pp].column == column@
                                    && (#[trigger] old_model[pp].kinds[aa]).kind == kind;
                            assert(pp == p as int);
                            assert(false);
                        }
                    }
                    cs.kinds.push(KindStat { kind, count: 1, example: value.clone() });
                    proof {
                        ka = old_kinds.len() as int;
                        lemma_kinds_sum_push(
                            old_kinds,
                            KindStatModel { kind, count: 1nat, example: value@ },
                        );
                        assert(cs@.kinds =~= old_kinds.push(
                            KindStatModel { kind, count: 1nat, example: value@ },
                        ));
                    }
                },
            }
            let ghost cs_model = cs@;
            stats.insert(p, cs);
            proof {
                assert(stats_model(stats@) =~= old_model.update(p as int, cs_model));
                lemma_stats_sum_update(old_model, p as int, cs_model);
                let new_model = stats_model(stats@);
                assert(cs_model.column == old_model[p as int].column);
                assert(new_model[p as int].kinds[ka].kind == kind);
                assert(stats_has_key(new_model, column@, kind));
                lemma_complete_preserved(old_model, new_model, evs, ev);
            }
        },
        None => {
            proof {
                if count_matching(evs, column@, kind) > 0 {
                    lemma_count_positive_event(evs, column@, kind);
                    assert(stats_has_key(old_model, column@, kind));
                    assert(false);
                }
            }
            let kinds = vec![KindStat { kind, count: 1, example: value.clone() }];
            proof {
                assert(kinds@.map_values(|k: KindStat| k@) =~= seq![
                    KindStatModel { kind, count: 1nat, example: value@ },
                ]);
                lemma_kinds_sum_push(
                    Seq::<KindStatModel>::empty(),
                    KindStatModel { kind, count: 1nat, example: value@ },
                );
                assert(Seq::<KindStatModel>::empty().push(
                    KindStatModel { kind, count: 1nat, example: value@ },
                ) =~= seq![KindStatModel { kind, count: 1nat, example: value@ }]);
            }
            let cs = ColumnStats { column: column.clone(), kinds };
            let ghost cs_model = cs@;
            stats.push(cs);
            proof {
                assert(stats_model(stats@) =~= old_model.push(cs_model));
                lemma_stats_sum_push(old_model, cs_model);
                let new_model = stats_model(stats@);
                assert(new_model[old_model.len() as int].kinds[0].kind == kind);
                assert(stats_has_key(new_model, column@, kind));
                lemma_complete_preserved(old_model, new_model, evs, ev);
            }
        },
    }
}

/// Tallies only ever grow, and every key keeps its place, so completeness
/// carries over to the next failure once its own key is present.
proof fn lemma_complete_preserved(
    old_model: Seq<ColumnStatsModel>,
    new_model: Seq<ColumnStatsModel>,
    evs: Seq<Failure>,
    ev: Failure,
)
    requires
        stats_complete(old_model, evs),
        new_model.len() >= old_model.len(),
        forall|pp: int|
            0 <= pp < old_model.len() ==> (#[trigger] new_model[pp]).column == old_model[pp].column
                && new_model[pp].kinds.len() >= old_model[pp].kinds.len(),
        forall|pp: int, aa: int|
            0 <= pp < old_model.len() && 0 <= aa < old_model[pp].kinds.len() ==> (
            #[trigger] new_model[pp].kinds[aa]).kind == old_model[pp].kinds[aa].kind,
        stats_has_key(new_model, ev.column, ev.kind),
    ensures
        stats_complete(new_model, evs.push(ev)),
{
    let evs2 = evs.push(ev);
    assert forall|ii: int| 0 <= ii < evs2.len() implies stats_has_key(
        new_model,
        (#[trigger] evs2[ii]).column,
        evs2[ii].kind,
    ) by {
        if ii < evs.len() {
            assert(evs2[ii] == evs[ii]);
            assert(stats_has_key(old_model, evs[ii].column, evs[ii].kind));
            let (pp, aa) = choose|pp: int, aa: int|
                0 <= pp < old_model.len() && 0 <= aa < old_model[pp].kinds.len()
                    && old_model[pp].column == evs[ii].column && (
                #[trigger] old_model[pp].kinds[aa]).kind == evs[ii].kind;
            assert(0 <= pp < new_model.len() && 0 <= aa < new_model[pp].kinds.len()
                && new_model[pp].column == evs[ii].column && (#[trigger] new_model[pp].kinds[aa]).kind
                == evs[ii].kind);
        } else {
            assert(evs2[ii] == ev);
        }
    }
}

proof fn lemma_count_positive_event(evs: Seq<Failure>, column: Seq<char>, kind: ErrorKind)
    requires
        count_matching(evs, column, kind) > 0,
    ensures
        exists|i: int| 0 <= i < evs.len() && (#[trigger] evs[i]).column == column && evs[i].kind == kind,
    decreases evs.len(),
{
    if evs.last().column == column && evs.last().kind == kind {
        assert(evs[evs.len() - 1].column == column && evs[evs.len() - 1].kind == kind);
    } else {
        lemma_count_positive_event(evs.drop_last(), column, kind);
        let i = choose|i: int|
            0 <= i < evs.drop_last().len() && (#[trigger] evs.drop_last()[i]).column == column
                && evs.drop_last()[i].kind == kind;
        assert((#[trigger] evs[i]).column == column && evs[i].kind == kind);
    }
}

/// Scans the whole table against the rules: every check of every ruled column
/// of every row, in row, then column, then check order.
pub fn summarize(headers: &Vec<String>, records: &Vec<Vec<String>>, rules: &Vec<ColumnRule>) -> (s:
    ErrorSummary)
    ensures
        summary_wf(
            stats_model(s.stats@),
            s.total_errors as nat,
            table_failures(
                headers.deep_view(),
                rule_map_of(rules_model(rules@)),
                records.deep_view(),
            ),
        ),
{
    let ghost hd = headers.deep_view();
    let ghost rm = rule_map_of(rules_model(rules@));
    let ghost tbl = records.deep_view();
    let mut stats: Vec<ColumnStats> = Vec::new();
    let mut total: usize = 0;
    let ghost mut evs = Seq::<Failure>::empty();
    proof {
        assert(stats_model(stats@) =~= Seq::<ColumnStatsModel>::empty());
    }
    let mut r: usize = 0;
    while r < records.len()
        invariant
            r <= records.len(),
            tbl == records.deep_view(),
            hd == headers.deep_view(),
            rm == rule_map_of(rules_model(rules@)),
            evs == table_failures_upto(hd, rm, tbl, r as int),
            stats_ok(stats_model(stats@), evs),
            total as nat == sat(evs.len()),
        decreases records.len() - r,
    {
        let record = &records[r];
        let ghost row = tbl[r as int];
        let ghost row_base = evs;
        let mut i: usize = 0;
        while i < record.len()
            invariant
                i <= record.len(),
                tbl == records.deep_view(),
                hd == headers.deep_view(),
                rm == rule_map_of(rules_model(rules@)),
                r < records.len(),
                record == records[r as int],
                row == tbl[r as int],
                row_base == table_failures_upto(hd, rm, tbl, r as int),
                evs == row_base + row_failures_upto(hd, rm, row, i as int),
                stats_ok(stats_model(stats@), evs),
                total as nat == sat(evs.len()),
            decreases record.len() - i,
        {
            assert(row[i as int] == record@[i as int]@);
            if i < headers.len() {
                let column = &headers[i];
                assert(hd[i as int] == column@);
                match find_checks(rules, column) {
                    Some(checks) => {
                        let ghost cks = checks@.map_values(|t: RuleType| t@);
                        assert(rm[hd[i as int]] == cks);
                        let value = &record[i];
                        let ghost cell_base = evs;
                        let mut j: usize = 0;
                        proof {
                            assert(cks.take(0) =~= Seq::<crate::rules::RuleSpec>::empty());
                        }
                        while j < checks.len()
                            invariant
                                j <= checks.len(),
                                cks == checks@.map_values(|t: RuleType| t@),
                                column@ == hd[i as int],
                                value@ == row[i as int],
                                evs == cell_base + check_failures(column@, value@, cks.take(j as int)),
                                stats_ok(stats_model(stats@), evs),
                                total as nat == sat(evs.len()),
                            decreases checks.len() - j,
                        {
                            let verdict = evaluate(value, &checks[j]);
                            proof {
                                lemma_check_failures_step(column@, value@, cks, j as int);
                            }
                            match verdict {
                                Some(kind) => {
                                    record_failure(&mut stats, column, kind, value, Ghost(evs));
                                    total = if total < usize::MAX {
                                        total + 1
                                    } else {
                                        total
                                    };
                                    proof {
                                        evs = evs.push(
                                            Failure { column: column@, kind, value: value@ },
                                        );
                                        assert(evs =~= cell_base + check_failures(
                                            column@,
                                            value@,
                                            cks.take(j as int + 1),
                                        ));
                                    }
                                },
                                None => {
                                    proof {
                                        assert(evs =~= cell_base + check_failures(
                                            column@,
                                            value@,
                                            cks.take(j as int + 1),
                                        ));
                                    }
                                },
                            }
                            j = j + 1;
                        }
                        proof {
                            assert(cks.take(checks@.len() as int) =~= cks);
                            assert(cell_failures(hd, rm, row, i as int) == check_failures(
                                column@,
                                value@,
                                cks,
                            ));
                            assert(evs =~= row_base + row_failures_upto(hd, rm, row, i as int + 1));
                        }
                    },
                    None => {
                        proof {
                            assert(cell_failures(hd, rm, row, i as int) =~= Seq::<Failure>::empty());
                            assert(evs =~= row_base + row_failures_upto(hd, rm, row, i as int + 1));
                        }
                    },
                }
            } else {
                proof {
                    assert(cell_failures(hd, rm, row, i as int) =~= Seq::<Failure>::empty());
                    assert(evs =~= row_base + row_failures_upto(hd, rm, row, i as int + 1));
                }
            }
            i = i + 1;
        }
        proof {
            assert(row_failures(hd, rm, row) == row_failures_upto(hd, rm, row, row.len() as int));
            assert(row.len() == record@.len());
            assert(evs =~= table_failures_upto(hd, rm, tbl, r as int + 1));
        }
        r = r + 1;
    }
    proof {
        assert(tbl.len() == records@.len());
        assert(evs == table_failures(hd, rm, tbl));
    }
    ErrorSummary { stats, total_errors: total }
}

} // verus!
