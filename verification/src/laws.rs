use vstd::prelude::*;
use crate::model::{
    bulk_fixed, cell_failures, first_index_of, fix_cell, fix_rows, lemma_first_index_range,
    row_failures, row_failures_upto, rows_matching_at, rows_matching_upto, table_failures,
    table_failures_upto, value_fail_count, Failure,
};
use crate::rules::{rule_map_of, ColumnRuleModel, RuleSpec};
use crate::split::{invalid_rows, invalid_rows_upto, row_reasons_upto};
use crate::summary::{stats_sum, summary_wf, ColumnStatsModel};

verus! {

/// The per-column, per-kind counts of a summary add up to its grand total
/// whenever that total fits a machine word.
pub proof fn lemma_stats_sum_is_total(
    stats: Seq<ColumnStatsModel>,
    total: nat,
    evs: Seq<Failure>,
)
    requires
        summary_wf(stats, total, evs),
        evs.len() <= usize::MAX as nat,
    ensures
        stats_sum(stats) == total,
{
}

proof fn lemma_row_fix_upto(
    headers: Seq<Seq<char>>,
    rm: Map<Seq<char>, Seq<RuleSpec>>,
    row: Seq<Seq<char>>,
    idx: int,
    repl: Seq<char>,
    n: int,
)
    requires
        0 <= idx < row.len(),
        n <= row.len(),
    ensures
        row_failures_upto(headers, rm, row.update(idx, repl), n).len() as int
            == row_failures_upto(headers, rm, row, n).len() + (if idx < n {
            cell_failures(headers, rm, row.update(idx, repl), idx).len() as int - cell_failures(
                headers,
                rm,
                row,
                idx,
            ).len() as int
        } else {
            0int
        }),
    decreases n,
{
    if n > 0 {
        lemma_row_fix_upto(headers, rm, row, idx, repl, n - 1);
        let u = row.update(idx, repl);
        if n - 1 != idx {
            assert(u[n - 1] == row[n - 1]);
            assert(cell_failures(headers, rm, u, n - 1) == cell_failures(headers, rm, row, n - 1));
        }
    }
}

proof fn lemma_row_fix(
    headers: Seq<Seq<char>>,
    rm: Map<Seq<char>, Seq<RuleSpec>>,
    row: Seq<Seq<char>>,
    idx: int,
    repl: Seq<char>,
)
    requires
        0 <= idx < row.len(),
    ensures
        row_failures(headers, rm, row.update(idx, repl)).len() as int == row_failures(
            headers,
            rm,
            row,
        ).len() + value_fail_count(headers, rm, idx, repl) - value_fail_count(
            headers,
            rm,
            idx,
            row[idx],
        ),
{
    lemma_row_fix_upto(headers, rm, row, idx, repl, row.len() as int);
    let u = row.update(idx, repl);
    assert(u.len() == row.len());
    if 0 <= idx < headers.len() && rm.contains_key(headers[idx]) {
        assert(u[idx] == repl);
    }
}

proof fn lemma_fix_rows_upto(
    headers: Seq<Seq<char>>,
    rm: Map<Seq<char>, Seq<RuleSpec>>,
    rows: Seq<Seq<Seq<char>>>,
    idx: int,
    target: Seq<char>,
    repl: Seq<char>,
    n: int,
)
    requires
        0 <= idx,
        forall|i: int| 0 <= i < rows.len() ==> idx < (#[trigger] rows[i]).len(),
        n <= rows.len(),
    ensures
        table_failures_upto(headers, rm, fix_rows(rows, idx, target, repl), n).len() as int
            == table_failures_upto(headers, rm, rows, n).len() + rows_matching_upto(
            rows,
            idx,
            target,
            n,
        ) * (value_fail_count(headers, rm, idx, repl) - value_fail_count(
            headers,
            rm,
            idx,
            target,
        )),
    decreases n,
{
    let fr = fix_rows(rows, idx, target, repl);
    let d = value_fail_count(headers, rm, idx, repl) - value_fail_count(headers, rm, idx, target);
    if n > 0 {
        lemma_fix_rows_upto(headers, rm, rows, idx, target, repl, n - 1);
        let r0 = rows[n - 1];
        let m = rows_matching_upto(rows, idx, target, n - 1);
        assert(fr[n - 1] == fix_cell(r0, idx, target, repl));
        if r0[idx] == target {
            assert(fix_cell(r0, idx, target, repl) == r0.update(idx, repl));
            lemma_row_fix(headers, rm, r0, idx, repl);
            assert(rows_matching_upto(rows, idx, target, n) == m + 1);
            assert((m + 1) * d == m * d + d) by (nonlinear_arith);
        } else {
            assert(fix_cell(r0, idx, target, repl) == r0);
            assert(rows_matching_upto(rows, idx, target, n) == m);
        }
    }
}

/// Replacing, in the first column of the given name, every cell equal to the
/// target shifts the total failure count by the difference between what the
/// replacement and the target fail on that column's checks, once per replaced
/// cell. When the replacement passes every check and the target failed
/// exactly one, the new total is the old total minus the number of replaced
/// cells.
pub proof fn lemma_bulk_fix_total(
    headers: Seq<Seq<char>>,
    rm: Map<Seq<char>, Seq<RuleSpec>>,
    rows: Seq<Seq<Seq<char>>>,
    name: Seq<char>,
    target: Seq<char>,
    repl: Seq<char>,
    idx: int,
)
    requires
        first_index_of(headers, name) == Some(idx),
        forall|i: int| 0 <= i < rows.len() ==> (#[trigger] rows[i]).len() == headers.len(),
    ensures
        table_failures(headers, rm, bulk_fixed(headers, rows, name, target, repl)).len() as int
            == table_failures(headers, rm, rows).len() + rows_matching_at(rows, idx, target) * (
        value_fail_count(headers, rm, idx, repl) - value_fail_count(headers, rm, idx, target)),
{
    lemma_first_index_range(headers, name, idx);
    lemma_fix_rows_upto(headers, rm, rows, idx, target, repl, rows.len() as int);
    assert(fix_rows(rows, idx, target, repl).len() == rows.len());
}

proof fn lemma_empty_row(headers: Seq<Seq<char>>, row: Seq<Seq<char>>, n: int)
    ensures
        row_failures_upto(headers, Map::<Seq<char>, Seq<RuleSpec>>::empty(), row, n).len() == 0,
        row_reasons_upto(headers, Map::<Seq<char>, Seq<RuleSpec>>::empty(), row, n).len() == 0,
    decreases n,
{
    if n > 0 {
        lemma_empty_row(headers, row, n - 1);
    }
}

proof fn lemma_empty_table(headers: Seq<Seq<char>>, rows: Seq<Seq<Seq<char>>>, n: int)
    ensures
        table_failures_upto(headers, Map::<Seq<char>, Seq<RuleSpec>>::empty(), rows, n).len() == 0,
        invalid_rows_upto(headers, Map::<Seq<char>, Seq<RuleSpec>>::empty(), rows, n) == Seq::<
            Seq<Seq<char>>,
        >::empty(),
    decreases n,
{
    if n > 0 {
        lemma_empty_table(headers, rows, n - 1);
        lemma_empty_row(headers, rows[n - 1], rows[n - 1].len() as int);
        assert(invalid_rows_upto(headers, Map::<Seq<char>, Seq<RuleSpec>>::empty(), rows, n)
            =~= Seq::<Seq<Seq<char>>>::empty());
    }
}

/// With no rules at all, nothing fails: an empty rule list induces the empty
/// rule map, under which any well-formed table has a zero failure total and
/// an invalid export with no data rows.
pub proof fn lemma_empty_ruleset(headers: Seq<Seq<char>>, rows: Seq<Seq<Seq<char>>>)
    ensures
        rule_map_of(Seq::<ColumnRuleModel>::empty()) == Map::<Seq<char>, Seq<RuleSpec>>::empty(),
        table_failures(headers, Map::<Seq<char>, Seq<RuleSpec>>::empty(), rows).len() == 0,
        invalid_rows(headers, Map::<Seq<char>, Seq<RuleSpec>>::empty(), rows) == Seq::<
            Seq<Seq<char>>,
        >::empty(),
{
    lemma_empty_table(headers, rows, rows.len() as int);
}

} // verus!
