use vstd::prelude::*;
use vstd::pervasive::cloned;
use vstd::string::StringExecFns;
use crate::csvio::{csv_into_text, csv_render, csv_write_row, csv_writer_new, written_rows, writer_width};
use crate::engine::{check_verdict, evaluate};
use crate::model::{check_failures, row_failures, row_failures_upto};
use crate::rules::{find_checks, rule_map_of, rules_model, ColumnRule, RuleSpec, RuleType};

verus! {

/// The reason recorded for any failing check of a column.
pub open spec fn reason_text(column: Seq<char>) -> Seq<char> {
    column + ": Invalid"@
}

/// The reasons one cell value produces against a check list: one per failing
/// check, duplicates kept.
pub open spec fn check_reasons(column: Seq<char>, value: Seq<char>, checks: Seq<RuleSpec>) -> Seq<
    Seq<char>,
>
    decreases checks.len(),
{
    if checks.len() == 0 {
        Seq::empty()
    } else {
        check_reasons(column, value, checks.drop_last()) + (match check_verdict(
            value,
            checks.last(),
        ) {
            Some(_) => seq![reason_text(column)],
            None => Seq::empty(),
        })
    }
}

pub open spec fn cell_reasons(
    headers: Seq<Seq<char>>,
    rm: Map<Seq<char>, Seq<RuleSpec>>,
    row: Seq<Seq<char>>,
    i: int,
) -> Seq<Seq<char>> {
    if 0 <= i < headers.len() && 0 <= i < row.len() && rm.contains_key(headers[i]) {
        check_reasons(headers[i], row[i], rm[headers[i]])
    } else {
        Seq::empty()
    }
}

pub open spec fn row_reasons_upto(
    headers: Seq<Seq<char>>,
    rm: Map<Seq<char>, Seq<RuleSpec>>,
    row: Seq<Seq<char>>,
    n: int,
) -> Seq<Seq<char>>
    decreases n,
{
    if n <= 0 {
        Seq::empty()
    } else {
        row_reasons_upto(headers, rm, row, n - 1) + cell_reasons(headers, rm, row, n - 1)
    }
}

/// The reasons one row collects, cells in header order.
pub open spec fn row_reasons(
    headers: Seq<Seq<char>>,
    rm: Map<Seq<char>, Seq<RuleSpec>>,
    row: Seq<Seq<char>>,
) -> Seq<Seq<char>> {
    row_reasons_upto(headers, rm, row, row.len() as int)
}

/// Reason texts joined the way the invalid export shows them.
pub open spec fn joined(reasons: Seq<Seq<char>>) -> Seq<char>
    decreases reasons.len(),
{
    if reasons.len() == 0 {
        Seq::empty()
    } else if reasons.len() == 1 {
        reasons[0]
    } else {
        joined(reasons.drop_last()) + "; "@ + reasons.last()
    }
}

/// The rows of the valid export: exactly the rows without a failing check, in
/// table order, unchanged.
pub open spec fn valid_rows_upto(
    headers: Seq<Seq<char>>,
    rm: Map<Seq<char>, Seq<RuleSpec>>,
    rows: Seq<Seq<Seq<char>>>,
    n: int,
) -> Seq<Seq<Seq<char>>>
    decreases n,
{
    if n <= 0 {
        Seq::empty()
    } else {
        valid_rows_upto(headers, rm, rows, n - 1) + (if row_reasons(headers, rm, rows[n - 1]).len()
            == 0 {
            seq![rows[n - 1]]
        } else {
            Seq::empty()
        })
    }
}

pub open spec fn valid_rows(
    headers: Seq<Seq<char>>,
    rm: Map<Seq<char>, Seq<RuleSpec>>,
    rows: Seq<Seq<Seq<char>>>,
) -> Seq<Seq<Seq<char>>> {
    valid_rows_upto(headers, rm, rows, rows.len() as int)
}

/// The rows of the invalid export: exactly the rows with a failing check, in
/// table order, each with its joined reasons as one extra trailing field.
pub open spec fn invalid_rows_upto(
    headers: Seq<Seq<char>>,
    rm: Map<Seq<char>, Seq<RuleSpec>>,
    rows: Seq<Seq<Seq<char>>>,
    n: int,
) -> Seq<Seq<Seq<char>>>
    decreases n,
{
    if n <= 0 {
        Seq::empty()
    } else {
        invalid_rows_upto(headers, rm, rows, n - 1) + (if row_reasons(
            headers,
            rm,
            rows[n - 1],
        ).len() > 0 {
            seq![rows[n - 1].push(joined(row_reasons(headers, rm, rows[n - 1])))]
        } else {
            Seq::empty()
        })
    }
}

pub open spec fn invalid_rows(
    headers: Seq<Seq<char>>,
    rm: Map<Seq<char>, Seq<RuleSpec>>,
    rows: Seq<Seq<Seq<char>>>,
) -> Seq<Seq<Seq<char>>> {
    invalid_rows_upto(headers, rm, rows, rows.len() as int)
}

/// Both exports rendered to tabular text.
pub struct SplitExport {
    pub valid: String,
    pub invalid: String,
}

/// A cell yields exactly as many reasons as failing checks.
pub proof fn lemma_check_reasons_len(column: Seq<char>, value: Seq<char>, checks: Seq<RuleSpec>)
    ensures
        check_reasons(column, value, checks).len() == check_failures(column, value, checks).len(),
    decreases checks.len(),
{
    if checks.len() > 0 {
        lemma_check_reasons_len(column, value, checks.drop_last());
    }
}

proof fn lemma_row_reasons_len_upto(
    headers: Seq<Seq<char>>,
    rm: Map<Seq<char>, Seq<RuleSpec>>,
    row: Seq<Seq<char>>,
    n: int,
)
    ensures
        row_reasons_upto(headers, rm, row, n).len() == row_failures_upto(headers, rm, row, n).len(),
    decreases n,
{
    if n > 0 {
        lemma_row_reasons_len_upto(headers, rm, row, n - 1);
        if 0 <= n - 1 < headers.len() && 0 <= n - 1 < row.len() && rm.contains_key(
            headers[n - 1],
        ) {
            lemma_check_reasons_len(headers[n - 1], row[n - 1], rm[headers[n - 1]]);
        }
    }
}

/// A row goes to the invalid export exactly when it has a failing check.
pub proof fn lemma_row_reasons_len(
    headers: Seq<Seq<char>>,
    rm: Map<Seq<char>, Seq<RuleSpec>>,
    row: Seq<Seq<char>>,
)
    ensures
        row_reasons(headers, rm, row).len() == row_failures(headers, rm, row).len(),
{
    lemma_row_reasons_len_upto(headers, rm, row, row.len() as int);
}

proof fn lemma_split_partitions_upto(
    headers: Seq<Seq<char>>,
    rm: Map<Seq<char>, Seq<RuleSpec>>,
    rows: Seq<Seq<Seq<char>>>,
    n: int,
)
    requires
        n <= rows.len(),
    ensures
        valid_rows_upto(headers, rm, rows, n).len() + invalid_rows_upto(headers, rm, rows, n).len()
            == if n <= 0 {
            0int
        } else {
            n
        },
    decreases n,
{
    if n > 0 {
        lemma_split_partitions_upto(headers, rm, rows, n - 1);
    }
}

/// The split is a partition: every row goes to exactly one of the two
/// exports.
pub proof fn lemma_split_partitions(
    headers: Seq<Seq<char>>,
    rm: Map<Seq<char>, Seq<RuleSpec>>,
    rows: Seq<Seq<Seq<char>>>,
)
    ensures
        valid_rows(headers, rm, rows).len() + invalid_rows(headers, rm, rows).len() == rows.len(),
{
    lemma_split_partitions_upto(headers, rm, rows, rows.len() as int);
}

proof fn lemma_check_reasons_step(
    column: Seq<char>,
    value: Seq<char>,
    checks: Seq<RuleSpec>,
    j: int,
)
    requires
        0 <= j < checks.len(),
    ensures
        check_reasons(column, value, checks.take(j + 1)) == check_reasons(
            column,
            value,
            checks.take(j),
        ) + (match check_verdict(value, checks[j]) {
            Some(_) => seq![reason_text(column)],
            None => Seq::<Seq<char>>::empty(),
        }),
{
    assert(checks.take(j + 1).drop_last() =~= checks.take(j));
    assert(checks.take(j + 1).last() == checks[j]);
}

/// Clones a row; the copy holds the same field values.
pub(crate) fn clone_row(v: &Vec<String>) -> (r: Vec<String>)
    ensures
        r@ == v@,
{
    let r = v.clone();
    proof {
        assert forall|k: int| 0 <= k < v@.len() implies r@[k] == v@[k] by {
            assert(cloned::<String>(v@[k], r@[k]));
        }
        assert(r@ =~= v@);
    }
    r
}

fn join_reasons(reasons: &Vec<String>) -> (r: String)
    ensures
        r@ == joined(reasons.deep_view()),
{
    let dv = Ghost(reasons.deep_view());
    let mut out = String::new();
    let mut k: usize = 0;
    proof {
        assert(dv@.take(0) =~= Seq::<Seq<char>>::empty());
    }
    while k < reasons.len()
        invariant
            k <= reasons.len(),
            dv@ == reasons.deep_view(),
            out@ == joined(dv@.take(k as int)),
        decreases reasons.len() - k,
    {
        if k > 0 {
            out.append("; ");
        }
        out.append(reasons[k].as_str());
        proof {
            let t1 = dv@.take(k as int + 1);
            assert(t1.drop_last() =~= dv@.take(k as int));
            assert(t1.last() == dv@[k as int]);
            if k == 0 {
                assert(out@ =~= t1[0]);
            }
        }
        k = k + 1;
    }
    proof {
        assert(dv@.take(reasons@.len() as int) =~= dv@);
    }
    out
}

/// Collects the reasons one row produces, every check of every ruled column,
/// in header order.
fn row_reason_list(headers: &Vec<String>, record: &Vec<String>, rules: &Vec<ColumnRule>) -> (out:
    Vec<String>)
    ensures
        out.deep_view() == row_reasons(
            headers.deep_view(),
            rule_map_of(rules_model(rules@)),
            record.deep_view(),
        ),
{
    let ghost hd = headers.deep_view();
    let ghost rm = rule_map_of(rules_model(rules@));
    let ghost row = record.deep_view();
    let mut out: Vec<String> = Vec::new();
    proof {
        assert(out.deep_view() =~~= row_reasons_upto(hd, rm, row, 0));
    }
    let mut i: usize = 0;
    while i < record.len()
        invariant
            i <= record.len(),
            hd == headers.deep_view(),
            rm == rule_map_of(rules_model(rules@)),
            row == record.deep_view(),
            out.deep_view() == row_reasons_upto(hd, rm, row, i as int),
        decreases record.len() - i,
    {
        if i < headers.len() {
            let column = &headers[i];
            assert(hd[i as int] == column@);
            match find_checks(rules, column) {
                Some(checks) => {
                    let ghost cks = checks@.map_values(|t: RuleType| t@);
                    let value = &record[i];
                    let ghost base = out.deep_view();
                    let mut j: usize = 0;
                    proof {
                        assert(cks.take(0) =~= Seq::<RuleSpec>::empty());
                        assert(out.deep_view() =~~= base + check_reasons(column@, value@, cks.take(0)));
                    }
                    while j < checks.len()
                        invariant
                            j <= checks.len(),
                            cks == checks@.map_values(|t: RuleType| t@),
                            column@ == hd[i as int],
                            value@ == row[i as int],
                            out.deep_view() == base + check_reasons(column@, value@, cks.take(j as int)),
                        decreases checks.len() - j,
                    {
                        let verdict = evaluate(value, &checks[j]);
                        proof {
                            lemma_check_reasons_step(column@, value@, cks, j as int);
                        }
                        match verdict {
                            Some(_) => {
                                let mut t = column.clone();
                                proof {
                                    assert(t@ == column@);
                                }
                                t.append(": Invalid");
                                out.push(t);
                                proof {
                                    assert(t@ == reason_text(column@));
                                    let reas_j = check_reasons(column@, value@, cks.take(j as int));
                                    assert(check_reasons(column@, value@, cks.take(j as int + 1))
                                        =~~= reas_j + seq![reason_text(column@)]);
                                    assert(out.deep_view() =~~= (base + reas_j).push(t@));
                                    assert((base + reas_j).push(t@) =~~= base + (reas_j + seq![
                                        reason_text(column@),
                                    ]));
                                    assert(out.deep_view() =~~= base + check_reasons(
                                        column@,
                                        value@,
                                        cks.take(j as int + 1),
                                    ));
                                }
                            },
                            None => {
                                proof {
                                    assert(out.deep_view() =~~= base + check_reasons(
                                        column@,
                                        value@,
                                        cks.take(j as int + 1),
                                    ));
                                }
                            },
                        }
                        j = j + 1;
                    }
                    proof {
                        assert(cks.take(checks@.len() as int) =~= cks);
                        assert(cell_reasons(hd, rm, row, i as int) == check_reasons(
                            column@,
                            value@,
                            cks,
                        ));
                        assert(out.deep_view() =~~= row_reasons_upto(hd, rm, row, i as int + 1));
                    }
                },
                None => {
                    proof {
                        assert(cell_reasons(hd, rm, row, i as int) =~= Seq::<Seq<char>>::empty());
                        assert(out.deep_view() =~~= row_reasons_upto(hd, rm, row, i as int + 1));
                    }
                },
            }
        } else {
            proof {
                assert(cell_reasons(hd, rm, row, i as int) =~= Seq::<Seq<char>>::empty());
                assert(out.deep_view() =~~= row_reasons_upto(hd, rm, row, i as int + 1));
            }
        }
        i = i + 1;
    }
    proof {
        assert(row.len() == record@.len());
    }
    out
}

/// Partitions the rows: the valid ones unchanged, the invalid ones with their
/// joined reasons as one extra trailing field.
pub fn split_rows(headers: &Vec<String>, records: &Vec<Vec<String>>, rules: &Vec<ColumnRule>) -> (r:
    (Vec<Vec<String>>, Vec<Vec<String>>))
    ensures
        r.0.deep_view() == valid_rows(
            headers.deep_view(),
            rule_map_of(rules_model(rules@)),
            records.deep_view(),
        ),
        r.1.deep_view() == invalid_rows(
            headers.deep_view(),
            rule_map_of(rules_model(rules@)),
            records.deep_view(),
        ),
{
    let ghost hd = headers.deep_view();
    let ghost rm = rule_map_of(rules_model(rules@));
    let ghost tbl = records.deep_view();
    let mut valid: Vec<Vec<String>> = Vec::new();
    let mut invalid: Vec<Vec<String>> = Vec::new();
    proof {
        assert(valid.deep_view() =~~= valid_rows_upto(hd, rm, tbl, 0));
        assert(invalid.deep_view() =~~= invalid_rows_upto(hd, rm, tbl, 0));
    }
    let mut k: usize = 0;
    while k < records.len()
        invariant
            k <= records.len(),
            hd == headers.deep_view(),
            rm == rule_map_of(rules_model(rules@)),
            tbl == records.deep_view(),
            valid.deep_view() == valid_rows_upto(hd, rm, tbl, k as int),
            invalid.deep_view() == invalid_rows_upto(hd, rm, tbl, k as int),
        decreases records.len() - k,
    {
        let record = &records[k];
        assert(record.deep_view() == tbl[k as int]);
        let reasons = row_reason_list(headers, record, rules);
        if reasons.is_empty() {
            let copy = clone_row(record);
            valid.push(copy);
            proof {
                assert(row_reasons(hd, rm, tbl[k as int]).len() == 0);
                assert(valid.deep_view() =~~= valid_rows_upto(hd, rm, tbl, k as int + 1));
                assert(invalid.deep_view() =~~= invalid_rows_upto(hd, rm, tbl, k as int + 1));
            }
        } else {
            let mut dirty = clone_row(record);
            let tail = join_reasons(&reasons);
            dirty.push(tail);
            invalid.push(dirty);
            proof {
                assert(row_reasons(hd, rm, tbl[k as int]).len() > 0);
                assert(valid.deep_view() =~~= valid_rows_upto(hd, rm, tbl, k as int + 1));
                assert(invalid.deep_view() =~~= invalid_rows_upto(hd, rm, tbl, k as int + 1));
            }
        }
        k = k + 1;
    }
    proof {
        assert(tbl.len() == records@.len());
    }
    (valid, invalid)
}

proof fn lemma_valid_rows_len(
    headers: Seq<Seq<char>>,
    rm: Map<Seq<char>, Seq<RuleSpec>>,
    rows: Seq<Seq<Seq<char>>>,
    w: nat,
    n: int,
)
    requires
        forall|i: int| 0 <= i < rows.len() ==> (#[trigger] rows[i]).len() == w,
        n <= rows.len(),
    ensures
        forall|m: int|
            0 <= m < valid_rows_upto(headers, rm, rows, n).len() ==> (#[trigger] valid_rows_upto(
                headers,
                rm,
                rows,
                n,
            )[m]).len() == w,
    decreases n,
{
    if n > 0 {
        lemma_valid_rows_len(headers, rm, rows, w, n - 1);
        let prev = valid_rows_upto(headers, rm, rows, n - 1);
        let cur = valid_rows_upto(headers, rm, rows, n);
        assert forall|m: int| 0 <= m < cur.len() implies (#[trigger] cur[m]).len() == w by {
            if m < prev.len() {
                assert(cur[m] == prev[m]);
            } else {
                assert(cur[m] == rows[n - 1]);
            }
        }
    }
}

proof fn lemma_invalid_rows_len(
    headers: Seq<Seq<char>>,
    rm: Map<Seq<char>, Seq<RuleSpec>>,
    rows: Seq<Seq<Seq<char>>>,
    w: nat,
    n: int,
)
    requires
        forall|i: int| 0 <= i < rows.len() ==> (#[trigger] rows[i]).len() == w,
        n <= rows.len(),
    ensures
        forall|m: int|
            0 <= m < invalid_rows_upto(headers, rm, rows, n).len() ==> (#[trigger] invalid_rows_upto(
                headers,
                rm,
                rows,
                n,
            )[m]).len() == w + 1,
    decreases n,
{
    if n > 0 {
        lemma_invalid_rows_len(headers, rm, rows, w, n - 1);
        let prev = invalid_rows_upto(headers, rm, rows, n - 1);
        let cur = invalid_rows_upto(headers, rm, rows, n);
        assert forall|m: int| 0 <= m < cur.len() implies (#[trigger] cur[m]).len() == w + 1 by {
            if m < prev.len() {
                assert(cur[m] == prev[m]);
            } else {
                assert(cur[m] == rows[n - 1].push(joined(row_reasons(headers, rm, rows[n - 1]))));
            }
        }
    }
}

fn render_rows(first: &Vec<String>, rows: &Vec<Vec<String>>) -> (r: String)
    requires
        forall|m: int| 0 <= m < rows@.len() ==> (#[trigger] rows@[m])@.len() == first@.len(),
    ensures
        r@ == csv_render(seq![first.deep_view()] + rows.deep_view()),
{
    let mut w = csv_writer_new();
    csv_write_row(&mut w, first);
    proof {
        assert(written_rows(w) =~~= seq![first.deep_view()] + rows.deep_view().take(0));
    }
    let mut k: usize = 0;
    while k < rows.len()
        invariant
            k <= rows.len(),
            forall|m: int| 0 <= m < rows@.len() ==> (#[trigger] rows@[m])@.len() == first@.len(),
            writer_width(w) == Some(first@.len() as nat),
            written_rows(w) == seq![first.deep_view()] + rows.deep_view().take(k as int),
        decreases rows.len() - k,
    {
        csv_write_row(&mut w, &rows[k]);
        proof {
            assert(written_rows(w) =~~= seq![first.deep_view()] + rows.deep_view().take(k as int + 1));
        }
        k = k + 1;
    }
    proof {
        assert(rows.deep_view().take(rows@.len() as int) =~= rows.deep_view());
    }
    csv_into_text(w)
}

/// Runs the full split on a well-formed table and renders both halves: the
/// valid text under the original header, the invalid text under the header
/// with `Error_Reason` appended.
pub fn export_split(headers: &Vec<String>, records: &Vec<Vec<String>>, rules: &Vec<ColumnRule>) -> (r:
    SplitExport)
    requires
        forall|i: int|
            0 <= i < records@.len() ==> (#[trigger] records@[i])@.len() == headers@.len(),
    ensures
        r.valid@ == csv_render(
            seq![headers.deep_view()] + valid_rows(
                headers.deep_view(),
                rule_map_of(rules_model(rules@)),
                records.deep_view(),
            ),
        ),
        r.invalid@ == csv_render(
            seq![headers.deep_view().push("Error_Reason"@)] + invalid_rows(
                headers.deep_view(),
                rule_map_of(rules_model(rules@)),
                records.deep_view(),
            ),
        ),
{
    let ghost hd = headers.deep_view();
    let ghost rm = rule_map_of(rules_model(rules@));
    let ghost tbl = records.deep_view();
    proof {
        assert forall|i: int| 0 <= i < tbl.len() implies (#[trigger] tbl[i]).len()
            == hd.len() by {
            assert(tbl[i] == records@[i].deep_view());
        }
    }
    let (valid, invalid) = split_rows(headers, records, rules);
    proof {
        lemma_valid_rows_len(hd, rm, tbl, hd.len(), tbl.len() as int);
        lemma_invalid_rows_len(hd, rm, tbl, hd.len(), tbl.len() as int);
        assert forall|m: int| 0 <= m < valid@.len() implies (#[trigger] valid@[m])@.len()
            == headers@.len() by {
            assert(valid.deep_view()[m] == valid@[m].deep_view());
        }
    }
    let valid_text = render_rows(headers, &valid);
    let mut ih = clone_row(headers);
    ih.push(String::from_str("Error_Reason"));
    proof {
        assert(ih.deep_view() =~~= hd.push("Error_Reason"@));
        assert forall|m: int| 0 <= m < invalid@.len() implies (#[trigger] invalid@[m])@.len()
            == ih@.len() by {
            assert(invalid.deep_view()[m] == invalid@[m].deep_view());
        }
    }
    let invalid_text = render_rows(&ih, &invalid);
    SplitExport { valid: valid_text, invalid: invalid_text }
}

} // verus!
