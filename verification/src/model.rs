use vstd::prelude::*;
use crate::engine::{check_verdict, ErrorKind};
use crate::rules::RuleSpec;

verus! {

/// One failing check found during a scan: the column it was found in, the
/// kind of the failure, and the raw cell value.
pub struct Failure {
    pub column: Seq<char>,
    pub kind: ErrorKind,
    pub value: Seq<char>,
}

/// The failures one cell value produces against a check list, in check order:
/// every check is evaluated, so one cell can contribute several failures.
pub open spec fn check_failures(
    column: Seq<char>,
    value: Seq<char>,
    checks: Seq<RuleSpec>,
) -> Seq<Failure>
    decreases checks.len(),
{
    if checks.len() == 0 {
        Seq::empty()
    } else {
        check_failures(column, value, checks.drop_last()) + (match check_verdict(
            value,
            checks.last(),
        ) {
            Some(kind) => seq![Failure { column, kind, value }],
            None => Seq::empty(),
        })
    }
}

/// The failures of the cell at position `i` of a row: none when the column is
/// out of range or carries no rules.
pub open spec fn cell_failures(
    headers: Seq<Seq<char>>,
    rm: Map<Seq<char>, Seq<RuleSpec>>,
    row: Seq<Seq<char>>,
    i: int,
) -> Seq<Failure> {
    if 0 <= i < headers.len() && 0 <= i < row.len() && rm.contains_key(headers[i]) {
        check_failures(headers[i], row[i], rm[headers[i]])
    } else {
        Seq::empty()
    }
}

pub open spec fn row_failures_upto(
    headers: Seq<Seq<char>>,
    rm: Map<Seq<char>, Seq<RuleSpec>>,
    row: Seq<Seq<char>>,
    n: int,
) -> Seq<Failure>
    decreases n,
{
    if n <= 0 {
        Seq::empty()
    } else {
        row_failures_upto(headers, rm, row, n - 1) + cell_failures(headers, rm, row, n - 1)
    }
}

/// The failures one row produces, cells in header order.
pub open spec fn row_failures(
    headers: Seq<Seq<char>>,
    rm: Map<Seq<char>, Seq<RuleSpec>>,
    row: Seq<Seq<char>>,
) -> Seq<Failure> {
    row_failures_upto(headers, rm, row, row.len() as int)
}

pub open spec fn table_failures_upto(
    headers: Seq<Seq<char>>,
    rm: Map<Seq<char>, Seq<RuleSpec>>,
    rows: Seq<Seq<Seq<char>>>,
    n: int,
) -> Seq<Failure>
    decreases n,
{
    if n <= 0 {
        Seq::empty()
    } else {
        table_failures_upto(headers, rm, rows, n - 1) + row_failures(headers, rm, rows[n - 1])
    }
}

/// Every failure a full scan of the table finds, in row, then column, then
/// check order. This sequence is the reference for counts, first examples and
/// the grand total.
pub open spec fn table_failures(
    headers: Seq<Seq<char>>,
    rm: Map<Seq<char>, Seq<RuleSpec>>,
    rows: Seq<Seq<Seq<char>>>,
) -> Seq<Failure> {
    table_failures_upto(headers, rm, rows, rows.len() as int)
}

/// How many failures in `evs` fall on one column and kind.
pub open spec fn count_matching(evs: Seq<Failure>, column: Seq<char>, kind: ErrorKind) -> nat
    decreases evs.len(),
{
    if evs.len() == 0 {
        0
    } else {
        count_matching(evs.drop_last(), column, kind) + (if evs.last().column == column
            && evs.last().kind == kind {
            1nat
        } else {
            0nat
        })
    }
}

/// The value of the first failure in `evs` on one column and kind, if any.
pub open spec fn first_matching(evs: Seq<Failure>, column: Seq<char>, kind: ErrorKind) -> Option<
    Seq<char>,
>
    decreases evs.len(),
{
    if evs.len() == 0 {
        None
    } else {
        match first_matching(evs.drop_last(), column, kind) {
            Some(v) => Some(v),
            None => if evs.last().column == column && evs.last().kind == kind {
                Some(evs.last().value)
            } else {
                None
            },
        }
    }
}

/// A count clipped to what a machine word holds.
pub open spec fn sat(n: nat) -> nat {
    if n <= usize::MAX as nat {
        n
    } else {
        usize::MAX as nat
    }
}

pub proof fn lemma_count_push(evs: Seq<Failure>, e: Failure, column: Seq<char>, kind: ErrorKind)
    ensures
        count_matching(evs.push(e), column, kind) == count_matching(evs, column, kind) + (if e.column
            == column && e.kind == kind {
            1nat
        } else {
            0nat
        }),
{
    assert(evs.push(e).drop_last() =~= evs);
    assert(evs.push(e).last() == e);
}

pub proof fn lemma_first_push(evs: Seq<Failure>, e: Failure, column: Seq<char>, kind: ErrorKind)
    ensures
        first_matching(evs.push(e), column, kind) == (match first_matching(evs, column, kind) {
            Some(v) => Some(v),
            None => if e.column == column && e.kind == kind {
                Some(e.value)
            } else {
                None
            },
        }),
{
    assert(evs.push(e).drop_last() =~= evs);
    assert(evs.push(e).last() == e);
}

pub proof fn lemma_none_found_iff_none_counted(evs: Seq<Failure>, column: Seq<char>, kind: ErrorKind)
    ensures
        count_matching(evs, column, kind) == 0 <==> first_matching(evs, column, kind) is None,
    decreases evs.len(),
{
    if evs.len() > 0 {
        lemma_none_found_iff_none_counted(evs.drop_last(), column, kind);
    }
}

/// Unfolds the failures of a check-list prefix by one more check.
pub proof fn lemma_check_failures_step(
    column: Seq<char>,
    value: Seq<char>,
    checks: Seq<RuleSpec>,
    j: int,
)
    requires
        0 <= j < checks.len(),
    ensures
        check_failures(column, value, checks.take(j + 1)) == check_failures(
            column,
            value,
            checks.take(j),
        ) + (match check_verdict(value, checks[j]) {
            Some(kind) => seq![Failure { column, kind, value }],
            None => Seq::<Failure>::empty(),
        }),
{
    assert(checks.take(j + 1).drop_last() =~= checks.take(j));
    assert(checks.take(j + 1).last() == checks[j]);
}

/// The position of the first header with a given name, if any.
pub open spec fn first_index_of(headers: Seq<Seq<char>>, name: Seq<char>) -> Option<int>
    decreases headers.len(),
{
    if headers.len() == 0 {
        None
    } else {
        match first_index_of(headers.drop_last(), name) {
            Some(i) => Some(i),
            None => if headers.last() == name {
                Some(headers.len() - 1)
            } else {
                None
            },
        }
    }
}

pub proof fn lemma_first_index_none(headers: Seq<Seq<char>>, name: Seq<char>)
    requires
        forall|j: int| 0 <= j < headers.len() ==> headers[j] != name,
    ensures
        first_index_of(headers, name) is None,
    decreases headers.len(),
{
    if headers.len() > 0 {
        lemma_first_index_none(headers.drop_last(), name);
    }
}

pub proof fn lemma_first_index_at(headers: Seq<Seq<char>>, name: Seq<char>, i: int)
    requires
        0 <= i < headers.len(),
        headers[i] == name,
        forall|j: int| 0 <= j < i ==> headers[j] != name,
    ensures
        first_index_of(headers, name) == Some(i),
    decreases headers.len(),
{
    if i < headers.len() - 1 {
        lemma_first_index_at(headers.drop_last(), name, i);
    } else {
        lemma_first_index_none(headers.drop_last(), name);
    }
}

pub proof fn lemma_first_index_range(headers: Seq<Seq<char>>, name: Seq<char>, i: int)
    requires
        first_index_of(headers, name) == Some(i),
    ensures
        0 <= i < headers.len(),
        headers[i] == name,
    decreases headers.len(),
{
    if headers.len() > 0 {
        match first_index_of(headers.drop_last(), name) {
            Some(j) => {
                lemma_first_index_range(headers.drop_last(), name, j);
            },
            None => {},
        }
    }
}

/// A row after the bulk fix touched its cell at `idx`: replaced when it equals
/// the target, untouched otherwise.
pub open spec fn fix_cell(
    row: Seq<Seq<char>>,
    idx: int,
    target: Seq<char>,
    repl: Seq<char>,
) -> Seq<Seq<char>> {
    if 0 <= idx < row.len() && row[idx] == target {
        row.update(idx, repl)
    } else {
        row
    }
}

pub open spec fn fix_rows(
    rows: Seq<Seq<Seq<char>>>,
    idx: int,
    target: Seq<char>,
    repl: Seq<char>,
) -> Seq<Seq<Seq<char>>> {
    rows.map_values(|row: Seq<Seq<char>>| fix_cell(row, idx, target, repl))
}

/// The table rows after a bulk fix on a column name: unchanged when no header
/// carries the name.
pub open spec fn bulk_fixed(
    headers: Seq<Seq<char>>,
    rows: Seq<Seq<Seq<char>>>,
    name: Seq<char>,
    target: Seq<char>,
    repl: Seq<char>,
) -> Seq<Seq<Seq<char>>> {
    match first_index_of(headers, name) {
        Some(idx) => fix_rows(rows, idx, target, repl),
        None => rows,
    }
}

pub open spec fn rows_matching_upto(
    rows: Seq<Seq<Seq<char>>>,
    idx: int,
    target: Seq<char>,
    n: int,
) -> int
    decreases n,
{
    if n <= 0 {
        0
    } else {
        rows_matching_upto(rows, idx, target, n - 1) + (if 0 <= idx < rows[n - 1].len() && rows[n
            - 1][idx] == target {
            1int
        } else {
            0int
        })
    }
}

/// How many rows hold the target value in the cell at `idx`.
pub open spec fn rows_matching_at(rows: Seq<Seq<Seq<char>>>, idx: int, target: Seq<char>) -> int {
    rows_matching_upto(rows, idx, target, rows.len() as int)
}

/// A bulk fix never adds, removes or resizes a row.
pub proof fn lemma_bulk_fixed_lens(
    headers: Seq<Seq<char>>,
    rows: Seq<Seq<Seq<char>>>,
    name: Seq<char>,
    target: Seq<char>,
    repl: Seq<char>,
)
    ensures
        bulk_fixed(headers, rows, name, target, repl).len() == rows.len(),
        forall|j: int|
            0 <= j < rows.len() ==> (#[trigger] bulk_fixed(headers, rows, name, target, repl)[j]).len()
                == rows[j].len(),
{
    let bf = bulk_fixed(headers, rows, name, target, repl);
    match first_index_of(headers, name) {
        Some(idx) => {
            assert forall|j: int| 0 <= j < rows.len() implies (#[trigger] bf[j]).len()
                == rows[j].len() by {
                assert(bf[j] == fix_cell(rows[j], idx, target, repl));
            }
        },
        None => {},
    }
}

/// How many failures one value produces in the cell at `idx`, independent of
/// the rest of its row.
pub open spec fn value_fail_count(
    headers: Seq<Seq<char>>,
    rm: Map<Seq<char>, Seq<RuleSpec>>,
    idx: int,
    value: Seq<char>,
) -> int {
    if 0 <= idx < headers.len() && rm.contains_key(headers[idx]) {
        check_failures(headers[idx], value, rm[headers[idx]]).len() as int
    } else {
        0
    }
}

} // verus!
