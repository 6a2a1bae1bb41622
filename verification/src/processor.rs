use vstd::prelude::*;
use vstd::pervasive::VecAdditionalExecFns;
use vstd::string::StringExecFns;
use crate::csvio::{csv_header_readable, csv_render, csv_table, parse_csv};
use crate::errors::ProcessorError;
use crate::model::{
    bulk_fixed, first_index_of, fix_cell, fix_rows, lemma_bulk_fixed_lens, lemma_first_index_at,
    lemma_first_index_none, sat, table_failures, Failure,
};
use crate::rules::{rule_map_of, rules_model, ColumnRule, ColumnRuleModel, RuleSpec};
use crate::rules_json::{parse_rules, rules_of};
use crate::split::{clone_row, export_split, invalid_rows, valid_rows, SplitExport};
use crate::summary::{stats_model, summarize, summary_wf, ErrorSummary};

verus! {

/// The stateful processor: a table parsed once, the rules that validate it,
/// and the scans and fixes that run over the current table state.
#[derive(Debug)]
pub struct CsvProcessor {
    headers: Vec<String>,
    records: Vec<Vec<String>>,
    rules: Vec<ColumnRule>,
}

impl CsvProcessor {
    pub closed spec fn headers_model(self) -> Seq<Seq<char>> {
        self.headers.deep_view()
    }

    pub closed spec fn rows_model(self) -> Seq<Seq<Seq<char>>> {
        self.records.deep_view()
    }

    pub closed spec fn rule_map(self) -> Map<Seq<char>, Seq<RuleSpec>> {
        rule_map_of(rules_model(self.rules@))
    }

    /// The rule list as parsed, in its written order.
    pub closed spec fn rules_list(self) -> Seq<ColumnRuleModel> {
        rules_model(self.rules@)
    }

    /// Every row holds exactly one field per header.
    pub closed spec fn wf(self) -> bool {
        forall|i: int|
            0 <= i < self.rows_model().len() ==> (#[trigger] self.rows_model()[i]).len()
                == self.headers_model().len()
    }

    /// All failures the current table yields against the rules, in scan order.
    pub closed spec fn failures(self) -> Seq<Failure> {
        table_failures(self.headers_model(), self.rule_map(), self.rows_model())
    }

    /// Builds a processor from tabular text and rule text. The rule text is
    /// read first; then the table, whose rows must all match the header's
    /// field count — no partial table survives a failure. Construction
    /// succeeds exactly on well-formed rule text and a readable, rectangular
    /// table, and each failure carries its own tag.
    pub fn new(csv_data: &str, rules_json: &str) -> (r: Result<CsvProcessor, ProcessorError>)
        ensures
            r matches Ok(p) ==> {
                &&& p.wf()
                &&& csv_table(csv_data@) matches Some(t) && p.headers_model() == t.0
                    && p.rows_model() == t.1 && !ragged(t)
                &&& rules_of(rules_json@) matches Some(rs) && p.rules_list() == rs && p.rule_map()
                    == rule_map_of(rs)
            },
            rules_of(rules_json@) is Some && (csv_table(csv_data@) matches Some(t) && !ragged(t))
                ==> r is Ok,
            (r matches Err(e) && e is RuleDefinition) <==> rules_of(rules_json@) is None,
            r matches Err(e) && e is TableHeader ==> !csv_header_readable(csv_data@),
            rules_of(rules_json@) is Some && !csv_header_readable(csv_data@) ==> (r matches Err(
                e,
            ) && e is TableHeader),
            r matches Err(e) && e is TableRecord ==> csv_header_readable(csv_data@) && (csv_table(
                csv_data@,
            ) is None || (csv_table(csv_data@) matches Some(t) && ragged(t))),
            rules_of(rules_json@) is Some && csv_header_readable(csv_data@) && csv_table(
                csv_data@,
            ) is None ==> (r matches Err(e) && e is TableRecord),
            rules_of(rules_json@) is Some && (csv_table(csv_data@) matches Some(t) && ragged(t))
                ==> (r matches Err(e) && e is TableRecord),
            csv_table(csv_data@) is None ==> r is Err,
    {
        let rules = parse_rules(rules_json)?;
        let (headers, records) = parse_csv(csv_data)?;
        let mut i: usize = 0;
        while i < records.len()
            invariant
                i <= records@.len(),
                rules_of(rules_json@) is Some,
                csv_header_readable(csv_data@),
                csv_table(csv_data@) == Some((headers.deep_view(), records.deep_view())),
                forall|j: int| 0 <= j < i ==> (#[trigger] records@[j])@.len() == headers@.len(),
            decreases records@.len() - i,
        {
            if records[i].len() != headers.len() {
                proof {
                    let t = (headers.deep_view(), records.deep_view());
                    assert(t.1[i as int].len() == records@[i as int]@.len());
                    assert(t.1[i as int].len() != t.0.len());
                    assert(ragged(t));
                }
                return Err(
                    ProcessorError::TableRecord(
                        String::from_str("a record's field count differs from the header's"),
                    ),
                );
            }
            i = i + 1;
        }
        let p = CsvProcessor { headers, records, rules };
        proof {
            assert forall|j: int| 0 <= j < p.rows_model().len() implies (
            #[trigger] p.rows_model()[j]).len() == p.headers_model().len() by {
                assert(p.rows_model()[j] == p.records@[j].deep_view());
            }
            let t = (p.headers.deep_view(), p.records.deep_view());
            assert forall|j: int| 0 <= j < t.1.len() implies (#[trigger] t.1[j]).len()
                == t.0.len() by {
                assert(t.1[j] == p.records@[j].deep_view());
            }
            assert(!ragged(t));
        }
        Ok(p)
    }

    /// One full scan: exact per-column, per-kind counts, first examples, and
    /// the grand total, which the counts add up to.
    pub fn get_error_summary(&self) -> (s: ErrorSummary)
        ensures
            summary_wf(stats_model(s.stats@), s.total_errors as nat, self.failures()),
    {
        summarize(&self.headers, &self.records, &self.rules)
    }

    fn count_total_errors(&self) -> (r: usize)
        ensures
            r as nat == sat(self.failures().len()),
    {
        let s = summarize(&self.headers, &self.records, &self.rules);
        s.total_errors
    }

    /// Replaces, in the first column of the given name, every cell equal to
    /// the target with the replacement, then recounts: the returned number is
    /// the failing-check total of the table as it now stands. Without such a
    /// column the table is left untouched.
    pub fn apply_bulk_fix(&mut self, col_name: &str, target_val: &str, replace_val: &str) -> (r:
        usize)
        requires
            old(self).wf(),
        ensures
            final(self).wf(),
            final(self).headers_model() == old(self).headers_model(),
            final(self).rule_map() == old(self).rule_map(),
            final(self).rows_model() == bulk_fixed(
                old(self).headers_model(),
                old(self).rows_model(),
                col_name@,
                target_val@,
                replace_val@,
            ),
            r as nat == sat(final(self).failures().len()),
    {
        let ghost hd = self.headers.deep_view();
        let ghost old_rows = self.records.deep_view();
        let name = String::from_str(col_name);
        let target = String::from_str(target_val);
        match find_first(&self.headers, &name) {
            None => {
                proof {
                    assert(bulk_fixed(hd, old_rows, col_name@, target_val@, replace_val@)
                        == old_rows);
                }
            },
            Some(idx) => {
                let mut k: usize = 0;
                while k < self.records.len()
                    invariant
                        k <= self.records@.len(),
                        self.headers == old(self).headers,
                        self.rules == old(self).rules,
                        hd == self.headers.deep_view(),
                        old_rows == old(self).records.deep_view(),
                        idx < self.headers@.len(),
                        target@ == target_val@,
                        self.records@.len() == old(self).records@.len(),
                        forall|m: int|
                            k <= m < self.records@.len() ==> self.records@[m] == old(
                                self,
                            ).records@[m],
                        forall|m: int|
                            0 <= m < k ==> (#[trigger] self.records@[m]).deep_view() == fix_cell(
                                old(self).records@[m].deep_view(),
                                idx as int,
                                target_val@,
                                replace_val@,
                            ),
                    decreases self.records@.len() - k,
                {
                    proof {
                        assert(self.records@[k as int] == old(self).records@[k as int]);
                    }
                    let ghost oldrow = self.records@[k as int];
                    let ghost row_dv = oldrow.deep_view();
                    let hit = idx < self.records[k].len() && self.records[k][idx] == target;
                    if hit {
                        let mut nr = clone_row(&self.records[k]);
                        nr.set(idx, String::from_str(replace_val));
                        self.records.set(k, nr);
                        proof {
                            assert(oldrow@[idx as int]@ == target@);
                            assert(row_dv[idx as int] == target_val@);
                            assert(nr.deep_view() =~~= row_dv.update(idx as int, replace_val@));
                            assert(fix_cell(row_dv, idx as int, target_val@, replace_val@)
                                == row_dv.update(idx as int, replace_val@));
                            assert(self.records@[k as int].deep_view() == nr.deep_view());
                        }
                    } else {
                        proof {
                            assert(row_dv.len() == oldrow@.len());
                            if 0 <= idx < row_dv.len() {
                                assert(oldrow@[idx as int]@ != target@);
                                assert(row_dv[idx as int] != target_val@);
                            }
                            assert(self.records@[k as int].deep_view() == fix_cell(
                                row_dv,
                                idx as int,
                                target_val@,
                                replace_val@,
                            ));
                        }
                    }
                    k = k + 1;
                }
                proof {
                    assert(self.records.deep_view() =~~= fix_rows(
                        old_rows,
                        idx as int,
                        target_val@,
                        replace_val@,
                    ));
                    assert(first_index_of(hd, col_name@) == Some(idx as int));
                    assert(self.records.deep_view() == bulk_fixed(
                        hd,
                        old_rows,
                        col_name@,
                        target_val@,
                        replace_val@,
                    ));
                }
            },
        }
        proof {
            lemma_bulk_fixed_lens(hd, old_rows, col_name@, target_val@, replace_val@);
            assert forall|j: int| 0 <= j < self.rows_model().len() implies (
            #[trigger] self.rows_model()[j]).len() == self.headers_model().len() by {
                assert(old(self).rows_model()[j].len() == old(self).headers_model().len());
                assert(self.rows_model()[j].len() == old_rows[j].len());
            }
        }
        self.count_total_errors()
    }

    /// Partitions the rows and renders both halves to tabular text: the valid
    /// rows under the original header, the invalid rows, each with its joined
    /// reasons appended, under the header plus `Error_Reason`.
    pub fn generate_split_export(&self) -> (r: SplitExport)
        requires
            self.wf(),
        ensures
            r.valid@ == csv_render(
                seq![self.headers_model()] + valid_rows(
                    self.headers_model(),
                    self.rule_map(),
                    self.rows_model(),
                ),
            ),
            r.invalid@ == csv_render(
                seq![self.headers_model().push("Error_Reason"@)] + invalid_rows(
                    self.headers_model(),
                    self.rule_map(),
                    self.rows_model(),
                ),
            ),
    {
        proof {
            assert forall|i: int| 0 <= i < self.records@.len() implies (
            #[trigger] self.records@[i])@.len() == self.headers@.len() by {
                assert(self.rows_model()[i] == self.records@[i].deep_view());
            }
        }
        export_split(&self.headers, &self.records, &self.rules)
    }
}

/// Whether a parsed table has a row whose field count differs from its
/// header's.
pub open spec fn ragged(t: (Seq<Seq<char>>, Seq<Seq<Seq<char>>>)) -> bool {
    exists|j: int| 0 <= j < t.1.len() && (#[trigger] t.1[j]).len() != t.0.len()
}

/// The position of the first header with the given name, as `first_index_of`
/// describes it.
fn find_first(headers: &Vec<String>, name: &String) -> (r: Option<usize>)
    ensures
        r matches Some(i) ==> i < headers@.len() && first_index_of(headers.deep_view(), name@)
            == Some(i as int),
        r is None ==> first_index_of(headers.deep_view(), name@) is None,
{
    let mut i: usize = 0;
    while i < headers.len()
        invariant
            i <= headers@.len(),
            forall|j: int| 0 <= j < i ==> headers.deep_view()[j] != name@,
        decreases headers@.len() - i,
    {
        if headers[i] == *name {
            proof {
                lemma_first_index_at(headers.deep_view(), name@, i as int);
            }
            return Some(i);
        }
        i = i + 1;
    }
    proof {
        lemma_first_index_none(headers.deep_view(), name@);
    }
    None
}

} // verus!
