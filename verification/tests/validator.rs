use csv_validator::{CsvProcessor, ErrorKind, ErrorSummary, ProcessorError};

fn count_of(s: &ErrorSummary, col: &str, kind: ErrorKind) -> usize {
    for cs in &s.stats {
        if cs.column == col {
            for k in &cs.kinds {
                if k.kind == kind {
                    return k.count;
                }
            }
        }
    }
    0
}

fn example_of(s: &ErrorSummary, col: &str, kind: ErrorKind) -> Option<String> {
    for cs in &s.stats {
        if cs.column == col {
            for k in &cs.kinds {
                if k.kind == kind {
                    return Some(k.example.clone());
                }
            }
        }
    }
    None
}

fn stats_sum(s: &ErrorSummary) -> usize {
    let mut total = 0;
    for cs in &s.stats {
        for k in &cs.kinds {
            total += k.count;
        }
    }
    total
}

#[test]
fn not_empty_blank_is_required() {
    let rules = r#"[{"column":"a","rules":[{"type":"notempty"}]}]"#;
    let p = CsvProcessor::new("a\n   \nx\n", rules).unwrap();
    let s = p.get_error_summary();
    assert_eq!(s.total_errors, 1);
    assert_eq!(count_of(&s, "a", ErrorKind::Required), 1);
    assert_eq!(example_of(&s, "a", ErrorKind::Required), Some("   ".to_string()));
}

#[test]
fn number_range_classification() {
    let rules = r#"[{"column":"n","rules":[{"type":"number","min":0,"max":10}]}]"#;
    let p = CsvProcessor::new("n\n15\n-1\nabc\n5\n0\n10\n", rules).unwrap();
    let s = p.get_error_summary();
    assert_eq!(s.total_errors, 3);
    assert_eq!(count_of(&s, "n", ErrorKind::MaxValue), 1);
    assert_eq!(count_of(&s, "n", ErrorKind::MinValue), 1);
    assert_eq!(count_of(&s, "n", ErrorKind::NotANumber), 1);
    assert_eq!(example_of(&s, "n", ErrorKind::MaxValue), Some("15".to_string()));
    assert_eq!(example_of(&s, "n", ErrorKind::MinValue), Some("-1".to_string()));
    assert_eq!(example_of(&s, "n", ErrorKind::NotANumber), Some("abc".to_string()));
}

#[test]
fn number_bounds_are_inclusive() {
    let rules = r#"[{"column":"n","rules":[{"type":"number","min":0,"max":10}]}]"#;
    let p = CsvProcessor::new("n\n0\n10\n", rules).unwrap();
    let s = p.get_error_summary();
    assert_eq!(s.total_errors, 0);
}

#[test]
fn number_fractional_bounds() {
    let rules = r#"[{"column":"n","rules":[{"type":"number","min":0.5,"max":1.5}]}]"#;
    let p = CsvProcessor::new("n\n0.4\n0.5\n1.5\n1.6\n", rules).unwrap();
    let s = p.get_error_summary();
    assert_eq!(count_of(&s, "n", ErrorKind::MinValue), 1);
    assert_eq!(count_of(&s, "n", ErrorKind::MaxValue), 1);
    assert_eq!(s.total_errors, 2);
}

#[test]
fn email_pattern_matching() {
    let rules = r#"[{"column":"e","rules":[{"type":"email"}]}]"#;
    let p = CsvProcessor::new("e\na@b.com\na@b\na b@c.com\n", rules).unwrap();
    let s = p.get_error_summary();
    assert_eq!(s.total_errors, 2);
    assert_eq!(count_of(&s, "e", ErrorKind::InvalidEmail), 2);
    assert_eq!(example_of(&s, "e", ErrorKind::InvalidEmail), Some("a@b".to_string()));
}

#[test]
fn one_of_exact_match() {
    let rules = r#"[{"column":"c","rules":[{"type":"oneof","options":["A","B"]}]}]"#;
    let p = CsvProcessor::new("c\nA\nC\n", rules).unwrap();
    let s = p.get_error_summary();
    assert_eq!(s.total_errors, 1);
    assert_eq!(count_of(&s, "c", ErrorKind::InvalidOption), 1);
    assert_eq!(example_of(&s, "c", ErrorKind::InvalidOption), Some("C".to_string()));
}

#[test]
fn regex_mismatch_reported() {
    let rules = r#"[{"column":"v","rules":[{"type":"regex","pattern":"^x"}]}]"#;
    let p = CsvProcessor::new("v\nxy\nax\n", rules).unwrap();
    let s = p.get_error_summary();
    assert_eq!(s.total_errors, 1);
    assert_eq!(example_of(&s, "v", ErrorKind::PatternMismatch), Some("ax".to_string()));
}

#[test]
fn invalid_regex_never_fails() {
    let rules = r#"[{"column":"v","rules":[{"type":"regex","pattern":"("}]}]"#;
    let p = CsvProcessor::new("v\nanything\n\u{1F600}\n", rules).unwrap();
    let s = p.get_error_summary();
    assert_eq!(s.total_errors, 0);
}

#[test]
fn one_cell_can_fail_several_checks() {
    let rules = r#"[{"column":"v","rules":[{"type":"number","min":0},{"type":"oneof","options":["5"]}]}]"#;
    let p = CsvProcessor::new("v\nabc\n", rules).unwrap();
    let s = p.get_error_summary();
    assert_eq!(s.total_errors, 2);
    assert_eq!(count_of(&s, "v", ErrorKind::NotANumber), 1);
    assert_eq!(count_of(&s, "v", ErrorKind::InvalidOption), 1);
}

#[test]
fn stats_add_up_to_total() {
    let rules = r#"[
        {"column":"n","rules":[{"type":"number","min":0,"max":10}]},
        {"column":"e","rules":[{"type":"email"}]},
        {"column":"s","rules":[{"type":"notempty"}]}
    ]"#;
    let p = CsvProcessor::new("n,e,s\n15,a@b,\nabc,a@b.com,ok\n-1, , \n", rules).unwrap();
    let s = p.get_error_summary();
    assert!(s.total_errors > 0);
    assert_eq!(stats_sum(&s), s.total_errors);
}

#[test]
fn first_example_is_kept() {
    let rules = r#"[{"column":"a","rules":[{"type":"notempty"}]}]"#;
    let p = CsvProcessor::new("a,b\n  ,1\n\t,2\n", rules).unwrap();
    let s = p.get_error_summary();
    assert_eq!(count_of(&s, "a", ErrorKind::Required), 2);
    assert_eq!(example_of(&s, "a", ErrorKind::Required), Some("  ".to_string()));
}

#[test]
fn bulk_fix_drops_required_failures() {
    let rules = r#"[{"column":"status","rules":[{"type":"notempty"}]}]"#;
    let mut p = CsvProcessor::new("status,x\n,1\n,2\nok,3\n", rules).unwrap();
    let before = p.get_error_summary().total_errors;
    assert_eq!(before, 2);
    let after = p.apply_bulk_fix("status", "", "N/A");
    assert_eq!(after, before - 2);
    assert_eq!(p.get_error_summary().total_errors, 0);
}

#[test]
fn bulk_fix_on_absent_column_is_a_no_op() {
    let rules = r#"[{"column":"a","rules":[{"type":"notempty"}]}]"#;
    let mut p = CsvProcessor::new("a\n \n", rules).unwrap();
    let total = p.apply_bulk_fix("missing", " ", "x");
    assert_eq!(total, 1);
    assert_eq!(p.get_error_summary().total_errors, 1);
}

#[test]
fn bulk_fix_matches_exactly() {
    let rules = r#"[{"column":"a","rules":[{"type":"oneof","options":["yes"]}]}]"#;
    let mut p = CsvProcessor::new("a\nYes\nyes \nyes\n", rules).unwrap();
    let total = p.apply_bulk_fix("a", "Yes", "yes");
    assert_eq!(total, 1);
}

#[test]
fn split_export_partitions_rows() {
    let rules = r#"[{"column":"age","rules":[{"type":"number","min":0}]}]"#;
    let p = CsvProcessor::new("name,age\nAlice,30\nBob,-5\nCara,7\n", rules).unwrap();
    let out = p.generate_split_export();
    assert_eq!(out.valid, "name,age\nAlice,30\nCara,7\n");
    assert_eq!(out.invalid, "name,age,Error_Reason\nBob,-5,age: Invalid\n");
}

#[test]
fn split_export_joins_duplicate_reasons() {
    let rules = r#"[{"column":"v","rules":[{"type":"number","min":0},{"type":"oneof","options":["5"]}]}]"#;
    let p = CsvProcessor::new("v\nabc\n", rules).unwrap();
    let out = p.generate_split_export();
    assert_eq!(out.valid, "v\n");
    assert_eq!(out.invalid, "v,Error_Reason\nabc,v: Invalid; v: Invalid\n");
}

#[test]
fn empty_ruleset_validates_everything() {
    let p = CsvProcessor::new("h1,h2\nx,y\n,\n", "[]").unwrap();
    let s = p.get_error_summary();
    assert_eq!(s.total_errors, 0);
    assert!(s.stats.is_empty());
    let out = p.generate_split_export();
    assert_eq!(out.invalid, "h1,h2,Error_Reason\n");
    assert_eq!(out.valid, "h1,h2\nx,y\n,\n");
}

#[test]
fn export_escapes_fields() {
    let p = CsvProcessor::new("h\n\"a,b\"\n", "[]").unwrap();
    let out = p.generate_split_export();
    assert_eq!(out.valid, "h\n\"a,b\"\n");
}

#[test]
fn later_rules_for_a_column_win() {
    let rules = r#"[
        {"column":"a","rules":[{"type":"notempty"}]},
        {"column":"a","rules":[]}
    ]"#;
    let p = CsvProcessor::new("a\n   \n", rules).unwrap();
    let s = p.get_error_summary();
    assert_eq!(s.total_errors, 0);
}

#[test]
fn malformed_rule_text_is_rejected() {
    let e = CsvProcessor::new("a\nx\n", "not json").unwrap_err();
    match &e {
        ProcessorError::RuleDefinition(_) => {}
        _ => panic!("expected a rule definition error"),
    }
    assert!(e.message().starts_with("Invalid Rules JSON: "));
}

#[test]
fn wrong_rule_shape_is_rejected() {
    let e = CsvProcessor::new("a\nx\n", r#"{"column":"a"}"#).unwrap_err();
    assert!(matches!(e, ProcessorError::RuleDefinition(_)));
    let e2 = CsvProcessor::new("a\nx\n", r#"[{"column":"a","rules":[{"type":"bogus"}]}]"#)
        .unwrap_err();
    assert!(matches!(e2, ProcessorError::RuleDefinition(_)));
    let e3 = CsvProcessor::new(
        "a\nx\n",
        r#"[{"column":"a","rules":[{"type":"number","min":"low"}]}]"#,
    )
    .unwrap_err();
    assert!(matches!(e3, ProcessorError::RuleDefinition(_)));
}

#[test]
fn ragged_record_is_rejected() {
    let e = CsvProcessor::new("a,b\n1\n", "[]").unwrap_err();
    match &e {
        ProcessorError::TableRecord(_) => {}
        _ => panic!("expected a table record error"),
    }
    assert!(e.message().starts_with("CSV Parse Error: "));
}

#[test]
fn error_kind_labels() {
    assert_eq!(ErrorKind::Required.label(), "Required");
    assert_eq!(ErrorKind::NotANumber.label(), "Not a Number");
    assert_eq!(ErrorKind::MinValue.label(), "Min Value");
    assert_eq!(ErrorKind::MaxValue.label(), "Max Value");
    assert_eq!(ErrorKind::InvalidEmail.label(), "Invalid Email");
    assert_eq!(ErrorKind::PatternMismatch.label(), "Pattern Mismatch");
    assert_eq!(ErrorKind::InvalidOption.label(), "Invalid Option");
}

#[test]
fn unruled_columns_are_never_checked() {
    let rules = r#"[{"column":"a","rules":[{"type":"notempty"}]}]"#;
    let p = CsvProcessor::new("a,b\nx,\ny,  \n", rules).unwrap();
    let s = p.get_error_summary();
    assert_eq!(s.total_errors, 0);
}

#[test]
fn number_min_is_checked_before_max() {
    let rules = r#"[{"column":"n","rules":[{"type":"number","min":10,"max":0}]}]"#;
    let p = CsvProcessor::new("n\n5\n", rules).unwrap();
    let s = p.get_error_summary();
    assert_eq!(count_of(&s, "n", ErrorKind::MinValue), 1);
    assert_eq!(count_of(&s, "n", ErrorKind::MaxValue), 0);
}

#[test]
fn header_only_table() {
    let p = CsvProcessor::new("a,b\n", "[]").unwrap();
    assert_eq!(p.get_error_summary().total_errors, 0);
    let out = p.generate_split_export();
    assert_eq!(out.valid, "a,b\n");
    assert_eq!(out.invalid, "a,b,Error_Reason\n");
}

#[test]
fn empty_input_builds_an_empty_table() {
    let p = CsvProcessor::new("", "[]").unwrap();
    assert_eq!(p.get_error_summary().total_errors, 0);
}
