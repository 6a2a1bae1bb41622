use vstd::prelude::*;
use vstd::string::StringExecFns;
use crate::errors::ProcessorError;
use crate::rules::{rules_model, ColumnRule, ColumnRuleModel, RuleSpec, RuleType};

verus! {

/// The mathematical shape of a JSON value. A number carries its canonical
/// rendering, the text that reads back as the same number.
pub enum JsonModel {
    Null,
    Flag(bool),
    Num(Seq<char>),
    Text(Seq<char>),
    List(Seq<JsonModel>),
    Object(Map<Seq<char>, JsonModel>),
}

/// What a JSON text parses to, if it parses at all: a function of the text
/// alone.
pub uninterp spec fn json_of(text: Seq<char>) -> Option<JsonModel>;

/// The shape of a parsed JSON value.
pub uninterp spec fn json_model(v: serde_json::Value) -> JsonModel;

#[verifier::external_type_specification]
#[verifier::external_body]
pub struct ExJsonValue(serde_json::Value);

/// Relies on serde_json::from_str: turns the rule text into a JSON tree, a
/// function of the text alone, or reports the parse failure with its message.
#[verifier::external_body]
fn json_parse(text: &str) -> (r: Result<serde_json::Value, String>)
    ensures
        r matches Ok(v) ==> json_of(text@) == Some(json_model(v)),
        r is Err <==> json_of(text@) is None,
{
    serde_json::from_str::<serde_json::Value>(text).map_err(|e| format!("{}", e))
}

/// Relies on serde_json::Value::as_array: yields the elements exactly of an
/// array value.
#[verifier::external_body]
fn json_as_array(v: &serde_json::Value) -> (r: Option<&Vec<serde_json::Value>>)
    ensures
        r is Some <==> json_model(*v) is List,
        r matches Some(a) ==> json_model(*v) == JsonModel::List(
            a@.map_values(|x: serde_json::Value| json_model(x)),
        ),
{
    v.as_array()
}

/// Relies on serde_json::Value::get: on an object, the member under a string
/// key; None otherwise.
#[verifier::external_body]
fn json_get<'a>(v: &'a serde_json::Value, key: &str) -> (r: Option<&'a serde_json::Value>)
    ensures
        r is Some <==> (json_model(*v) matches JsonModel::Object(m) && m.contains_key(key@)),
        r matches Some(x) ==> (json_model(*v) matches JsonModel::Object(m) && m.contains_key(key@)
            && json_model(*x) == m[key@]),
{
    v.get(key)
}

/// Relies on serde_json::Value::as_str: the characters exactly of a string
/// value.
#[verifier::external_body]
fn json_as_str(v: &serde_json::Value) -> (r: Option<String>)
    ensures
        r is Some <==> json_model(*v) is Text,
        r matches Some(s) ==> json_model(*v) == JsonModel::Text(s@),
{
    v.as_str().map(|s| s.to_string())
}

/// Relies on serde_json::Value::is_null.
#[verifier::external_body]
fn json_is_null(v: &serde_json::Value) -> (r: bool)
    ensures
        r == (json_model(*v) is Null),
{
    v.is_null()
}

/// Relies on serde_json::Value::as_number and the number's rendering: the
/// canonical text of a number value, which reads back as the same number.
#[verifier::external_body]
fn json_number_text(v: &serde_json::Value) -> (r: Option<String>)
    ensures
        r is Some <==> json_model(*v) is Num,
        r matches Some(t) ==> json_model(*v) == JsonModel::Num(t@),
{
    v.as_number().map(|n| n.to_string())
}

/// The member of an object under a key, if the value is an object that has
/// it.
pub open spec fn obj_field(j: JsonModel, key: Seq<char>) -> Option<JsonModel> {
    match j {
        JsonModel::Object(m) => if m.contains_key(key) {
            Some(m[key])
        } else {
            None
        },
        _ => None,
    }
}

/// A required string member.
pub open spec fn text_field(j: JsonModel, key: Seq<char>) -> Option<Seq<char>> {
    match obj_field(j, key) {
        Some(JsonModel::Text(s)) => Some(s),
        _ => None,
    }
}

/// An optional numeric member: absent or null is no bound, a number is its
/// text, anything else is an error.
pub open spec fn bound_field(j: JsonModel, key: Seq<char>) -> Option<Option<Seq<char>>> {
    match obj_field(j, key) {
        None => Some(None),
        Some(JsonModel::Null) => Some(None),
        Some(JsonModel::Num(t)) => Some(Some(t)),
        Some(_) => None,
    }
}

/// A list of string values, all of them or nothing.
pub open spec fn texts_of(l: Seq<JsonModel>) -> Option<Seq<Seq<char>>>
    decreases l.len(),
{
    if l.len() == 0 {
        Some(Seq::empty())
    } else {
        match (texts_of(l.drop_last()), l.last()) {
            (Some(ts), JsonModel::Text(s)) => Some(ts.push(s)),
            _ => None,
        }
    }
}

/// A required list-of-strings member.
pub open spec fn list_field_texts(j: JsonModel, key: Seq<char>) -> Option<Seq<Seq<char>>> {
    match obj_field(j, key) {
        Some(JsonModel::List(l)) => texts_of(l),
        _ => None,
    }
}

/// The check one JSON object describes: its `type` tag picks the variant,
/// the remaining members fill it in.
pub open spec fn check_of_json(j: JsonModel) -> Option<RuleSpec> {
    match text_field(j, "type"@) {
        None => None,
        Some(tag) => if tag == "notempty"@ {
            Some(RuleSpec::NotEmpty)
        } else if tag == "number"@ {
            match (bound_field(j, "min"@), bound_field(j, "max"@)) {
                (Some(mn), Some(mx)) => Some(RuleSpec::Number { min: mn, max: mx }),
                _ => None,
            }
        } else if tag == "email"@ {
            Some(RuleSpec::Email)
        } else if tag == "regex"@ {
            match text_field(j, "pattern"@) {
                Some(p) => Some(RuleSpec::Regex { pattern: p }),
                None => None,
            }
        } else if tag == "oneof"@ {
            match list_field_texts(j, "options"@) {
                Some(os) => Some(RuleSpec::OneOf { options: os }),
                None => None,
            }
        } else {
            None
        },
    }
}

pub open spec fn checks_of_json(l: Seq<JsonModel>) -> Option<Seq<RuleSpec>>
    decreases l.len(),
{
    if l.len() == 0 {
        Some(Seq::empty())
    } else {
        match (checks_of_json(l.drop_last()), check_of_json(l.last())) {
            (Some(cs), Some(c)) => Some(cs.push(c)),
            _ => None,
        }
    }
}

/// The column entry one JSON object describes: a `column` name and a `rules`
/// list of checks.
pub open spec fn column_rule_of_json(j: JsonModel) -> Option<ColumnRuleModel> {
    match (text_field(j, "column"@), obj_field(j, "rules"@)) {
        (Some(c), Some(JsonModel::List(l))) => match checks_of_json(l) {
            Some(cs) => Some(ColumnRuleModel { column: c, rules: cs }),
            None => None,
        },
        _ => None,
    }
}

pub open spec fn column_rules_of_json(l: Seq<JsonModel>) -> Option<Seq<ColumnRuleModel>>
    decreases l.len(),
{
    if l.len() == 0 {
        Some(Seq::empty())
    } else {
        match (column_rules_of_json(l.drop_last()), column_rule_of_json(l.last())) {
            (Some(rs), Some(cr)) => Some(rs.push(cr)),
            _ => None,
        }
    }
}

/// The rule list the rule text describes, if the text is well formed: a JSON
/// list of column entries.
pub open spec fn rules_of(text: Seq<char>) -> Option<Seq<ColumnRuleModel>> {
    match json_of(text) {
        Some(JsonModel::List(l)) => column_rules_of_json(l),
        _ => None,
    }
}

proof fn lemma_texts_of_bad(l: Seq<JsonModel>, k: int)
    requires
        0 <= k < l.len(),
        !(l[k] is Text),
    ensures
        texts_of(l) is None,
    decreases l.len(),
{
    if k < l.len() - 1 {
        lemma_texts_of_bad(l.drop_last(), k);
    }
}

proof fn lemma_checks_of_bad(l: Seq<JsonModel>, k: int)
    requires
        0 <= k < l.len(),
        check_of_json(l[k]) is None,
    ensures
        checks_of_json(l) is None,
    decreases l.len(),
{
    if k < l.len() - 1 {
        lemma_checks_of_bad(l.drop_last(), k);
    }
}

proof fn lemma_column_rules_of_bad(l: Seq<JsonModel>, k: int)
    requires
        0 <= k < l.len(),
        column_rule_of_json(l[k]) is None,
    ensures
        column_rules_of_json(l) is None,
    decreases l.len(),
{
    if k < l.len() - 1 {
        lemma_column_rules_of_bad(l.drop_last(), k);
    }
}

fn rule_text_error(msg: &str) -> (r: ProcessorError)
    ensures
        r is RuleDefinition,
{
    ProcessorError::RuleDefinition(String::from_str(msg))
}

/// Whether two texts are the same characters.
fn eq_lit(a: &String, b: &str) -> (r: bool)
    ensures
        r == (a@ == b@),
{
    let bo = String::from_str(b);
    *a == bo
}

/// Reads an optional numeric member: absent or null means no bound; anything
/// but a number is a rule-definition error.
fn optional_number_field(obj: &serde_json::Value, key: &str) -> (r: Result<
    Option<String>,
    ProcessorError,
>)
    ensures
        r matches Ok(b) ==> bound_field(json_model(*obj), key@) == Some(b.deep_view()),
        r is Err ==> bound_field(json_model(*obj), key@) is None,
        r matches Err(e) ==> e is RuleDefinition,
{
    match json_get(obj, key) {
        None => Ok(None),
        Some(v) => {
            if json_is_null(v) {
                Ok(None)
            } else {
                match json_number_text(v) {
                    Some(t) => Ok(Some(t)),
                    None => Err(rule_text_error("a numeric bound must be a number")),
                }
            }
        },
    }
}

/// Reads a required string member.
fn string_field(obj: &serde_json::Value, key: &str, what: &str) -> (r: Result<
    String,
    ProcessorError,
>)
    ensures
        r matches Ok(s) ==> text_field(json_model(*obj), key@) == Some(s@),
        r is Err ==> text_field(json_model(*obj), key@) is None,
        r matches Err(e) ==> e is RuleDefinition,
{
    match json_get(obj, key) {
        None => Err(rule_text_error(what)),
        Some(v) => {
            match json_as_str(v) {
                Some(s) => Ok(s),
                None => Err(rule_text_error(what)),
            }
        },
    }
}

/// Reads a required list-of-strings member.
#[verifier::loop_isolation(false)]
fn string_list_field(obj: &serde_json::Value, key: &str, what: &str) -> (r: Result<
    Vec<String>,
    ProcessorError,
>)
    ensures
        r matches Ok(v) ==> list_field_texts(json_model(*obj), key@) == Some(v.deep_view()),
        r is Err ==> list_field_texts(json_model(*obj), key@) is None,
        r matches Err(e) ==> e is RuleDefinition,
{
    let arr = match json_get(obj, key) {
        None => {
            return Err(rule_text_error(what));
        },
        Some(v) => {
            match json_as_array(v) {
                Some(a) => a,
                None => {
                    return Err(rule_text_error(what));
                },
            }
        },
    };
    let ghost l = arr@.map_values(|x: serde_json::Value| json_model(x));
    let mut out: Vec<String> = Vec::new();
    let mut k: usize = 0;
    proof {
        assert(l.take(0) =~= Seq::<JsonModel>::empty());
        assert(out.deep_view() =~= Seq::<Seq<char>>::empty());
    }
    while k < arr.len()
        invariant
            k <= arr@.len(),
            texts_of(l.take(k as int)) == Some(out.deep_view()),
        decreases arr@.len() - k,
    {
        match json_as_str(&arr[k]) {
            Some(s) => {
                out.push(s);
                proof {
                    assert(l.take(k as int + 1).drop_last() =~= l.take(k as int));
                    assert(l.take(k as int + 1).last() == l[k as int]);
                    assert(out.deep_view() =~~= texts_of(l.take(k as int)).unwrap().push(
                        out@.last()@,
                    ));
                }
            },
            None => {
                proof {
                    lemma_texts_of_bad(l, k as int);
                }
                return Err(rule_text_error(what));
            },
        }
        k = k + 1;
    }
    proof {
        assert(l.take(arr@.len() as int) =~= l);
    }
    Ok(out)
}

/// Reads one check object.
fn parse_check(obj: &serde_json::Value) -> (r: Result<RuleType, ProcessorError>)
    ensures
        r matches Ok(c) ==> check_of_json(json_model(*obj)) == Some(c@),
        r is Err ==> check_of_json(json_model(*obj)) is None,
        r matches Err(e) ==> e is RuleDefinition,
{
    let tag = string_field(obj, "type", "a check needs a string `type` tag")?;
    if eq_lit(&tag, "notempty") {
        Ok(RuleType::NotEmpty)
    } else if eq_lit(&tag, "number") {
        let min = optional_number_field(obj, "min")?;
        let max = optional_number_field(obj, "max")?;
        Ok(RuleType::Number { min, max })
    } else if eq_lit(&tag, "email") {
        Ok(RuleType::Email)
    } else if eq_lit(&tag, "regex") {
        let pattern = string_field(obj, "pattern", "a regex check needs a string `pattern`")?;
        Ok(RuleType::Regex { pattern })
    } else if eq_lit(&tag, "oneof") {
        let options = string_list_field(
            obj,
            "options",
            "a oneof check needs a list of string `options`",
        )?;
        Ok(RuleType::OneOf { options })
    } else {
        Err(rule_text_error("unknown check type"))
    }
}

/// Parses the rule text: an ordered list of column entries, each with its
/// ordered check list, exactly as `rules_of` describes; any malformed piece
/// is a rule-definition error.
#[verifier::loop_isolation(false)]
pub fn parse_rules(text: &str) -> (r: Result<Vec<ColumnRule>, ProcessorError>)
    ensures
        r matches Ok(v) ==> rules_of(text@) == Some(rules_model(v@)),
        r is Err <==> rules_of(text@) is None,
        r matches Err(e) ==> e is RuleDefinition,
{
    let root = match json_parse(text) {
        Ok(v) => v,
        Err(m) => {
            return Err(ProcessorError::RuleDefinition(m));
        },
    };
    let arr = match json_as_array(&root) {
        Some(a) => a,
        None => {
            return Err(rule_text_error("the rule text must be a list of column entries"));
        },
    };
    let ghost l = arr@.map_values(|x: serde_json::Value| json_model(x));
    let mut out: Vec<ColumnRule> = Vec::new();
    let mut idx: usize = 0;
    proof {
        assert(l.take(0) =~= Seq::<JsonModel>::empty());
        assert(out@.map_values(|c: ColumnRule| c@) =~= Seq::<ColumnRuleModel>::empty());
    }
    while idx < arr.len()
        invariant
            idx <= arr@.len(),
            column_rules_of_json(l.take(idx as int)) == Some(out@.map_values(|c: ColumnRule| c@)),
        decreases arr@.len() - idx,
    {
        let item = &arr[idx];
        proof {
            assert(json_model(arr@[idx as int]) == l[idx as int]);
        }
        let column = match string_field(item, "column", "a column entry needs a string `column`") {
            Ok(c) => c,
            Err(e) => {
                proof {
                    lemma_column_rules_of_bad(l, idx as int);
                }
                return Err(e);
            },
        };
        let rlist = match json_get(item, "rules") {
            Some(v) => v,
            None => {
                proof {
                    lemma_column_rules_of_bad(l, idx as int);
                }
                return Err(rule_text_error("a column entry needs a `rules` list"));
            },
        };
        let rarr = match json_as_array(rlist) {
            Some(a) => a,
            None => {
                proof {
                    lemma_column_rules_of_bad(l, idx as int);
                }
                return Err(rule_text_error("a column entry needs a `rules` list"));
            },
        };
        let ghost cl = rarr@.map_values(|x: serde_json::Value| json_model(x));
        let mut checks: Vec<RuleType> = Vec::new();
        let mut jdx: usize = 0;
        proof {
            assert(cl.take(0) =~= Seq::<JsonModel>::empty());
            assert(checks@.map_values(|t: RuleType| t@) =~= Seq::<RuleSpec>::empty());
        }
        while jdx < rarr.len()
            invariant
                jdx <= rarr@.len(),
                checks_of_json(cl.take(jdx as int)) == Some(
                    checks@.map_values(|t: RuleType| t@),
                ),
            decreases rarr@.len() - jdx,
        {
            proof {
                assert(json_model(rarr@[jdx as int]) == cl[jdx as int]);
            }
            let check = match parse_check(&rarr[jdx]) {
                Ok(c) => c,
                Err(e) => {
                    proof {
                        lemma_checks_of_bad(cl, jdx as int);
                        lemma_column_rules_of_bad(l, idx as int);
                    }
                    return Err(e);
                },
            };
            checks.push(check);
            proof {
                assert(cl.take(jdx as int + 1).drop_last() =~= cl.take(jdx as int));
                assert(cl.take(jdx as int + 1).last() == cl[jdx as int]);
                assert(checks@.map_values(|t: RuleType| t@) =~~= checks_of_json(
                    cl.take(jdx as int),
                ).unwrap().push(checks@.last()@));
            }
            jdx = jdx + 1;
        }
        proof {
            assert(cl.take(rarr@.len() as int) =~= cl);
            assert(column_rule_of_json(l[idx as int]) == Some(
                ColumnRuleModel {
                    column: column@,
                    rules: checks@.map_values(|t: RuleType| t@),
                },
            ));
        }
        let ghost entry = ColumnRuleModel {
            column: column@,
            rules: checks@.map_values(|t: RuleType| t@),
        };
        out.push(ColumnRule { column, rules: checks });
        proof {
            assert(l.take(idx as int + 1).drop_last() =~= l.take(idx as int));
            assert(l.take(idx as int + 1).last() == l[idx as int]);
            assert(out@.last()@ == entry);
            assert(out@.map_values(|c: ColumnRule| c@) =~~= column_rules_of_json(
                l.take(idx as int),
            ).unwrap().push(entry));
        }
        idx = idx + 1;
    }
    proof {
        assert(l.take(arr@.len() as int) =~= l);
        assert(rules_model(out@) =~= out@.map_values(|c: ColumnRule| c@));
    }
    Ok(out)
}

} // verus!
