use vstd::prelude::*;

verus! {

/// One validation check, as the rule text defines it. Numeric bounds are kept
/// as the number text they were written with; the engine hands them to the
/// floating-point comparison when a cell is checked.
#[derive(Clone, Debug)]
pub enum RuleType {
    NotEmpty,
    Number { min: Option<String>, max: Option<String> },
    Email,
    Regex { pattern: String },
    OneOf { options: Vec<String> },
}

/// The mathematical shape of one check: every text is a sequence of characters.
pub enum RuleSpec {
    NotEmpty,
    Number { min: Option<Seq<char>>, max: Option<Seq<char>> },
    Email,
    Regex { pattern: Seq<char> },
    OneOf { options: Seq<Seq<char>> },
}

impl View for RuleType {
    type V = RuleSpec;

    open spec fn view(&self) -> RuleSpec {
        match *self {
            RuleType::NotEmpty => RuleSpec::NotEmpty,
            RuleType::Number { min, max } => RuleSpec::Number {
                min: min.deep_view(),
                max: max.deep_view(),
            },
            RuleType::Email => RuleSpec::Email,
            RuleType::Regex { pattern } => RuleSpec::Regex { pattern: pattern@ },
            RuleType::OneOf { options } => RuleSpec::OneOf { options: options.deep_view() },
        }
    }
}

/// The checks that one named column must satisfy.
#[derive(Clone, Debug)]
pub struct ColumnRule {
    pub column: String,
    pub rules: Vec<RuleType>,
}

pub struct ColumnRuleModel {
    pub column: Seq<char>,
    pub rules: Seq<RuleSpec>,
}

impl View for ColumnRule {
    type V = ColumnRuleModel;

    open spec fn view(&self) -> ColumnRuleModel {
        ColumnRuleModel {
            column: self.column@,
            rules: self.rules@.map_values(|r: RuleType| r@),
        }
    }
}

pub open spec fn rules_model(rules: Seq<ColumnRule>) -> Seq<ColumnRuleModel> {
    rules.map_values(|c: ColumnRule| c@)
}

/// The column-to-checks mapping that an ordered rule list induces: when a
/// column name appears more than once, the later entry wins.
pub open spec fn rule_map_of(rules: Seq<ColumnRuleModel>) -> Map<Seq<char>, Seq<RuleSpec>>
    decreases rules.len(),
{
    if rules.len() == 0 {
        Map::empty()
    } else {
        rule_map_of(rules.drop_last()).insert(rules.last().column, rules.last().rules)
    }
}

proof fn lemma_rule_map_last(rules: Seq<ColumnRuleModel>, name: Seq<char>, k: int)
    requires
        0 <= k < rules.len(),
        rules[k].column == name,
        forall|j: int| k < j < rules.len() ==> rules[j].column != name,
    ensures
        rule_map_of(rules).contains_key(name),
        rule_map_of(rules)[name] == rules[k].rules,
    decreases rules.len(),
{
    if k < rules.len() - 1 {
        lemma_rule_map_last(rules.drop_last(), name, k);
    }
}

proof fn lemma_rule_map_absent(rules: Seq<ColumnRuleModel>, name: Seq<char>)
    requires
        forall|j: int| 0 <= j < rules.len() ==> rules[j].column != name,
    ensures
        !rule_map_of(rules).contains_key(name),
    decreases rules.len(),
{
    if rules.len() > 0 {
        lemma_rule_map_absent(rules.drop_last(), name);
    }
}

/// Looks a column name up in the rule list, later entries shadowing earlier
/// ones, exactly as `rule_map_of` describes.
pub fn find_checks<'a>(rules: &'a Vec<ColumnRule>, name: &String) -> (r: Option<&'a Vec<RuleType>>)
    ensures
        r is Some <==> rule_map_of(rules_model(rules@)).contains_key(name@),
        r matches Some(cs) ==> rule_map_of(rules_model(rules@))[name@] == cs@.map_values(
            |t: RuleType| t@,
        ),
{
    let mut i: usize = rules.len();
    while i > 0
        invariant
            i <= rules.len(),
            forall|j: int| i <= j < rules.len() ==> rules_model(rules@)[j].column != name@,
        decreases i,
    {
        i = i - 1;
        if rules[i].column == *name {
            proof {
                lemma_rule_map_last(rules_model(rules@), name@, i as int);
            }
            return Some(&rules[i].rules);
        }
    }
    proof {
        lemma_rule_map_absent(rules_model(rules@), name@);
    }
    None
}

} // verus!
