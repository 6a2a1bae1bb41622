use vstd::prelude::*;
use crate::rules::{RuleSpec, RuleType};

verus! {

/// Classification of why a single check failed on a single cell value.
#[derive(Clone, Copy, Debug, PartialEq, Eq, Hash, Structural)]
pub enum ErrorKind {
    Required,
    NotANumber,
    MinValue,
    MaxValue,
    InvalidEmail,
    PatternMismatch,
    InvalidOption,
}

impl ErrorKind {
    /// The label under which this kind is reported.
    pub open spec fn spec_label(self) -> Seq<char> {
        match self {
            ErrorKind::Required => "Required"@,
            ErrorKind::NotANumber => "Not a Number"@,
            ErrorKind::MinValue => "Min Value"@,
            ErrorKind::MaxValue => "Max Value"@,
            ErrorKind::InvalidEmail => "Invalid Email"@,
            ErrorKind::PatternMismatch => "Pattern Mismatch"@,
            ErrorKind::InvalidOption => "Invalid Option"@,
        }
    }

    pub fn label(&self) -> (r: &'static str)
        ensures
            r@ == self.spec_label(),
    {
        match self {
            ErrorKind::Required => "Required",
            ErrorKind::NotANumber => "Not a Number",
            ErrorKind::MinValue => "Min Value",
            ErrorKind::MaxValue => "Max Value",
            ErrorKind::InvalidEmail => "Invalid Email",
            ErrorKind::PatternMismatch => "Pattern Mismatch",
            ErrorKind::InvalidOption => "Invalid Option",
        }
    }
}

/// Outcome of evaluating one value against a numeric range check.
#[derive(Clone, Copy, Debug, PartialEq, Eq, Structural)]
pub enum NumberVerdict {
    NotNumeric,
    BelowMin,
    AboveMax,
    InRange,
}

/// What the floating-point range check decides for a value against optional
/// bound texts: a function of the three texts alone.
pub uninterp spec fn number_verdict(
    value: Seq<char>,
    min: Option<Seq<char>>,
    max: Option<Seq<char>>,
) -> NumberVerdict;

/// Relies on str::parse to a float and float comparison: parses the value,
/// reports a non-number on failure, otherwise compares against the optional
/// bounds, the lower bound first; bounds are inclusive. The bound texts are
/// read back as the numbers they were written from. Deterministic in its
/// three arguments.
#[verifier::external_body]
pub(crate) fn check_number(value: &str, min: &Option<String>, max: &Option<String>) -> (r:
    NumberVerdict)
    ensures
        r == number_verdict(value@, min.deep_view(), max.deep_view()),
{
    let lo = min.as_ref().and_then(|s| serde_json::from_str::<serde_json::Number>(s).ok());
    let hi = max.as_ref().and_then(|s| serde_json::from_str::<serde_json::Number>(s).ok());
    let parsed = value.parse().ok();
    // `or` ties the parse target to the float type that `as_f64` yields
    match parsed.or(serde_json::Number::from(0u8).as_f64()).and(parsed) {
        None => NumberVerdict::NotNumeric,
        Some(n) => {
            if lo.and_then(|b| b.as_f64()).map_or(false, |m| n < m) {
                NumberVerdict::BelowMin
            } else if hi.and_then(|b| b.as_f64()).map_or(false, |m| n > m) {
                NumberVerdict::AboveMax
            } else {
                NumberVerdict::InRange
            }
        },
    }
}

/// Whether a pattern text is a well-formed regular expression: a function of
/// the pattern alone.
pub uninterp spec fn regex_valid(pattern: Seq<char>) -> bool;

/// Whether a well-formed pattern matches somewhere in a text: a function of
/// the pattern and the text alone.
pub uninterp spec fn regex_match(pattern: Seq<char>, text: Seq<char>) -> bool;

/// Relies on regex::Regex::new and regex::Regex::is_match: whether the pattern
/// compiles depends on the pattern alone, and whether a compiled pattern
/// matches somewhere in the text depends on the pattern and the text alone.
#[verifier::external_body]
pub(crate) fn regex_probe(pattern: &str, text: &str) -> (r: Option<bool>)
    ensures
        r is Some <==> regex_valid(pattern@),
        r matches Some(b) ==> b == regex_match(pattern@, text@),
{
    match regex::Regex::new(pattern) {
        Ok(re) => Some(re.is_match(text)),
        Err(_) => None,
    }
}

/// What str::trim leaves of a text: a function of the characters alone.
pub uninterp spec fn trim_of(s: Seq<char>) -> Seq<char>;

/// Relies on str::trim: removes leading and trailing whitespace, a function of
/// the characters alone.
#[verifier::external_body]
pub(crate) fn trimmed(s: &str) -> (r: String)
    ensures
        r@ == trim_of(s@),
{
    s.trim().to_owned()
}

/// The anchored pattern that the email check matches values against.
pub open spec fn email_pattern() -> Seq<char> {
    "^[^@\\s]+@[^@\\s]+\\.[^@\\s]+$"@
}

fn email_pattern_text() -> (r: &'static str)
    ensures
        r@ == email_pattern(),
{
    "^[^@\\s]+@[^@\\s]+\\.[^@\\s]+$"
}

/// What evaluating one value against one check yields: no failure, or the
/// kind of the failure.
pub open spec fn check_verdict(value: Seq<char>, check: RuleSpec) -> Option<ErrorKind> {
    match check {
        RuleSpec::NotEmpty => if trim_of(value).len() == 0 {
            Some(ErrorKind::Required)
        } else {
            None
        },
        RuleSpec::Number { min, max } => match number_verdict(value, min, max) {
            NumberVerdict::NotNumeric => Some(ErrorKind::NotANumber),
            NumberVerdict::BelowMin => Some(ErrorKind::MinValue),
            NumberVerdict::AboveMax => Some(ErrorKind::MaxValue),
            NumberVerdict::InRange => None,
        },
        RuleSpec::Email => if regex_valid(email_pattern()) && regex_match(
            email_pattern(),
            value,
        ) {
            None
        } else {
            Some(ErrorKind::InvalidEmail)
        },
        RuleSpec::Regex { pattern } => if regex_valid(pattern) && !regex_match(pattern, value) {
            Some(ErrorKind::PatternMismatch)
        } else {
            None
        },
        RuleSpec::OneOf { options } => if options.contains(value) {
            None
        } else {
            Some(ErrorKind::InvalidOption)
        },
    }
}

fn contains_string(options: &Vec<String>, value: &String) -> (r: bool)
    ensures
        r == options.deep_view().contains(value@),
{
    let mut i: usize = 0;
    while i < options.len()
        invariant
            i <= options.len(),
            forall|j: int| 0 <= j < i ==> options.deep_view()[j] != value@,
        decreases options.len() - i,
    {
        if options[i] == *value {
            assert(options.deep_view()[i as int] == value@);
            return true;
        }
        i = i + 1;
    }
    assert(!options.deep_view().contains(value@));
    false
}

/// Evaluates one cell value against one check; `None` means the check passed.
/// An ill-formed pattern in a pattern check never fails any value.
pub fn evaluate(value: &String, check: &RuleType) -> (r: Option<ErrorKind>)
    ensures
        r == check_verdict(value@, check@),
{
    match check {
        RuleType::NotEmpty => {
            let t = trimmed(value.as_str());
            if t.as_str().is_empty() {
                Some(ErrorKind::Required)
            } else {
                None
            }
        },
        RuleType::Number { min, max } => {
            match check_number(value.as_str(), min, max) {
                NumberVerdict::NotNumeric => Some(ErrorKind::NotANumber),
                NumberVerdict::BelowMin => Some(ErrorKind::MinValue),
                NumberVerdict::AboveMax => Some(ErrorKind::MaxValue),
                NumberVerdict::InRange => None,
            }
        },
        RuleType::Email => {
            match regex_probe(email_pattern_text(), value.as_str()) {
                Some(true) => None,
                _ => Some(ErrorKind::InvalidEmail),
            }
        },
        RuleType::Regex { pattern } => {
            match regex_probe(pattern.as_str(), value.as_str()) {
                Some(false) => Some(ErrorKind::PatternMismatch),
                _ => None,
            }
        },
        RuleType::OneOf { options } => {
            if contains_string(options, value) {
                None
            } else {
                Some(ErrorKind::InvalidOption)
            }
        },
    }
}

} // verus!
