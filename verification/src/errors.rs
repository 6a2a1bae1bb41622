use vstd::prelude::*;
use vstd::string::StringExecFns;

verus! {

/// Why construction failed: the rule text was malformed, the table header
/// could not be read, or a table record could not be read or had the wrong
/// field count. Each variant carries the underlying cause.
#[derive(Debug)]
pub enum ProcessorError {
    RuleDefinition(String),
    TableHeader(String),
    TableRecord(String),
}

impl ProcessorError {
    /// The full message of this error, cause included.
    pub open spec fn spec_message(self) -> Seq<char> {
        match self {
            ProcessorError::RuleDefinition(c) => "Invalid Rules JSON: "@ + c@,
            ProcessorError::TableHeader(c) => "Header Error: "@ + c@,
            ProcessorError::TableRecord(c) => "CSV Parse Error: "@ + c@,
        }
    }

    pub fn message(&self) -> (r: String)
        ensures
            r@ == self.spec_message(),
    {
        match self {
            ProcessorError::RuleDefinition(c) => {
                let mut s = String::from_str("Invalid Rules JSON: ");
                s.append(c.as_str());
                s
            },
            ProcessorError::TableHeader(c) => {
                let mut s = String::from_str("Header Error: ");
                s.append(c.as_str());
                s
            },
            ProcessorError::TableRecord(c) => {
                let mut s = String::from_str("CSV Parse Error: ");
                s.append(c.as_str());
                s
            },
        }
    }
}

} // verus!
