pub mod csvio;
pub mod engine;
pub mod errors;
pub mod laws;
pub mod model;
pub mod processor;
pub mod rules_json;
pub mod rules;
pub mod split;
pub mod summary;

pub use engine::ErrorKind;
pub use errors::ProcessorError;
pub use processor::CsvProcessor;
pub use split::SplitExport;
pub use summary::{ColumnStats, ErrorSummary, KindStat};
pub use rules::{ColumnRule, RuleType};
