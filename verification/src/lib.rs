//! Enforcement of architectural boundaries between code modules.
//!
//! A corpus of source units (each with a dotted namespace name and a file
//! path) is checked against policy rules. Each rule guards the namespaces
//! matching its guard pattern and restricts what they may reference: any
//! textual occurrence of a corpus namespace outside the rule's allow-list
//! is reported as a violation, with its exact byte span and a surrounding
//! context window.

pub mod pattern;
pub mod report;
pub mod rule;
pub mod run;
pub mod scan;
pub mod source;

pub use pattern::NamespaceMatcher;
pub use pattern::PatternError;
pub use pattern::Token;
pub use report::Report;
pub use rule::CompiledRule;
pub use rule::Rule;
pub use run::apply_rules;
pub use run::select_rule;
pub use scan::Violation;
pub use scan::scan_code;
pub use source::ClojureSourceFile;
