//! Pieces of a diagnostic report.
use vstd::prelude::*;

verus! {

#[derive(Clone, Debug)]
pub struct CodeSnippet {
    pub language: String,
    pub filename: Option<String>,
    pub content: String,
    pub diff: Option<String>,
}

#[derive(Clone, Debug)]
pub struct FixSuggestion {
    pub priority: u8,
    pub title: String,
    pub description: String,
    pub code_snippet: Option<CodeSnippet>,
    pub command: Option<String>,
}

#[derive(Clone, Debug)]
pub struct ConfigConflict {
    pub file_path: String,
    pub key: String,
    pub current_value: String,
    pub suggested_value: String,
    pub reason: String,
}

} // verus!
