pub mod json_parser;
pub mod plaintext_parser;
pub mod stacktrace_merger;

pub use json_parser::JsonParser;
pub use plaintext_parser::PlaintextParser;
pub use stacktrace_merger::StacktraceMerger;
