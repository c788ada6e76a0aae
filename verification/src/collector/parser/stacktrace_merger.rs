//! Tells whether a log line continues the entry before it, as the lines of a
//! stacktrace do.
use vstd::prelude::*;

use crate::pattern::{is_match, regex_matches};
use crate::text::{chars_of, has_prefix, starts_with, trim_start, trim_start_chars};

verus! {

/// A Rust backtrace frame: `  0: 0x1234 - main`.
pub const RUST_FRAME_PATTERN: &'static str = r"^\s*\d+:\s+0x[0-9a-fA-F]";

/// A Java frame: `    at com.example.Foo.bar(Foo.java:42)`.
pub const JAVA_FRAME_PATTERN: &'static str = r"^\s+at\s+[\w\.$]+\(";

/// A Python frame: `  File "app.py", line 10, in main`.
pub const PYTHON_FRAME_PATTERN: &'static str = r#"^\s+File "[^"]+", line \d+"#;

/// Whether the text alone marks a continuation: indentation by a tab or two
/// spaces, or a stacktrace keyword after any leading whitespace.
pub open spec fn continuation_by_text(line: Seq<char>) -> bool {
    let t = trim_start(line);
    ||| has_prefix(line, "\t"@)
    ||| has_prefix(line, "  "@)
    ||| has_prefix(t, "at "@)
    ||| has_prefix(t, "Caused by:"@)
    ||| has_prefix(t, "... "@)
    ||| has_prefix(t, "Traceback"@)
    ||| has_prefix(t, "During handling"@)
}

/// Whether a frame pattern of Rust, Java or Python matches the line.
pub open spec fn continuation_by_frame(line: Seq<char>) -> bool {
    ||| regex_matches(RUST_FRAME_PATTERN@, line)
    ||| regex_matches(JAVA_FRAME_PATTERN@, line)
    ||| regex_matches(PYTHON_FRAME_PATTERN@, line)
}

/// A non-empty line that continues the entry before it.
pub open spec fn is_continuation_line(line: Seq<char>) -> bool {
    line.len() > 0 && (continuation_by_text(line) || continuation_by_frame(line))
}

/// Detects whether a log line is a continuation of a multi-line stacktrace.
#[derive(Clone, Copy, Debug)]
pub struct StacktraceMerger {}

impl StacktraceMerger {
    pub fn new() -> (r: StacktraceMerger) {
        StacktraceMerger {}
    }

    /// Returns true if `line` is a continuation of a previous log entry
    /// (stacktrace line).
    pub fn is_continuation(&self, line: &str) -> (r: bool)
        ensures
            r == is_continuation_line(line@),
    {
        let v = chars_of(line);
        if v.len() == 0 {
            return false;
        }
        if starts_with(v.as_slice(), "\t") || starts_with(v.as_slice(), "  ") {
            return true;
        }
        let t = trim_start_chars(v.as_slice());
        let t = t.as_slice();
        if starts_with(t, "at ") || starts_with(t, "Caused by:") || starts_with(t, "... ")
            || starts_with(t, "Traceback") || starts_with(t, "During handling") {
            return true;
        }
        is_match(RUST_FRAME_PATTERN, line) || is_match(JAVA_FRAME_PATTERN, line) || is_match(
            PYTHON_FRAME_PATTERN,
            line,
        )
    }
}

impl Default for StacktraceMerger {
    fn default() -> (r: Self) {
        StacktraceMerger::new()
    }
}

/// A line continues the entry before it exactly when it is not empty and is
/// indented by a tab or two spaces, starts (after leading whitespace) with
/// `at `, `Caused by:`, `... `, `Traceback` or `During handling`, or is a
/// Rust, Java or Python stack frame.
pub proof fn law_continuation_rules(line: Seq<char>)
    ensures
        line.len() == 0 ==> !is_continuation_line(line),
        line.len() > 0 ==> (is_continuation_line(line) <==> {
            ||| has_prefix(line, "\t"@)
            ||| has_prefix(line, "  "@)
            ||| has_prefix(trim_start(line), "at "@)
            ||| has_prefix(trim_start(line), "Caused by:"@)
            ||| has_prefix(trim_start(line), "... "@)
            ||| has_prefix(trim_start(line), "Traceback"@)
            ||| has_prefix(trim_start(line), "During handling"@)
            ||| regex_matches(r"^\s*\d+:\s+0x[0-9a-fA-F]"@, line)
            ||| regex_matches(r"^\s+at\s+[\w\.$]+\("@, line)
            ||| regex_matches(r#"^\s+File "[^"]+", line \d+"#@, line)
        }),
{
}

} // verus!
