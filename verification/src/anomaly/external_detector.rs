//! Custom detectors run as separate programs: one JSON line describing a
//! source's window goes to the program's stdin, one JSON line of anomalies
//! comes back on its stdout. This module holds what the library decides
//! around that exchange: whether a configured program can be run at all, how
//! long it may take, how the request is framed, and that a failing program
//! yields no anomalies rather than an error.
use vstd::prelude::*;

use crate::text::{chars_of, push_str, string_of, trim, trim_chars};

verus! {

/// A user-configured detector program.
#[derive(Clone, Debug)]
pub struct PluginDetectorConfig {
    pub id: String,
    pub command: String,
    pub args: Vec<String>,
    pub timeout_ms: u64,
}

/// The timeout a configuration gets when it names none, in milliseconds.
pub fn default_timeout_ms() -> (r: u64)
    ensures
        r == 3000,
{
    3000
}

/// The shortest time a detector is given, in milliseconds, whatever its
/// configuration says.
pub const MIN_TIMEOUT_MS: u64 = 100;

impl PluginDetectorConfig {
    /// The configured timeout, raised to at least `MIN_TIMEOUT_MS`.
    pub fn effective_timeout_ms(&self) -> (r: u64)
        ensures
            r == if self.timeout_ms < MIN_TIMEOUT_MS {
                MIN_TIMEOUT_MS
            } else {
                self.timeout_ms
            },
    {
        if self.timeout_ms < MIN_TIMEOUT_MS {
            MIN_TIMEOUT_MS
        } else {
            self.timeout_ms
        }
    }

    /// A command that is empty or only whitespace is refused before any
    /// program is started.
    pub fn check_command(&self) -> (r: Result<(), String>)
        ensures
            match r {
                Ok(()) => trim(self.command@).len() > 0,
                Err(e) => trim(self.command@).len() == 0 && e@ == "empty command"@,
            },
    {
        let v = chars_of(self.command.as_str());
        let t = trim_chars(v.as_slice());
        if t.len() == 0 {
            let mut m: Vec<char> = Vec::new();
            push_str(&mut m, "empty command");
            Err(string_of(m.as_slice()))
        } else {
            Ok(())
        }
    }
}

/// The request line written to a detector: the JSON payload and a newline.
pub fn frame_request(payload: &str) -> (r: String)
    ensures
        r@ == payload@.push('\n'),
{
    let mut m: Vec<char> = Vec::new();
    push_str(&mut m, payload);
    m.push('\n');
    string_of(m.as_slice())
}

/// What a detector run yields: the anomalies of its reply where the program
/// exited successfully and its stdout parsed, and none otherwise, so that a
/// misbehaving detector never stops detection for other sources.
pub fn run_outcome<T>(exited_ok: bool, reply: Option<Vec<T>>) -> (r: Vec<T>)
    ensures
        r@ == match reply {
            Some(v) => if exited_ok {
                v@
            } else {
                seq![]
            },
            None => seq![],
        },
{
    match reply {
        Some(v) => if exited_ok {
            v
        } else {
            Vec::new()
        },
        None => Vec::new(),
    }
}

} // verus!
