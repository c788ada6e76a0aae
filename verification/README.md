# br_core

The core of BugRadar, a log diagnostics tool: it parses log lines from files
and containers, keeps rolling windows of what each source reports, groups
anomalies into incidents, inspects configuration files, reads container
statuses and AI replies. The library is written in Verus. Its functions
carry contracts that Verus proves, except the trusted wrappers around outside
calls (marked `#[verifier::external_body]`, in `text.rs`, `pattern.rs`,
`clock.rs`, `json_line.rs`, `config_inspector/mod.rs` and
`config_inspector/document.rs`): Verus takes their contracts on trust, and
their doc comments say what each one claims of the call it makes.

Layout:

- `src/models`: log entries and levels, watch sources, anomaly kinds and
  severities, rolling windows, incidents, report pieces.
- `src/collector`: the log parsers (JSON, plaintext with stacktrace merging),
  the choice of parser for a source, file offsets and the feeding of text.
- `src/plugin`: the parser enum, the nginx and Docker parsers, the registry.
- `src/anomaly`: per-source windows, the incident grouper, the settings of
  custom detector programs.
- `src/config_inspector`: parsing YAML/JSON/TOML text into a tree, and the
  key counts and issues of a tree.
- `src/sysmon`: container statuses and crash loops, memory units.
- `src/ai`: the analysis prompt and what is read out of AI replies.
- `src/text.rs`, `src/pattern.rs`, `src/clock.rs`, `src/json_line.rs`: text
  helpers, and the calls into `regex`, `chrono`, `uuid` and `serde_json`.
- `app/`: the `bugradar` command line and everything that does I/O: file
  tails, Docker, sysinfo, HTTP to the AI backends, detector processes, and
  the floating-point detectors and metrics.
- `tests/`: tests of the library's public functions.
