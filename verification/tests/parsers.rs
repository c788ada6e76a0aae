use br_core::collector::parser::{JsonParser, PlaintextParser};
use br_core::models::log_entry::LogLevel;
use br_core::plugin::builtin::docker::DockerParser;
use br_core::plugin::builtin::nginx::NginxParser;

#[test]
fn docker_inner_levels_come_from_keywords() {
    assert_eq!(DockerParser::parse_inner_level("CRITICAL: disk gone"), LogLevel::Fatal);
    assert_eq!(DockerParser::parse_inner_level("a fatal thing"), LogLevel::Fatal);
    assert_eq!(DockerParser::parse_inner_level("Error while reading"), LogLevel::Error);
    assert_eq!(DockerParser::parse_inner_level("[err] oops"), LogLevel::Error);
    assert_eq!(DockerParser::parse_inner_level("err: oops"), LogLevel::Error);
    assert_eq!(DockerParser::parse_inner_level("WARNING low memory"), LogLevel::Warn);
    assert_eq!(DockerParser::parse_inner_level("debug mode on"), LogLevel::Debug);
    assert_eq!(DockerParser::parse_inner_level("started"), LogLevel::Info);
}

#[test]
fn docker_lines_unwrap_the_json_envelope() {
    let mut p = DockerParser::new("src-1", "/var/lib/docker/containers/x-json.log");
    let line = "{\"log\":\"disk error\\n\",\"stream\":\"stderr\"}";
    let e = p.push_line(line).unwrap();
    assert_eq!(e.message, "disk error");
    assert_eq!(e.level, LogLevel::Error);
    assert_eq!(e.raw_lines, vec![line.to_string()]);
    assert_eq!(e.parser_id, "docker");
    assert_eq!(e.source_id, "src-1");
    let plain = p.push_line("warn: not json").unwrap();
    assert_eq!(plain.message, "warn: not json");
    assert_eq!(plain.level, LogLevel::Warn);
    assert!(p.push_line("   ").is_none());
    assert!(p.flush().is_none());
}

#[test]
fn nginx_status_codes_set_the_level() {
    let mut p = NginxParser::new("web", "/var/log/nginx/access.log");
    let e = p
        .push_line("127.0.0.1 - - [10/Oct/2000:13:55:36 -0700] \"GET /a HTTP/1.0\" 503 2326")
        .unwrap();
    assert_eq!(e.level, LogLevel::Error);
    assert_eq!(e.message, "[503] GET /a HTTP/1.0");
    let w = p
        .push_line("10.0.0.2 - bob [10/Oct/2000:13:55:36 -0700] \"POST /login HTTP/1.1\" 404 -")
        .unwrap();
    assert_eq!(w.level, LogLevel::Warn);
    assert_eq!(w.message, "[404] POST /login HTTP/1.1");
    let other = p.push_line("something else").unwrap();
    assert_eq!(other.level, LogLevel::Info);
    assert_eq!(other.message, "something else");
    assert!(p.can_handle("/srv/ERROR.LOG"));
    assert!(!p.can_handle("/srv/app.log"));
}

#[test]
fn json_lines_give_level_message_time_and_other_fields() {
    let mut p = JsonParser::new("api", "/srv/app/events.jsonl");
    let e = p
        .push_line("{\"level\":\"warn\",\"msg\":\"slow\",\"timestamp\":\"2024-01-01T00:00:00Z\",\"user\":\"x\",\"latency_ms\":12}")
        .unwrap();
    assert_eq!(e.level, LogLevel::Warn);
    assert_eq!(e.message, "slow");
    assert_eq!(e.timestamp, 1704067200000);
    let keys: Vec<&str> = e.fields.iter().map(|m| m.key.as_str()).collect();
    assert!(keys.contains(&"user"));
    assert!(keys.contains(&"latency_ms"));
    assert!(!keys.contains(&"msg"));
    assert!(!keys.contains(&"level"));
    assert!(p.push_line("not json").is_none());
    assert!(p.push_line("").is_none());
    let d = p.push_line("{\"severity\":\"ERROR\"}").unwrap();
    assert_eq!(d.level, LogLevel::Error);
    assert_eq!(d.message, "");
}

#[test]
fn json_fields_keep_the_values_of_the_line() {
    let mut p = JsonParser::new("s1", "/srv/app/events.jsonl");
    let line = "{\"level\":\"error\",\"msg\":\"db down\",\"latency_ms\":12,\"user\":{\"id\":\"u-1\"},\"tag\":\"x\"}";
    let e = p.push_line(line).unwrap();
    assert_eq!(e.level, LogLevel::Error);
    assert_eq!(e.message, "db down");
    let fields: Vec<(&str, &str, Option<&str>)> =
        e.fields.iter().map(|m| (m.key.as_str(), m.json.as_str(), m.text.as_deref())).collect();
    assert_eq!(
        fields,
        vec![("latency_ms", "12", None), ("tag", "\"x\"", Some("x")), ("user", "{\"id\":\"u-1\"}", None)]
    );
    assert_eq!(e.raw_lines, vec![line.to_string()]);
    assert_eq!(e.source_id, "s1");
    assert_eq!(e.source_path, "/srv/app/events.jsonl");
}

#[test]
fn plaintext_merges_stacktraces_into_the_entry_before() {
    let mut p = PlaintextParser::new("app", "/var/log/app.log");
    assert!(p.push_line("2024-01-01 12:00:00 ERROR boom").is_none());
    assert!(p.push_line("\tat com.example.Foo.bar(Foo.java:42)").is_none());
    let first = p.push_line("2024-01-01 12:00:01 INFO ok").unwrap();
    assert_eq!(first.level, LogLevel::Error);
    assert_eq!(first.message, "boom");
    assert_eq!(first.timestamp, 1704110400000);
    assert_eq!(first.stacktrace, Some(vec!["\tat com.example.Foo.bar(Foo.java:42)".to_string()]));
    assert_eq!(first.raw_lines.len(), 2);
    let second = p.flush().unwrap();
    assert_eq!(second.message, "ok");
    assert_eq!(second.level, LogLevel::Info);
    assert_eq!(second.stacktrace, None);
    assert!(p.flush().is_none());
}

#[test]
fn plaintext_reads_levels_and_timestamps() {
    let p = PlaintextParser::new("app", "/var/log/app.log");
    assert_eq!(p.parse_level("[warning] disk"), LogLevel::Warn);
    assert_eq!(p.parse_level("nothing here"), LogLevel::Info);
    assert_eq!(p.parse_timestamp("2024-01-01T00:00:00Z rest"), Some(1704067200000));
    assert_eq!(p.parse_timestamp("no time"), None);
}

#[test]
fn log_levels_read_their_names_without_case() {
    assert_eq!(LogLevel::from_str("WARNING"), LogLevel::Warn);
    assert_eq!(LogLevel::from_str("crit"), LogLevel::Fatal);
    assert_eq!(LogLevel::from_str("Information"), LogLevel::Info);
    assert_eq!(LogLevel::from_str("verbose"), LogLevel::Unknown);
    assert_eq!(LogLevel::Fatal.severity_score(), 5);
    assert_eq!(LogLevel::Unknown.severity_score(), 2);
}
