use br_core::collector::{end_stream, feed_text, file_parser_id, parser_for_source, stream_line, FileOffsets};
use br_core::models::log_entry::{LogLevel, WatchSource, WatchSourceKind};
use br_core::plugin::registry::PluginRegistry;

#[test]
fn auto_and_empty_parser_ids_mean_plaintext() {
    assert_eq!(file_parser_id("auto"), "plaintext");
    assert_eq!(file_parser_id(""), "plaintext");
    assert_eq!(file_parser_id("json"), "json");
}

#[test]
fn sources_get_their_parser_or_plaintext() {
    let registry = PluginRegistry::new();
    let file = WatchSource::new("demo", WatchSourceKind::FilePath { path: "/tmp/app.log".to_string() }, "auto");
    let p = parser_for_source(&registry, &file).unwrap();
    assert_eq!(p.id(), "plaintext");
    let unknown = WatchSource::new("demo", WatchSourceKind::FilePath { path: "/tmp/a.log".to_string() }, "logfmt");
    assert_eq!(parser_for_source(&registry, &unknown).unwrap().id(), "plaintext");
    let json = WatchSource::new("demo", WatchSourceKind::FilePath { path: "/tmp/a.log".to_string() }, "json");
    assert_eq!(parser_for_source(&registry, &json).unwrap().id(), "json");
    let container = WatchSource::new(
        "api",
        WatchSourceKind::DockerContainer { container_id: "c1".to_string(), container_name: "api".to_string() },
        "auto",
    );
    assert_eq!(parser_for_source(&registry, &container).unwrap().id(), "docker");
    let all = WatchSource::new("all", WatchSourceKind::DockerAllContainers, "auto");
    assert!(parser_for_source(&registry, &all).is_none());
}

#[test]
fn a_written_line_is_delivered_as_an_entry() {
    let registry = PluginRegistry::new();
    let mut parser = registry.create("plaintext", "src", "/tmp/app.log").unwrap();
    let entries = feed_text(&mut parser, "2026-09-26T17:00:00Z ERROR database connection refused\n");
    assert_eq!(entries.len(), 1);
    assert_eq!(entries[0].message, "database connection refused");
    assert_eq!(entries[0].level, LogLevel::Error);
    assert_eq!(entries[0].source_id, "src");
}

#[test]
fn a_chunk_is_split_into_lines_and_flushed() {
    let registry = PluginRegistry::new();
    let mut parser = registry.create("plaintext", "src", "/tmp/app.log").unwrap();
    let text = "2024-01-01 00:00:00 INFO one\r\n2024-01-01 00:00:01 WARN two\n  at x.y(Z.java:3)\n";
    let entries = feed_text(&mut parser, text);
    assert_eq!(entries.len(), 2);
    assert_eq!(entries[0].message, "one");
    assert_eq!(entries[1].message, "two");
    assert_eq!(entries[1].stacktrace, Some(vec!["  at x.y(Z.java:3)".to_string()]));
    assert!(feed_text(&mut parser, "").is_empty());
}

#[test]
fn streamed_lines_are_labelled_with_their_source() {
    let registry = PluginRegistry::new();
    let mut parser = registry.create("docker", "old", "old-path").unwrap();
    let e = stream_line(&mut parser, "error: boom\n\n", "src-9", "api").unwrap();
    assert_eq!(e.message, "error: boom");
    assert_eq!(e.source_id, "src-9");
    assert_eq!(e.source_path, "api");
    assert!(stream_line(&mut parser, "\n", "src-9", "api").is_none());
    assert!(end_stream(&mut parser, "src-9").is_none());

    let mut plain = registry.create("plaintext", "old", "old-path").unwrap();
    assert!(stream_line(&mut plain, "2024-01-01 00:00:00 INFO held", "src-9", "api").is_none());
    let last = end_stream(&mut plain, "src-9").unwrap();
    assert_eq!(last.message, "held");
    assert_eq!(last.source_id, "src-9");
    assert_eq!(last.source_path, "old-path");
}

#[test]
fn reading_resumes_where_it_stopped_and_restarts_after_rotation() {
    let mut offsets = FileOffsets::new();
    assert_eq!(offsets.begin_read("/var/log/a.log", 100), 0);
    offsets.advance("/var/log/a.log", 100);
    assert_eq!(offsets.begin_read("/var/log/a.log", 150), 100);
    offsets.advance("/var/log/a.log", 50);
    assert_eq!(offsets.begin_read("/var/log/b.log", 10), 0);
    assert_eq!(offsets.begin_read("/var/log/a.log", 150), 150);
    // The file shrank: it was rotated, reading starts over.
    assert_eq!(offsets.begin_read("/var/log/a.log", 20), 0);
    assert_eq!(offsets.begin_read("/var/log/a.log", 20), 0);
}
