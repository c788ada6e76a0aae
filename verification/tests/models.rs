use br_core::models::anomaly::{AnomalyKind, Severity};
use br_core::models::incident::{Incident, IncidentStatus};
use br_core::models::log_entry::{LogEntry, LogLevel, WatchSource, WatchSourceKind};
use br_core::plugin::registry::PluginRegistry;

#[test]
fn kinds_have_readable_labels() {
    assert_eq!(AnomalyKind::ErrorSpike.label(), "Error Spike");
    assert_eq!(AnomalyKind::DatabaseTimeout.label(), "Database Timeout");
    assert_eq!(AnomalyKind::Custom("disk full".to_string()).label(), "disk full");
}

#[test]
fn severities_are_ordered() {
    assert!(Severity::Low < Severity::Critical);
    assert_eq!(Severity::High.rank(), 2);
}

#[test]
fn incidents_count_anomalies_once_and_keep_notes() {
    let mut i = Incident::new_at("i1".to_string(), "t".to_string(), Severity::High, vec!["app".to_string()], 10);
    assert_eq!(i.status, IncidentStatus::Open);
    assert_eq!(i.event_count, 1);
    assert_eq!(i.first_seen, 10);
    i.add_anomaly_at("a1", 20);
    i.add_anomaly_at("a1", 30);
    i.add_anomaly_at("a2", 40);
    assert_eq!(i.anomaly_ids, vec!["a1".to_string(), "a2".to_string()]);
    assert_eq!(i.event_count, 4);
    assert_eq!(i.last_seen, 40);
    assert!(!i.should_trigger_ai());
    i.add_anomaly_at("a3", 50);
    assert!(i.should_trigger_ai());
    i.add_note_at("n1".to_string(), 60, "looked at it".to_string());
    assert_eq!(i.notes.len(), 1);
    assert_eq!(i.notes[0].text, "looked at it");
    assert_eq!(IncidentStatus::default(), IncidentStatus::Open);
}

#[test]
fn new_sources_and_entries_carry_what_they_were_given() {
    let s = WatchSource::new("demo", WatchSourceKind::FilePath { path: "/x".to_string() }, "auto");
    assert!(s.enabled);
    assert_eq!(s.label, "demo");
    assert_eq!(s.parser_id, "auto");
    assert!(!s.id.is_empty());
    let e = LogEntry::new("src", "/x", 5, LogLevel::Warn, "m".to_string(), "plaintext");
    assert_eq!(e.timestamp, 5);
    assert_eq!(e.message, "m");
    assert!(e.raw_lines.is_empty());
    assert!(e.fields.is_empty());
}

#[test]
fn the_registry_lists_every_builtin_parser() {
    let registry = PluginRegistry::new();
    let meta = registry.list_metadata();
    let ids: Vec<&str> = meta.iter().map(|m| m.id.as_str()).collect();
    assert_eq!(ids, vec!["nginx", "docker", "json", "plaintext"]);
    assert_eq!(meta[3].file_patterns, vec!["*.log".to_string(), "*.txt".to_string()]);
}
