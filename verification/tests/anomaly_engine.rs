use br_core::anomaly::incident_grouper::{AnomalySummary, IncidentGrouper};
use br_core::anomaly::rolling_window::SourceWindow;
use br_core::anomaly::{latency_field, SourceWindows};
use br_core::json_line::JsonMember;
use br_core::models::anomaly::{AnomalyKind, RollingWindow, Severity};
use br_core::models::incident::IncidentStatus;
use br_core::models::log_entry::LogLevel;

#[test]
fn each_source_gets_one_window_counting_its_entries() {
    let mut windows: SourceWindows<f64> = SourceWindows::new(300);
    windows.record_entry("app", LogLevel::Error, None, 1_000);
    windows.record_entry("app", LogLevel::Warn, None, 1_500);
    windows.record_entry("db", LogLevel::Info, Some(12.5), 2_000);
    windows.record_entry("app", LogLevel::Info, Some(40.0), 2_000);
    assert_eq!(windows.source_ids(), vec!["app".to_string(), "db".to_string()]);
    let app = windows.window("app").unwrap();
    assert_eq!(app.total_entries, 3);
    assert_eq!(app.error_count_last_tick, 1);
    assert_eq!(app.warn_window.len(), 1);
    assert_eq!(app.latency_window.len(), 1);
    assert!(windows.window("web").is_none());
    assert!(windows.can_record("app", LogLevel::Fatal));
}

#[test]
fn a_tick_moves_the_error_count_into_the_window_and_expires_old_items() {
    let mut windows: SourceWindows<f64> = SourceWindows::new(300);
    windows.record_entry("app", LogLevel::Error, None, 1_000);
    windows.record_entry("app", LogLevel::Fatal, None, 1_000);
    let ids = windows.flush_all(2_000);
    assert_eq!(ids, vec!["app".to_string()]);
    let app = windows.window("app").unwrap();
    assert_eq!(app.error_count_last_tick, 0);
    assert_eq!(app.error_window.items.iter().cloned().collect::<Vec<_>>(), vec![(2_000, 2)]);
    windows.flush_all(400_000);
    let app = windows.window("app").unwrap();
    assert_eq!(app.error_window.items.iter().cloned().collect::<Vec<_>>(), vec![(400_000, 0)]);
    assert_eq!(app.warn_window.len(), 0);
}

#[test]
fn rolling_windows_drop_what_is_older_than_their_span() {
    let mut w: RollingWindow<u32> = RollingWindow::new(1_000);
    w.push(0, 1);
    w.push(500, 2);
    w.push(1_200, 3);
    assert_eq!(w.iter().iter().map(|(_, v)| *v).collect::<Vec<_>>(), vec![2, 3]);
    w.evict(5_000);
    assert!(w.is_empty());
}

#[test]
fn recent_messages_keep_the_newest_fifty() {
    let mut w: SourceWindow<f64> = SourceWindow::new(300);
    for i in 0..60 {
        w.record_message(&format!("m{i}"));
    }
    assert_eq!(w.recent_messages.len(), 50);
    assert_eq!(w.recent_messages.front().unwrap(), "m10");
    assert_eq!(w.recent_messages.back().unwrap(), "m59");
}

#[test]
fn latency_comes_from_latency_ms_before_duration_ms() {
    let member = |k: &str, v: u64| JsonMember { key: k.to_string(), text: None, json: v.to_string() };
    let fields = vec![member("duration_ms", 5), member("latency_ms", 7)];
    let i = latency_field(&fields).unwrap();
    assert_eq!(fields[i].key, "latency_ms");
    let fields = vec![member("user", 1), member("duration_ms", 5)];
    assert_eq!(fields[latency_field(&fields).unwrap()].key, "duration_ms");
    assert!(latency_field(&Vec::new()).is_none());
}

fn anomaly(id: &str, source: &str, severity: Severity) -> AnomalySummary {
    AnomalySummary {
        id: id.to_string(),
        kind: AnomalyKind::ErrorSpike,
        source_id: source.to_string(),
        severity,
        deviation_text: "4.0".to_string(),
    }
}

#[test]
fn anomalies_of_a_source_within_the_window_share_an_incident() {
    let mut g = IncidentGrouper::new(120);
    let (first, new1) = g.process_anomaly_at(&anomaly("a1", "app-1", Severity::Medium), 1_000_000, "inc-1".to_string());
    assert!(new1);
    assert_eq!(first.id, "inc-1");
    assert_eq!(first.title, "Error Spike detected (4.0x baseline) on app-1");
    assert_eq!(first.status, IncidentStatus::Open);
    assert_eq!(first.anomaly_ids, vec!["a1".to_string()]);
    assert_eq!(first.event_count, 2);
    let (joined, new2) = g.process_anomaly_at(&anomaly("a2", "app-1", Severity::High), 1_060_000, "inc-2".to_string());
    assert!(!new2);
    assert_eq!(joined.id, "inc-1");
    assert_eq!(joined.severity, Severity::High);
    assert_eq!(joined.event_count, 3);
    assert_eq!(joined.anomaly_ids, vec!["a1".to_string(), "a2".to_string()]);
    let (later, new3) = g.process_anomaly_at(&anomaly("a3", "app-1", Severity::Low), 1_300_000, "inc-3".to_string());
    assert!(new3);
    assert_eq!(later.id, "inc-3");
    assert_eq!(g.get_open_incident_count(), 2);
}

#[test]
fn severity_never_drops_and_stale_incidents_are_resolved() {
    let mut g = IncidentGrouper::new(120);
    g.process_anomaly_at(&anomaly("a1", "db", Severity::Critical), 0, "i1".to_string());
    let (same, _) = g.process_anomaly_at(&anomaly("a2", "db", Severity::Low), 10_000, "i2".to_string());
    assert_eq!(same.severity, Severity::Critical);
    g.process_anomaly_at(&anomaly("a3", "web", Severity::Low), 5_000_000, "i3".to_string());
    let stale = g.resolve_stale_incidents_at(3600, 5_000_000);
    assert_eq!(stale.len(), 1);
    assert_eq!(stale[0].id, "i1");
    assert_eq!(g.get_open_incident_count(), 1);
}

#[test]
fn long_source_ids_are_cut_to_twenty_bytes_in_titles() {
    let a = anomaly("a", "a-very-long-source-identifier", Severity::Low);
    assert_eq!(IncidentGrouper::generate_title(&a), "Error Spike detected (4.0x baseline) on a-very-long-source-i");
}
