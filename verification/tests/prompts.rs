use br_core::ai::prompts::{build_analysis_prompt, error_log_sample, PROMPT_TASK};
use br_core::models::anomaly::Severity;
use br_core::models::incident::Incident;
use br_core::models::log_entry::{LogEntry, LogLevel};

fn entry(level: LogLevel, message: &str, stack: Option<Vec<&str>>) -> LogEntry {
    let mut e = LogEntry::new("app", "/var/log/app.log", 0, level, message.to_string(), "plaintext");
    e.stacktrace = stack.map(|v| v.into_iter().map(|s| s.to_string()).collect());
    e
}

#[test]
fn error_samples_show_level_message_and_stacktrace() {
    let es = vec![
        entry(LogLevel::Error, "boom", Some(vec!["at a", "at b"])),
        entry(LogLevel::Fatal, "dead", None),
    ];
    assert_eq!(error_log_sample(&es), "[Error] boom\n  Stacktrace:\n    at a\n    at b\n[Fatal] dead");
    assert_eq!(error_log_sample(&vec![]), "");
}

#[test]
fn error_samples_show_at_most_ten_entries() {
    let es: Vec<LogEntry> = (0..12).map(|i| entry(LogLevel::Warn, &format!("m{i}"), None)).collect();
    let sample = error_log_sample(&es);
    assert_eq!(sample.lines().count(), 10);
    assert!(sample.ends_with("[Warn] m9"));
}

#[test]
fn the_prompt_describes_the_incident() {
    let mut incident =
        Incident::new_at("i1".to_string(), "DB down".to_string(), Severity::High, vec!["db".to_string()], 1704067200000);
    incident.add_anomaly_at("a1", 1704067200000);
    let errors = vec![entry(LogLevel::Error, "refused", None)];
    let p = build_analysis_prompt(&incident, "- Error Spike (severity: High, value: 9.00, baseline: 1.00, factor: 9.0x)", &errors, None)
        .unwrap();
    assert!(p.starts_with(
        "You are an expert software engineer and DevOps specialist performing root-cause analysis.\n\n## Incident: DB down\n- Status: Open\n- Severity: High\n- First seen: 2024-01-01 00:00:00 UTC\n- Event count: 2\n\n## Detected Anomalies\n- Error Spike"
    ));
    assert!(p.contains("\n\n## Recent Error Logs (sample)\n[Error] refused\n\n## System Context\nN/A\n\n## Task\n"));
    assert!(p.ends_with(PROMPT_TASK));
    assert!(p.contains("`code_snippet` (optional: `{language, filename, content}`)"));
    let with_ctx = build_analysis_prompt(&incident, "", &vec![], Some("k8s 1.29")).unwrap();
    assert!(with_ctx.contains("## System Context\nk8s 1.29\n\n## Task"));
}

#[test]
fn an_unprintable_first_sighting_gives_no_prompt() {
    let incident = Incident::new_at("i".to_string(), "t".to_string(), Severity::Low, vec![], i64::MAX);
    assert!(build_analysis_prompt(&incident, "", &vec![], None).is_none());
}
