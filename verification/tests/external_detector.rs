use br_core::anomaly::external_detector::{default_timeout_ms, frame_request, run_outcome, PluginDetectorConfig};

fn config(command: &str, timeout_ms: u64) -> PluginDetectorConfig {
    PluginDetectorConfig { id: "bad".to_string(), command: command.to_string(), args: vec![], timeout_ms }
}

#[test]
fn empty_command_is_rejected_without_reaching_process_spawn() {
    let config = config("  ", 1000);
    let result = config.check_command();
    assert!(result.is_err());
    assert_eq!(result.err().unwrap(), "empty command");
}

#[test]
fn a_real_command_passes_the_check() {
    assert!(config("/usr/bin/detector", 1000).check_command().is_ok());
    assert!(config("", 1000).check_command().is_err());
}

#[test]
fn timeouts_default_to_three_seconds_and_never_go_below_a_tenth() {
    assert_eq!(default_timeout_ms(), 3000);
    assert_eq!(config("x", 20).effective_timeout_ms(), 100);
    assert_eq!(config("x", 100).effective_timeout_ms(), 100);
    assert_eq!(config("x", 2000).effective_timeout_ms(), 2000);
}

#[test]
fn the_request_is_one_line() {
    assert_eq!(frame_request("{\"source_id\":\"app-1\"}"), "{\"source_id\":\"app-1\"}\n");
}

#[test]
fn a_failing_detector_yields_no_anomalies() {
    assert_eq!(run_outcome(true, Some(vec![1, 2])), vec![1, 2]);
    assert!(run_outcome(false, Some(vec![1, 2])).is_empty());
    assert!(run_outcome::<u8>(true, None).is_empty());
}
