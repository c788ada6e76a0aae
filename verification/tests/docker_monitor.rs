use br_core::sysmon::docker_monitor::{
    container_status, container_statuses, extract_restart_count, state_from_name, ContainerState, ContainerSummary,
};
use br_core::sysmon::metrics::megabytes;

fn summary(names: Option<Vec<&str>>, state: Option<&str>, status: Option<&str>) -> ContainerSummary {
    ContainerSummary {
        id: Some("abc123".to_string()),
        names: names.map(|v| v.into_iter().map(|s| s.to_string()).collect()),
        image: Some("nginx:latest".to_string()),
        state: state.map(|s| s.to_string()),
        status: status.map(|s| s.to_string()),
    }
}

#[test]
fn restart_count_is_read_from_the_status() {
    assert_eq!(extract_restart_count("Restarting (5) 3 seconds ago"), 5);
    assert_eq!(extract_restart_count("Exited (137) 2 hours ago"), 137);
    assert_eq!(extract_restart_count("Up 3 hours"), 0);
    assert_eq!(extract_restart_count("Restarting (99999999999) now"), 0);
    assert_eq!(extract_restart_count(""), 0);
}

#[test]
fn states_are_named_in_lower_case() {
    assert_eq!(state_from_name("running"), ContainerState::Running);
    assert_eq!(state_from_name("dead"), ContainerState::Dead);
    assert_eq!(state_from_name("created"), ContainerState::Unknown("created".to_string()));
}

#[test]
fn a_status_strips_slashes_and_lowercases_the_state() {
    let s = container_status(&summary(Some(vec!["/web", "/alias"]), Some("Running"), Some("Up 2 hours"))).unwrap();
    assert_eq!(s.id, "abc123");
    assert_eq!(s.name, "web");
    assert_eq!(s.image, "nginx:latest");
    assert_eq!(s.state, ContainerState::Running);
    assert_eq!(s.status, "Up 2 hours");
    assert_eq!(s.restart_count, 0);
    assert!(!s.is_crash_looping);
}

#[test]
fn crash_loops_are_restarting_or_restarted_three_times() {
    let restarting = container_status(&summary(Some(vec!["/a"]), Some("restarting"), Some("Restarting (1) 1 second ago"))).unwrap();
    assert!(restarting.is_crash_looping);
    assert_eq!(restarting.restart_count, 1);
    let exited = container_status(&summary(Some(vec!["/b"]), Some("exited"), Some("Exited (3) 5 seconds ago"))).unwrap();
    assert!(exited.is_crash_looping);
    let calm = container_status(&summary(Some(vec!["/c"]), Some("exited"), Some("Exited (2) 5 seconds ago"))).unwrap();
    assert!(!calm.is_crash_looping);
}

#[test]
fn a_missing_state_is_unknown_and_a_missing_name_drops_the_container() {
    let s = container_status(&summary(Some(vec!["x"]), None, None)).unwrap();
    assert_eq!(s.state, ContainerState::Unknown("unknown".to_string()));
    assert_eq!(s.status, "");
    assert!(container_status(&summary(None, Some("running"), None)).is_none());
    assert!(container_status(&summary(Some(vec![]), Some("running"), None)).is_none());
    let all = container_statuses(&vec![
        summary(Some(vec!["/one"]), Some("running"), None),
        summary(None, Some("running"), None),
        summary(Some(vec!["/two"]), Some("paused"), None),
    ]);
    assert_eq!(all.len(), 2);
    assert_eq!(all[0].name, "one");
    assert_eq!(all[1].name, "two");
    assert_eq!(all[1].state, ContainerState::Paused);
}

#[test]
fn memory_is_reported_in_whole_megabytes() {
    assert_eq!(megabytes(8 * 1024 * 1024 * 1024), 8192);
    assert_eq!(megabytes(1024 * 1024 - 1), 0);
    assert_eq!(megabytes(3 * 1024 * 1024 + 5), 3);
}
