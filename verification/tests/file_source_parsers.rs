use br_core::plugin::registry::PluginRegistry;

#[test]
fn every_parser_the_collector_names_is_registered() {
    let registry = PluginRegistry::new();
    for id in ["plaintext", "json", "nginx", "docker"] {
        assert!(registry.create(id, "s1", "/tmp/x.log").is_some(), "{id} missing");
    }
}

#[test]
fn detection_is_deterministic_and_falls_back_to_plaintext() {
    let registry = PluginRegistry::new();
    assert_eq!(registry.detect("/var/log/nginx/access.log"), "nginx");
    assert_eq!(registry.detect("/srv/app/events.jsonl"), "json");
    assert_eq!(registry.detect("/var/lib/docker/containers/abc-json.log"), "docker");
    assert_eq!(registry.detect("/Users/me/app.log"), "plaintext");
    assert_eq!(registry.detect("/Users/me/no-extension"), "plaintext");
}
