use br_core::config_inspector::{
    config_format, format_for_extension, inspect_file, inspect_parsed, key_count, ConfigEntry, ConfigFormat,
    ConfigValue,
};

fn text(s: &str) -> ConfigValue {
    ConfigValue::Text(s.to_string())
}

fn entry(k: &str, v: ConfigValue) -> ConfigEntry {
    ConfigEntry { key: Some(k.to_string()), value: v }
}

fn map(es: Vec<ConfigEntry>) -> ConfigValue {
    ConfigValue::Mapping(es)
}

#[test]
fn key_count_counts_every_mapping_entry_at_any_depth() {
    let doc = map(vec![
        entry("a", ConfigValue::Number(Some(1))),
        entry("b", map(vec![entry("c", ConfigValue::Null), entry("d", text("x"))])),
        entry("e", ConfigValue::Sequence(vec![map(vec![entry("f", ConfigValue::Other)]), text("y")])),
    ]);
    assert_eq!(key_count(&doc), 6);
    assert_eq!(key_count(&text("plain")), 0);
    assert_eq!(key_count(&ConfigValue::Sequence(vec![])), 0);
}

#[test]
fn json_empty_sensitive_keys_are_warned_with_dotted_paths() {
    let doc = map(vec![
        entry("db", map(vec![entry("password", text("")), entry("user", text(""))])),
        entry("apiKey", ConfigValue::Null),
        entry("token", text("abc")),
    ]);
    let r = inspect_parsed("/etc/app.json", ConfigFormat::Json, Ok(doc));
    assert!(r.parsed_ok);
    assert_eq!(r.format, "json");
    assert_eq!(r.file_path, "/etc/app.json");
    assert_eq!(r.key_count, 5);
    assert_eq!(r.issues.len(), 2);
    assert_eq!(r.issues[0].severity, "warning");
    assert_eq!(r.issues[0].key, "db.password");
    assert_eq!(r.issues[0].message, "Sensitive key 'db.password' is empty");
    assert_eq!(r.issues[0].suggestion, None);
    assert_eq!(r.issues[1].key, "apiKey");
}

#[test]
fn toml_ignores_null_and_api_keys() {
    let doc = map(vec![
        entry("secret", text("")),
        entry("apiKey", text("")),
        entry("token", ConfigValue::Null),
    ]);
    let r = inspect_parsed("c.toml", ConfigFormat::Toml, Ok(doc));
    assert_eq!(r.issues.len(), 1);
    assert_eq!(r.issues[0].key, "secret");
    assert_eq!(r.format, "toml");
}

#[test]
fn yaml_flags_empty_hosts_and_privileged_ports() {
    let doc = map(vec![
        entry("server", map(vec![entry("host", ConfigValue::Null), entry("port", ConfigValue::Number(Some(80)))])),
        entry("port", ConfigValue::Number(Some(8080))),
        ConfigEntry { key: None, value: text("") },
    ]);
    let r = inspect_parsed("c.yaml", ConfigFormat::Yaml, Ok(doc));
    assert_eq!(r.issues.len(), 2);
    assert_eq!(r.issues[0].key, "server.host");
    assert_eq!(r.issues[0].message, "Key 'server.host' appears to be empty or null");
    assert_eq!(r.issues[0].suggestion.as_deref(), Some("Ensure this value is set correctly"));
    assert_eq!(r.issues[1].severity, "info");
    assert_eq!(r.issues[1].key, "server.port");
    assert_eq!(r.issues[1].message, "Port 80 is a privileged port (< 1024)");
    assert_eq!(r.issues[1].suggestion.as_deref(), Some("May require root/admin permissions"));
    // A key that is not a string goes by "<key>", which is not a watched name.
    let odd = inspect_parsed("c.yaml", ConfigFormat::Yaml, Ok(map(vec![ConfigEntry { key: None, value: map(vec![entry("url", text(""))]) }])));
    assert_eq!(odd.issues.len(), 1);
    assert_eq!(odd.issues[0].key, "<key>.url");
}

#[test]
fn a_parse_error_is_one_root_issue() {
    let r = inspect_parsed("x.json", ConfigFormat::Json, Err("EOF while parsing".to_string()));
    assert!(!r.parsed_ok);
    assert_eq!(r.key_count, 0);
    assert_eq!(r.issues.len(), 1);
    assert_eq!(r.issues[0].severity, "error");
    assert_eq!(r.issues[0].key, "<root>");
    assert_eq!(r.issues[0].message, "JSON parse error: EOF while parsing");
    assert_eq!(
        r.issues[0].suggestion.as_deref(),
        Some("Check for missing commas, brackets, or invalid JSON syntax")
    );
    let y = inspect_parsed("x.yml", ConfigFormat::Yaml, Err("bad".to_string()));
    assert_eq!(y.issues[0].message, "YAML parse error: bad");
    let t = inspect_parsed("x.toml", ConfigFormat::Toml, Err("bad".to_string()));
    assert_eq!(t.issues[0].suggestion.as_deref(), Some("Check TOML syntax"));
}

#[test]
fn formats_come_from_the_lowercased_extension() {
    assert!(matches!(config_format("/a/b.YML"), Ok(ConfigFormat::Yaml)));
    assert!(matches!(config_format("b.yaml"), Ok(ConfigFormat::Yaml)));
    assert!(matches!(config_format("b.Json"), Ok(ConfigFormat::Json)));
    assert!(matches!(config_format("b.toml"), Ok(ConfigFormat::Toml)));
    assert_eq!(config_format("b.ini").err().unwrap(), "Unsupported config format: ini");
    assert_eq!(config_format("Makefile").err().unwrap(), "Unsupported config format: ");
    assert!(format_for_extension("YAML").is_err());
}

#[test]
fn inspect_file_refuses_unknown_formats_and_inspects_known_ones() {
    let e = inspect_file("notes.txt", Ok(ConfigValue::Null)).err().unwrap();
    assert_eq!(e, "Unsupported config format: txt");
    let r = inspect_file("app.toml", Ok(map(vec![entry("password", text(""))]))).unwrap();
    assert_eq!(r.format, "toml");
    assert_eq!(r.key_count, 1);
    assert_eq!(r.issues.len(), 1);
}
