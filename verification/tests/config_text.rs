use br_core::ai::anthropic::report_lists;
use br_core::ai::ollama::read_reply;
use br_core::config_inspector::document::parse_config;
use br_core::config_inspector::{inspect_text, key_count, ConfigFormat, ConfigValue};

#[test]
fn json_text_parses_into_a_tree_in_key_order() {
    let v = parse_config(ConfigFormat::Json, "{\"b\":[1,\"x\",null,true],\"a\":{\"c\":2.5}}").unwrap();
    match &v {
        ConfigValue::Mapping(es) => {
            assert_eq!(es.len(), 2);
            assert_eq!(es[0].key.as_deref(), Some("a"));
            assert!(matches!(&es[0].value, ConfigValue::Mapping(inner) if inner.len() == 1
                && matches!(inner[0].value, ConfigValue::Number(None))));
            match &es[1].value {
                ConfigValue::Sequence(items) => {
                    assert!(matches!(items[0], ConfigValue::Number(Some(1))));
                    assert!(matches!(&items[1], ConfigValue::Text(s) if s == "x"));
                    assert!(matches!(items[2], ConfigValue::Null));
                    assert!(matches!(items[3], ConfigValue::Other));
                }
                _ => panic!("a sequence"),
            }
        }
        _ => panic!("a mapping"),
    }
    assert_eq!(key_count(&v), 3);
    assert!(parse_config(ConfigFormat::Json, "{\"a\":").is_err());
}

#[test]
fn yaml_and_toml_texts_parse_too() {
    let y = parse_config(ConfigFormat::Yaml, "server:\n  host: ~\n  port: !!int 80\n1: one\n").unwrap();
    match &y {
        ConfigValue::Mapping(es) => {
            assert_eq!(es[0].key.as_deref(), Some("server"));
            assert_eq!(es[1].key, None);
            match &es[0].value {
                ConfigValue::Mapping(inner) => {
                    assert!(matches!(inner[0].value, ConfigValue::Null));
                    assert!(matches!(inner[1].value, ConfigValue::Number(Some(80))));
                }
                _ => panic!("a mapping"),
            }
        }
        _ => panic!("a mapping"),
    }
    let t = parse_config(ConfigFormat::Toml, "[db]\npassword = \"\"\nport = -1\n").unwrap();
    match &t {
        ConfigValue::Mapping(es) => match &es[0].value {
            ConfigValue::Mapping(inner) => {
                assert_eq!(inner[0].key.as_deref(), Some("password"));
                assert!(matches!(inner[1].value, ConfigValue::Number(None)));
            }
            _ => panic!("a table"),
        },
        _ => panic!("a table"),
    }
    assert!(parse_config(ConfigFormat::Toml, "= x").is_err());
}

#[test]
fn a_config_text_is_inspected_in_the_format_of_its_path() {
    let r = inspect_text("/etc/app.yaml", "server:\n  host: \"\"\n  port: 22\n").unwrap().unwrap();
    assert!(r.parsed_ok);
    assert_eq!(r.format, "yaml");
    assert_eq!(r.key_count, 3);
    assert_eq!(r.issues.len(), 2);
    assert_eq!(r.issues[0].key, "server.host");
    assert_eq!(r.issues[1].message, "Port 22 is a privileged port (< 1024)");
    let j = inspect_text("c.json", "{\"password\": null}").unwrap().unwrap();
    assert_eq!(j.issues.len(), 1);
    assert_eq!(j.issues[0].message, "Sensitive key 'password' is empty");
    let bad = inspect_text("c.json", "{").unwrap().unwrap();
    assert!(!bad.parsed_ok);
    assert!(bad.issues[0].message.starts_with("JSON parse error: "));
    let unknown = inspect_text("c.ini", "a=1").unwrap();
    assert_eq!(unknown.err().unwrap(), "Unsupported config format: ini");
}

#[test]
fn ai_replies_are_read_from_their_text() {
    let (summary, cause, factors) =
        read_reply("{\"summary\":\"It broke.\",\"contributing_factors\":[\"load\",3,\"config\"],\"confidence\":0.9}")
            .unwrap();
    assert_eq!(summary, "It broke.");
    assert_eq!(cause, "");
    assert_eq!(factors, vec!["load".to_string(), "config".to_string()]);
    assert!(read_reply("not json").is_err());
    let (fixes, conflicts) = report_lists(
        "{\"fix_suggestions\":[{\"priority\":2,\"title\":\"Raise pool\"}],\"config_conflicts\":null}",
    )
    .unwrap();
    assert_eq!(fixes.len(), 1);
    assert_eq!(fixes[0].priority, 2);
    assert_eq!(fixes[0].title, "Raise pool");
    assert!(conflicts.is_empty());
}
