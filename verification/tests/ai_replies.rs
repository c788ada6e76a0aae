use br_core::ai::anthropic::{parse_config_conflicts, parse_fix_suggestions, reply_text, total_tokens, ContentBlock};
use br_core::ai::ollama::{contributing_factors, summary_and_root_cause};
use br_core::ai::{get_member, get_text};
use br_core::config_inspector::{ConfigEntry, ConfigValue};

fn text(s: &str) -> ConfigValue {
    ConfigValue::Text(s.to_string())
}

fn obj(es: Vec<(&str, ConfigValue)>) -> ConfigValue {
    ConfigValue::Mapping(es.into_iter().map(|(k, v)| ConfigEntry { key: Some(k.to_string()), value: v }).collect())
}

#[test]
fn the_answer_is_the_first_text_block() {
    let blocks = vec![
        ContentBlock { kind: "thinking".to_string(), text: Some("hmm".to_string()) },
        ContentBlock { kind: "text".to_string(), text: Some("{\"summary\":\"s\"}".to_string()) },
        ContentBlock { kind: "text".to_string(), text: Some("later".to_string()) },
    ];
    assert_eq!(reply_text(&blocks), "{\"summary\":\"s\"}");
    let empty_first = vec![
        ContentBlock { kind: "text".to_string(), text: None },
        ContentBlock { kind: "text".to_string(), text: Some("later".to_string()) },
    ];
    assert_eq!(reply_text(&empty_first), "");
    assert_eq!(reply_text(&vec![]), "");
}

#[test]
fn tokens_add_input_and_output() {
    assert_eq!(total_tokens(Some((120, 30))), Some(150));
    assert_eq!(total_tokens(None), None);
}

#[test]
fn fix_suggestions_fill_in_their_defaults() {
    let raw = vec![
        obj(vec![
            ("priority", ConfigValue::Number(Some(1))),
            ("title", text("Raise the pool size")),
            ("description", text("The pool is exhausted.")),
            ("command", text("kubectl scale")),
            ("code_snippet", obj(vec![("filename", text("db.yaml")), ("content", text("pool: 20"))])),
        ]),
        obj(vec![("priority", ConfigValue::Number(Some(300))), ("title", ConfigValue::Number(Some(3)))]),
        text("not an object"),
    ];
    let fixes = parse_fix_suggestions(&raw);
    assert_eq!(fixes.len(), 3);
    assert_eq!(fixes[0].priority, 1);
    assert_eq!(fixes[0].title, "Raise the pool size");
    assert_eq!(fixes[0].command.as_deref(), Some("kubectl scale"));
    let snippet = fixes[0].code_snippet.as_ref().unwrap();
    assert_eq!(snippet.language, "text");
    assert_eq!(snippet.filename.as_deref(), Some("db.yaml"));
    assert_eq!(snippet.content, "pool: 20");
    assert_eq!(snippet.diff, None);
    // 300 does not fit a byte: the cast keeps its low eight bits.
    assert_eq!(fixes[1].priority, 44);
    assert_eq!(fixes[1].title, "Fix");
    assert_eq!(fixes[1].description, "");
    assert!(fixes[1].code_snippet.is_none());
    assert_eq!(fixes[2].priority, 5);
}

#[test]
fn a_null_code_snippet_still_gives_a_snippet() {
    let fixes = parse_fix_suggestions(&vec![obj(vec![("code_snippet", ConfigValue::Null)])]);
    let snippet = fixes[0].code_snippet.as_ref().unwrap();
    assert_eq!(snippet.language, "text");
    assert_eq!(snippet.content, "");
}

#[test]
fn config_conflicts_read_missing_members_as_empty() {
    let raw = vec![obj(vec![
        ("file_path", text("/etc/app.yaml")),
        ("key", text("db.pool")),
        ("suggested_value", text("20")),
        ("reason", text("exhausted")),
    ])];
    let c = parse_config_conflicts(&raw);
    assert_eq!(c.len(), 1);
    assert_eq!(c[0].file_path, "/etc/app.yaml");
    assert_eq!(c[0].key, "db.pool");
    assert_eq!(c[0].current_value, "");
    assert_eq!(c[0].suggested_value, "20");
    assert_eq!(c[0].reason, "exhausted");
}

#[test]
fn ollama_replies_give_summary_cause_and_text_factors() {
    let raw = obj(vec![
        ("summary", text("It broke.")),
        ("contributing_factors", ConfigValue::Sequence(vec![text("load"), ConfigValue::Number(Some(1)), text("config")])),
    ]);
    let (summary, cause) = summary_and_root_cause(&raw);
    assert_eq!(summary, "It broke.");
    assert_eq!(cause, "");
    assert_eq!(contributing_factors(&raw), vec!["load".to_string(), "config".to_string()]);
    assert!(contributing_factors(&text("x")).is_empty());
}

#[test]
fn members_are_found_by_key() {
    let v = obj(vec![("a", text("1")), ("b", ConfigValue::Null)]);
    assert!(get_member(&v, "b").is_some());
    assert!(get_member(&v, "c").is_none());
    assert_eq!(get_text(&v, "a").as_deref(), Some("1"));
    assert_eq!(get_text(&v, "b"), None);
    assert!(get_member(&text("a"), "a").is_none());
}
