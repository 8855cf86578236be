use tau_coding_agent::json_text::{fenced_json_blocks, first_balanced_json_object};

fn chars(s: &str) -> Vec<char> {
    s.chars().collect()
}

fn text(v: Vec<char>) -> String {
    v.into_iter().collect()
}

#[test]
fn first_balanced_object_skips_braces_in_strings() {
    let got = first_balanced_json_object(&chars("noise {\"a\":\"}\",\"b\":{\"c\":1}} tail {\"d\":2}"));
    assert_eq!(got.map(text).as_deref(), Some("{\"a\":\"}\",\"b\":{\"c\":1}}"));
    assert_eq!(first_balanced_json_object(&chars("{ unclosed")), None);
    assert_eq!(first_balanced_json_object(&chars("no braces")), None);
    let escaped = first_balanced_json_object(&chars("{\"q\":\"\\\"}\"}"));
    assert_eq!(escaped.map(text).as_deref(), Some("{\"q\":\"\\\"}\"}"));
}

#[test]
fn fenced_blocks_join_their_lines() {
    let blocks = fenced_json_blocks(&chars("intro\n```json\n{\n\"a\": 1\n}\n```\nmid\n```\nsecond\n```\n```\nopen"));
    let texts: Vec<String> = blocks.into_iter().map(text).collect();
    assert_eq!(texts, vec!["{\n\"a\": 1\n}".to_string(), "second".to_string()]);
}
