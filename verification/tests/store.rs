use score_messages::config::{default_config, Config, RuleName};
use score_messages::store::{
    apply_flat_overlay, config_in, flat_map_for_write, fraction_texts, fraction_texts_in,
    saved_config, update_document, updated_config_text, Fractions, PerRule,
};
use serde_json::Value;

fn no_fractions() -> PerRule<Option<i64>> {
    PerRule {
        punctuation: None,
        question: None,
        length: None,
        spam: None,
        no_spacing: None,
        wordless: None,
        emoji: None,
        frequency: None,
    }
}

fn none() -> Fractions {
    Fractions { flat: no_fractions(), nested: no_fractions() }
}

fn document(text: &str) -> Value {
    serde_json::from_str(text).unwrap()
}

fn object(text: &str) -> serde_json::Map<String, Value> {
    serde_json::from_str(text).unwrap()
}

const FLAT_DEFAULT: &str = r#"{
  "emoji_score": 1, "emoji_toggle": true,
  "frequency_interval_secs": 2, "frequency_score": -2, "frequency_toggle": true,
  "length_score": 1, "length_toggle": true,
  "no_spacing_score": -2, "no_spacing_toggle": true,
  "punctuation_score": 1, "punctuation_toggle": true,
  "question_score": 2, "question_toggle": true,
  "spam_score": -5, "spam_toggle": true,
  "wordless_score": -3, "wordless_toggle": true
}"#;

#[test]
fn overlay_reads_every_key() {
    let ms = object(
        r#"{
          "punctuation_toggle": false, "punctuation_score": 11,
          "question_toggle": "no", "question_score": "12",
          "length_toggle": 0, "length_score": -13,
          "spam_toggle": "OFF", "spam_score": true,
          "no_spacing_toggle": "0", "no_spacing_score": " 15 ",
          "wordless_toggle": "n", "wordless_score": -9223372036854775808,
          "emoji_toggle": "False", "emoji_score": "+17",
          "frequency_toggle": false, "frequency_score": "-18",
          "frequency_interval_secs": 18446744073709551615
        }"#,
    );
    let cfg = apply_flat_overlay(default_config(), &ms, &no_fractions());
    for name in [
        RuleName::Punctuation, RuleName::Question, RuleName::Length, RuleName::Spam,
        RuleName::NoSpacing, RuleName::Wordless, RuleName::Emoji, RuleName::Frequency,
    ] {
        assert!(!cfg.get(name).toggle);
    }
    assert_eq!(cfg.punctuation.score, 11);
    assert_eq!(cfg.question.score, 12);
    assert_eq!(cfg.length.score, -13);
    assert_eq!(cfg.spam.score, 1);
    assert_eq!(cfg.no_spacing.score, 15);
    assert_eq!(cfg.wordless.score, i64::MIN);
    assert_eq!(cfg.emoji.score, 17);
    assert_eq!(cfg.frequency.score, -18);
    assert_eq!(cfg.frequency.interval_secs, u64::MAX);
}

#[test]
fn overlay_ignores_what_it_cannot_read() {
    let ms = object(
        r#"{
          "punctuation_toggle": "1t", "punctuation_score": null,
          "question_toggle": [true], "question_score": {"score": 1},
          "length_toggle": 1.5, "length_score": 2.5,
          "spam_score": "five", "emoji_score": 9223372036854775808,
          "frequency_interval_secs": -4, "unknown": 1
        }"#,
    );
    assert_eq!(apply_flat_overlay(default_config(), &ms, &no_fractions()), default_config());
    assert_eq!(
        apply_flat_overlay(default_config(), &serde_json::Map::new(), &no_fractions()),
        default_config()
    );
}

#[test]
fn overlay_takes_fractions_for_texts_only() {
    let ms = object(r#"{"spam_score": "2.9", "emoji_score": 2.9, "length_score": "3"}"#);
    let fractions = PerRule {
        spam: Some(2),
        emoji: Some(2),
        length: Some(9),
        question: Some(9),
        ..no_fractions()
    };
    let cfg = apply_flat_overlay(default_config(), &ms, &fractions);
    assert_eq!(cfg.spam.score, 2);
    assert_eq!(cfg.emoji.score, 1);
    assert_eq!(cfg.length.score, 3);
    assert_eq!(cfg.question.score, 2);
}

#[test]
fn flat_map_of_the_default() {
    let empty = serde_json::Map::new();
    let out = flat_map_for_write(&default_config(), &document("{}"), &empty, &none());
    assert_eq!(out, object(FLAT_DEFAULT));
    // A document that is no object has no nested layout.
    let out = flat_map_for_write(&default_config(), &document("[1]"), &empty, &none());
    assert_eq!(out, object(FLAT_DEFAULT));
}

#[test]
fn flat_keys_win_over_nested_ones_and_those_over_the_config() {
    let root = document(
        r#"{
          "spam": {"toggle": false, "score": -50},
          "emoji": {"toggle": "off", "score": "7.5"},
          "length": [1],
          "frequency": {"toggle": false, "score": 3, "interval_secs": "90"}
        }"#,
    );
    let ms = object(r#"{"spam_score": "-6", "emoji_toggle": "1t", "frequency_toggle": "yes"}"#);
    let fractions =
        Fractions { flat: no_fractions(), nested: PerRule { emoji: Some(7), ..no_fractions() } };
    let out = flat_map_for_write(&default_config(), &root, &ms, &fractions);
    let mut expected = object(FLAT_DEFAULT);
    expected.insert(String::from("spam_toggle"), Value::Bool(false));
    expected.insert(String::from("spam_score"), Value::from(-6));
    expected.insert(String::from("emoji_toggle"), Value::Bool(false));
    expected.insert(String::from("emoji_score"), Value::from(7));
    expected.insert(String::from("frequency_score"), Value::from(3));
    expected.insert(String::from("frequency_interval_secs"), Value::from(90));
    assert_eq!(out, expected);
}

#[test]
fn a_flat_interval_wins_over_a_nested_one() {
    let root = document(r#"{"frequency": {"interval_secs": 90}}"#);
    let ms = object(r#"{"frequency_interval_secs": 5}"#);
    let out = flat_map_for_write(&default_config(), &root, &ms, &none());
    assert_eq!(out.get("frequency_interval_secs"), Some(&Value::from(5)));
}

#[test]
fn saving_keeps_the_rest_of_the_document() {
    let mut root = document(
        r#"{"host": "localhost", "ports": [1, 2], "ratio": 0.5, "module_specific": {"x": 1}}"#,
    );
    update_document(&mut root, &default_config(), &none());
    assert_eq!(root.get("host"), Some(&Value::from("localhost")));
    assert_eq!(root.get("ports"), Some(&document("[1, 2]")));
    assert_eq!(root.get("ratio"), Some(&document("0.5")));
    assert_eq!(root.get("module_specific"), Some(&document(FLAT_DEFAULT)));
    assert_eq!(root.as_object().unwrap().len(), 4);
}

#[test]
fn saving_in_null_makes_an_object() {
    let mut root = Value::Null;
    update_document(&mut root, &default_config(), &none());
    assert_eq!(root.get("module_specific"), Some(&document(FLAT_DEFAULT)));
}

#[test]
fn a_new_file_is_indented_and_sorted() {
    let text = updated_config_text(None, &default_config(), &none()).unwrap();
    let start =
        "{\n  \"module_specific\": {\n    \"emoji_score\": 1,\n    \"emoji_toggle\": true,\n";
    assert!(text.starts_with(start));
    assert!(text.ends_with("    \"wordless_toggle\": true\n  }\n}"));
    assert_eq!(document(&text).get("module_specific"), Some(&document(FLAT_DEFAULT)));
    // A file that is no JSON is replaced.
    assert_eq!(updated_config_text(Some("{oops"), &default_config(), &none()), Some(text));
}

#[test]
fn documents_that_hold_no_members_are_refused() {
    for text in ["[1]", "5", "true", "\"text\""] {
        assert_eq!(updated_config_text(Some(text), &default_config(), &none()), None);
    }
    assert!(updated_config_text(Some("null"), &default_config(), &none()).is_some());
}

#[test]
fn what_was_saved_is_loaded() {
    let mut cfg = default_config();
    cfg.spam.score = i64::MIN;
    cfg.emoji.score = i64::MAX;
    cfg.wordless.toggle = false;
    cfg.frequency.toggle = false;
    cfg.frequency.interval_secs = u64::MAX;
    let text = updated_config_text(Some("{\"host\": \"h\"}"), &cfg, &none()).unwrap();
    assert_eq!(saved_config(&text, None, &no_fractions()), Some(cfg));
    assert_eq!(saved_config(&text, Some(Config::default()), &no_fractions()), Some(cfg));
}

#[test]
fn saved_settings_are_not_overwritten() {
    let first = updated_config_text(None, &default_config(), &none()).unwrap();
    let second = updated_config_text(Some(&first), &Config::default(), &none()).unwrap();
    assert_eq!(first, second);
}

#[test]
fn loading_by_layout() {
    let f = no_fractions();
    assert_eq!(saved_config("{oops", Some(default_config()), &f), None);
    assert_eq!(saved_config("{}", None, &f), None);
    assert_eq!(saved_config("{}", Some(Config::default()), &f), Some(Config::default()));
    assert_eq!(saved_config("{\"module_specific\": 1}", None, &f), None);
    assert_eq!(saved_config("{\"module_specific\": {}}", None, &f), Some(default_config()));
    let text = "{\"module_specific\": {\"spam_score\": -9}}";
    let mut expected = Config::default();
    expected.spam.score = -9;
    assert_eq!(saved_config(text, Some(Config::default()), &f), Some(expected));
    assert_eq!(config_in(&document(text), Some(Config::default()), &f), Some(expected));
}

#[test]
fn the_rest_survives_next_to_fractions() {
    let before = "{\"ratio\": 31.245270191439438, \"host\": \"h\", \"ports\": [1, [2.5]]}";
    let text = updated_config_text(Some(before), &default_config(), &none()).unwrap();
    let after = document(&text);
    assert!(after.get("ratio").unwrap().is_f64());
    assert_eq!(after.get("host"), Some(&Value::from("h")));
    assert_eq!(after.get("ports").unwrap().get(0), Some(&Value::from(1)));
    assert!(after.get("ports").unwrap().get(1).unwrap().get(0).unwrap().is_f64());
    assert_eq!(after.as_object().unwrap().len(), 4);
}

#[test]
fn settings_survive_next_to_fractions() {
    let text =
        updated_config_text(Some("{\"ratio\": 0.1}"), &default_config(), &none()).unwrap();
    assert!(text.contains("\"ratio\": 0.1"));
    assert_eq!(saved_config(&text, None, &no_fractions()), Some(default_config()));
}

#[test]
fn texts_of_a_file_to_read_as_fractions() {
    let text = r#"{
      "module_specific": {"spam_score": " 2.9 ", "emoji_score": "3", "length_score": 1.5},
      "question": {"score": "1e2"},
      "wordless": "2.5"
    }"#;
    let texts = fraction_texts(Some(text));
    assert_eq!(texts.flat.spam, Some(String::from("2.9")));
    assert_eq!(texts.flat.emoji, None);
    assert_eq!(texts.flat.length, None);
    assert_eq!(texts.flat.question, None);
    assert_eq!(texts.nested.question, Some(String::from("1e2")));
    assert_eq!(texts.nested.wordless, None);
    assert_eq!(texts.nested.get(RuleName::Spam), &None);
    let same = fraction_texts_in(&document(text));
    assert_eq!(same.flat.spam, Some(String::from("2.9")));
    assert_eq!(same.nested.question, Some(String::from("1e2")));
    let texts = fraction_texts(None);
    assert_eq!(texts.flat.spam, None);
    assert_eq!(texts.nested.question, None);
}

#[test]
fn documents_are_read_to_a_depth_of_127() {
    let nested = |depth: usize| format!("{}{}", "[".repeat(depth), "]".repeat(depth));
    let cfg = Some(default_config());
    assert_eq!(saved_config(&nested(127), cfg, &no_fractions()), cfg);
    assert_eq!(saved_config(&nested(128), cfg, &no_fractions()), None);
}

#[test]
fn integral_documents_survive_saving() {
    let depth = 126;
    let deep = format!("{}-9223372036854775808{}", "[".repeat(depth), "]".repeat(depth));
    let before = format!(
        "{{\"deep\": {}, \"max\": 18446744073709551615, \"k\\u0000\\n\": \"\\u2028\\\"\\\\\"}}",
        deep
    );
    let after = updated_config_text(Some(&before), &default_config(), &none()).unwrap();
    let mut expected = document(&before);
    update_document(&mut expected, &default_config(), &none());
    assert_eq!(document(&after), expected);
}
