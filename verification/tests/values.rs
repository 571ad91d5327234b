use aionui_steward::acp::{
    NativeGoalBudgetKind, NativeGoalCapabilities, NativeGoalControlMode, NativeGoalStateResponse, NativeGoalStatus,
};
use aionui_steward::candidates::candidate_score;
use aionui_steward::json::{Json, RESERVED_KEY};
use aionui_steward::tasks::{read_blockers, write_blockers};
use aionui_steward::text::{
    ascii_lower, contains, decimal_text, first_bytes, join, replace, split_lines, split_space, split_words, trim,
    truncate,
};

#[test]
fn notation_is_read_and_written() {
    let value = Json::parse(r#" {"b": [1, -2, true, null], "a": "引号\"", "b": 3} "#).unwrap();
    assert_eq!(value.to_text(), r#"{"b":3,"a":"引号\""}"#);
    assert_eq!(value.get("b").and_then(Json::as_i64), Some(3));
    assert_eq!(value.text_at("a"), Some("引号\""));
    assert!(value.get("c").is_none());
    assert!(Json::parse("{").is_none());
    assert_eq!(Json::parse("-7").unwrap().as_u64(), None);
    assert_eq!(Json::parse("-7").unwrap().as_i64(), Some(-7));
    assert_eq!(Json::parse("18446744073709551615").unwrap().as_u64(), Some(u64::MAX));
    assert_eq!(Json::parse("18446744073709551615").unwrap().as_i64(), None);
    assert_eq!(Json::from_i64(-7).to_text(), "-7");
    assert_eq!(Json::from_u64(u64::MAX).to_text(), "18446744073709551615");
    assert_eq!(Json::object1("k", Json::texts(&vec!["v".to_owned()])).to_pretty(), "{\n  \"k\": [\n    \"v\"\n  ]\n}");
}

#[test]
fn objects_keep_the_place_of_a_key_that_is_set_again() {
    let value = Json::object2("a", Json::from_i64(1), "b", Json::from_i64(2));
    let value = value.with_entry("a", Json::from_i64(3)).with_entry("c", Json::Null);
    assert_eq!(value.to_text(), r#"{"a":3,"b":2,"c":null}"#);
    assert_eq!(Json::parse(&value.to_text()), Some(Json::parse(r#"{"a":3,"b":2,"c":null}"#).unwrap()));
}

#[test]
fn plain_values_are_read_back() {
    let value = Json::parse(r#"{"a": [1, -2, {"b": null}], "c": "x", "d": {}}"#).unwrap();
    assert_eq!(Json::parse(&value.to_text()), Some(value));
    let nested = |levels: usize| (0..levels).fold(Json::Null, |inner, _| Json::array(vec![inner]));
    assert_eq!(Json::parse(&nested(127).to_text()), Some(nested(127)));
    assert_eq!(Json::parse(&nested(128).to_text()), None);
    let reserved = Json::object1(RESERVED_KEY, Json::text("[1]"));
    assert_eq!(Json::parse(&reserved.to_text()), Json::parse("[1]"));
    let later = Json::object2("k", Json::Null, RESERVED_KEY, Json::text("[1]"));
    assert_eq!(Json::parse(&later.to_text()), Some(later));
}

#[test]
fn lists_of_texts_are_read_as_such() {
    assert_eq!(Json::parse_texts(r#" ["a", "b"] "#), Some(vec!["a".to_owned(), "b".to_owned()]));
    assert_eq!(Json::parse_texts("[]"), Some(vec![]));
    assert_eq!(Json::parse_texts(r#"["a", 1]"#), None);
    assert_eq!(Json::parse_texts(r#"{"$serde_json::private::RawValue": "[\"a\"]"}"#), None);
    assert!(read_blockers(r#"{"$serde_json::private::RawValue": "[\"a\"]"}"#).is_empty());
    assert_eq!(read_blockers(&write_blockers(&vec!["a\"b".to_owned()])), vec!["a\"b".to_owned()]);
    assert!(read_blockers("[]").is_empty());
}

#[test]
fn text_is_compared_in_lower_case() {
    let (score, _) = candidate_score("ÄPFEL", "äpfel", "", None, None, None, None);
    assert_eq!(score, 100);
    assert_eq!(ascii_lower("ÄPFEL"), "Äpfel");
}

#[test]
fn texts_are_taken_apart() {
    assert_eq!(trim("\u{3000} a b \n"), "a b");
    assert_eq!(split_words(" a  b\tc "), vec!["a", "b", "c"]);
    assert_eq!(split_space("a b c"), ("a", Some("b c")));
    assert_eq!(split_space("abc"), ("abc", None));
    assert_eq!(split_lines("a\r\nb\n\nc"), vec!["a", "b", "", "c"]);
    assert!(contains("héllo", "éll") && !contains("hello", "x"));
    assert_eq!(first_bytes("héllo", 2), None);
    assert_eq!(first_bytes("héllo", 3), Some("hé"));
    assert_eq!(join(&vec!["a".to_owned(), "b".to_owned()], "；"), "a；b");
    assert_eq!(replace("aXbX", "X", "--"), "a--b--");
    assert_eq!(decimal_text(1_024), "1024");
    assert_eq!(truncate("同步本地任务", 2), "同步…");
}

#[test]
fn goals_are_offered_as_the_provider_can() {
    let none = NativeGoalCapabilities::unsupported();
    assert!(!none.supported && !none.can_set);
    assert_eq!(NativeGoalCapabilities::structured_tokens().budget_kind, NativeGoalBudgetKind::Tokens);
    assert_eq!(NativeGoalCapabilities::slash_command().control_mode, NativeGoalControlMode::SlashCommand);
    assert_eq!(NativeGoalStateResponse::unsupported("qoder").provider, "qoder");
    assert!(NativeGoalStateResponse::slash_command("qoder").capabilities.supported);
    assert_eq!(NativeGoalStatus::UsageLimited.provider_value(), "usageLimited");
}
