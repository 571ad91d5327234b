use aionui_steward::text::truncate;
use aionui_steward::titles::{
    first_nonempty_line, looks_like_uuid, parse_qoder_titles, short_id, title_from_codex_prompt,
};

#[test]
fn parses_qoder_session_rows() {
    let titles = parse_qoder_titles(
        "Available sessions for this project (2):\n  1. Fix project grouping (2 days ago) [3f63c98d-2888-41d7-9e21-9facf2c5ebd3]\n  2. Empty conversation (1 hour ago) [cd3944d8-1f7e-496a-9b9c-6b1220b66143]",
    );
    assert_eq!(
        titles.get("3f63c98d-2888-41d7-9e21-9facf2c5ebd3").map(String::as_str),
        Some("Fix project grouping")
    );
}

#[test]
fn uuid_shape_is_strict() {
    assert!(looks_like_uuid("3f63c98d-2888-41d7-9e21-9facf2c5ebd3"));
    assert!(!looks_like_uuid("not-a-session"));
}

#[test]
fn codex_title_ignores_ambient_context() {
    let prompt = "<environment_context>\ninternal\n</environment_context>\n同步本地任务\n并按项目分组";
    assert_eq!(title_from_codex_prompt(prompt), "同步本地任务");
    let explicit = "noise\n## My request:\n修复同步按钮\n";
    assert_eq!(title_from_codex_prompt(explicit), "修复同步按钮");
}

#[test]
fn the_later_of_two_rows_counts_and_other_lines_do_not() {
    let titles = parse_qoder_titles(
        "1. One (now) [3f63c98d-2888-41d7-9e21-9facf2c5ebd3]\r\nTwo [3f63c98d-2888-41d7-9e21-9facf2c5ebd3]\n [x]\n",
    );
    assert_eq!(
        titles.get("3f63c98d-2888-41d7-9e21-9facf2c5ebd3").map(String::as_str),
        Some("Two")
    );
    assert!(titles.get("x").is_none());
    assert!(!looks_like_uuid("3f63c98d-2888-41d7-9e21-9facf2c5ebdg"));
    assert!(!looks_like_uuid("3f63c98d02888-41d7-9e21-9facf2c5ebd3"));
}

#[test]
fn short_forms_keep_to_whole_characters() {
    assert_eq!(short_id("3f63c98d-2888"), "3f63c98d");
    assert_eq!(short_id("abc"), "abc");
    assert_eq!(short_id("一二三四"), "一二三四");
    assert_eq!(short_id("一二ab三"), "一二ab");
    assert_eq!(first_nonempty_line("\n  \n  a b \nc"), "a b");
    assert_eq!(first_nonempty_line(" \n"), "");
}

#[test]
fn cut_texts_end_in_an_ellipsis() {
    assert_eq!(truncate("abc", 3), "abc");
    assert_eq!(truncate("abcd", 3), "abc…");
    assert_eq!(truncate("一二三", 2), "一二…");
}
