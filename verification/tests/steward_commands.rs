use aionui_steward::command::{parse_steward_command, ParsedStewardCommand};

#[test]
fn fixed_command_parser_is_conservative_and_supports_common_chinese_phrases() {
    assert_eq!(parse_steward_command("有哪些任务？"), Some(ParsedStewardCommand::Tasks));
    assert_eq!(
        parse_steward_command("小说续写现在在做什么"),
        Some(ParsedStewardCommand::Status(Some("小说续写".to_owned())))
    );
    assert_eq!(
        parse_steward_command("/ask 小说续写 现在写到哪里了"),
        Some(ParsedStewardCommand::Ask {
            target: Some("小说续写".to_owned()),
            question: "现在写到哪里了".to_owned(),
        })
    );
    assert_eq!(
        parse_steward_command("问下leader 现在在做什么"),
        Some(ParsedStewardCommand::Ask {
            target: None,
            question: "现在在做什么".to_owned(),
        })
    );
    assert_eq!(parse_steward_command("帮我规划今天的工作"), None);
    assert_eq!(parse_steward_command("/archive"), None);
}
