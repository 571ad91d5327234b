use aionui_steward::candidates::candidate_score;

#[test]
fn candidate_scoring_explains_project_and_workspace_matches() {
    let (score, evidence) = candidate_score(
        "修复登录故障",
        "修复登录故障",
        "",
        Some("project-a"),
        Some("project-a"),
        Some("/repo"),
        Some("/repo"),
    );
    assert_eq!(score, 155);
    assert_eq!(evidence, vec!["exact_text", "same_project", "same_workspace"]);
}
