use sr_core::prompts::{PR_REVIEW_SYSTEM_PROMPT, REVIEW_SYSTEM_PROMPT};
use sr_core::services::{
    branch_name_from_reply, branch_request, model_name, pr_log_range, pr_request, review_pr_request,
    review_request, type_list, BranchInput, PrInput, PrReviewInput, ReviewInput, ServiceError,
};

#[test]
fn review_refuses_blank_diff() {
    let input = ReviewInput { diff: " \n\t ", message: None };
    assert_eq!(review_request(&input, "/repo").err(), Some(ServiceError::NoChangesToReview));
    assert_eq!(ServiceError::NoChangesToReview.message(), "no changes to review");
}

#[test]
fn review_prompt_text() {
    let input = ReviewInput { diff: "+x", message: Some("be strict") };
    let req = review_request(&input, "/repo").unwrap();
    assert_eq!(req.system_prompt, REVIEW_SYSTEM_PROMPT);
    assert_eq!(req.user_prompt, "Review this diff:\n\n+x\n\nAdditional context: be strict");
    assert_eq!(req.json_schema, None);
    assert_eq!(req.working_dir, "/repo");
}

#[test]
fn pr_review_prompt_text() {
    let input = PrReviewInput {
        title: "T",
        description: Some("D"),
        author: "me",
        base: "main",
        head: "feat",
        diff: "+y",
        message: None,
    };
    let req = review_pr_request(&input, ".").unwrap();
    assert_eq!(req.system_prompt, PR_REVIEW_SYSTEM_PROMPT);
    assert_eq!(
        req.user_prompt,
        "Review this pull request:\n\nTitle: T\nAuthor: me\nBase: main \u{2190} feat\n\nDescription:\nD\n\nDiff:\n+y"
    );
    let empty_desc = PrReviewInput { description: Some(""), message: Some("m"), ..input };
    let req = review_pr_request(&empty_desc, ".").unwrap();
    assert_eq!(
        req.user_prompt,
        "Review this pull request:\n\nTitle: T\nAuthor: me\nBase: main \u{2190} feat\n\nDiff:\n+y\n\nAdditional context for this review: m"
    );
    let blank = PrReviewInput { diff: "\n", ..input };
    assert_eq!(review_pr_request(&blank, ".").err(), Some(ServiceError::PrHasNoChanges));
}

#[test]
fn pr_prompt_text() {
    let input = PrInput { base: "main", message: Some("ctx") };
    assert_eq!(pr_log_range("main"), "main..HEAD");
    let req = pr_request(&input, "feat/x", "abc one", "+z", "/r");
    assert_eq!(
        req.user_prompt,
        "Generate a PR title and body for branch 'feat/x' targeting 'main'.\n\nCommits:\nabc one\n\nDiff:\n+z\n\nAdditional context: ctx"
    );
    assert!(req.json_schema.is_some());
}

#[test]
fn branch_prompts_and_reply() {
    let with_ctx = branch_request(&BranchInput { context: Some("login page") }, "ignored", "ignored", ".");
    assert_eq!(with_ctx.user_prompt, "Suggest a branch name for: login page");
    let from_changes = branch_request(&BranchInput { context: None }, "M a.rs", "+1", ".");
    assert_eq!(from_changes.user_prompt, "Based on these changes, suggest a branch name:\n\nStatus:\nM a.rs\n\nDiff:\n+1");
    assert_eq!(branch_name_from_reply("  feat/login-page \n"), "feat/login-page");
    assert_eq!(branch_name_from_reply("\u{3000}x\u{a0}"), "x");
}

#[test]
fn model_and_types() {
    assert_eq!(model_name(&None), "default");
    assert_eq!(model_name(&Some("opus".into())), "opus");
    assert_eq!(type_list(&["feat", "fix", "docs"]), "feat, fix, docs");
    assert_eq!(type_list(&[]), "");
}
