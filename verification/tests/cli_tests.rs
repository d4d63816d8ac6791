use sr_core::cli::{
    check_pr_diff, commit_step, commits_to_rebase, rebase_base, rebase_confirmed, worktree_dir_name,
    worktree_step, CliError, CommitAction, CommitArgs, CommitEvent, WorktreeAction, WorktreeEvent,
};
use sr_core::text::{decimal_text, is_yes, trim};

fn args(message: Option<&str>, staged_only: bool, dry_run: bool, yes: bool) -> CommitArgs {
    CommitArgs { message: message.map(|m| m.to_string()), staged_only, dry_run, yes }
}

#[test]
fn commit_needs_a_message() {
    assert_eq!(commit_step(&args(None, false, false, false), CommitEvent::Start), CommitAction::Fail(CliError::MessageRequired));
    assert_eq!(
        CliError::MessageRequired.message(),
        "commit message required (-m). For AI-generated messages, use sr via MCP"
    );
}

#[test]
fn commit_flow_with_confirmation() {
    let a = args(Some("feat: x"), false, false, false);
    assert_eq!(commit_step(&a, CommitEvent::Start), CommitAction::ReadStatus);
    assert_eq!(commit_step(&a, CommitEvent::Status("  \n".into())), CommitAction::Fail(CliError::NoChangesToCommit));
    assert_eq!(commit_step(&a, CommitEvent::Status(" M a.rs".into())), CommitAction::Confirm);
    assert_eq!(commit_step(&a, CommitEvent::Answer(" Y\n".into())), CommitAction::StageAll);
    assert_eq!(commit_step(&a, CommitEvent::Answer("yes".into())), CommitAction::Fail(CliError::CommitCancelled));
    assert_eq!(commit_step(&a, CommitEvent::StagedAll(false)), CommitAction::Fail(CliError::StageFailed));
    assert_eq!(commit_step(&a, CommitEvent::StagedAll(true)), CommitAction::CheckStaged);
    assert_eq!(commit_step(&a, CommitEvent::HasStaged(false)), CommitAction::Fail(CliError::NoStagedChanges));
    assert_eq!(commit_step(&a, CommitEvent::HasStaged(true)), CommitAction::Commit("feat: x".into()));
    assert_eq!(commit_step(&a, CommitEvent::Committed), CommitAction::Finish);
}

#[test]
fn commit_flow_staged_only_and_dry_run() {
    let a = args(Some("m"), true, true, false);
    assert_eq!(commit_step(&a, CommitEvent::Start), CommitAction::CheckStaged);
    assert_eq!(commit_step(&a, CommitEvent::HasStaged(true)), CommitAction::DryRun("m".into()));
    let y = args(Some("m"), false, false, true);
    assert_eq!(commit_step(&y, CommitEvent::Status("M a".into())), CommitAction::StageAll);
}

#[test]
fn rebase_decisions() {
    assert_eq!(commits_to_rebase(0), Err(CliError::NoCommitsToRebase));
    assert_eq!(commits_to_rebase(3), Ok(3));
    assert_eq!(rebase_confirmed("y"), Ok(()));
    assert_eq!(rebase_confirmed("n"), Err(CliError::RebaseCancelled));
    assert_eq!(rebase_base(12), "HEAD~12");
}

#[test]
fn worktree_decisions() {
    assert_eq!(worktree_dir_name(Some("sr"), "feat/x"), "sr-feat/x");
    assert_eq!(worktree_dir_name(None, "b"), "repo-b");
    let p = "/tmp/sr-b".to_string();
    assert_eq!(
        worktree_step(&p, WorktreeEvent::Checked { path_exists: true, has_changes: false }),
        WorktreeAction::Fail(CliError::WorktreeExists(p.clone()))
    );
    assert_eq!(worktree_step(&p, WorktreeEvent::Checked { path_exists: false, has_changes: true }), WorktreeAction::Stash);
    assert_eq!(worktree_step(&p, WorktreeEvent::Stashed(false)), WorktreeAction::Add { stashed: false });
    assert_eq!(worktree_step(&p, WorktreeEvent::Added { success: false, stashed: true }), WorktreeAction::RestoreAndFail);
    assert_eq!(
        worktree_step(&p, WorktreeEvent::Added { success: false, stashed: false }),
        WorktreeAction::Fail(CliError::WorktreeFailed)
    );
    assert_eq!(worktree_step(&p, WorktreeEvent::Added { success: true, stashed: true }), WorktreeAction::PopInWorktree);
    assert_eq!(worktree_step(&p, WorktreeEvent::Popped(false)), WorktreeAction::Report { warn: true });
    assert_eq!(CliError::WorktreeExists("/a".into()).message(), "worktree path already exists: /a");
}

#[test]
fn pr_diff_check() {
    assert_eq!(check_pr_diff(42, " "), Err(CliError::PrHasNoChanges(42)));
    assert_eq!(CliError::PrHasNoChanges(42).message(), "PR #42 has no changes to review");
    assert_eq!(check_pr_diff(42, "+a"), Ok(()));
}

#[test]
fn text_helpers() {
    assert_eq!(decimal_text(0), "0");
    assert_eq!(decimal_text(7), "7");
    assert_eq!(decimal_text(1090), "1090");
    assert_eq!(decimal_text(u64::MAX), u64::MAX.to_string());
    assert!(is_yes("\tY "));
    assert!(!is_yes("yy"));
    assert!(!is_yes(""));
    assert_eq!(trim("\r\n a b \u{2003}"), "a b");
    assert_eq!(trim("   "), "");
}

#[test]
fn white_space_matches_std() {
    for n in 0u32..=0x10FFFF {
        if let Some(c) = char::from_u32(n) {
            assert_eq!(sr_core::text::white_space(c), c.is_whitespace(), "for U+{n:04X}");
        }
    }
}

#[test]
fn decimal_matches_std() {
    let mut n: u64 = 1;
    for _ in 0..200 {
        assert_eq!(decimal_text(n), n.to_string());
        n = n.wrapping_mul(6364136223846793005).wrapping_add(1442695040888963407) >> 3;
    }
    assert_eq!(CliError::RebaseFailed.message(), "rebase failed");
    assert_eq!(CliError::RebaseCancelled.message(), "cancelled");
}
