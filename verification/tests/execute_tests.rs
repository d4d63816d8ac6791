use std::cell::RefCell;

use sr_core::execute::{execute_plan, CommitOutcome, PlanRun, RepoAction, RepoReply};
use sr_core::plan::{CommitPlan, PlannedCommit};

fn commit(message: &str, body: Option<&str>, footer: Option<&str>, files: &[&str]) -> PlannedCommit {
    PlannedCommit {
        order: None,
        message: message.into(),
        body: body.map(|s| s.to_string()),
        footer: footer.map(|s| s.to_string()),
        files: files.iter().map(|f| f.to_string()).collect(),
    }
}

fn describe(a: &RepoAction) -> String {
    match a {
        RepoAction::ResetHead => "reset".into(),
        RepoAction::StageFile(f) => format!("stage {f}"),
        RepoAction::CheckStaged => "check".into(),
        RepoAction::Commit(m) => format!("commit {m}"),
        RepoAction::HeadShort => "sha".into(),
    }
}

#[test]
fn execute_plan_creates_commits_in_order() {
    let plan = CommitPlan {
        commits: vec![
            commit("feat: a", Some("why"), Some("Refs: 1"), &["a.rs", "b.rs"]),
            commit("fix: c", None, Some(""), &["c.rs"]),
        ],
    };
    let log = RefCell::new(Vec::new());
    let counter = RefCell::new(0u32);
    let result = execute_plan(&plan, |a: RepoAction| {
        log.borrow_mut().push(describe(&a));
        match a {
            RepoAction::CheckStaged => RepoReply::Staged(true),
            RepoAction::HeadShort => {
                *counter.borrow_mut() += 1;
                RepoReply::Sha(format!("sha{}", counter.borrow()))
            }
            _ => RepoReply::Done,
        }
    })
    .unwrap();
    assert_eq!(
        *log.borrow(),
        vec![
            "reset", "stage a.rs", "stage b.rs", "check", "commit feat: a\n\nwhy\n\nRefs: 1", "sha",
            "stage c.rs", "check", "commit fix: c", "sha",
        ]
    );
    assert_eq!(result.len(), 2);
    match &result[0] {
        CommitOutcome::Created { sha, message } => {
            assert_eq!(sha, "sha1");
            assert_eq!(message, "feat: a");
        }
        other => panic!("unexpected {other:?}"),
    }
    match &result[1] {
        CommitOutcome::Created { sha, message } => {
            assert_eq!(sha, "sha2");
            assert_eq!(message, "fix: c");
        }
        other => panic!("unexpected {other:?}"),
    }
}

#[test]
fn execute_plan_skips_and_records_failures() {
    let plan = CommitPlan {
        commits: vec![
            commit("a", None, None, &["a.rs"]),
            commit("b", None, None, &[]),
            commit("c", None, None, &["c.rs"]),
        ],
    };
    let log = RefCell::new(Vec::new());
    let checks = RefCell::new(0u32);
    let result = execute_plan(&plan, |a: RepoAction| {
        log.borrow_mut().push(describe(&a));
        match a {
            RepoAction::CheckStaged => {
                *checks.borrow_mut() += 1;
                RepoReply::Staged(*checks.borrow() != 2)
            }
            RepoAction::Commit(m) if m == "c" => RepoReply::Error("hook rejected".into()),
            RepoAction::HeadShort => RepoReply::Error("no head".into()),
            _ => RepoReply::Done,
        }
    })
    .unwrap();
    assert_eq!(result.len(), 3);
    match &result[0] {
        CommitOutcome::Created { sha, .. } => assert_eq!(sha, "???????"),
        other => panic!("unexpected {other:?}"),
    }
    match &result[1] {
        CommitOutcome::Skipped { message } => assert_eq!(message, "b"),
        other => panic!("unexpected {other:?}"),
    }
    match &result[2] {
        CommitOutcome::Failed { index, message, error } => {
            assert_eq!(*index, 3);
            assert_eq!(message, "c");
            assert_eq!(error, "hook rejected");
        }
        other => panic!("unexpected {other:?}"),
    }
    assert_eq!(log.borrow().last().unwrap(), "reset");
}

#[test]
fn execute_plan_aborts_on_stage_error() {
    let plan = CommitPlan { commits: vec![commit("a", None, None, &["a.rs", "b.rs"]), commit("b", None, None, &["c.rs"])] };
    let log = RefCell::new(Vec::new());
    let result = execute_plan(&plan, |a: RepoAction| {
        log.borrow_mut().push(describe(&a));
        match a {
            RepoAction::StageFile(f) if f == "b.rs" => RepoReply::Error("pathspec did not match".into()),
            _ => RepoReply::Done,
        }
    });
    assert_eq!(result.err(), Some("pathspec did not match".to_string()));
    assert_eq!(*log.borrow(), vec!["reset", "stage a.rs", "stage b.rs"]);
}

#[test]
fn execute_plan_aborts_when_reset_fails() {
    let plan = CommitPlan { commits: vec![commit("a", None, None, &["a.rs"])] };
    let result = execute_plan(&plan, |a: RepoAction| match a {
        RepoAction::ResetHead => RepoReply::Error("not a repo".into()),
        _ => RepoReply::Done,
    });
    assert_eq!(result.err(), Some("not a repo".to_string()));
}

#[test]
fn plan_run_steps_by_hand() {
    let plan = CommitPlan { commits: vec![] };
    let run = PlanRun::new();
    assert!(!run.is_finished());
    assert!(matches!(run.action(&plan), Some(RepoAction::ResetHead)));
    let run = run.advance(&plan, RepoReply::Done);
    assert!(run.is_finished());
    assert!(run.action(&plan).is_none());
    assert_eq!(run.into_result().unwrap().len(), 0);
}
