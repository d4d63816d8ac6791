use sr_core::messages::{report_invalid_pattern, report_mismatches, validate_messages, DEFAULT_COMMIT_PATTERN};
use sr_core::plan::{CommitPlan, PlannedCommit};

fn msg(order: u32, message: &str) -> PlannedCommit {
    PlannedCommit { order: Some(order), message: message.into(), body: None, footer: None, files: vec![] }
}

#[test]
fn validate_messages_all_valid() {
    let plan = CommitPlan {
        commits: vec![
            PlannedCommit {
                order: Some(1),
                message: "feat: add foo".into(),
                body: None,
                footer: None,
                files: vec![],
            },
            PlannedCommit {
                order: Some(2),
                message: "fix(core): null check".into(),
                body: None,
                footer: None,
                files: vec![],
            },
        ],
    };

    let pattern = DEFAULT_COMMIT_PATTERN;
    let invalid = validate_messages(&plan, pattern);
    assert!(invalid.is_empty());
}

#[test]
fn validate_messages_catches_invalid() {
    let plan = CommitPlan {
        commits: vec![
            PlannedCommit {
                order: Some(1),
                message: "feat: add foo".into(),
                body: None,
                footer: None,
                files: vec![],
            },
            PlannedCommit {
                order: Some(2),
                message: "not a conventional commit".into(),
                body: None,
                footer: None,
                files: vec![],
            },
            PlannedCommit {
                order: Some(3),
                message: "fix: valid one".into(),
                body: None,
                footer: None,
                files: vec![],
            },
        ],
    };

    let pattern = DEFAULT_COMMIT_PATTERN;
    let invalid = validate_messages(&plan, pattern);
    assert_eq!(invalid.len(), 1);
    assert_eq!(invalid[0].0, 2);
    assert_eq!(invalid[0].1, "not a conventional commit");
}

#[test]
fn validate_messages_invalid_pattern() {
    let plan = CommitPlan {
        commits: vec![PlannedCommit {
            order: Some(1),
            message: "feat: add foo".into(),
            body: None,
            footer: None,
            files: vec![],
        }],
    };

    let invalid = validate_messages(&plan, "[invalid regex");
    assert_eq!(invalid.len(), 1);
    assert!(invalid[0].2.contains("invalid pattern"));
}

#[test]
fn validate_messages_reason_names_pattern() {
    let plan = CommitPlan { commits: vec![msg(1, "nope"), msg(2, "ok: yes")] };
    let invalid = validate_messages(&plan, "^ok:");
    assert_eq!(invalid, vec![(1, "nope".to_string(), "does not match pattern: ^ok:".to_string())]);
}

#[test]
fn report_helpers_exact() {
    let plan = CommitPlan { commits: vec![msg(1, "a"), msg(2, "b"), msg(3, "c")] };
    let r = report_mismatches(&plan, "P", &vec![true, false, false]);
    assert_eq!(
        r,
        vec![
            (2, "b".to_string(), "does not match pattern: P".to_string()),
            (3, "c".to_string(), "does not match pattern: P".to_string()),
        ]
    );
    let e = report_invalid_pattern(&plan, "boom");
    assert_eq!(e.len(), 3);
    assert_eq!(e[2], (3, "c".to_string(), "invalid pattern: boom".to_string()));
}
