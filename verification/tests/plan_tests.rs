use sr_core::plan::{validate_plan, CommitPlan, PlannedCommit};
use sr_core::planning::{check_changes, finish_plan, plan_source, CacheLookup, CacheStatus, PlanError, PlanSource};

fn commit(order: u32, message: &str, body: Option<&str>, footer: Option<&str>, files: &[&str]) -> PlannedCommit {
    PlannedCommit {
        order: Some(order),
        message: message.to_string(),
        body: body.map(|b| b.to_string()),
        footer: footer.map(|f| f.to_string()),
        files: files.iter().map(|f| f.to_string()).collect(),
    }
}

#[test]
fn validate_plan_no_dupes() {
    let plan = CommitPlan {
        commits: vec![
            PlannedCommit {
                order: Some(1),
                message: "feat: add foo".into(),
                body: Some("reason".into()),
                footer: None,
                files: vec!["a.rs".into()],
            },
            PlannedCommit {
                order: Some(2),
                message: "fix: fix bar".into(),
                body: Some("reason".into()),
                footer: None,
                files: vec!["b.rs".into()],
            },
        ],
    };

    let result = validate_plan(plan);
    assert_eq!(result.commits.len(), 2);
}

#[test]
fn validate_plan_merges_dupes() {
    let plan = CommitPlan {
        commits: vec![
            PlannedCommit {
                order: Some(1),
                message: "feat: add foo".into(),
                body: Some("reason 1".into()),
                footer: None,
                files: vec!["shared.rs".into(), "a.rs".into()],
            },
            PlannedCommit {
                order: Some(2),
                message: "fix: fix bar".into(),
                body: Some("reason 2".into()),
                footer: None,
                files: vec!["shared.rs".into(), "b.rs".into()],
            },
            PlannedCommit {
                order: Some(3),
                message: "docs: update readme".into(),
                body: Some("docs".into()),
                footer: None,
                files: vec!["README.md".into()],
            },
        ],
    };

    let result = validate_plan(plan);
    assert_eq!(result.commits.len(), 2);
    assert_eq!(result.commits[0].message, "feat: add foo");
    assert!(result.commits[0].files.contains(&"shared.rs".to_string()));
    assert!(result.commits[0].files.contains(&"a.rs".to_string()));
    assert!(result.commits[0].files.contains(&"b.rs".to_string()));
    assert_eq!(result.commits[1].message, "docs: update readme");
    assert_eq!(result.commits[1].order, Some(2));
}

#[test]
fn validate_plan_merged_commit_details() {
    let plan = CommitPlan {
        commits: vec![
            commit(1, "a", Some("body a"), Some("Refs: 1"), &["z.rs", "x.rs"]),
            commit(2, "b", None, None, &["solo.rs"]),
            commit(3, "c", Some(""), Some("Refs: 2"), &["x.rs", "y.rs"]),
            commit(4, "d", Some("body d"), None, &["w.rs"]),
        ],
    };
    let result = validate_plan(plan);
    assert_eq!(result.commits.len(), 3);
    let merged = &result.commits[0];
    assert_eq!(merged.order, Some(1));
    assert_eq!(merged.message, "a");
    assert_eq!(merged.body, Some("body a".to_string()));
    assert_eq!(merged.footer, Some("Refs: 1\nRefs: 2".to_string()));
    assert_eq!(merged.files, vec!["x.rs".to_string(), "y.rs".to_string(), "z.rs".to_string()]);
    assert_eq!(result.commits[1].message, "b");
    assert_eq!(result.commits[1].order, Some(2));
    assert_eq!(result.commits[2].message, "d");
    assert_eq!(result.commits[2].order, Some(3));
}

#[test]
fn validate_plan_merged_bodies_joined_by_blank_line() {
    let plan = CommitPlan {
        commits: vec![
            commit(1, "a", Some("first"), None, &["s.rs"]),
            commit(2, "b", Some("second"), None, &["s.rs"]),
        ],
    };
    let result = validate_plan(plan);
    assert_eq!(result.commits.len(), 1);
    assert_eq!(result.commits[0].body, Some("first\n\nsecond".to_string()));
    assert_eq!(result.commits[0].footer, None);
    assert_eq!(result.commits[0].files, vec!["s.rs".to_string()]);
}

#[test]
fn validate_plan_file_listed_twice_in_one_commit() {
    let plan = CommitPlan {
        commits: vec![
            commit(7, "a", None, None, &["d.rs", "d.rs"]),
            commit(8, "b", None, None, &["e.rs"]),
        ],
    };
    let result = validate_plan(plan);
    assert_eq!(result.commits.len(), 2);
    assert_eq!(result.commits[0].files, vec!["d.rs".to_string()]);
    assert_eq!(result.commits[0].order, Some(1));
    assert_eq!(result.commits[1].order, Some(2));
}

#[test]
fn validate_plan_unchanged_keeps_orders() {
    let plan = CommitPlan {
        commits: vec![commit(5, "a", None, None, &["a.rs"]), commit(9, "b", None, None, &[])],
    };
    let result = validate_plan(plan);
    assert_eq!(result.commits[0].order, Some(5));
    assert_eq!(result.commits[1].order, Some(9));
}

#[test]
fn validate_plan_is_idempotent_on_example() {
    let plan = CommitPlan {
        commits: vec![
            commit(1, "a", None, None, &["s.rs", "a.rs"]),
            commit(2, "b", None, None, &["s.rs"]),
            commit(3, "c", None, None, &["c.rs"]),
        ],
    };
    let once = validate_plan(plan);
    let twice = validate_plan(once.clone());
    assert_eq!(once.commits.len(), twice.commits.len());
    for (a, b) in once.commits.iter().zip(twice.commits.iter()) {
        assert_eq!(a.message, b.message);
        assert_eq!(a.files, b.files);
        assert_eq!(a.order, b.order);
    }
}

#[test]
fn plan_source_decisions() {
    let p = CommitPlan { commits: vec![commit(1, "a", None, None, &["a.rs"])] };
    match plan_source(Some(CacheLookup::ExactHit(p.clone()))) {
        PlanSource::Reuse(_, s) => assert_eq!(s, CacheStatus::Cached),
        _ => panic!("expected reuse"),
    }
    match plan_source(Some(CacheLookup::PatchHit { plan: p.clone(), unplaced_files: vec![], delta_summary: String::new() })) {
        PlanSource::Reuse(_, s) => assert_eq!(s, CacheStatus::Patched),
        _ => panic!("expected reuse"),
    }
    match plan_source(Some(CacheLookup::PatchHit { plan: p.clone(), unplaced_files: vec!["n.rs".into()], delta_summary: "d".into() })) {
        PlanSource::Patch { unplaced_files, .. } => assert_eq!(unplaced_files, vec!["n.rs".to_string()]),
        _ => panic!("expected patch"),
    }
    assert!(matches!(plan_source(Some(CacheLookup::Miss)), PlanSource::Fresh));
    assert!(matches!(plan_source(None), PlanSource::Fresh));
}

#[test]
fn finish_plan_refuses_empty() {
    assert_eq!(finish_plan(CommitPlan { commits: vec![] }).err(), Some(PlanError::EmptyPlan));
    assert_eq!(check_changes(false), Err(PlanError::NoChanges));
    assert_eq!(check_changes(true), Ok(()));
    assert_eq!(PlanError::NoChanges.message(), "no changes to commit");
    let ok = finish_plan(CommitPlan { commits: vec![commit(1, "a", None, None, &["x"]), commit(2, "b", None, None, &["x"])] }).unwrap();
    assert_eq!(ok.commits.len(), 1);
}
