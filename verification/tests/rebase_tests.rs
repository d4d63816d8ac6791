use sr_core::rebase::{message_editor_script, rebase_failure_message, sequence_editor_script};
use sr_core::rebase::{
    check_rebase_plan, check_rebase_request, read_action, rebase_rewrites, rebase_todo, RebaseError,
    ReorganizePlan, ReorganizedCommit, TodoAction,
};

fn rc(sha: &str, action: &str, message: &str, body: Option<&str>) -> ReorganizedCommit {
    ReorganizedCommit {
        original_sha: sha.into(),
        action: action.into(),
        message: message.into(),
        body: body.map(|b| b.to_string()),
        footer: None,
    }
}

#[test]
fn todo_script_maps_actions() {
    let plan = ReorganizePlan {
        commits: vec![
            rc("aaa", "pick", "feat: a", None),
            rc("bbb", "reword", "fix: b", None),
            rc("ccc", "squash", "c", None),
            rc("ddd", "drop", "d", None),
        ],
    };
    assert_eq!(rebase_todo(&plan).unwrap(), "pick aaa\npick bbb\nsquash ccc\ndrop ddd\n");
}

#[test]
fn todo_script_rejects_unknown_action() {
    let plan = ReorganizePlan {
        commits: vec![rc("aaa", "pick", "a", None), rc("bbb", "fixup", "b", None), rc("ccc", "edit", "c", None)],
    };
    assert_eq!(rebase_todo(&plan).err(), Some("unknown rebase action: fixup".to_string()));
}

#[test]
fn rewrites_append_squashes_to_last_pick() {
    let plan = ReorganizePlan {
        commits: vec![
            rc("s0", "squash", "lost", None),
            rc("p1", "pick", "feat: one", Some("body one")),
            rc("s1", "squash", "extra", None),
            rc("s2", "squash", "more", Some("why")),
            rc("d1", "drop", "gone", None),
            rc("p2", "reword", "fix: two", None),
            rc("s3", "squash", "tail", None),
        ],
    };
    let mut rewrites = rebase_rewrites(&plan);
    rewrites.sort();
    assert_eq!(
        rewrites,
        vec![
            ("p1".to_string(), "feat: one\n\nbody one\n\nextra\n\nmore\n\nwhy".to_string()),
            ("p2".to_string(), "fix: two\n\ntail".to_string()),
        ]
    );
}

#[test]
fn rewrites_keep_one_entry_per_sha() {
    let plan = ReorganizePlan { commits: vec![rc("x", "pick", "first", None), rc("x", "pick", "second", None)] };
    assert_eq!(rebase_rewrites(&plan), vec![("x".to_string(), "second".to_string())]);
}

#[test]
fn rebase_request_checks() {
    assert_eq!(check_rebase_request(true, 5), Err(RebaseError::UncommittedChanges));
    assert_eq!(check_rebase_request(false, 1), Err(RebaseError::TooFewCommits(1)));
    assert_eq!(check_rebase_request(false, 2), Ok(()));
    assert_eq!(check_rebase_plan(&ReorganizePlan { commits: vec![] }), Err(RebaseError::EmptyPlan));
    assert_eq!(read_action(&"reword".to_string()), Some(TodoAction::Pick));
    assert_eq!(read_action(&"squash".to_string()), Some(TodoAction::Squash));
    assert_eq!(read_action(&"nope".to_string()), None);
}

#[test]
fn editor_scripts_and_failure_text() {
    assert_eq!(sequence_editor_script("/tmp/t/todo.txt"), "#!/bin/sh\ncp '/tmp/t/todo.txt' \"$1\"\n");
    let script = message_editor_script("/tmp/t/msgs");
    assert!(script.starts_with("#!/bin/sh\nMSGS_DIR='/tmp/t/msgs'\nMSG_FILE=\"$1\"\n"));
    assert!(script.ends_with("done\n\nexit 0\n"));
    assert_eq!(rebase_failure_message("  conflict in a.rs\n"), "git rebase failed: conflict in a.rs");
    assert_eq!(RebaseError::TooFewCommits(1).message(), "need at least 2 commits to rebase (found 1)");
}
