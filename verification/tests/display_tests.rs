use sr_core::display::done_detail;
use sr_core::display::{
    render_commit_start, render_failed_commits, render_invalid_messages, render_plan, render_rebase_plan,
    render_summary, text_lines, Span, Style,
};
use sr_core::plan::{CommitPlan, PlannedCommit};
use sr_core::rebase::{ReorganizePlan, ReorganizedCommit};

fn plain(lines: &[Vec<Span>]) -> Vec<String> {
    lines.iter().map(|l| l.iter().map(|s| s.text.as_str()).collect::<String>()).collect()
}

#[test]
fn lines_like_std() {
    for text in ["", "a", "a\n", "a\r\nb", "a\n\nb\n", "x\r", "\n", "a\rb\r\n"] {
        let ours = text_lines(text);
        let std: Vec<String> = text.lines().map(|l| l.to_string()).collect();
        assert_eq!(ours, std, "for {text:?}");
    }
}

#[test]
fn plan_rendering() {
    let plan = CommitPlan {
        commits: vec![
            PlannedCommit {
                order: None,
                message: "feat: a".into(),
                body: Some("line1\nline2".into()),
                footer: Some("Refs: 9".into()),
                files: vec!["a.rs".into(), "b.rs".into()],
            },
            PlannedCommit { order: Some(7), message: "fix: b".into(), body: None, footer: None, files: vec![] },
        ],
    };
    let statuses = vec![("a.rs".to_string(), 'A')];
    let lines = render_plan(&plan, &statuses, Some("cached"));
    let rule = "\u{2500}".repeat(50);
    assert_eq!(
        plain(&lines),
        vec![
            "".to_string(),
            "  COMMIT PLAN \u{b7} 2 commits \u{b7} cached".to_string(),
            format!("  {rule}"),
            "".to_string(),
            "  [1] feat: a".to_string(),
            "   \u{2502}  line1".to_string(),
            "   \u{2502}  line2".to_string(),
            "   \u{2502}".to_string(),
            "   \u{2502}  Refs: 9".to_string(),
            "   \u{2502}".to_string(),
            "   \u{251c}\u{2500} A a.rs".to_string(),
            "   \u{2514}\u{2500} \u{b7} b.rs".to_string(),
            "".to_string(),
            "  [7] fix: b".to_string(),
            "   \u{2502}".to_string(),
            "   \u{2514}\u{2500} (no files)".to_string(),
            "".to_string(),
            format!("  {rule}"),
        ]
    );
    assert_eq!(lines[10][3].style, Style::Green);
    assert_eq!(lines[11][3].style, Style::Dim);
    assert_eq!(lines[8][3].style, Style::Yellow);
}

#[test]
fn single_commit_label() {
    let plan = CommitPlan {
        commits: vec![PlannedCommit { order: Some(1), message: "m".into(), body: None, footer: None, files: vec![] }],
    };
    let lines = render_plan(&plan, &vec![], None);
    assert_eq!(plain(&lines)[1], "  COMMIT PLAN \u{b7} 1 commit");
}

#[test]
fn rebase_rendering() {
    let plan = ReorganizePlan {
        commits: vec![
            ReorganizedCommit { original_sha: "abc".into(), action: "squash".into(), message: "m".into(), body: Some("b".into()), footer: None },
            ReorganizedCommit { original_sha: "def".into(), action: "weird".into(), message: "n".into(), body: None, footer: None },
        ],
    };
    let lines = render_rebase_plan(&plan);
    let text = plain(&lines);
    assert_eq!(text[1], "  REBASE PLAN \u{b7} 2 commits");
    assert_eq!(text[4], "  squash abc m");
    assert_eq!(text[5], "   \u{2502}  b");
    assert_eq!(text[6], "  weird def n");
    assert_eq!(lines[4][1].style, Style::Magenta);
    assert_eq!(lines[6][1].style, Style::Plain);
    assert_eq!(text.len(), 10);
}

#[test]
fn progress_and_summaries() {
    assert_eq!(plain(&render_commit_start(2, 5, "feat: x")), vec!["".to_string(), "  [2/5] feat: x".to_string()]);
    let s = plain(&render_summary(&[("abc".to_string(), "m".to_string())]));
    assert_eq!(s, vec!["", "  \u{2713} 1 commit created", "", "    abc  m", ""]);
    let inv = plain(&render_invalid_messages(&[(2, "bad".to_string(), "why".to_string())]));
    assert_eq!(inv, vec!["", "  \u{26a0} 1 commit message failed validation:", "    [2] bad \u{2014} why", ""]);
    let failed = plain(&render_failed_commits(&[(1, "a".to_string(), "x".to_string()), (3, "b".to_string(), "y".to_string())]));
    assert_eq!(failed[0], "  \u{26a0} 2 commits failed:");
    assert_eq!(failed.len(), 4);
}

#[test]
fn done_detail_text() {
    assert_eq!(done_detail(1, ""), "1 commit");
    assert_eq!(done_detail(3, "cached"), "3 commits \u{b7} cached");
}

#[test]
fn usage_detail_text() {
    assert_eq!(sr_core::display::usage_detail(5, 999), " \u{b7} 5 in / 999 out");
    assert_eq!(sr_core::display::usage_detail(1234, 2_500_000), " \u{b7} 1.2k in / 2.5M out");
}
