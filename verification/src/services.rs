//! The requests sent to the AI backend for each task, and the checks made
//! before and after.

use vstd::prelude::*;
use crate::prompts::{
    BRANCH_SYSTEM_PROMPT, COMMIT_SCHEMA, PR_REVIEW_SYSTEM_PROMPT, PR_SCHEMA,
    PR_SYSTEM_PROMPT, REBASE_SCHEMA, REVIEW_SYSTEM_PROMPT,
};
use crate::text::{blank, join, strs, trim, trimmed};

verus! {

/// A request for the AI backend.
#[derive(Debug, Clone)]
pub struct PromptRequest {
    pub system_prompt: String,
    pub user_prompt: String,
    pub json_schema: Option<String>,
    pub working_dir: String,
}

pub struct RequestModel {
    pub system_prompt: Seq<char>,
    pub user_prompt: Seq<char>,
    pub json_schema: Option<Seq<char>>,
    pub working_dir: Seq<char>,
}

impl View for PromptRequest {
    type V = RequestModel;

    open spec fn view(&self) -> RequestModel {
        RequestModel {
            system_prompt: self.system_prompt@,
            user_prompt: self.user_prompt@,
            json_schema: match self.json_schema {
                Some(s) => Some(s@),
                None => None,
            },
            working_dir: self.working_dir@,
        }
    }
}

/// The view of an optional string slice.
pub open spec fn opt_str(o: Option<&str>) -> Option<Seq<char>> {
    match o {
        Some(s) => Some(s@),
        None => None,
    }
}

/// `label` and `text` when `text` is given, nothing otherwise.
pub open spec fn labelled(label: Seq<char>, text: Option<Seq<char>>) -> Seq<char> {
    match text {
        Some(t) => label + t,
        None => Seq::empty(),
    }
}

fn append_labelled(out: &mut String, label: &str, text: Option<&str>)
    ensures
        final(out)@ == old(out)@ + labelled(label@, opt_str(text)),
{
    match text {
        Some(t) => {
            out.append(label);
            out.append(t);
        },
        None => {},
    }
}

/// Why a task was refused before anything was asked of the backend.
#[derive(Debug, Clone, PartialEq, Eq, Structural)]
pub enum ServiceError {
    /// The diff to review is empty or only white space.
    NoChangesToReview,
    /// The pull request's diff is empty or only white space.
    PrHasNoChanges,
}

impl ServiceError {
    /// The text that tells the user what went wrong.
    pub fn message(&self) -> (r: String)
        ensures
            r@ == match self {
                ServiceError::NoChangesToReview => "no changes to review"@,
                ServiceError::PrHasNoChanges => "PR has no changes to review"@,
            },
    {
        match self {
            ServiceError::NoChangesToReview => "no changes to review".to_owned(),
            ServiceError::PrHasNoChanges => "PR has no changes to review".to_owned(),
        }
    }
}

// ---------------------------------------------------------------------------
// Review of a local diff
// ---------------------------------------------------------------------------

/// A local diff to review, with optional extra instructions.
pub struct ReviewInput<'a> {
    pub diff: &'a str,
    pub message: Option<&'a str>,
}

pub open spec fn review_user_prompt(diff: Seq<char>, message: Option<Seq<char>>) -> Seq<char> {
    "Review this diff:\n\n"@ + diff + labelled("\n\nAdditional context: "@, message)
}

/// The request that reviews a local diff; refused when the diff is blank.
pub fn review_request(input: &ReviewInput, working_dir: &str) -> (r: Result<PromptRequest, ServiceError>)
    ensures
        trimmed(input.diff@).len() == 0 ==> r == Err::<PromptRequest, ServiceError>(ServiceError::NoChangesToReview),
        trimmed(input.diff@).len() != 0 ==> (r matches Ok(req) && req@ == (RequestModel {
            system_prompt: REVIEW_SYSTEM_PROMPT@,
            user_prompt: review_user_prompt(input.diff@, opt_str(input.message)),
            json_schema: None,
            working_dir: working_dir@,
        })),
{
    if blank(input.diff) {
        return Err(ServiceError::NoChangesToReview);
    }
    let mut user = "Review this diff:\n\n".to_owned();
    user.append(input.diff);
    append_labelled(&mut user, "\n\nAdditional context: ", input.message);
    Ok(PromptRequest {
        system_prompt: REVIEW_SYSTEM_PROMPT.to_owned(),
        user_prompt: user,
        json_schema: None,
        working_dir: working_dir.to_owned(),
    })
}

// ---------------------------------------------------------------------------
// Review of a pull request
// ---------------------------------------------------------------------------

/// A pull request to review.
pub struct PrReviewInput<'a> {
    pub title: &'a str,
    pub description: Option<&'a str>,
    pub author: &'a str,
    pub base: &'a str,
    pub head: &'a str,
    pub diff: &'a str,
    pub message: Option<&'a str>,
}

/// The description paragraph, when there is a non-empty description.
pub open spec fn description_part(description: Option<Seq<char>>) -> Seq<char> {
    match description {
        Some(d) => if d.len() > 0 { "\nDescription:\n"@ + d + "\n"@ } else { Seq::empty() },
        None => Seq::empty(),
    }
}

pub open spec fn pr_review_user_prompt(
    title: Seq<char>,
    description: Option<Seq<char>>,
    author: Seq<char>,
    base: Seq<char>,
    head: Seq<char>,
    diff: Seq<char>,
    message: Option<Seq<char>>,
) -> Seq<char> {
    "Review this pull request:\n\nTitle: "@ + title + "\nAuthor: "@ + author + "\nBase: "@ + base
        + " \u{2190} "@ + head + "\n"@ + description_part(description) + "\nDiff:\n"@ + diff
        + labelled("\n\nAdditional context for this review: "@, message)
}

/// The request that reviews a pull request; refused when its diff is blank.
pub fn review_pr_request(input: &PrReviewInput, working_dir: &str) -> (r: Result<PromptRequest, ServiceError>)
    ensures
        trimmed(input.diff@).len() == 0 ==> r == Err::<PromptRequest, ServiceError>(ServiceError::PrHasNoChanges),
        trimmed(input.diff@).len() != 0 ==> (r matches Ok(req) && req@ == (RequestModel {
            system_prompt: PR_REVIEW_SYSTEM_PROMPT@,
            user_prompt: pr_review_user_prompt(
                input.title@,
                opt_str(input.description),
                input.author@,
                input.base@,
                input.head@,
                input.diff@,
                opt_str(input.message),
            ),
            json_schema: None,
            working_dir: working_dir@,
        })),
{
    if blank(input.diff) {
        return Err(ServiceError::PrHasNoChanges);
    }
    let mut user = "Review this pull request:\n\nTitle: ".to_owned();
    user.append(input.title);
    user.append("\nAuthor: ");
    user.append(input.author);
    user.append("\nBase: ");
    user.append(input.base);
    user.append(" \u{2190} ");
    user.append(input.head);
    user.append("\n");
    match input.description {
        Some(d) => {
            if !d.is_empty() {
                user.append("\nDescription:\n");
                user.append(d);
                user.append("\n");
            }
        },
        None => {},
    }
    user.append("\nDiff:\n");
    user.append(input.diff);
    append_labelled(&mut user, "\n\nAdditional context for this review: ", input.message);
    proof {
        assert(user@ =~= pr_review_user_prompt(
            input.title@,
            opt_str(input.description),
            input.author@,
            input.base@,
            input.head@,
            input.diff@,
            opt_str(input.message),
        ));
    }
    Ok(PromptRequest {
        system_prompt: PR_REVIEW_SYSTEM_PROMPT.to_owned(),
        user_prompt: user,
        json_schema: None,
        working_dir: working_dir.to_owned(),
    })
}

// ---------------------------------------------------------------------------
// Pull request text
// ---------------------------------------------------------------------------

/// The title and body of a pull request.
#[derive(Debug, Clone)]
pub struct PrContent {
    pub title: String,
    pub body: String,
}

/// The branch a pull request targets, and optional extra instructions.
pub struct PrInput<'a> {
    pub base: &'a str,
    pub message: Option<&'a str>,
}

/// The revision range of the branch's own commits: `base..HEAD`.
pub fn pr_log_range(base: &str) -> (r: String)
    ensures
        r@ == base@ + "..HEAD"@,
{
    let mut r = base.to_owned();
    r.append("..HEAD");
    r
}

pub open spec fn pr_user_prompt(
    branch: Seq<char>,
    base: Seq<char>,
    log: Seq<char>,
    diff: Seq<char>,
    message: Option<Seq<char>>,
) -> Seq<char> {
    "Generate a PR title and body for branch '"@ + branch + "' targeting '"@ + base
        + "'.\n\nCommits:\n"@ + log + "\n\nDiff:\n"@ + diff + labelled(
        "\n\nAdditional context: "@,
        message,
    )
}

/// The request that writes a pull request's title and body from the
/// branch's commits and diff.
pub fn pr_request(input: &PrInput, branch: &str, log: &str, diff: &str, working_dir: &str) -> (r: PromptRequest)
    ensures
        r@ == (RequestModel {
            system_prompt: PR_SYSTEM_PROMPT@,
            user_prompt: pr_user_prompt(branch@, input.base@, log@, diff@, opt_str(input.message)),
            json_schema: Some(PR_SCHEMA@),
            working_dir: working_dir@,
        }),
{
    let mut user = "Generate a PR title and body for branch '".to_owned();
    user.append(branch);
    user.append("' targeting '");
    user.append(input.base);
    user.append("'.\n\nCommits:\n");
    user.append(log);
    user.append("\n\nDiff:\n");
    user.append(diff);
    append_labelled(&mut user, "\n\nAdditional context: ", input.message);
    PromptRequest {
        system_prompt: PR_SYSTEM_PROMPT.to_owned(),
        user_prompt: user,
        json_schema: Some(PR_SCHEMA.to_owned()),
        working_dir: working_dir.to_owned(),
    }
}

// ---------------------------------------------------------------------------
// Branch names
// ---------------------------------------------------------------------------

/// Optional description of the work the branch is for.
pub struct BranchInput<'a> {
    pub context: Option<&'a str>,
}

pub open spec fn branch_user_prompt(context: Option<Seq<char>>, status: Seq<char>, diff: Seq<char>) -> Seq<char> {
    match context {
        Some(c) => "Suggest a branch name for: "@ + c,
        None => "Based on these changes, suggest a branch name:\n\nStatus:\n"@ + status
            + "\n\nDiff:\n"@ + diff,
    }
}

/// The request that suggests a branch name: from the given context, or else
/// from the working tree's status and diff.
pub fn branch_request(input: &BranchInput, status: &str, diff: &str, working_dir: &str) -> (r: PromptRequest)
    ensures
        r@ == (RequestModel {
            system_prompt: BRANCH_SYSTEM_PROMPT@,
            user_prompt: branch_user_prompt(opt_str(input.context), status@, diff@),
            json_schema: None,
            working_dir: working_dir@,
        }),
{
    let user = match input.context {
        Some(c) => {
            let mut u = "Suggest a branch name for: ".to_owned();
            u.append(c);
            u
        },
        None => {
            let mut u = "Based on these changes, suggest a branch name:\n\nStatus:\n".to_owned();
            u.append(status);
            u.append("\n\nDiff:\n");
            u.append(diff);
            u
        },
    };
    PromptRequest {
        system_prompt: BRANCH_SYSTEM_PROMPT.to_owned(),
        user_prompt: user,
        json_schema: None,
        working_dir: working_dir.to_owned(),
    }
}

/// The branch name in the backend's reply: the reply without surrounding
/// white space.
pub fn branch_name_from_reply(text: &str) -> (r: String)
    ensures
        r@ == trimmed(text@),
{
    trim(text)
}

// ---------------------------------------------------------------------------
// Commit and rebase plans
// ---------------------------------------------------------------------------

/// The model name shown to the user: the configured one, or `default`.
pub fn model_name(model: &Option<String>) -> (r: String)
    ensures
        r@ == match model {
            Some(m) => m@,
            None => "default"@,
        },
{
    match model {
        Some(m) => m.clone(),
        None => "default".to_owned(),
    }
}

/// The type names joined by a comma and a space.
pub fn type_list(type_names: &[&str]) -> (r: String)
    ensures
        r@ == join(type_names@.map_values(|t: &str| t@), ", "@),
{
    let ghost names = type_names@.map_values(|t: &str| t@);
    let mut out = String::new();
    for i in 0..type_names.len()
        invariant
            names == type_names@.map_values(|t: &str| t@),
            out@ == join(names.take(i as int), ", "@),
    {
        proof {
            assert(names.take(i + 1).drop_last() =~= names.take(i as int));
        }
        if i > 0 {
            out.append(", ");
        }
        out.append(type_names[i]);
        proof {
            if i == 0 {
                assert(out@ =~= join(names.take(1), ", "@));
            }
        }
    }
    proof {
        assert(names.take(type_names@.len() as int) =~= names);
    }
    out
}

pub open spec fn conventions(pattern: Seq<char>, types: Seq<char>) -> Seq<char> {
    "Every commit message subject must match the regular expression "@ + pattern
        + " and use one of these types: "@ + types + ".\n"@
}

pub open spec fn commit_system_prompt(pattern: Seq<char>, types: Seq<char>) -> Seq<char> {
    "You group the changes of a git working tree into a sequence of atomic commits. Each commit gets a message subject, an optional body that explains why, an optional footer, and the list of files it stages. Every changed file belongs to exactly one commit.\n"@
        + conventions(pattern, types)
}

pub open spec fn commit_user_prompt(staged_only: bool, root: Seq<char>, message: Option<Seq<char>>) -> Seq<char> {
    "Plan the commits for the "@ + (if staged_only { "staged changes"@ } else { "changes"@ })
        + " of the repository at "@ + root + ". Inspect them with git, then answer with JSON that matches the schema."@
        + labelled("\n\nAdditional context: "@, message)
}

pub open spec fn rebase_system_prompt(pattern: Seq<char>, types: Seq<char>) -> Seq<char> {
    "You reorganize the recent history of a git branch. For each commit, oldest first, choose an action (pick, reword, squash or drop) and write its new message subject, optional body and optional footer. A squash joins the commit into the picked commit before it.\n"@
        + conventions(pattern, types)
}

pub open spec fn rebase_user_prompt(log: Seq<char>, message: Option<Seq<char>>) -> Seq<char> {
    "Reorganize these commits, oldest first:\n\n"@ + log + labelled("\n\nAdditional context: "@, message)
}

fn append_conventions(out: &mut String, pattern: &str, type_names: &[&str])
    ensures
        final(out)@ == old(out)@ + conventions(pattern@, join(type_names@.map_values(|t: &str| t@), ", "@)),
{
    out.append("Every commit message subject must match the regular expression ");
    out.append(pattern);
    out.append(" and use one of these types: ");
    let types = type_list(type_names);
    out.append(types.as_str());
    out.append(".\n");
}

/// The request that plans the commits of the working tree.
pub fn commit_request(
    staged_only: bool,
    root: &str,
    message: Option<&str>,
    commit_pattern: &str,
    type_names: &[&str],
) -> (r: PromptRequest)
    ensures
        r@ == (RequestModel {
            system_prompt: commit_system_prompt(commit_pattern@, join(type_names@.map_values(|t: &str| t@), ", "@)),
            user_prompt: commit_user_prompt(staged_only, root@, opt_str(message)),
            json_schema: Some(COMMIT_SCHEMA@),
            working_dir: root@,
        }),
{
    let mut system = "You group the changes of a git working tree into a sequence of atomic commits. Each commit gets a message subject, an optional body that explains why, an optional footer, and the list of files it stages. Every changed file belongs to exactly one commit.\n".to_owned();
    append_conventions(&mut system, commit_pattern, type_names);
    let mut user = "Plan the commits for the ".to_owned();
    if staged_only {
        user.append("staged changes");
    } else {
        user.append("changes");
    }
    user.append(" of the repository at ");
    user.append(root);
    user.append(". Inspect them with git, then answer with JSON that matches the schema.");
    append_labelled(&mut user, "\n\nAdditional context: ", message);
    PromptRequest {
        system_prompt: system,
        user_prompt: user,
        json_schema: Some(COMMIT_SCHEMA.to_owned()),
        working_dir: root.to_owned(),
    }
}

pub open spec fn patch_user_prompt(
    staged_only: bool,
    root: Seq<char>,
    message: Option<Seq<char>>,
    plan_json: Seq<char>,
    unplaced: Seq<char>,
    delta_summary: Seq<char>,
) -> Seq<char> {
    commit_user_prompt(staged_only, root, message) + "\n\nAn earlier plan for similar changes exists:\n"@ + plan_json
        + "\n\nThese files have no commit yet:\n"@ + unplaced + "\n\nWhat changed since:\n"@ + delta_summary
        + "\n\nKeep the earlier plan where it still fits and place every file."@
}

/// The request that completes a cached plan with the files it misses.
pub fn patch_request(
    staged_only: bool,
    root: &str,
    message: Option<&str>,
    plan_json: &str,
    unplaced_files: &Vec<String>,
    delta_summary: &str,
    commit_pattern: &str,
    type_names: &[&str],
) -> (r: PromptRequest)
    ensures
        r@ == (RequestModel {
            system_prompt: commit_system_prompt(commit_pattern@, join(type_names@.map_values(|t: &str| t@), ", "@)),
            user_prompt: patch_user_prompt(
                staged_only,
                root@,
                opt_str(message),
                plan_json@,
                join(strs(unplaced_files@), "\n"@),
                delta_summary@,
            ),
            json_schema: Some(COMMIT_SCHEMA@),
            working_dir: root@,
        }),
{
    let fresh = commit_request(staged_only, root, message, commit_pattern, type_names);
    let mut user = fresh.user_prompt;
    user.append("\n\nAn earlier plan for similar changes exists:\n");
    user.append(plan_json);
    user.append("\n\nThese files have no commit yet:\n");
    let files = crate::text::join_strings(unplaced_files, "\n");
    user.append(files.as_str());
    user.append("\n\nWhat changed since:\n");
    user.append(delta_summary);
    user.append("\n\nKeep the earlier plan where it still fits and place every file.");
    PromptRequest {
        system_prompt: fresh.system_prompt,
        user_prompt: user,
        json_schema: fresh.json_schema,
        working_dir: fresh.working_dir,
    }
}

/// The request that plans a rebase of the commits in `log`.
pub fn rebase_request(
    log: &str,
    message: Option<&str>,
    commit_pattern: &str,
    type_names: &[&str],
    working_dir: &str,
) -> (r: PromptRequest)
    ensures
        r@ == (RequestModel {
            system_prompt: rebase_system_prompt(commit_pattern@, join(type_names@.map_values(|t: &str| t@), ", "@)),
            user_prompt: rebase_user_prompt(log@, opt_str(message)),
            json_schema: Some(REBASE_SCHEMA@),
            working_dir: working_dir@,
        }),
{
    let mut system = "You reorganize the recent history of a git branch. For each commit, oldest first, choose an action (pick, reword, squash or drop) and write its new message subject, optional body and optional footer. A squash joins the commit into the picked commit before it.\n".to_owned();
    append_conventions(&mut system, commit_pattern, type_names);
    let mut user = "Reorganize these commits, oldest first:\n\n".to_owned();
    user.append(log);
    append_labelled(&mut user, "\n\nAdditional context: ", message);
    PromptRequest {
        system_prompt: system,
        user_prompt: user,
        json_schema: Some(REBASE_SCHEMA.to_owned()),
        working_dir: working_dir.to_owned(),
    }
}

} // verus!
