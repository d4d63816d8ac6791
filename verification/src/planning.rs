//! The decisions around producing a commit plan: when to plan at all, where
//! the plan comes from, and what is done with it before it is shown.

use vstd::prelude::*;
use crate::plan::{validate_plan, spec_validate_plan_holds, CommitPlan};

verus! {

/// Where the plan that is shown came from.
#[derive(Debug, Clone, Copy, PartialEq, Eq, Structural)]
pub enum CacheStatus {
    /// Planned by the backend from scratch.
    NotCached,
    /// Reused from the cache as it was.
    Cached,
    /// Taken from the cache, adjusted to the changed files without the backend.
    Patched,
    /// Taken from the cache and completed by the backend.
    PatchedWithAi,
}

/// The options of a commit planning run.
pub struct PlanInput<'a> {
    pub staged_only: bool,
    pub message: Option<&'a str>,
    pub no_cache: bool,
    pub commit_pattern: &'a str,
    pub type_names: &'a [&'a str],
}

/// Token counts of a backend call.
#[derive(Debug, Clone, Copy)]
pub struct TokenUsage {
    pub input_tokens: u64,
    pub output_tokens: u64,
}

/// A plan ready to be shown, where it came from, and the status letter of
/// each changed file.
pub struct PlanResult {
    pub plan: CommitPlan,
    pub cache_status: CacheStatus,
    pub statuses: Vec<(String, char)>,
}

/// Which backend planned, with which model, over how many files, at what cost in tokens.
pub struct PlanMetrics {
    pub backend_name: String,
    pub model_name: String,
    pub file_count: usize,
    pub usage: Option<TokenUsage>,
}

/// What the plan cache holds for the current changes.
pub enum CacheLookup {
    /// A plan for exactly these changes.
    ExactHit(CommitPlan),
    /// A plan for earlier changes, adjusted; some files found no commit.
    PatchHit { plan: CommitPlan, unplaced_files: Vec<String>, delta_summary: String },
    /// Nothing usable.
    Miss,
}

/// Where the plan has to come from.
pub enum PlanSource {
    /// Use this plan as it is.
    Reuse(CommitPlan, CacheStatus),
    /// Ask the backend to place the unplaced files into this plan.
    Patch { plan: CommitPlan, unplaced_files: Vec<String>, delta_summary: String },
    /// Ask the backend for a new plan.
    Fresh,
}

/// Decide where the plan comes from, given what the cache holds (nothing
/// when the cache is not used): an exact hit is reused, a patched plan with
/// every file placed is reused, a patched plan with unplaced files goes to
/// the backend to be completed, and otherwise the backend plans afresh.
pub fn plan_source(lookup: Option<CacheLookup>) -> (r: PlanSource)
    ensures
        match lookup {
            Some(CacheLookup::ExactHit(p)) => r == PlanSource::Reuse(p, CacheStatus::Cached),
            Some(CacheLookup::PatchHit { plan, unplaced_files, delta_summary }) =>
                if unplaced_files@.len() == 0 {
                    r == PlanSource::Reuse(plan, CacheStatus::Patched)
                } else {
                    r == (PlanSource::Patch { plan, unplaced_files, delta_summary })
                },
            _ => r == PlanSource::Fresh,
        },
{
    match lookup {
        Some(CacheLookup::ExactHit(p)) => PlanSource::Reuse(p, CacheStatus::Cached),
        Some(CacheLookup::PatchHit { plan, unplaced_files, delta_summary }) => {
            if unplaced_files.len() == 0 {
                PlanSource::Reuse(plan, CacheStatus::Patched)
            } else {
                PlanSource::Patch { plan, unplaced_files, delta_summary }
            }
        },
        _ => PlanSource::Fresh,
    }
}

/// The status to report for a plan that the backend produced for `source`.
pub fn backend_status(source: &PlanSource) -> (r: CacheStatus)
    ensures
        r == match source {
            PlanSource::Patch { .. } => CacheStatus::PatchedWithAi,
            _ => CacheStatus::NotCached,
        },
{
    match source {
        PlanSource::Patch { .. } => CacheStatus::PatchedWithAi,
        _ => CacheStatus::NotCached,
    }
}

/// Why no commit plan could be made.
#[derive(Debug, Clone, Copy, PartialEq, Eq, Structural)]
pub enum PlanError {
    /// There is nothing to commit.
    NoChanges,
    /// The backend planned no commit.
    EmptyPlan,
}

impl PlanError {
    /// The text that tells the user what went wrong.
    pub fn message(&self) -> (r: String)
        ensures
            r@ == match self {
                PlanError::NoChanges => "no changes to commit"@,
                PlanError::EmptyPlan => "AI returned an empty commit plan"@,
            },
    {
        match self {
            PlanError::NoChanges => "no changes to commit".to_owned(),
            PlanError::EmptyPlan => "AI returned an empty commit plan".to_owned(),
        }
    }
}

/// Planning needs changes to plan.
pub fn check_changes(has_changes: bool) -> (r: Result<(), PlanError>)
    ensures
        r == (if has_changes { Ok(()) } else { Err(PlanError::NoChanges) }),
{
    if has_changes {
        Ok(())
    } else {
        Err(PlanError::NoChanges)
    }
}

/// Refuse an empty plan; otherwise merge the commits that share files.
pub fn finish_plan(plan: CommitPlan) -> (r: Result<CommitPlan, PlanError>)
    requires
        plan@.len() < u32::MAX,
    ensures
        plan@.len() == 0 ==> r == Err::<CommitPlan, PlanError>(PlanError::EmptyPlan),
        plan@.len() != 0 ==> (r matches Ok(p) && spec_validate_plan_holds(plan@, p@)),
{
    if plan.commits.len() == 0 {
        return Err(PlanError::EmptyPlan);
    }
    Ok(validate_plan(plan))
}

} // verus!
