//! Applying a commit plan to a repository, as a state machine: the machine
//! says which repository operation comes next and what each reply means;
//! `execute_plan` drives it against a repository given as a function.

use vstd::prelude::*;
use crate::plan::{CommitModel, CommitPlan};
use crate::text::{full_message, spec_full_message};

verus! {

/// What became of one planned commit.
#[derive(Debug)]
pub enum CommitOutcome {
    Created { sha: String, message: String },
    Skipped { message: String },
    Failed { index: usize, message: String, error: String },
}

pub enum OutcomeModel {
    Created { sha: Seq<char>, message: Seq<char> },
    Skipped { message: Seq<char> },
    Failed { index: int, message: Seq<char>, error: Seq<char> },
}

impl View for CommitOutcome {
    type V = OutcomeModel;

    open spec fn view(&self) -> OutcomeModel {
        match self {
            CommitOutcome::Created { sha, message } => OutcomeModel::Created {
                sha: sha@,
                message: message@,
            },
            CommitOutcome::Skipped { message } => OutcomeModel::Skipped { message: message@ },
            CommitOutcome::Failed { index, message, error } => OutcomeModel::Failed {
                index: *index as int,
                message: message@,
                error: error@,
            },
        }
    }
}

pub open spec fn outcomes_view(v: Seq<CommitOutcome>) -> Seq<OutcomeModel> {
    v.map_values(|o: CommitOutcome| o@)
}

/// A repository operation that the plan asks for.
#[derive(Debug)]
pub enum RepoAction {
    /// Unstage everything (`git reset HEAD`).
    ResetHead,
    /// Stage one file.
    StageFile(String),
    /// Ask whether anything is staged.
    CheckStaged,
    /// Commit what is staged with this message.
    Commit(String),
    /// Ask for the short hash of HEAD.
    HeadShort,
}

pub enum ActionModel {
    ResetHead,
    StageFile(Seq<char>),
    CheckStaged,
    Commit(Seq<char>),
    HeadShort,
}

impl View for RepoAction {
    type V = ActionModel;

    open spec fn view(&self) -> ActionModel {
        match self {
            RepoAction::ResetHead => ActionModel::ResetHead,
            RepoAction::StageFile(f) => ActionModel::StageFile(f@),
            RepoAction::CheckStaged => ActionModel::CheckStaged,
            RepoAction::Commit(m) => ActionModel::Commit(m@),
            RepoAction::HeadShort => ActionModel::HeadShort,
        }
    }
}

/// The repository's answer to an action.
#[derive(Debug)]
pub enum RepoReply {
    /// The operation succeeded.
    Done,
    /// Answer to `CheckStaged`.
    Staged(bool),
    /// Answer to `HeadShort`.
    Sha(String),
    /// The operation failed, with this error text.
    Error(String),
}

pub enum ReplyModel {
    Done,
    Staged(bool),
    Sha(Seq<char>),
    Error(Seq<char>),
}

impl View for RepoReply {
    type V = ReplyModel;

    open spec fn view(&self) -> ReplyModel {
        match self {
            RepoReply::Done => ReplyModel::Done,
            RepoReply::Staged(b) => ReplyModel::Staged(*b),
            RepoReply::Sha(s) => ReplyModel::Sha(s@),
            RepoReply::Error(e) => ReplyModel::Error(e@),
        }
    }
}

pub open spec fn replies_view(v: Seq<RepoReply>) -> Seq<ReplyModel> {
    v.map_values(|r: RepoReply| r@)
}

/// Where the execution of a plan stands.
#[derive(Debug, Clone, Copy, PartialEq, Eq, Structural)]
pub enum Step {
    /// Unstage everything before the first commit.
    Reset,
    /// Stage the current file of the current commit.
    Stage,
    /// Ask whether the current commit has anything staged.
    Check,
    /// Create the current commit.
    Commit,
    /// Read the hash of the commit just created.
    Sha,
    /// Unstage everything after a failed commit.
    Recover,
    /// Nothing is left to do.
    Finished,
}

/// The state of a plan's execution.
pub struct PlanRun {
    commit: usize,
    file: usize,
    step: Step,
    outcomes: Vec<CommitOutcome>,
    error: Option<String>,
}

pub struct RunModel {
    pub commit: int,
    pub file: int,
    pub step: Step,
    pub outcomes: Seq<OutcomeModel>,
    pub error: Option<Seq<char>>,
}

impl View for PlanRun {
    type V = RunModel;

    closed spec fn view(&self) -> RunModel {
        RunModel {
            commit: self.commit as int,
            file: self.file as int,
            step: self.step,
            outcomes: outcomes_view(self.outcomes@),
            error: match self.error {
                Some(e) => Some(e@),
                None => None,
            },
        }
    }
}

/// The state before anything has been done.
pub open spec fn initial_run() -> RunModel {
    RunModel { commit: 0, file: 0, step: Step::Reset, outcomes: Seq::empty(), error: None }
}

/// Move on to commit `i`: stage its first file, or check at once when it has
/// none; finish after the last commit.
pub open spec fn enter(cs: Seq<CommitModel>, i: int, outs: Seq<OutcomeModel>) -> RunModel {
    if i >= cs.len() {
        RunModel { commit: i, file: 0, step: Step::Finished, outcomes: outs, error: None }
    } else if cs[i].files.len() == 0 {
        RunModel { commit: i, file: 0, step: Step::Check, outcomes: outs, error: None }
    } else {
        RunModel { commit: i, file: 0, step: Step::Stage, outcomes: outs, error: None }
    }
}

/// Stop with an error: the whole execution fails with it.
pub open spec fn abort(st: RunModel, e: Seq<char>) -> RunModel {
    RunModel { commit: st.commit, file: st.file, step: Step::Finished, outcomes: st.outcomes, error: Some(e) }
}

/// The full message of a planned commit.
pub open spec fn commit_text(c: CommitModel) -> Seq<char> {
    spec_full_message(c.message, c.body, c.footer)
}

/// The placeholder hash used when HEAD's hash cannot be read.
pub open spec fn unknown_sha() -> Seq<char> {
    seq!['?', '?', '?', '?', '?', '?', '?']
}

/// The operation that the state asks for, or `None` when finished.
pub open spec fn spec_action(cs: Seq<CommitModel>, st: RunModel) -> Option<ActionModel> {
    match st.step {
        Step::Reset => Some(ActionModel::ResetHead),
        Step::Stage => Some(ActionModel::StageFile(cs[st.commit].files[st.file])),
        Step::Check => Some(ActionModel::CheckStaged),
        Step::Commit => Some(ActionModel::Commit(commit_text(cs[st.commit]))),
        Step::Sha => Some(ActionModel::HeadShort),
        Step::Recover => Some(ActionModel::ResetHead),
        Step::Finished => None,
    }
}

/// The state after the repository answered the state's operation with `reply`.
pub open spec fn spec_next(cs: Seq<CommitModel>, st: RunModel, reply: ReplyModel) -> RunModel {
    let i = st.commit;
    match st.step {
        Step::Reset => match reply {
            ReplyModel::Error(e) => abort(st, e),
            _ => enter(cs, 0, st.outcomes),
        },
        Step::Stage => match reply {
            ReplyModel::Error(e) => abort(st, e),
            _ => if st.file + 1 < cs[i].files.len() {
                RunModel { file: st.file + 1, ..st }
            } else {
                RunModel { file: 0, step: Step::Check, ..st }
            },
        },
        Step::Check => match reply {
            ReplyModel::Error(e) => abort(st, e),
            ReplyModel::Staged(true) => RunModel { step: Step::Commit, ..st },
            _ => enter(
                cs,
                i + 1,
                st.outcomes.push(OutcomeModel::Skipped { message: cs[i].message }),
            ),
        },
        Step::Commit => match reply {
            ReplyModel::Error(e) => RunModel {
                step: Step::Recover,
                outcomes: st.outcomes.push(
                    OutcomeModel::Failed { index: i + 1, message: cs[i].message, error: e },
                ),
                ..st
            },
            _ => RunModel { step: Step::Sha, ..st },
        },
        Step::Sha => {
            let sha = match reply {
                ReplyModel::Sha(s) => s,
                _ => unknown_sha(),
            };
            enter(
                cs,
                i + 1,
                st.outcomes.push(OutcomeModel::Created { sha: sha, message: cs[i].message }),
            )
        },
        Step::Recover => match reply {
            ReplyModel::Error(e) => abort(st, e),
            _ => enter(cs, i + 1, st.outcomes),
        },
        Step::Finished => st,
    }
}

/// The state reached from the start through `replies`.
pub open spec fn run_replies(cs: Seq<CommitModel>, replies: Seq<ReplyModel>) -> RunModel
    decreases replies.len(),
{
    if replies.len() == 0 {
        initial_run()
    } else {
        spec_next(cs, run_replies(cs, replies.drop_last()), replies.last())
    }
}

/// What a finished execution amounts to: its error, or the outcome of every
/// commit.
pub open spec fn spec_result(st: RunModel) -> Result<Seq<OutcomeModel>, Seq<char>> {
    match st.error {
        Some(e) => Err(e),
        None => Ok(st.outcomes),
    }
}

pub open spec fn result_view(r: Result<Vec<CommitOutcome>, String>) -> Result<Seq<OutcomeModel>, Seq<char>> {
    match r {
        Ok(v) => Ok(outcomes_view(v@)),
        Err(e) => Err(e@),
    }
}

/// The state is one that the machine can be in for this plan.
pub open spec fn run_wf(cs: Seq<CommitModel>, st: RunModel) -> bool {
    &&& 0 <= st.commit <= cs.len()
    &&& 0 <= st.file
    &&& st.step == Step::Reset ==> st.commit == 0 && st.error is None
    &&& st.step == Step::Stage ==> st.commit < cs.len() && st.file < cs[st.commit].files.len()
    &&& (st.step == Step::Check || st.step == Step::Commit || st.step == Step::Sha || st.step
        == Step::Recover) ==> st.commit < cs.len()
    &&& st.error is Some ==> st.step == Step::Finished
}

/// The repository operations that commits `i..` need at most.
pub open spec fn work_from(cs: Seq<CommitModel>, i: int) -> int
    decreases cs.len() - i,
{
    if i < 0 || i >= cs.len() {
        0
    } else {
        cs[i].files.len() + 5 + work_from(cs, i + 1)
    }
}

/// How much work is left, a number that every step lowers.
pub open spec fn run_measure(cs: Seq<CommitModel>, st: RunModel) -> int {
    let i = st.commit;
    match st.step {
        Step::Reset => work_from(cs, 0) + 1,
        Step::Stage => (cs[i].files.len() - st.file) + 4 + work_from(cs, i + 1),
        Step::Check => 3 + work_from(cs, i + 1),
        Step::Commit => 2 + work_from(cs, i + 1),
        Step::Sha => 1 + work_from(cs, i + 1),
        Step::Recover => 1 + work_from(cs, i + 1),
        Step::Finished => 0,
    }
}

proof fn lemma_work_nonneg(cs: Seq<CommitModel>, i: int)
    ensures
        work_from(cs, i) >= 0,
    decreases cs.len() - i,
{
    if 0 <= i < cs.len() {
        lemma_work_nonneg(cs, i + 1);
    }
}

proof fn lemma_enter_measure(cs: Seq<CommitModel>, i: int, outs: Seq<OutcomeModel>)
    requires
        0 <= i,
    ensures
        0 <= run_measure(cs, enter(cs, i, outs)),
        i < cs.len() ==> run_measure(cs, enter(cs, i, outs)) < work_from(cs, i),
        i >= cs.len() ==> run_measure(cs, enter(cs, i, outs)) == 0,
{
    lemma_work_nonneg(cs, i + 1);
}

/// Every step that is taken lowers the work left.
pub proof fn lemma_next_decreases(cs: Seq<CommitModel>, st: RunModel, reply: ReplyModel)
    requires
        run_wf(cs, st),
        st.step != Step::Finished,
    ensures
        0 <= run_measure(cs, spec_next(cs, st, reply)) < run_measure(cs, st),
{
    lemma_work_nonneg(cs, 0);
    lemma_work_nonneg(cs, st.commit + 1);
    lemma_enter_measure(cs, 0, st.outcomes);
    lemma_enter_measure(cs, st.commit + 1, st.outcomes);
    lemma_enter_measure(cs, st.commit + 1, st.outcomes.push(OutcomeModel::Skipped { message: cs[st.commit].message }));
    let sha = match reply {
        ReplyModel::Sha(s) => s,
        _ => unknown_sha(),
    };
    lemma_enter_measure(cs, st.commit + 1, st.outcomes.push(OutcomeModel::Created { sha: sha, message: cs[st.commit].message }));
}

/// Every step keeps the state well formed.
pub proof fn lemma_next_wf(cs: Seq<CommitModel>, st: RunModel, reply: ReplyModel)
    requires
        run_wf(cs, st),
    ensures
        run_wf(cs, spec_next(cs, st, reply)),
{
}

impl PlanRun {
    /// The state before anything has been done.
    pub fn new() -> (r: PlanRun)
        ensures
            r@ == initial_run(),
    {
        let r = PlanRun { commit: 0, file: 0, step: Step::Reset, outcomes: Vec::new(), error: None };
        proof {
            assert(outcomes_view(r.outcomes@) =~= Seq::empty());
        }
        r
    }

    /// Whether nothing is left to do.
    pub fn is_finished(&self) -> (r: bool)
        ensures
            r == (self@.step == Step::Finished),
    {
        self.step == Step::Finished
    }

    fn enter(plan: &CommitPlan, i: usize, outcomes: Vec<CommitOutcome>) -> (r: PlanRun)
        requires
            i <= plan@.len(),
        ensures
            r@ == enter(plan@, i as int, outcomes_view(outcomes@)),
    {
        if i >= plan.commits.len() {
            PlanRun { commit: i, file: 0, step: Step::Finished, outcomes, error: None }
        } else if plan.commits[i].files.len() == 0 {
            PlanRun { commit: i, file: 0, step: Step::Check, outcomes, error: None }
        } else {
            PlanRun { commit: i, file: 0, step: Step::Stage, outcomes, error: None }
        }
    }

    /// The repository operation that comes next, or `None` when finished.
    pub fn action(&self, plan: &CommitPlan) -> (a: Option<RepoAction>)
        requires
            run_wf(plan@, self@),
        ensures
            match a {
                Some(x) => spec_action(plan@, self@) == Some(x@),
                None => spec_action(plan@, self@) is None,
            },
    {
        match self.step {
            Step::Reset => Some(RepoAction::ResetHead),
            Step::Stage => Some(RepoAction::StageFile(plan.commits[self.commit].files[self.file].clone())),
            Step::Check => Some(RepoAction::CheckStaged),
            Step::Commit => {
                let c = &plan.commits[self.commit];
                Some(RepoAction::Commit(full_message(&c.message, &c.body, &c.footer)))
            },
            Step::Sha => Some(RepoAction::HeadShort),
            Step::Recover => Some(RepoAction::ResetHead),
            Step::Finished => None,
        }
    }

    /// The state after the repository answered the current operation with `reply`.
    pub fn advance(self, plan: &CommitPlan, reply: RepoReply) -> (r: PlanRun)
        requires
            run_wf(plan@, self@),
        ensures
            r@ == spec_next(plan@, self@, reply@),
            run_wf(plan@, r@),
    {
        proof {
            lemma_next_wf(plan@, self@, reply@);
        }
        let i = self.commit;
        // The lengths bound the indices below.
        let n = plan.commits.len();
        let flen = if i < n { plan.commits[i].files.len() } else { 0 };
        let ghost st = self@;
        match self.step {
            Step::Reset => match reply {
                RepoReply::Error(e) => PlanRun { step: Step::Finished, error: Some(e), ..self },
                _ => Self::enter(plan, 0, self.outcomes),
            },
            Step::Stage => match reply {
                RepoReply::Error(e) => PlanRun { step: Step::Finished, error: Some(e), ..self },
                _ => if self.file + 1 < flen {
                    PlanRun { file: self.file + 1, ..self }
                } else {
                    PlanRun { file: 0, step: Step::Check, ..self }
                },
            },
            Step::Check => match reply {
                RepoReply::Error(e) => PlanRun { step: Step::Finished, error: Some(e), ..self },
                RepoReply::Staged(true) => PlanRun { step: Step::Commit, ..self },
                _ => {
                    let mut outs = self.outcomes;
                    outs.push(CommitOutcome::Skipped { message: plan.commits[i].message.clone() });
                    proof {
                        assert(outcomes_view(outs@) =~= st.outcomes.push(
                            OutcomeModel::Skipped { message: plan@[i as int].message },
                        ));
                    }
                    Self::enter(plan, i + 1, outs)
                },
            },
            Step::Commit => match reply {
                RepoReply::Error(e) => {
                    let mut outs = self.outcomes;
                    let ghost ev = e@;
                    outs.push(
                        CommitOutcome::Failed {
                            index: i + 1,
                            message: plan.commits[i].message.clone(),
                            error: e,
                        },
                    );
                    proof {
                        assert(outcomes_view(outs@) =~= st.outcomes.push(
                            OutcomeModel::Failed {
                                index: i + 1,
                                message: plan@[i as int].message,
                                error: ev,
                            },
                        ));
                    }
                    PlanRun { step: Step::Recover, outcomes: outs, ..self }
                },
                _ => PlanRun { step: Step::Sha, ..self },
            },
            Step::Sha => {
                let sha = match reply {
                    RepoReply::Sha(s) => s,
                    _ => {
                        proof {
                            reveal_strlit("???????");
                            assert("???????"@ =~= unknown_sha());
                        }
                        "???????".to_owned()
                    },
                };
                let mut outs = self.outcomes;
                let ghost sv = sha@;
                assert(sv == match reply@ { ReplyModel::Sha(s) => s, _ => unknown_sha() });
                outs.push(CommitOutcome::Created { sha, message: plan.commits[i].message.clone() });
                proof {
                    assert(outcomes_view(outs@) =~= st.outcomes.push(
                        OutcomeModel::Created { sha: sv, message: plan@[i as int].message },
                    ));
                }
                Self::enter(plan, i + 1, outs)
            },
            Step::Recover => match reply {
                RepoReply::Error(e) => PlanRun { step: Step::Finished, error: Some(e), ..self },
                _ => Self::enter(plan, i + 1, self.outcomes),
            },
            Step::Finished => self,
        }
    }

    /// What the execution amounts to once finished.
    pub fn into_result(self) -> (r: Result<Vec<CommitOutcome>, String>)
        ensures
            result_view(r) == spec_result(self@),
    {
        match self.error {
            Some(e) => Err(e),
            None => Ok(self.outcomes),
        }
    }
}

/// The message of the commit that an outcome is about.
pub open spec fn outcome_message(o: OutcomeModel) -> Seq<char> {
    match o {
        OutcomeModel::Created { message, .. } => message,
        OutcomeModel::Skipped { message } => message,
        OutcomeModel::Failed { message, .. } => message,
    }
}

/// The outcomes recorded so far are those of the commits before the current
/// one, in order.
pub open spec fn outcomes_inv(cs: Seq<CommitModel>, st: RunModel) -> bool {
    let done = if st.step == Step::Recover { st.commit + 1 } else { st.commit };
    &&& run_wf(cs, st)
    &&& st.error is None ==> st.outcomes.len() == done
    &&& st.outcomes.len() <= done + 1
    &&& forall|k: int| 0 <= k < st.outcomes.len() ==> outcome_message(#[trigger] st.outcomes[k]) == cs[k].message
    &&& forall|k: int|
        0 <= k < st.outcomes.len() ==> (#[trigger] st.outcomes[k] matches OutcomeModel::Failed { index, .. }
            ==> index == k + 1)
    &&& st.step == Step::Finished && st.error is None ==> st.commit == cs.len()
}

proof fn lemma_outcomes_inv(cs: Seq<CommitModel>, reps: Seq<ReplyModel>)
    ensures
        outcomes_inv(cs, run_replies(cs, reps)),
    decreases reps.len(),
{
    if reps.len() > 0 {
        let st = run_replies(cs, reps.drop_last());
        lemma_outcomes_inv(cs, reps.drop_last());
        lemma_next_wf(cs, st, reps.last());
        let nx = spec_next(cs, st, reps.last());
        let done = if nx.step == Step::Recover { nx.commit + 1 } else { nx.commit };
        assert(reps =~= reps.drop_last().push(reps.last()));
        assert(run_replies(cs, reps) == nx);
        assert forall|k: int| 0 <= k < nx.outcomes.len() implies outcome_message(#[trigger] nx.outcomes[k])
            == cs[k].message && (nx.outcomes[k] matches OutcomeModel::Failed { index, .. } ==> index
            == k + 1) by {
            if k < st.outcomes.len() {
                assert(nx.outcomes[k] == st.outcomes[k]);
            }
        }
        assert(nx.step == Step::Finished && nx.error is None ==> nx.commit == cs.len());
    }
}

/// When the execution of a plan ends without an error, it reports one
/// outcome for each commit of the plan, in plan order, and a failed commit
/// carries its position in the plan, counted from 1.
pub proof fn law_execution_reports_every_commit(cs: Seq<CommitModel>, reps: Seq<ReplyModel>)
    requires
        run_replies(cs, reps).step == Step::Finished,
        spec_result(run_replies(cs, reps)) is Ok,
    ensures
        ({
            let outs = run_replies(cs, reps).outcomes;
            &&& outs.len() == cs.len()
            &&& forall|k: int| 0 <= k < cs.len() ==> outcome_message(#[trigger] outs[k]) == cs[k].message
            &&& forall|k: int|
                0 <= k < cs.len() ==> (#[trigger] outs[k] matches OutcomeModel::Failed { index, .. }
                    ==> index == k + 1)
        }),
{
    lemma_outcomes_inv(cs, reps);
}

/// `acts` and `reps` are the operations that the machine asked of `repo`
/// for `cs` and the replies that `repo` gave, in order, up to the end.
pub open spec fn is_execution<F: Fn(RepoAction) -> RepoReply>(
    cs: Seq<CommitModel>,
    repo: F,
    acts: Seq<RepoAction>,
    reps: Seq<RepoReply>,
) -> bool {
    &&& acts.len() == reps.len()
    &&& forall|k: int| 0 <= k < acts.len() ==> call_ensures(repo, (acts[k],), #[trigger] reps[k])
    &&& forall|k: int|
        0 <= k < acts.len() ==> spec_action(cs, run_replies(cs, replies_view(reps).take(k))) == Some(
            (#[trigger] acts[k])@,
        )
    &&& run_replies(cs, replies_view(reps)).step == Step::Finished
}

/// Apply a commit plan to a repository: unstage everything, then for each
/// commit stage its files and commit them if anything got staged. A commit
/// that fails is recorded and the index reset; a failure to stage, to check
/// or to reset aborts the whole execution with its error.
///
/// `repo` performs one repository operation and reports how it went.
pub fn execute_plan<F: Fn(RepoAction) -> RepoReply>(plan: &CommitPlan, repo: F) -> (r: Result<
    Vec<CommitOutcome>,
    String,
>)
    requires
        forall|a: RepoAction| call_requires(repo, (a,)),
    ensures
        exists|acts: Seq<RepoAction>, reps: Seq<RepoReply>|
            {
                &&& is_execution(plan@, repo, acts, reps)
                &&& result_view(r) == spec_result(run_replies(plan@, replies_view(reps)))
            },
{
    let mut run = PlanRun::new();
    let ghost mut acts: Seq<RepoAction> = Seq::empty();
    let ghost mut reps: Seq<RepoReply> = Seq::empty();
    proof {
        assert(replies_view(reps) =~= Seq::<ReplyModel>::empty());
    }
    while !run.is_finished()
        invariant
            forall|a: RepoAction| call_requires(repo, (a,)),
            run_wf(plan@, run@),
            run@ == run_replies(plan@, replies_view(reps)),
            acts.len() == reps.len(),
            forall|k: int| 0 <= k < acts.len() ==> call_ensures(repo, (acts[k],), #[trigger] reps[k]),
            forall|k: int|
                0 <= k < acts.len() ==> spec_action(plan@, run_replies(plan@, replies_view(reps).take(k)))
                    == Some((#[trigger] acts[k])@),
        decreases run_measure(plan@, run@),
    {
        let a = match run.action(plan) {
            Some(a) => a,
            None => {
                proof {
                    assert(false);
                }
                return run.into_result();
            },
        };
        let ghost a_g = a;
        let ghost before = run@;
        let reply = repo(a);
        let ghost old_reps = reps;
        proof {
            acts = acts.push(a_g);
            reps = reps.push(reply);
            assert(replies_view(reps).drop_last() =~= replies_view(old_reps));
            assert(replies_view(reps).last() == reply@);
            assert forall|k: int| 0 <= k < acts.len() implies spec_action(
                plan@,
                run_replies(plan@, replies_view(reps).take(k)),
            ) == Some((#[trigger] acts[k])@) by {
                if k < old_reps.len() {
                    assert(replies_view(reps).take(k) =~= replies_view(old_reps).take(k));
                } else {
                    assert(replies_view(reps).take(k) =~= replies_view(old_reps));
                }
            }
            lemma_next_decreases(plan@, before, reply@);
        }
        run = run.advance(plan, reply);
    }
    proof {
        assert(is_execution(plan@, repo, acts, reps));
    }
    run.into_result()
}

} // verus!
