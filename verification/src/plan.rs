//! Commit plans: their data, and the merge of commits that share files.

use vstd::prelude::*;
use crate::text::{
    copy_opt, copy_strings, join, join_strings, insert_sorted_unique, lemma_to_set_concat,
    opt_chars, paragraph_sep, sorted_strict, strs,
};

verus! {

/// One commit of a plan: its message parts and the files it stages.
#[derive(Debug, Clone)]
pub struct PlannedCommit {
    pub order: Option<u32>,
    pub message: String,
    pub body: Option<String>,
    pub footer: Option<String>,
    pub files: Vec<String>,
}

/// An ordered list of planned commits.
#[derive(Debug, Clone)]
pub struct CommitPlan {
    pub commits: Vec<PlannedCommit>,
}

/// The mathematical value of a planned commit.
pub struct CommitModel {
    pub order: Option<u32>,
    pub message: Seq<char>,
    pub body: Option<Seq<char>>,
    pub footer: Option<Seq<char>>,
    pub files: Seq<Seq<char>>,
}

impl View for PlannedCommit {
    type V = CommitModel;

    open spec fn view(&self) -> CommitModel {
        CommitModel {
            order: self.order,
            message: self.message@,
            body: opt_chars(self.body),
            footer: opt_chars(self.footer),
            files: strs(self.files@),
        }
    }
}

/// The values of a sequence of planned commits.
pub open spec fn commits_view(v: Seq<PlannedCommit>) -> Seq<CommitModel> {
    v.map_values(|c: PlannedCommit| c@)
}

impl View for CommitPlan {
    type V = Seq<CommitModel>;

    open spec fn view(&self) -> Seq<CommitModel> {
        commits_view(self.commits@)
    }
}

impl PlannedCommit {
    /// A copy of this commit.
    pub fn copy(&self) -> (r: PlannedCommit)
        ensures
            r@ == self@,
    {
        PlannedCommit {
            order: self.order,
            message: self.message.clone(),
            body: copy_opt(&self.body),
            footer: copy_opt(&self.footer),
            files: copy_strings(&self.files),
        }
    }
}

/// Every file of the plan, commit after commit, with repetitions.
pub open spec fn plan_files(cs: Seq<CommitModel>) -> Seq<Seq<char>>
    decreases cs.len(),
{
    if cs.len() == 0 {
        Seq::empty()
    } else {
        plan_files(cs.drop_last()) + cs.last().files
    }
}

/// How many times `x` occurs in `s`.
pub open spec fn occurrences(s: Seq<Seq<char>>, x: Seq<char>) -> nat
    decreases s.len(),
{
    if s.len() == 0 {
        0
    } else {
        occurrences(s.drop_last(), x) + if s.last() == x { 1nat } else { 0nat }
    }
}

/// `f` is listed more than once over the whole plan.
pub open spec fn is_shared(cs: Seq<CommitModel>, f: Seq<char>) -> bool {
    occurrences(plan_files(cs), f) > 1
}

/// Commit `c` stages a file that is listed more than once in the plan.
pub open spec fn touches_shared(cs: Seq<CommitModel>, c: CommitModel) -> bool {
    exists|k: int| 0 <= k < c.files.len() && is_shared(cs, #[trigger] c.files[k])
}

/// Some commit of the plan stages a file that is listed more than once.
pub open spec fn has_shared_files(cs: Seq<CommitModel>) -> bool {
    exists|i: int| 0 <= i < cs.len() && touches_shared(cs, #[trigger] cs[i])
}

pub open spec fn shared_pred(cs: Seq<CommitModel>) -> spec_fn(CommitModel) -> bool {
    |c: CommitModel| touches_shared(cs, c)
}

pub open spec fn clean_pred(cs: Seq<CommitModel>) -> spec_fn(CommitModel) -> bool {
    |c: CommitModel| !touches_shared(cs, c)
}

/// The commits that stage a shared file, in plan order.
pub open spec fn tainted(cs: Seq<CommitModel>) -> Seq<CommitModel> {
    cs.filter(shared_pred(cs))
}

/// The commits that stage no shared file, in plan order.
pub open spec fn clean(cs: Seq<CommitModel>) -> Seq<CommitModel> {
    cs.filter(clean_pred(cs))
}

/// The body of `c` as a one-element list when it is present and non-empty.
pub open spec fn body_part(c: CommitModel) -> Seq<Seq<char>> {
    match c.body {
        Some(b) => if b.len() > 0 { seq![b] } else { Seq::empty() },
        None => Seq::empty(),
    }
}

/// The footer of `c` as a one-element list when it is present and non-empty.
pub open spec fn footer_part(c: CommitModel) -> Seq<Seq<char>> {
    match c.footer {
        Some(b) => if b.len() > 0 { seq![b] } else { Seq::empty() },
        None => Seq::empty(),
    }
}

/// The present, non-empty bodies of `cs`, in order.
pub open spec fn body_parts(cs: Seq<CommitModel>) -> Seq<Seq<char>>
    decreases cs.len(),
{
    if cs.len() == 0 {
        Seq::empty()
    } else {
        body_parts(cs.drop_last()) + body_part(cs.last())
    }
}

/// The present, non-empty footers of `cs`, in order.
pub open spec fn footer_parts(cs: Seq<CommitModel>) -> Seq<Seq<char>>
    decreases cs.len(),
{
    if cs.len() == 0 {
        Seq::empty()
    } else {
        footer_parts(cs.drop_last()) + footer_part(cs.last())
    }
}

/// `Some(s)` unless `s` is empty.
pub open spec fn non_empty(s: Seq<char>) -> Option<Seq<char>> {
    if s.len() == 0 { None } else { Some(s) }
}

/// `c` with its position set to `n`.
pub open spec fn with_order(c: CommitModel, n: int) -> CommitModel {
    CommitModel {
        order: Some(n as u32),
        message: c.message,
        body: c.body,
        footer: c.footer,
        files: c.files,
    }
}

/// `cs` numbered consecutively from `start`.
pub open spec fn renumbered(cs: Seq<CommitModel>, start: int) -> Seq<CommitModel> {
    Seq::new(cs.len(), |k: int| with_order(cs[k], k + start))
}

/// `rs` is `cs` with every commit that stages a shared file merged into one
/// leading commit: the first such commit's message, the bodies joined by a
/// blank line, the footers joined by a newline, and the union of their files
/// in sorted order, followed by the other commits renumbered from 2.
pub open spec fn merged_plan(cs: Seq<CommitModel>, rs: Seq<CommitModel>) -> bool {
    let t = tainted(cs);
    &&& rs.len() == clean(cs).len() + 1
    &&& rs[0].order == Some(1u32)
    &&& rs[0].message == t[0].message
    &&& rs[0].body == non_empty(join(body_parts(t), paragraph_sep()))
    &&& rs[0].footer == non_empty(join(footer_parts(t), seq!['\n']))
    &&& sorted_strict(rs[0].files)
    &&& rs[0].files.to_set() == plan_files(t).to_set()
    &&& rs.drop_first() == renumbered(clean(cs), 2)
}

/// `rs` is what `validate_plan` returns for `cs`: `cs` itself when no file
/// is listed twice, the merged plan otherwise.
pub open spec fn spec_validate_plan_holds(cs: Seq<CommitModel>, rs: Seq<CommitModel>) -> bool {
    &&& !has_shared_files(cs) ==> rs == cs
    &&& has_shared_files(cs) ==> merged_plan(cs, rs)
}

proof fn lemma_plan_files_push(cs: Seq<CommitModel>, c: CommitModel)
    ensures
        plan_files(cs.push(c)) == plan_files(cs) + c.files,
{
    assert(cs.push(c).drop_last() =~= cs);
}

proof fn lemma_take_push<A>(s: Seq<A>, i: int)
    requires
        0 <= i < s.len(),
    ensures
        s.take(i + 1) == s.take(i).push(s[i]),
{
    assert(s.take(i + 1) =~= s.take(i).push(s[i]));
}

fn all_files(plan: &CommitPlan) -> (r: Vec<String>)
    ensures
        strs(r@) == plan_files(plan@),
{
    let mut out: Vec<String> = Vec::new();
    let n = plan.commits.len();
    for i in 0..n
        invariant
            n == plan@.len(),
            strs(out@) == plan_files(plan@.take(i as int)),
    {
        let c = &plan.commits[i];
        let ghost base = strs(out@);
        for j in 0..c.files.len()
            invariant
                strs(out@) == base + strs(c.files@).take(j as int),
        {
            let item = c.files[j].clone();
            let ghost prev = out@;
            out.push(item);
            proof {
                let goal = base + strs(c.files@).take(j + 1);
                assert(item@ == c.files@[j as int]@);
                assert(strs(prev).len() == prev.len());
                assert(strs(out@).len() == out@.len());
                assert(prev.len() == base.len() + j);
                assert(goal.len() == base.len() + j + 1);
                assert forall|k: int| 0 <= k < goal.len() implies strs(out@)[k] == goal[k] by {
                    if k < prev.len() {
                        assert(strs(out@)[k] == strs(prev)[k]);
                        assert(strs(prev)[k] == (base + strs(c.files@).take(j as int))[k]);
                    }
                }
                assert(strs(out@) =~= goal);
            }
        }
        proof {
            assert(strs(c.files@).take(c.files@.len() as int) =~= strs(c.files@));
            lemma_take_push(plan@, i as int);
            lemma_plan_files_push(plan@.take(i as int), plan@[i as int]);
        }
    }
    proof {
        assert(plan@.take(n as int) =~= plan@);
    }
    out
}

fn count_of(all: &Vec<String>, x: &String) -> (c: usize)
    ensures
        c == occurrences(strs(all@), x@),
{
    let mut c: usize = 0;
    for i in 0..all.len()
        invariant
            c <= i,
            c == occurrences(strs(all@).take(i as int), x@),
    {
        proof {
            assert(strs(all@).take(i + 1).drop_last() =~= strs(all@).take(i as int));
        }
        if all[i] == *x {
            c = c + 1;
        }
    }
    proof {
        assert(strs(all@).take(all@.len() as int) =~= strs(all@));
    }
    c
}

fn shared_flags(plan: &CommitPlan) -> (flags: Vec<bool>)
    ensures
        flags@.len() == plan@.len(),
        forall|i: int| 0 <= i < plan@.len() ==> flags@[i] == touches_shared(plan@, #[trigger] plan@[i]),
{
    let all = all_files(plan);
    let mut flags: Vec<bool> = Vec::new();
    let n = plan.commits.len();
    for i in 0..n
        invariant
            n == plan@.len(),
            strs(all@) == plan_files(plan@),
            flags@.len() == i,
            forall|k: int| 0 <= k < i ==> flags@[k] == touches_shared(plan@, #[trigger] plan@[k]),
    {
        let c = &plan.commits[i];
        let ghost cm = plan@[i as int];
        let mut t = false;
        for j in 0..c.files.len()
            invariant
                cm == c@,
                strs(all@) == plan_files(plan@),
                t == exists|k: int| 0 <= k < j && is_shared(plan@, #[trigger] cm.files[k]),
        {
            let cnt = count_of(&all, &c.files[j]);
            if cnt > 1 {
                t = true;
            }
            proof {
                assert(cm.files[j as int] == c.files@[j as int]@);
                if t {
                    if !(exists|k: int| 0 <= k < j && is_shared(plan@, #[trigger] cm.files[k])) {
                        assert(is_shared(plan@, cm.files[j as int]));
                    }
                }
            }
        }
        flags.push(t);
    }
    flags
}

fn merged_message(plan: &CommitPlan, flags: &Vec<bool>) -> (r: String)
    requires
        flags@.len() == plan@.len(),
        forall|i: int| 0 <= i < plan@.len() ==> flags@[i] == touches_shared(plan@, #[trigger] plan@[i]),
        has_shared_files(plan@),
    ensures
        tainted(plan@).len() > 0,
        r@ == tainted(plan@)[0].message,
{
    let ghost cs = plan@;
    let ghost p = shared_pred(cs);
    let mut found = false;
    let mut msg = String::new();
    let n = plan.commits.len();
    for i in 0..n
        invariant
            n == cs.len(),
            cs == plan@,
            p == shared_pred(cs),
            flags@.len() == n,
            forall|i: int| 0 <= i < cs.len() ==> flags@[i] == touches_shared(cs, #[trigger] cs[i]),
            found == (cs.take(i as int).filter(p).len() > 0),
            found ==> msg@ == cs.take(i as int).filter(p)[0].message,
            !found ==> forall|k: int| 0 <= k < i ==> !flags@[k],
    {
        proof {
            lemma_take_push(cs, i as int);
            cs.take(i as int).lemma_filter_push(cs[i as int], p);
        }
        if flags[i] && !found {
            msg = plan.commits[i].message.clone();
            found = true;
        }
    }
    proof {
        assert(cs.take(n as int) =~= cs);
        if !found {
            let i = choose|i: int| 0 <= i < cs.len() && touches_shared(cs, #[trigger] cs[i]);
            assert(flags@[i]);
        }
    }
    msg
}

fn tainted_bodies(plan: &CommitPlan, flags: &Vec<bool>, footers: bool) -> (r: Vec<String>)
    requires
        flags@.len() == plan@.len(),
        forall|i: int| 0 <= i < plan@.len() ==> flags@[i] == touches_shared(plan@, #[trigger] plan@[i]),
    ensures
        !footers ==> strs(r@) == body_parts(tainted(plan@)),
        footers ==> strs(r@) == footer_parts(tainted(plan@)),
{
    let ghost cs = plan@;
    let ghost p = shared_pred(cs);
    let mut out: Vec<String> = Vec::new();
    let n = plan.commits.len();
    for i in 0..n
        invariant
            n == cs.len(),
            cs == plan@,
            p == shared_pred(cs),
            flags@.len() == n,
            forall|i: int| 0 <= i < cs.len() ==> flags@[i] == touches_shared(cs, #[trigger] cs[i]),
            !footers ==> strs(out@) == body_parts(cs.take(i as int).filter(p)),
            footers ==> strs(out@) == footer_parts(cs.take(i as int).filter(p)),
    {
        let ghost prev = out@;
        let ghost t = cs.take(i as int).filter(p);
        proof {
            lemma_take_push(cs, i as int);
            cs.take(i as int).lemma_filter_push(cs[i as int], p);
            assert(t.push(cs[i as int]).drop_last() =~= t);
        }
        if flags[i] {
            let part = if footers { &plan.commits[i].footer } else { &plan.commits[i].body };
            match part {
                Some(b) => {
                    if !b.as_str().is_empty() {
                        out.push(b.clone());
                    }
                },
                None => {},
            }
            proof {
                assert(strs(out@) =~= strs(prev) + if footers { footer_part(cs[i as int]) } else { body_part(cs[i as int]) });
            }
        }
    }
    proof {
        assert(cs.take(n as int) =~= cs);
    }
    out
}

fn tainted_files(plan: &CommitPlan, flags: &Vec<bool>) -> (r: Vec<String>)
    requires
        flags@.len() == plan@.len(),
        forall|i: int| 0 <= i < plan@.len() ==> flags@[i] == touches_shared(plan@, #[trigger] plan@[i]),
    ensures
        sorted_strict(strs(r@)),
        strs(r@).to_set() == plan_files(tainted(plan@)).to_set(),
{
    let ghost cs = plan@;
    let ghost p = shared_pred(cs);
    let mut out: Vec<String> = Vec::new();
    let n = plan.commits.len();
    proof {
        assert(plan_files(cs.take(0).filter(p)) =~= Seq::<Seq<char>>::empty());
        assert(strs(out@).to_set() =~= Set::<Seq<char>>::empty());
    }
    for i in 0..n
        invariant
            n == cs.len(),
            cs == plan@,
            p == shared_pred(cs),
            flags@.len() == n,
            forall|i: int| 0 <= i < cs.len() ==> flags@[i] == touches_shared(cs, #[trigger] cs[i]),
            sorted_strict(strs(out@)),
            strs(out@).to_set() == plan_files(cs.take(i as int).filter(p)).to_set(),
    {
        let ghost t = cs.take(i as int).filter(p);
        proof {
            lemma_take_push(cs, i as int);
            cs.take(i as int).lemma_filter_push(cs[i as int], p);
            lemma_plan_files_push(t, cs[i as int]);
            lemma_to_set_concat(plan_files(t), cs[i as int].files);
        }
        if flags[i] {
            let c = &plan.commits[i];
            let ghost fs = strs(c.files@);
            for j in 0..c.files.len()
                invariant
                    fs == strs(c.files@),
                    sorted_strict(strs(out@)),
                    strs(out@).to_set() == plan_files(t).to_set().union(fs.take(j as int).to_set()),
            {
                proof {
                    lemma_take_push(fs, j as int);
                    fs.take(j as int).lemma_push_to_set_commute(fs[j as int]);
                }
                insert_sorted_unique(&mut out, &c.files[j]);
                proof {
                    assert(strs(out@).to_set() =~= plan_files(t).to_set().union(fs.take(j + 1).to_set()));
                }
            }
            proof {
                assert(fs.take(fs.len() as int) =~= fs);
            }
        }
    }
    proof {
        assert(cs.take(n as int) =~= cs);
    }
    out
}

fn renumbered_clean(plan: &CommitPlan, flags: &Vec<bool>) -> (r: Vec<PlannedCommit>)
    requires
        plan@.len() < u32::MAX,
        flags@.len() == plan@.len(),
        forall|i: int| 0 <= i < plan@.len() ==> flags@[i] == touches_shared(plan@, #[trigger] plan@[i]),
    ensures
        commits_view(r@) == renumbered(clean(plan@), 2),
{
    let ghost cs = plan@;
    let ghost p = clean_pred(cs);
    let mut out: Vec<PlannedCommit> = Vec::new();
    let n = plan.commits.len();
    for i in 0..n
        invariant
            n == cs.len(),
            n < u32::MAX,
            cs == plan@,
            p == clean_pred(cs),
            flags@.len() == n,
            forall|i: int| 0 <= i < cs.len() ==> flags@[i] == touches_shared(cs, #[trigger] cs[i]),
            out@.len() <= i,
            commits_view(out@) == renumbered(cs.take(i as int).filter(p), 2),
    {
        let ghost prev = out@;
        proof {
            lemma_take_push(cs, i as int);
            cs.take(i as int).lemma_filter_push(cs[i as int], p);
        }
        if !flags[i] {
            let mut c = plan.commits[i].copy();
            c.order = Some(out.len() as u32 + 2);
            out.push(c);
            proof {
                let f = cs.take(i as int).filter(p);
                let goal = renumbered(cs.take(i + 1).filter(p), 2);
                assert(cs.take(i + 1).filter(p) == f.push(cs[i as int]));
                assert(cs[i as int] == plan.commits@[i as int]@);
                assert(c@ == with_order(cs[i as int], prev.len() as int + 2));
                assert(commits_view(prev).len() == prev.len());
                assert(prev.len() == f.len());
                assert(goal.len() == prev.len() + 1);
                assert(commits_view(out@).len() == prev.len() + 1);
                assert forall|k: int| 0 <= k < goal.len() implies commits_view(out@)[k] == goal[k] by {
                    if k < prev.len() {
                        assert(commits_view(out@)[k] == commits_view(prev)[k]);
                        assert(commits_view(prev)[k] == renumbered(f, 2)[k]);
                    }
                }
                assert(commits_view(out@) =~= goal);
            }
        }
    }
    proof {
        assert(cs.take(n as int) =~= cs);
    }
    out
}

/// Make sure no file is staged by two commits: when some file is listed more
/// than once in the plan, every commit that stages such a file is merged into
/// one commit, placed first; the plan is returned unchanged otherwise.
pub fn validate_plan(plan: CommitPlan) -> (r: CommitPlan)
    requires
        plan@.len() < u32::MAX,
    ensures
        spec_validate_plan_holds(plan@, r@),
{
    let flags = shared_flags(&plan);
    let mut any = false;
    for i in 0..flags.len()
        invariant
            flags@.len() == plan@.len(),
            forall|i: int| 0 <= i < plan@.len() ==> flags@[i] == touches_shared(plan@, #[trigger] plan@[i]),
            any == exists|k: int| 0 <= k < i && flags@[k],
    {
        if flags[i] {
            any = true;
        }
    }
    if !any {
        proof {
            if has_shared_files(plan@) {
                let i = choose|i: int| 0 <= i < plan@.len() && touches_shared(plan@, #[trigger] plan@[i]);
                assert(flags@[i]);
            }
        }
        return plan;
    }
    proof {
        let k = choose|k: int| 0 <= k < flags@.len() && flags@[k];
        assert(touches_shared(plan@, plan@[k]));
    }
    let message = merged_message(&plan, &flags);
    let bodies = tainted_bodies(&plan, &flags, false);
    let footers = tainted_bodies(&plan, &flags, true);
    let body = join_strings(&bodies, "\n\n");
    let footer = join_strings(&footers, "\n");
    proof {
        reveal_strlit("\n\n");
        reveal_strlit("\n");
    }
    let files = tainted_files(&plan, &flags);
    let mut rest = renumbered_clean(&plan, &flags);
    let merged = PlannedCommit {
        order: Some(1),
        message,
        body: if body.as_str().is_empty() { None } else { Some(body) },
        footer: if footer.as_str().is_empty() { None } else { Some(footer) },
        files,
    };
    let mut commits: Vec<PlannedCommit> = Vec::new();
    commits.push(merged);
    let ghost head = commits@;
    let ghost tail = rest@;
    commits.append(&mut rest);
    let r = CommitPlan { commits };
    proof {
        assert(r.commits@ == head + tail);
        assert(r@.drop_first() =~= commits_view(tail));
        assert(r@[0] == merged@);
        assert(paragraph_sep() =~= "\n\n"@);
        assert(seq!['\n'] =~= "\n"@);
        let t = tainted(plan@);
        let rs = r@;
        assert(rs.len() == clean(plan@).len() + 1);
        assert(rs[0].order == Some(1u32));
        assert(rs[0].message == t[0].message);
        assert(rs[0].body == non_empty(join(body_parts(t), paragraph_sep())));
        assert(rs[0].footer == non_empty(join(footer_parts(t), seq!['\n'])));
        assert(sorted_strict(rs[0].files));
        assert(rs[0].files.to_set() == plan_files(t).to_set());
        assert(rs.drop_first() == renumbered(clean(plan@), 2));
    }
    r
}

} // verus!
