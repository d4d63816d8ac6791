//! Checking commit messages against the configured pattern.

use vstd::prelude::*;
use crate::plan::{CommitModel, CommitPlan};

verus! {

/// The default pattern for commit messages: a conventional commit subject,
/// `type(scope)!: description`, scope and `!` optional.
pub const DEFAULT_COMMIT_PATTERN: &'static str = "^(?P<type>\\w+)(?:\\((?P<scope>[^)]+)\\))?(?P<breaking>!)?:\\s+(?P<description>.+)";

#[verifier::external_type_specification]
#[verifier::external_body]
pub struct ExRegex(regex::Regex);

/// What `regex::Regex::new` gives for `pattern`: `None` when it compiles, or
/// the text of its error.
pub uninterp spec fn regex_compile_error(pattern: Seq<char>) -> Option<Seq<char>>;

/// What `regex::Regex::is_match` answers for a regex compiled from `pattern`
/// on `text`.
pub uninterp spec fn regex_is_match(pattern: Seq<char>, text: Seq<char>) -> bool;

/// A regular expression together with the pattern it was compiled from.
pub struct CompiledPattern {
    source: String,
    re: regex::Regex,
}

impl View for CompiledPattern {
    type V = Seq<char>;

    closed spec fn view(&self) -> Seq<char> {
        self.source@
    }
}

/// Compiles `pattern` with `regex::Regex::new`. The contract claims that the
/// outcome depends on the pattern alone: whether it compiles, and the text of
/// the error (its `Display`) when it does not. A compiled pattern remembers
/// the pattern it came from.
#[verifier::external_body]
fn compile_pattern(pattern: &str) -> (r: Result<CompiledPattern, String>)
    ensures
        match r {
            Ok(p) => regex_compile_error(pattern@) is None && p@ == pattern@,
            Err(e) => regex_compile_error(pattern@) == Some(e@),
        },
{
    match regex::Regex::new(pattern) {
        Ok(re) => Ok(CompiledPattern { source: pattern.to_string(), re }),
        Err(e) => Err(e.to_string()),
    }
}

/// Runs `regex::Regex::is_match` on `text`. `CompiledPattern` can only be
/// made by `compile_pattern`, so its regex is the one compiled from its
/// pattern; the contract claims the answer depends on that pattern and the
/// text alone.
#[verifier::external_body]
fn pattern_matches(p: &CompiledPattern, text: &str) -> (r: bool)
    ensures
        r == regex_is_match(p@, text@),
{
    p.re.is_match(text)
}

/// One line of a validation report: the commit's position counted from 1,
/// its message, and why it was rejected.
pub open spec fn report_view(v: Seq<(usize, String, String)>) -> Seq<(int, Seq<char>, Seq<char>)> {
    v.map_values(|e: (usize, String, String)| (e.0 as int, e.1@, e.2@))
}

pub open spec fn invalid_pattern_reason(error: Seq<char>) -> Seq<char> {
    "invalid pattern: "@ + error
}

pub open spec fn mismatch_reason(pattern: Seq<char>) -> Seq<char> {
    "does not match pattern: "@ + pattern
}

/// Every commit reported with the same reason.
pub open spec fn all_reported(cs: Seq<CommitModel>, reason: Seq<char>) -> Seq<(int, Seq<char>, Seq<char>)> {
    Seq::new(cs.len(), |i: int| (i + 1, cs[i].message, reason))
}

/// The commits among the first `n` whose message did not match, in order.
pub open spec fn mismatches(
    cs: Seq<CommitModel>,
    matched: Seq<bool>,
    reason: Seq<char>,
    n: int,
) -> Seq<(int, Seq<char>, Seq<char>)>
    decreases n,
{
    if n <= 0 {
        Seq::empty()
    } else if !matched[n - 1] {
        mismatches(cs, matched, reason, n - 1).push((n, cs[n - 1].message, reason))
    } else {
        mismatches(cs, matched, reason, n - 1)
    }
}

/// What `validate_messages` reports for `pattern`, given what the regex
/// engine says of it.
pub open spec fn spec_validate_messages(cs: Seq<CommitModel>, pattern: Seq<char>) -> Seq<(int, Seq<char>, Seq<char>)> {
    match regex_compile_error(pattern) {
        Some(e) => all_reported(cs, invalid_pattern_reason(e)),
        None => mismatches(
            cs,
            Seq::new(cs.len(), |i: int| regex_is_match(pattern, cs[i].message)),
            mismatch_reason(pattern),
            cs.len() as int,
        ),
    }
}

/// Report every commit of the plan as invalid because the pattern itself
/// does not compile, with the compiler's error text.
pub fn report_invalid_pattern(plan: &CommitPlan, error: &str) -> (r: Vec<(usize, String, String)>)
    ensures
        report_view(r@) == all_reported(plan@, invalid_pattern_reason(error@)),
{
    let mut reason = "invalid pattern: ".to_owned();
    reason.append(error);
    let mut out: Vec<(usize, String, String)> = Vec::new();
    let n = plan.commits.len();
    for i in 0..n
        invariant
            n == plan@.len(),
            reason@ == invalid_pattern_reason(error@),
            report_view(out@) == all_reported(plan@, reason@).take(i as int),
    {
        let ghost prev = out@;
        out.push((i + 1, plan.commits[i].message.clone(), reason.clone()));
        proof {
            assert(report_view(out@) =~= all_reported(plan@, reason@).take(i + 1)) by {
                assert(report_view(prev).len() == prev.len());
                assert forall|k: int| 0 <= k < prev.len() implies report_view(out@)[k] == report_view(prev)[k] by {}
            }
        }
    }
    proof {
        assert(all_reported(plan@, reason@).take(n as int) =~= all_reported(plan@, reason@));
    }
    out
}

/// Report the commits whose message did not match `pattern`; `matched[i]`
/// says whether the message of commit `i` matched.
pub fn report_mismatches(plan: &CommitPlan, pattern: &str, matched: &Vec<bool>) -> (r: Vec<(usize, String, String)>)
    requires
        matched@.len() == plan@.len(),
    ensures
        report_view(r@) == mismatches(plan@, matched@, mismatch_reason(pattern@), plan@.len() as int),
{
    let mut reason = "does not match pattern: ".to_owned();
    reason.append(pattern);
    let mut out: Vec<(usize, String, String)> = Vec::new();
    let n = plan.commits.len();
    for i in 0..n
        invariant
            n == plan@.len(),
            matched@.len() == n,
            reason@ == mismatch_reason(pattern@),
            report_view(out@) == mismatches(plan@, matched@, reason@, i as int),
    {
        let ghost prev = out@;
        if !matched[i] {
            out.push((i + 1, plan.commits[i].message.clone(), reason.clone()));
            proof {
                assert(report_view(out@) =~= report_view(prev).push((i + 1, plan@[i as int].message, reason@)));
            }
        }
    }
    out
}

/// Check every commit message of the plan against `commit_pattern`. When the
/// pattern does not compile, every commit is reported with the compiler's
/// error; otherwise the commits whose message does not match are reported.
pub fn validate_messages(plan: &CommitPlan, commit_pattern: &str) -> (r: Vec<(usize, String, String)>)
    ensures
        report_view(r@) == spec_validate_messages(plan@, commit_pattern@),
{
    match compile_pattern(commit_pattern) {
        Err(e) => report_invalid_pattern(plan, e.as_str()),
        Ok(re) => {
            let mut matched: Vec<bool> = Vec::new();
            let n = plan.commits.len();
            for i in 0..n
                invariant
                    n == plan@.len(),
                    re@ == commit_pattern@,
                    matched@ == Seq::new(n as nat, |k: int| regex_is_match(commit_pattern@, plan@[k].message)).take(i as int),
            {
                let m = pattern_matches(&re, plan.commits[i].message.as_str());
                matched.push(m);
                proof {
                    assert(matched@ =~= Seq::new(n as nat, |k: int| regex_is_match(commit_pattern@, plan@[k].message)).take(i + 1));
                }
            }
            proof {
                assert(matched@ =~= Seq::new(n as nat, |k: int| regex_is_match(commit_pattern@, plan@[k].message)));
            }
            report_mismatches(plan, commit_pattern, &matched)
        },
    }
}


proof fn lemma_mismatches(
    cs: Seq<CommitModel>,
    matched: Seq<bool>,
    reason: Seq<char>,
    n: int,
)
    requires
        0 <= n <= cs.len(),
        matched.len() == cs.len(),
    ensures
        forall|a: int| 0 <= a < mismatches(cs, matched, reason, n).len() ==> {
            let e = #[trigger] mismatches(cs, matched, reason, n)[a];
            &&& 1 <= e.0 <= n
            &&& !matched[e.0 - 1]
            &&& e.1 == cs[e.0 - 1].message
            &&& e.2 == reason
        },
        forall|a: int, b: int| 0 <= a < b < mismatches(cs, matched, reason, n).len() ==>
            (#[trigger] mismatches(cs, matched, reason, n)[a]).0 < (#[trigger] mismatches(cs, matched, reason, n)[b]).0,
        forall|i: int| 0 <= i < n && !matched[i] ==> exists|a: int| 0 <= a < mismatches(cs, matched, reason, n).len()
            && (#[trigger] mismatches(cs, matched, reason, n)[a]).0 == i + 1,
    decreases n,
{
    if n > 0 {
        lemma_mismatches(cs, matched, reason, n - 1);
        let prev = mismatches(cs, matched, reason, n - 1);
        let cur = mismatches(cs, matched, reason, n);
        assert forall|i: int| 0 <= i < n && !matched[i] implies exists|a: int| 0 <= a < cur.len() && (#[trigger] cur[a]).0 == i + 1 by {
            if i < n - 1 {
                let a = choose|a: int| 0 <= a < prev.len() && (#[trigger] prev[a]).0 == i + 1;
                assert(cur[a] == prev[a]);
            } else {
                assert(cur[cur.len() - 1].0 == i + 1);
            }
        }
    }
}

/// When the pattern compiles, the report lists, in plan order and each
/// once, exactly the commits whose message the regex does not match, every
/// commit of the plan included: each entry gives the commit's position
/// counted from 1, its message and the pattern it failed. When the pattern
/// does not compile, every commit is listed, with the compiler's error.
pub proof fn law_report_lists_exactly_the_mismatches(cs: Seq<CommitModel>, pattern: Seq<char>)
    ensures
        regex_compile_error(pattern) is None ==> {
            let r = spec_validate_messages(cs, pattern);
            &&& forall|a: int| 0 <= a < r.len() ==> {
                let e = #[trigger] r[a];
                &&& 1 <= e.0 <= cs.len()
                &&& !regex_is_match(pattern, cs[e.0 - 1].message)
                &&& e.1 == cs[e.0 - 1].message
                &&& e.2 == "does not match pattern: "@ + pattern
            }
            &&& forall|a: int, b: int| 0 <= a < b < r.len() ==> (#[trigger] r[a]).0 < (#[trigger] r[b]).0
            &&& forall|i: int| 0 <= i < cs.len() && !regex_is_match(pattern, #[trigger] cs[i].message) ==>
                exists|a: int| 0 <= a < r.len() && (#[trigger] r[a]).0 == i + 1
        },
        regex_compile_error(pattern) is Some ==> {
            let r = spec_validate_messages(cs, pattern);
            &&& r.len() == cs.len()
            &&& forall|i: int| 0 <= i < cs.len() ==> #[trigger] r[i] == (i + 1, cs[i].message, "invalid pattern: "@ + regex_compile_error(pattern)->0)
        },
{
    if regex_compile_error(pattern) is None {
        let matched = Seq::new(cs.len(), |i: int| regex_is_match(pattern, cs[i].message));
        lemma_mismatches(cs, matched, mismatch_reason(pattern), cs.len() as int);
        let r = spec_validate_messages(cs, pattern);
        assert forall|i: int| 0 <= i < cs.len() && !regex_is_match(pattern, #[trigger] cs[i].message) implies
            exists|a: int| 0 <= a < r.len() && (#[trigger] r[a]).0 == i + 1 by {
            assert(!matched[i]);
        }
    }
}

} // verus!
