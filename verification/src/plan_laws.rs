//! What `validate_plan` guarantees of the plan it returns.

use vstd::prelude::*;
use crate::plan::{
    clean, clean_pred, has_shared_files, is_shared, merged_plan, occurrences, plan_files,
    renumbered, shared_pred, spec_validate_plan_holds, tainted, touches_shared, CommitModel,
};
use crate::text::{lemma_chars_lt_irreflexive, sorted_strict};

verus! {

proof fn lemma_occ_concat(a: Seq<Seq<char>>, b: Seq<Seq<char>>, x: Seq<char>)
    ensures
        occurrences(a + b, x) == occurrences(a, x) + occurrences(b, x),
    decreases b.len(),
{
    if b.len() == 0 {
        assert(a + b =~= a);
    } else {
        assert((a + b).drop_last() =~= a + b.drop_last());
        lemma_occ_concat(a, b.drop_last(), x);
    }
}

proof fn lemma_occ_index(s: Seq<Seq<char>>, i: int)
    requires
        0 <= i < s.len(),
    ensures
        occurrences(s, s[i]) >= 1,
    decreases s.len(),
{
    if i < s.len() - 1 {
        lemma_occ_index(s.drop_last(), i);
    }
}

proof fn lemma_occ_two(s: Seq<Seq<char>>, i: int, j: int)
    requires
        0 <= i < j < s.len(),
        s[i] == s[j],
    ensures
        occurrences(s, s[i]) >= 2,
    decreases s.len(),
{
    if j < s.len() - 1 {
        lemma_occ_two(s.drop_last(), i, j);
    } else {
        lemma_occ_index(s.drop_last(), i);
    }
}

proof fn lemma_occ_zero(s: Seq<Seq<char>>, x: Seq<char>)
    requires
        !s.contains(x),
    ensures
        occurrences(s, x) == 0,
    decreases s.len(),
{
    if s.len() > 0 {
        let d = s.drop_last();
        assert(!d.contains(x)) by {
            if d.contains(x) {
                let i = choose|i: int| 0 <= i < d.len() && d[i] == x;
                assert(s[i] == x);
            }
        }
        assert(s[s.len() - 1] != x);
        lemma_occ_zero(d, x);
    }
}

proof fn lemma_occ_contains(s: Seq<Seq<char>>, x: Seq<char>)
    ensures
        s.contains(x) <==> occurrences(s, x) >= 1,
{
    if s.contains(x) {
        let i = choose|i: int| 0 <= i < s.len() && s[i] == x;
        lemma_occ_index(s, i);
    } else {
        lemma_occ_zero(s, x);
    }
}

proof fn lemma_occ_no_dup(s: Seq<Seq<char>>, x: Seq<char>)
    requires
        s.no_duplicates(),
    ensures
        occurrences(s, x) <= 1,
    decreases s.len(),
{
    if s.len() > 0 {
        let d = s.drop_last();
        assert(d.no_duplicates()) by {
            assert forall|i: int, j: int| 0 <= i < d.len() && 0 <= j < d.len() && i != j implies d[i]
                != d[j] by {
                assert(s[i] != s[j]);
            }
        }
        lemma_occ_no_dup(d, x);
        if s.last() == x {
            assert(!d.contains(x)) by {
                if d.contains(x) {
                    let i = choose|i: int| 0 <= i < d.len() && d[i] == x;
                    assert(s[i] == s[s.len() - 1]);
                }
            }
            lemma_occ_zero(d, x);
        }
    }
}

proof fn lemma_plan_files_concat(a: Seq<CommitModel>, b: Seq<CommitModel>)
    ensures
        plan_files(a + b) == plan_files(a) + plan_files(b),
    decreases b.len(),
{
    if b.len() == 0 {
        assert(a + b =~= a);
        assert(plan_files(a) + plan_files(b) =~= plan_files(a));
    } else {
        assert((a + b).drop_last() =~= a + b.drop_last());
        lemma_plan_files_concat(a, b.drop_last());
        assert(plan_files(a) + plan_files(b) =~= plan_files(a) + plan_files(b.drop_last())
            + b.last().files);
    }
}

proof fn lemma_plan_files_single(c: CommitModel)
    ensures
        plan_files(seq![c]) == c.files,
{
    let e = Seq::<CommitModel>::empty();
    assert(seq![c].drop_last() =~= e);
    assert(plan_files(e) == Seq::<Seq<char>>::empty());
    assert(plan_files(seq![c]) == plan_files(e) + c.files);
    assert(Seq::<Seq<char>>::empty() + c.files =~= c.files);
}

proof fn lemma_plan_files_renumbered(cs: Seq<CommitModel>, start: int)
    ensures
        plan_files(renumbered(cs, start)) == plan_files(cs),
    decreases cs.len(),
{
    if cs.len() > 0 {
        assert(renumbered(cs, start).drop_last() =~= renumbered(cs.drop_last(), start));
        lemma_plan_files_renumbered(cs.drop_last(), start);
    }
}

proof fn lemma_plan_files_member(cs: Seq<CommitModel>, idx: int) -> (r: (int, int))
    requires
        0 <= idx < plan_files(cs).len(),
    ensures
        0 <= r.0 < cs.len(),
        0 <= r.1 < cs[r.0].files.len(),
        cs[r.0].files[r.1] == plan_files(cs)[idx],
    decreases cs.len(),
{
    let d = cs.drop_last();
    let pd = plan_files(d);
    if idx < pd.len() {
        let r = lemma_plan_files_member(d, idx);
        r
    } else {
        (cs.len() - 1, idx - pd.len())
    }
}

proof fn lemma_plan_files_has(cs: Seq<CommitModel>, i: int, k: int)
    requires
        0 <= i < cs.len(),
        0 <= k < cs[i].files.len(),
    ensures
        plan_files(cs).contains(cs[i].files[k]),
    decreases cs.len(),
{
    let d = cs.drop_last();
    if i < cs.len() - 1 {
        lemma_plan_files_has(d, i, k);
        let w = choose|w: int| 0 <= w < plan_files(d).len() && plan_files(d)[w] == cs[i].files[k];
        assert(plan_files(cs)[w] == cs[i].files[k]);
    } else {
        assert(plan_files(cs)[plan_files(d).len() + k] == cs[i].files[k]);
    }
}

proof fn lemma_occ_partition(
    s: Seq<CommitModel>,
    p: spec_fn(CommitModel) -> bool,
    q: spec_fn(CommitModel) -> bool,
    x: Seq<char>,
)
    requires
        forall|c: CommitModel| #[trigger] q(c) == !p(c),
    ensures
        occurrences(plan_files(s), x) == occurrences(plan_files(s.filter(p)), x) + occurrences(
            plan_files(s.filter(q)),
            x,
        ),
        s.filter(p).len() + s.filter(q).len() == s.len(),
    decreases s.len(),
{
    if s.len() == 0 {
        s.lemma_filter_len(p);
        s.lemma_filter_len(q);
    } else {
        let d = s.drop_last();
        let c = s.last();
        lemma_occ_partition(d, p, q, x);
        assert(s =~= d.push(c));
        d.lemma_filter_push(c, p);
        d.lemma_filter_push(c, q);
        assert(d.filter(p).push(c).drop_last() =~= d.filter(p));
        assert(d.filter(q).push(c).drop_last() =~= d.filter(q));
        lemma_occ_concat(plan_files(d), c.files, x);
        lemma_occ_concat(plan_files(d.filter(p)), c.files, x);
        lemma_occ_concat(plan_files(d.filter(q)), c.files, x);
    }
}

proof fn lemma_split_result(cs: Seq<CommitModel>, rs: Seq<CommitModel>, x: Seq<char>)
    requires
        merged_plan(cs, rs),
    ensures
        plan_files(rs) == rs[0].files + plan_files(clean(cs)),
        occurrences(plan_files(cs), x) == occurrences(plan_files(tainted(cs)), x) + occurrences(
            plan_files(clean(cs)),
            x,
        ),
        tainted(cs).len() + clean(cs).len() == cs.len(),
{
    assert(rs =~= seq![rs[0]] + rs.drop_first());
    lemma_plan_files_concat(seq![rs[0]], rs.drop_first());
    lemma_plan_files_single(rs[0]);
    lemma_plan_files_renumbered(clean(cs), 2);
    lemma_occ_partition(cs, shared_pred(cs), clean_pred(cs), x);
}

/// A file that a commit without shared files stages is listed once in the
/// whole plan.
proof fn lemma_clean_file_once(cs: Seq<CommitModel>, y: Seq<char>)
    requires
        plan_files(clean(cs)).contains(y),
    ensures
        occurrences(plan_files(cs), y) <= 1,
{
    let k = clean(cs);
    let w = choose|w: int| 0 <= w < plan_files(k).len() && plan_files(k)[w] == y;
    let (ci, fi) = lemma_plan_files_member(k, w);
    cs.lemma_filter_pred(clean_pred(cs), ci);
    assert(!touches_shared(cs, k[ci]));
    if occurrences(plan_files(cs), y) > 1 {
        assert(is_shared(cs, k[ci].files[fi]));
    }
}

/// The plan that `validate_plan` returns stages every file at most once: no
/// file appears in two commits, nor twice in one.
pub proof fn law_validated_plan_stages_each_file_once(cs: Seq<CommitModel>, rs: Seq<CommitModel>)
    requires
        spec_validate_plan_holds(cs, rs),
    ensures
        plan_files(rs).no_duplicates(),
{
    let pr = plan_files(rs);
    if !has_shared_files(cs) {
        assert forall|i: int, j: int| 0 <= i < pr.len() && 0 <= j < pr.len() && i != j implies pr[i]
            != pr[j] by {
            if pr[i] == pr[j] {
                let (a, b) = if i < j { (i, j) } else { (j, i) };
                lemma_occ_two(pr, a, b);
                let (ci, fi) = lemma_plan_files_member(cs, a);
                assert(is_shared(cs, cs[ci].files[fi]));
                assert(touches_shared(cs, cs[ci]));
            }
        }
    } else {
        let m = rs[0].files;
        let pk = plan_files(clean(cs));
        let pt = plan_files(tainted(cs));
        lemma_split_result(cs, rs, m[0]);
        assert forall|i: int, j: int| 0 <= i < pr.len() && 0 <= j < pr.len() && i != j implies pr[i]
            != pr[j] by {
            if pr[i] == pr[j] {
                let (a, b) = if i < j { (i, j) } else { (j, i) };
                let y = pr[a];
                lemma_split_result(cs, rs, y);
                if b < m.len() {
                    assert(sorted_strict(m));
                    assert(vstd::seq::Seq::index(m, a) == m[b]);
                    lemma_chars_lt_irreflexive(m[a]);
                } else if a < m.len() {
                    assert(m.to_set().contains(y));
                    assert(pt.to_set().contains(y));
                    lemma_occ_contains(pt, y);
                    assert(pk[b - m.len()] == y);
                    lemma_occ_index(pk, b - m.len());
                    assert(pk.contains(y));
                    lemma_clean_file_once(cs, y);
                } else {
                    assert(pk[a - m.len()] == y);
                    assert(pk[b - m.len()] == y);
                    lemma_occ_two(pk, a - m.len(), b - m.len());
                    assert(pk.contains(y));
                    lemma_clean_file_once(cs, y);
                }
            }
        }
    }
}

/// `validate_plan` keeps the set of files that the plan stages.
pub proof fn law_validate_plan_keeps_files(cs: Seq<CommitModel>, rs: Seq<CommitModel>)
    requires
        spec_validate_plan_holds(cs, rs),
    ensures
        plan_files(rs).to_set() == plan_files(cs).to_set(),
{
    if has_shared_files(cs) {
        let m = rs[0].files;
        let pk = plan_files(clean(cs));
        let pt = plan_files(tainted(cs));
        assert forall|x: Seq<char>| plan_files(rs).contains(x) <==> plan_files(cs).contains(x) by {
            lemma_split_result(cs, rs, x);
            lemma_occ_contains(plan_files(cs), x);
            lemma_occ_contains(pt, x);
            lemma_occ_contains(pk, x);
            lemma_occ_contains(m + pk, x);
            lemma_occ_contains(m, x);
            lemma_occ_concat(m, pk, x);
            assert(m.to_set().contains(x) == pt.to_set().contains(x));
        }
        assert(plan_files(rs).to_set() =~= plan_files(cs).to_set());
    }
}

/// `validate_plan` never adds commits, and removes none when no file is shared.
pub proof fn law_validate_plan_never_grows(cs: Seq<CommitModel>, rs: Seq<CommitModel>)
    requires
        spec_validate_plan_holds(cs, rs),
    ensures
        rs.len() <= cs.len(),
        !has_shared_files(cs) ==> rs.len() == cs.len(),
{
    if has_shared_files(cs) {
        lemma_split_result(cs, rs, Seq::empty());
        let i = choose|i: int| 0 <= i < cs.len() && touches_shared(cs, #[trigger] cs[i]);
        assert(cs.filter(shared_pred(cs)).contains(cs[i])) by {
            cs.lemma_filter_contains_rev(shared_pred(cs), cs[i]);
        }
    }
}

/// Validating a validated plan changes nothing.
pub proof fn law_validate_plan_idempotent(
    cs: Seq<CommitModel>,
    rs: Seq<CommitModel>,
    rs2: Seq<CommitModel>,
)
    requires
        spec_validate_plan_holds(cs, rs),
        spec_validate_plan_holds(rs, rs2),
    ensures
        rs2 == rs,
{
    law_validated_plan_stages_each_file_once(cs, rs);
    if has_shared_files(rs) {
        let i = choose|i: int| 0 <= i < rs.len() && touches_shared(rs, #[trigger] rs[i]);
        let k = choose|k: int| 0 <= k < rs[i].files.len() && is_shared(rs, #[trigger] rs[i].files[k]);
        lemma_occ_no_dup(plan_files(rs), rs[i].files[k]);
    }
}

} // verus!
