//! Rebase plans: the todo script that `git rebase -i` follows, and the
//! messages that the rewritten commits get.

use vstd::prelude::*;
use crate::text::{full_message, join, join_strings, opt_chars, spec_full_message, strs};

verus! {

/// One commit of a rebase plan: which commit, what to do with it, and its new message.
#[derive(Debug, Clone)]
pub struct ReorganizedCommit {
    pub original_sha: String,
    pub action: String,
    pub message: String,
    pub body: Option<String>,
    pub footer: Option<String>,
}

/// The commits of a rebase, oldest first.
#[derive(Debug, Clone)]
pub struct ReorganizePlan {
    pub commits: Vec<ReorganizedCommit>,
}

pub struct ReorgModel {
    pub sha: Seq<char>,
    pub action: Seq<char>,
    pub message: Seq<char>,
    pub body: Option<Seq<char>>,
    pub footer: Option<Seq<char>>,
}

impl RebaseError {
    /// The text that tells the user what went wrong.
    pub fn message(&self) -> (r: String)
        ensures
            r@ == match self {
                RebaseError::UncommittedChanges => "cannot rebase: you have uncommitted changes. Please commit or stash them first."@,
                RebaseError::TooFewCommits(n) => "need at least 2 commits to rebase (found "@ + crate::text::decimal(*n as nat) + ")"@,
                RebaseError::EmptyPlan => "AI returned an empty rebase plan"@,
            },
    {
        match self {
            RebaseError::UncommittedChanges => "cannot rebase: you have uncommitted changes. Please commit or stash them first.".to_owned(),
            RebaseError::TooFewCommits(n) => {
                let mut s = "need at least 2 commits to rebase (found ".to_owned();
                let d = crate::text::decimal_text(*n as u64);
                s.append(d.as_str());
                s.append(")");
                s
            },
            RebaseError::EmptyPlan => "AI returned an empty rebase plan".to_owned(),
        }
    }
}

impl View for ReorganizedCommit {
    type V = ReorgModel;

    open spec fn view(&self) -> ReorgModel {
        ReorgModel {
            sha: self.original_sha@,
            action: self.action@,
            message: self.message@,
            body: opt_chars(self.body),
            footer: opt_chars(self.footer),
        }
    }
}

impl View for ReorganizePlan {
    type V = Seq<ReorgModel>;

    open spec fn view(&self) -> Seq<ReorgModel> {
        self.commits@.map_values(|c: ReorganizedCommit| c@)
    }
}

/// What the todo script does with a commit.
#[derive(Debug, Clone, Copy, PartialEq, Eq, Structural)]
pub enum TodoAction {
    Pick,
    Squash,
    Drop,
}

/// The meaning of an action word of the plan: `reword` is a pick whose
/// message is rewritten; any other word is unknown.
pub open spec fn parse_action(a: Seq<char>) -> Option<TodoAction> {
    if a == "pick"@ || a == "reword"@ {
        Some(TodoAction::Pick)
    } else if a == "squash"@ {
        Some(TodoAction::Squash)
    } else if a == "drop"@ {
        Some(TodoAction::Drop)
    } else {
        None
    }
}

/// The word that stands for an action in the todo script.
pub open spec fn action_word(a: TodoAction) -> Seq<char> {
    match a {
        TodoAction::Pick => "pick"@,
        TodoAction::Squash => "squash"@,
        TodoAction::Drop => "drop"@,
    }
}

fn same_text(s: &String, w: &str) -> (r: bool)
    ensures
        r == (s@ == w@),
{
    *s == w.to_owned()
}

/// Read an action word of the plan.
pub fn read_action(a: &String) -> (r: Option<TodoAction>)
    ensures
        r == parse_action(a@),
{
    if same_text(a, "pick") || same_text(a, "reword") {
        Some(TodoAction::Pick)
    } else if same_text(a, "squash") {
        Some(TodoAction::Squash)
    } else if same_text(a, "drop") {
        Some(TodoAction::Drop)
    } else {
        None
    }
}

fn word_of(a: TodoAction) -> (r: String)
    ensures
        r@ == action_word(a),
{
    match a {
        TodoAction::Pick => "pick".to_owned(),
        TodoAction::Squash => "squash".to_owned(),
        TodoAction::Drop => "drop".to_owned(),
    }
}

pub open spec fn unknown_action_error(a: Seq<char>) -> Seq<char> {
    "unknown rebase action: "@ + a
}

/// The todo lines of the first `n` commits, or the error for the first
/// commit among them whose action is unknown.
pub open spec fn todo_upto(cs: Seq<ReorgModel>, n: int) -> Result<Seq<Seq<char>>, Seq<char>>
    decreases n,
{
    if n <= 0 {
        Ok(Seq::empty())
    } else {
        match todo_upto(cs, n - 1) {
            Err(e) => Err(e),
            Ok(lines) => match parse_action(cs[n - 1].action) {
                None => Err(unknown_action_error(cs[n - 1].action)),
                Some(a) => Ok(lines.push(action_word(a) + " "@ + cs[n - 1].sha)),
            },
        }
    }
}

/// The todo script for the plan: one `action sha` line per commit, each
/// ending with a newline; an error naming the first unknown action.
pub open spec fn spec_rebase_todo(cs: Seq<ReorgModel>) -> Result<Seq<char>, Seq<char>> {
    match todo_upto(cs, cs.len() as int) {
        Ok(lines) => Ok(join(lines, "\n"@) + "\n"@),
        Err(e) => Err(e),
    }
}

pub open spec fn text_result(r: Result<String, String>) -> Result<Seq<char>, Seq<char>> {
    match r {
        Ok(s) => Ok(s@),
        Err(e) => Err(e@),
    }
}

proof fn lemma_todo_err_persists(cs: Seq<ReorgModel>, i: int, m: int)
    requires
        0 < i <= m,
        todo_upto(cs, i) is Err,
    ensures
        todo_upto(cs, m) == todo_upto(cs, i),
    decreases m - i,
{
    if m > i {
        lemma_todo_err_persists(cs, i, m - 1);
    }
}

/// Build the todo script that `git rebase -i` follows for the plan.
pub fn rebase_todo(plan: &ReorganizePlan) -> (r: Result<String, String>)
    ensures
        text_result(r) == spec_rebase_todo(plan@),
{
    let mut lines: Vec<String> = Vec::new();
    let n = plan.commits.len();
    proof {
        assert(strs(lines@) =~= Seq::<Seq<char>>::empty());
    }
    for i in 0..n
        invariant
            n == plan@.len(),
            todo_upto(plan@, i as int) == Ok::<Seq<Seq<char>>, Seq<char>>(strs(lines@)),
    {
        let c = &plan.commits[i];
        match read_action(&c.action) {
            None => {
                let mut e = "unknown rebase action: ".to_owned();
                e.append(c.action.as_str());
                proof {
                    lemma_todo_err_persists(plan@, i + 1, n as int);
                }
                return Err(e);
            },
            Some(a) => {
                let mut line = word_of(a);
                line.append(" ");
                line.append(c.original_sha.as_str());
                let ghost prev = lines@;
                lines.push(line);
                proof {
                    assert(strs(lines@) =~= strs(prev).push(line@));
                }
            },
        }
    }
    let mut script = join_strings(&lines, "\n");
    script.append("\n");
    Ok(script)
}

/// The state of the message rewrites while the plan is read in order.
pub struct RewriteModel {
    pub map: Map<Seq<char>, Seq<char>>,
    pub squash: Seq<Seq<char>>,
    pub last_pick: Option<Seq<char>>,
}

/// `base` followed by each of `msgs`, each after a blank line.
pub open spec fn appended(base: Seq<char>, msgs: Seq<Seq<char>>) -> Seq<char>
    decreases msgs.len(),
{
    if msgs.len() == 0 {
        base
    } else {
        appended(base, msgs.drop_last()) + "\n\n"@ + msgs.last()
    }
}

/// The rewrites once the pending squash messages are added to the message of
/// the last picked commit.
pub open spec fn flushed(st: RewriteModel) -> Map<Seq<char>, Seq<char>> {
    match st.last_pick {
        Some(sha) => if st.squash.len() > 0 && st.map.contains_key(sha) {
            st.map.insert(sha, appended(st.map[sha], st.squash))
        } else {
            st.map
        },
        None => st.map,
    }
}

pub open spec fn reorg_message(c: ReorgModel) -> Seq<char> {
    spec_full_message(c.message, c.body, c.footer)
}

/// Read one more commit of the plan: a pick records its full message and
/// becomes the commit that later squashes are added to; a squash's full
/// message waits for that.
pub open spec fn rewrite_step(st: RewriteModel, c: ReorgModel) -> RewriteModel {
    match parse_action(c.action) {
        Some(TodoAction::Pick) => RewriteModel {
            map: flushed(st).insert(c.sha, reorg_message(c)),
            squash: Seq::empty(),
            last_pick: Some(c.sha),
        },
        Some(TodoAction::Squash) => RewriteModel {
            map: st.map,
            squash: st.squash.push(reorg_message(c)),
            last_pick: st.last_pick,
        },
        _ => st,
    }
}

pub open spec fn rewrites_upto(cs: Seq<ReorgModel>, n: int) -> RewriteModel
    decreases n,
{
    if n <= 0 {
        RewriteModel { map: Map::empty(), squash: Seq::empty(), last_pick: None }
    } else {
        rewrite_step(rewrites_upto(cs, n - 1), cs[n - 1])
    }
}

/// The new message of each picked commit, by its hash: its own full message
/// followed by the full messages of the commits squashed into it.
pub open spec fn spec_rewrites(cs: Seq<ReorgModel>) -> Map<Seq<char>, Seq<char>> {
    flushed(rewrites_upto(cs, cs.len() as int))
}

/// `v` lists each key of `m` once, with its value.
pub open spec fn table_matches(v: Seq<(String, String)>, m: Map<Seq<char>, Seq<char>>) -> bool {
    &&& forall|i: int, j: int| 0 <= i < v.len() && 0 <= j < v.len() && i != j ==> (#[trigger] v[i]).0@ != (#[trigger] v[j]).0@
    &&& forall|i: int| 0 <= i < v.len() ==> m.contains_key((#[trigger] v[i]).0@) && m[v[i].0@] == v[i].1@
    &&& forall|k: Seq<char>| #[trigger] m.contains_key(k) ==> exists|i: int| 0 <= i < v.len() && (#[trigger] v[i]).0@ == k
}

fn find_key(v: &Vec<(String, String)>, k: &String) -> (r: Option<usize>)
    ensures
        match r {
            Some(i) => i < v@.len() && v@[i as int].0@ == k@,
            None => forall|i: int| 0 <= i < v@.len() ==> (#[trigger] v@[i]).0@ != k@,
        },
{
    for i in 0..v.len()
        invariant
            forall|j: int| 0 <= j < i ==> (#[trigger] v@[j]).0@ != k@,
    {
        if v[i].0 == *k {
            return Some(i);
        }
    }
    None
}

fn table_put(v: &mut Vec<(String, String)>, Ghost(m): Ghost<Map<Seq<char>, Seq<char>>>, k: &String, val: String)
    requires
        table_matches(old(v)@, m),
    ensures
        table_matches(final(v)@, m.insert(k@, val@)),
{
    let ghost nm = m.insert(k@, val@);
    match find_key(v, k) {
        Some(i) => {
            let ghost old_v = v@;
            v.set(i, (k.clone(), val));
            proof {
                assert forall|key: Seq<char>| #[trigger] nm.contains_key(key) implies exists|j: int| 0 <= j < v@.len() && (#[trigger] v@[j]).0@ == key by {
                    if key != k@ {
                        let j = choose|j: int| 0 <= j < old_v.len() && (#[trigger] old_v[j]).0@ == key;
                        assert(v@[j] == old_v[j]);
                    } else {
                        assert(v@[i as int].0@ == key);
                    }
                }
                assert forall|a: int| 0 <= a < v@.len() implies nm.contains_key((#[trigger] v@[a]).0@) && nm[v@[a].0@] == v@[a].1@ by {
                    if a != i {
                        assert(v@[a] == old_v[a]);
                        assert(old_v[a].0@ != old_v[i as int].0@);
                    }
                }
                assert forall|a: int, b: int| 0 <= a < v@.len() && 0 <= b < v@.len() && a != b implies (#[trigger] v@[a]).0@ != (#[trigger] v@[b]).0@ by {
                    if a != i && b != i {
                        assert(v@[a] == old_v[a]);
                        assert(v@[b] == old_v[b]);
                    } else if a == i {
                        assert(v@[b] == old_v[b]);
                        assert(old_v[b].0@ != old_v[i as int].0@);
                    } else {
                        assert(v@[a] == old_v[a]);
                        assert(old_v[a].0@ != old_v[i as int].0@);
                    }
                }
            }
        },
        None => {
            let ghost old_v = v@;
            v.push((k.clone(), val));
            proof {
                let last = old_v.len() as int;
                assert forall|key: Seq<char>| #[trigger] nm.contains_key(key) implies exists|j: int| 0 <= j < v@.len() && (#[trigger] v@[j]).0@ == key by {
                    if key != k@ {
                        let j = choose|j: int| 0 <= j < old_v.len() && (#[trigger] old_v[j]).0@ == key;
                        assert(v@[j] == old_v[j]);
                    } else {
                        assert(v@[last].0@ == key);
                    }
                }
                assert forall|a: int| 0 <= a < v@.len() implies nm.contains_key((#[trigger] v@[a]).0@) && nm[v@[a].0@] == v@[a].1@ by {
                    if a != last {
                        assert(v@[a] == old_v[a]);
                    }
                }
                assert forall|a: int, b: int| 0 <= a < v@.len() && 0 <= b < v@.len() && a != b implies (#[trigger] v@[a]).0@ != (#[trigger] v@[b]).0@ by {
                    if a != last && b != last {
                        assert(v@[a] == old_v[a]);
                        assert(v@[b] == old_v[b]);
                    } else if a == last {
                        assert(v@[b] == old_v[b]);
                    } else {
                        assert(v@[a] == old_v[a]);
                    }
                }
            }
        },
    }
}

/// Add the pending squash messages to the last picked commit's message.
fn flush_squashes(
    table: &mut Vec<(String, String)>,
    Ghost(m): Ghost<Map<Seq<char>, Seq<char>>>,
    squash: &Vec<String>,
    last_pick: &Option<String>,
)
    requires
        table_matches(old(table)@, m),
    ensures
        table_matches(
            final(table)@,
            flushed(RewriteModel { map: m, squash: strs(squash@), last_pick: opt_chars(*last_pick) }),
        ),
{
    if squash.len() > 0 {
        match last_pick {
            Some(sha) => {
                match find_key(table, sha) {
                    Some(i) => {
                        let mut existing = table[i].1.clone();
                        let ghost base = existing@;
                        for j in 0..squash.len()
                            invariant
                                existing@ == appended(base, strs(squash@).take(j as int)),
                        {
                            proof {
                                reveal_strlit("\n\n");
                                assert(strs(squash@).take(j + 1).drop_last() =~= strs(squash@).take(j as int));
                            }
                            existing.append("\n\n");
                            existing.append(squash[j].as_str());
                        }
                        proof {
                            assert(strs(squash@).take(squash@.len() as int) =~= strs(squash@));
                            assert(m.contains_key(sha@));
                            assert(m[sha@] == base);
                        }
                        table_put(table, Ghost(m), sha, existing);
                    },
                    None => {
                        proof {
                            if m.contains_key(sha@) {
                                let j = choose|j: int| 0 <= j < table@.len() && (#[trigger] table@[j]).0@ == sha@;
                            }
                        }
                    },
                }
            },
            None => {},
        }
    }
}

/// The new message of each picked commit of the plan, by its hash, once:
/// its own full message followed by the full messages of the commits
/// squashed into it, each after a blank line. Squashes before the first pick
/// are dropped, as are dropped commits and unknown actions.
pub fn rebase_rewrites(plan: &ReorganizePlan) -> (r: Vec<(String, String)>)
    ensures
        table_matches(r@, spec_rewrites(plan@)),
{
    let mut table: Vec<(String, String)> = Vec::new();
    let mut squash: Vec<String> = Vec::new();
    let mut last_pick: Option<String> = None;
    let n = plan.commits.len();
    for i in 0..n
        invariant
            n == plan@.len(),
            table_matches(table@, rewrites_upto(plan@, i as int).map),
            strs(squash@) == rewrites_upto(plan@, i as int).squash,
            opt_chars(last_pick) == rewrites_upto(plan@, i as int).last_pick,
    {
        let c = &plan.commits[i];
        let ghost st = rewrites_upto(plan@, i as int);
        let msg = full_message(&c.message, &c.body, &c.footer);
        match read_action(&c.action) {
            Some(TodoAction::Pick) => {
                flush_squashes(&mut table, Ghost(st.map), &squash, &last_pick);
                table_put(&mut table, Ghost(flushed(st)), &c.original_sha, msg);
                squash = Vec::new();
                last_pick = Some(c.original_sha.clone());
                proof {
                    assert(strs(squash@) =~= Seq::<Seq<char>>::empty());
                }
            },
            Some(TodoAction::Squash) => {
                let ghost prev = squash@;
                squash.push(msg);
                proof {
                    assert(strs(squash@) =~= strs(prev).push(msg@));
                }
            },
            _ => {},
        }
    }
    let ghost st = rewrites_upto(plan@, n as int);
    flush_squashes(&mut table, Ghost(st.map), &squash, &last_pick);
    table
}

/// Commit `i` of the plan is picked (or reworded) and has hash `sha`.
pub open spec fn picks_at(cs: Seq<ReorgModel>, i: int, sha: Seq<char>) -> bool {
    parse_action(cs[i].action) == Some(TodoAction::Pick) && cs[i].sha == sha
}

proof fn lemma_rewrites_domain(cs: Seq<ReorgModel>, n: int)
    requires
        0 <= n <= cs.len(),
    ensures
        forall|k: Seq<char>| #[trigger] rewrites_upto(cs, n).map.contains_key(k) <==> exists|i: int| 0 <= i < n && picks_at(cs, i, k),
        rewrites_upto(cs, n).last_pick matches Some(p) ==> rewrites_upto(cs, n).map.contains_key(p),
    decreases n,
{
    if n > 0 {
        lemma_rewrites_domain(cs, n - 1);
        let st = rewrites_upto(cs, n - 1);
        let nx = rewrites_upto(cs, n);
        assert(flushed(st).dom() =~= st.map.dom());
        assert forall|k: Seq<char>| #[trigger] nx.map.contains_key(k) <==> exists|i: int| 0 <= i < n && picks_at(cs, i, k) by {
            if nx.map.contains_key(k) {
                if picks_at(cs, n - 1, k) {
                } else {
                    assert(st.map.contains_key(k));
                    let i = choose|i: int| 0 <= i < n - 1 && picks_at(cs, i, k);
                }
            }
            if exists|i: int| 0 <= i < n && picks_at(cs, i, k) {
                let i = choose|i: int| 0 <= i < n && picks_at(cs, i, k);
                if i < n - 1 {
                    assert(st.map.contains_key(k));
                }
            }
        }
    }
}

/// The rewritten messages are keyed by exactly the hashes of the picked
/// (and reworded) commits of the plan.
pub proof fn law_rewrites_cover_picks(cs: Seq<ReorgModel>)
    ensures
        forall|k: Seq<char>| #[trigger] spec_rewrites(cs).contains_key(k) <==> exists|i: int| 0 <= i < cs.len() && picks_at(cs, i, k),
{
    lemma_rewrites_domain(cs, cs.len() as int);
    let st = rewrites_upto(cs, cs.len() as int);
    assert(flushed(st).dom() =~= st.map.dom());
}

/// A paragraph of a commit message: a blank line and the text, when it is
/// given and not empty.
pub open spec fn paragraph(t: Option<Seq<char>>) -> Seq<char> {
    if t is Some && t->0.len() > 0 {
        "\n\n"@ + t->0
    } else {
        Seq::empty()
    }
}

/// The whole message that a commit of the plan asks for: its subject, then
/// its body and its footer as paragraphs.
pub open spec fn asked_message(c: ReorgModel) -> Seq<char> {
    c.message + paragraph(c.body) + paragraph(c.footer)
}

/// The word `pick` or `reword`.
pub open spec fn is_pick_word(a: Seq<char>) -> bool {
    a == "pick"@ || a == "reword"@
}

/// The messages of the commits squashed among `k + 1 .. m`, each after a
/// blank line, in plan order.
pub open spec fn squashed_between(cs: Seq<ReorgModel>, k: int, m: int) -> Seq<char>
    decreases m - k,
{
    if m <= k + 1 {
        Seq::empty()
    } else if cs[m - 1].action == "squash"@ {
        squashed_between(cs, k, m - 1) + "\n\n"@ + asked_message(cs[m - 1])
    } else {
        squashed_between(cs, k, m - 1)
    }
}

proof fn lemma_asked_message(c: ReorgModel)
    ensures
        reorg_message(c) == asked_message(c),
{
    reveal_strlit("\n\n");
    assert("\n\n"@ =~= crate::text::paragraph_sep());
    assert(reorg_message(c) =~= asked_message(c));
}

/// While the plan is read from the pick at `k` up to the next pick, the
/// pick's message and the squashes after it make up its rewrite.
proof fn lemma_rewrite_of_pick(cs: Seq<ReorgModel>, k: int, sha: Seq<char>, n: int)
    requires
        0 <= k < n <= cs.len(),
        is_pick_word(cs[k].action),
        cs[k].sha == sha,
        forall|j: int| k < j < n ==> !is_pick_word(#[trigger] cs[j].action),
    ensures
        rewrites_upto(cs, n).last_pick == Some(sha),
        rewrites_upto(cs, n).map.contains_key(sha),
        appended(rewrites_upto(cs, n).map[sha], rewrites_upto(cs, n).squash) == asked_message(cs[k]) + squashed_between(cs, k, n),
    decreases n - k,
{
    lemma_asked_message(cs[n - 1]);
    if n == k + 1 {
        let st = rewrites_upto(cs, n);
        assert(st.squash.len() == 0);
        assert(asked_message(cs[k]) + squashed_between(cs, k, n) =~= asked_message(cs[k]));
    } else {
        lemma_rewrite_of_pick(cs, k, sha, n - 1);
        let prev = rewrites_upto(cs, n - 1);
        let st = rewrites_upto(cs, n);
        assert(!is_pick_word(cs[n - 1].action));
        if cs[n - 1].action == "squash"@ {
            assert(st.squash.drop_last() =~= prev.squash);
            assert(appended(st.map[sha], st.squash) =~= appended(prev.map[sha], prev.squash) + "\n\n"@ + asked_message(cs[n - 1]));
        }
    }
}

/// Once the pick at `k` has been followed by another pick, and no later
/// commit picks its hash again, its rewrite stays what it was.
proof fn lemma_rewrite_kept(cs: Seq<ReorgModel>, sha: Seq<char>, text: Seq<char>, m: int, n: int)
    requires
        0 < m <= n <= cs.len(),
        rewrites_upto(cs, m).map.contains_key(sha),
        rewrites_upto(cs, m).map[sha] == text,
        rewrites_upto(cs, m).last_pick != Some(sha),
        forall|j: int| m <= j < cs.len() ==> !(is_pick_word(#[trigger] cs[j].action) && cs[j].sha == sha),
    ensures
        rewrites_upto(cs, n).map.contains_key(sha),
        rewrites_upto(cs, n).map[sha] == text,
        rewrites_upto(cs, n).last_pick != Some(sha),
    decreases n - m,
{
    if n > m {
        lemma_rewrite_kept(cs, sha, text, m, n - 1);
        assert(!(is_pick_word(cs[n - 1].action) && cs[n - 1].sha == sha));
    }
}

/// The rewrite of a picked (or reworded) commit is its whole message, its
/// footer included, followed by the whole message of each commit squashed
/// into it, in plan order, each after a blank line; the squashed commits are
/// those up to the next pick. This holds for the last pick of that hash.
pub proof fn law_rewrite_is_full_message(cs: Seq<ReorgModel>, k: int, m: int)
    requires
        0 <= k < m <= cs.len(),
        is_pick_word(cs[k].action),
        forall|j: int| k < j < m ==> !is_pick_word(#[trigger] cs[j].action),
        m < cs.len() ==> is_pick_word(cs[m].action),
        forall|j: int| k < j < cs.len() ==> !(is_pick_word(#[trigger] cs[j].action) && cs[j].sha == cs[k].sha),
    ensures
        spec_rewrites(cs).contains_key(cs[k].sha),
        spec_rewrites(cs)[cs[k].sha] == asked_message(cs[k]) + squashed_between(cs, k, m),
{
    let sha = cs[k].sha;
    let text = asked_message(cs[k]) + squashed_between(cs, k, m);
    lemma_rewrite_of_pick(cs, k, sha, m);
    let st = rewrites_upto(cs, m);
    assert(flushed(st).contains_key(sha) && flushed(st)[sha] == text) by {
        if st.squash.len() == 0 {
            assert(appended(st.map[sha], st.squash) == st.map[sha]);
        }
    }
    if m == cs.len() {
    } else {
        let nx = rewrites_upto(cs, m + 1);
        assert(cs[m].sha != sha);
        assert(nx.map.contains_key(sha) && nx.map[sha] == text);
        lemma_rewrite_kept(cs, sha, text, m + 1, cs.len() as int);
        let fin = rewrites_upto(cs, cs.len() as int);
        assert(flushed(fin).contains_key(sha) && flushed(fin)[sha] == text);
    }
}

/// The script that git runs as its sequence editor: it replaces the todo
/// list that git offers with the file at `todo_path`.
pub fn sequence_editor_script(todo_path: &str) -> (r: String)
    ensures
        r@ == "#!/bin/sh\ncp '"@ + todo_path@ + "' \"$1\"\n"@,
{
    let mut s = "#!/bin/sh\ncp '".to_owned();
    s.append(todo_path);
    s.append("' \"$1\"\n");
    s
}

/// The script that git runs as its message editor: when the message that
/// git offers mentions the hash of a file in `msgs_dir`, it is replaced by
/// that file; otherwise it is kept.
pub fn message_editor_script(msgs_dir: &str) -> (r: String)
    ensures
        r@ == "#!/bin/sh\nMSGS_DIR='"@ + msgs_dir@ + "'\nMSG_FILE=\"$1\"\n\nfor sha_file in \"$MSGS_DIR\"/*; do\n    sha=$(basename \"$sha_file\")\n    if grep -q \"$sha\" \"$MSG_FILE\" 2>/dev/null; then\n        cp \"$sha_file\" \"$MSG_FILE\"\n        exit 0\n    fi\ndone\n\nexit 0\n"@,
{
    let mut s = "#!/bin/sh\nMSGS_DIR='".to_owned();
    s.append(msgs_dir);
    s.append("'\nMSG_FILE=\"$1\"\n\nfor sha_file in \"$MSGS_DIR\"/*; do\n    sha=$(basename \"$sha_file\")\n    if grep -q \"$sha\" \"$MSG_FILE\" 2>/dev/null; then\n        cp \"$sha_file\" \"$MSG_FILE\"\n        exit 0\n    fi\ndone\n\nexit 0\n");
    s
}

/// The error reported when `git rebase` fails, with git's own words.
pub fn rebase_failure_message(stderr: &str) -> (r: String)
    ensures
        r@ == "git rebase failed: "@ + crate::text::trimmed(stderr@),
{
    let mut s = "git rebase failed: ".to_owned();
    let t = crate::text::trim(stderr);
    s.append(t.as_str());
    s
}

/// The options of a rebase planning run.
pub struct RebaseInput<'a> {
    pub message: Option<&'a str>,
    pub commit_count: usize,
    pub commit_pattern: &'a str,
    pub type_names: &'a [&'a str],
}

/// Which backend planned the rebase, with which model, at what cost in tokens.
pub struct RebasePlanMetrics {
    pub backend_name: String,
    pub model_name: String,
    pub usage: Option<crate::planning::TokenUsage>,
}

/// Why a rebase cannot be planned.
#[derive(Debug, Clone, PartialEq, Eq, Structural)]
pub enum RebaseError {
    /// The working tree has uncommitted changes.
    UncommittedChanges,
    /// Fewer than two commits were asked for; the count is given.
    TooFewCommits(usize),
    /// The plan that came back holds no commit.
    EmptyPlan,
}

/// Whether a rebase of `commit_count` commits can be planned: the working
/// tree must be clean, and at least two commits must be involved.
pub fn check_rebase_request(has_changes: bool, commit_count: usize) -> (r: Result<(), RebaseError>)
    ensures
        r == (if has_changes {
            Err(RebaseError::UncommittedChanges)
        } else if commit_count < 2 {
            Err(RebaseError::TooFewCommits(commit_count))
        } else {
            Ok(())
        }),
{
    if has_changes {
        Err(RebaseError::UncommittedChanges)
    } else if commit_count < 2 {
        Err(RebaseError::TooFewCommits(commit_count))
    } else {
        Ok(())
    }
}

/// A rebase plan must hold at least one commit.
pub fn check_rebase_plan(plan: &ReorganizePlan) -> (r: Result<(), RebaseError>)
    ensures
        r == (if plan@.len() == 0 { Err(RebaseError::EmptyPlan) } else { Ok(()) }),
{
    if plan.commits.len() == 0 {
        Err(RebaseError::EmptyPlan)
    } else {
        Ok(())
    }
}

} // verus!
