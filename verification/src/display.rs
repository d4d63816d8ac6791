//! What the terminal shows: plans, progress and summaries, as lines of
//! styled text. Printing them, with colours, is left to the caller.

use vstd::prelude::*;
use crate::plan::{CommitModel, CommitPlan};
use crate::rebase::{ReorgModel, ReorganizePlan};
use crate::text::{decimal, decimal_text, chars_of, strs};

verus! {

/// How a piece of text is shown.
#[derive(Debug, Clone, Copy, PartialEq, Eq, Structural)]
pub enum Style {
    Plain,
    Bold,
    Dim,
    Cyan,
    CyanBold,
    Yellow,
    YellowBold,
    Green,
    GreenBold,
    Red,
    RedBold,
    Blue,
    Magenta,
}

/// A piece of text and its style.
#[derive(Debug, Clone)]
pub struct Span {
    pub text: String,
    pub style: Style,
}

impl View for Span {
    type V = (Seq<char>, Style);

    open spec fn view(&self) -> (Seq<char>, Style) {
        (self.text@, self.style)
    }
}

/// The value of a line of spans.
pub open spec fn line_view(l: Seq<Span>) -> Seq<(Seq<char>, Style)> {
    l.map_values(|s: Span| s@)
}

/// The value of a sequence of lines.
pub open spec fn lines_view(ls: Seq<Vec<Span>>) -> Seq<Seq<(Seq<char>, Style)>> {
    ls.map_values(|l: Vec<Span>| line_view(l@))
}

fn span(text: &str, style: Style) -> (r: Span)
    ensures
        r@ == (text@, style),
{
    Span { text: text.to_owned(), style }
}

fn blank_line() -> (r: Vec<Span>)
    ensures
        line_view(r@) == Seq::<(Seq<char>, Style)>::empty(),
{
    let r: Vec<Span> = Vec::new();
    proof {
        assert(line_view(r@) =~= Seq::<(Seq<char>, Style)>::empty());
    }
    r
}

fn no_lines() -> (r: Vec<Vec<Span>>)
    ensures
        lines_view(r@) == Seq::<Seq<(Seq<char>, Style)>>::empty(),
{
    let r: Vec<Vec<Span>> = Vec::new();
    proof {
        assert(lines_view(r@) =~= Seq::<Seq<(Seq<char>, Style)>>::empty());
    }
    r
}

fn push_line(out: &mut Vec<Vec<Span>>, l: Vec<Span>)
    ensures
        lines_view(final(out)@) == lines_view(old(out)@).push(line_view(l@)),
{
    let ghost prev = out@;
    out.push(l);
    proof {
        assert(lines_view(out@) =~= lines_view(prev).push(line_view(l@)));
    }
}

fn push_lines(out: &mut Vec<Vec<Span>>, more: Vec<Vec<Span>>)
    ensures
        lines_view(final(out)@) == lines_view(old(out)@) + lines_view(more@),
{
    let ghost prev = out@;
    let ghost m = more@;
    let mut more = more;
    out.append(&mut more);
    proof {
        assert(lines_view(out@) =~= lines_view(prev) + lines_view(m));
    }
}

// ---------------------------------------------------------------------------
// Splitting text into lines
// ---------------------------------------------------------------------------

/// The index of the first newline of `s` at or after `i`, or its length.
pub open spec fn next_newline(s: Seq<char>, i: int) -> int
    decreases s.len() - i,
{
    if i >= s.len() {
        s.len() as int
    } else if s[i] == '\n' {
        i
    } else {
        next_newline(s, i + 1)
    }
}

/// `s` without a final carriage return.
pub open spec fn strip_cr(s: Seq<char>) -> Seq<char> {
    if s.len() > 0 && s.last() == '\r' { s.drop_last() } else { s }
}

/// The lines of `s` from index `i` on, as `str::lines` gives them: split at
/// each newline, a carriage return before a newline removed, and no empty
/// last line after a final newline.
pub open spec fn lines_from(s: Seq<char>, i: int) -> Seq<Seq<char>>
    decreases s.len() - i,
{
    if i < 0 || i >= s.len() {
        Seq::empty()
    } else {
        let k = next_newline(s, i);
        proof {
            lemma_next_newline_bounds(s, i);
        }
        if k >= s.len() {
            seq![s.subrange(i, s.len() as int)]
        } else {
            seq![strip_cr(s.subrange(i, k))] + lines_from(s, k + 1)
        }
    }
}

pub proof fn lemma_next_newline_bounds(s: Seq<char>, i: int)
    requires
        0 <= i <= s.len(),
    ensures
        i <= next_newline(s, i) <= s.len(),
        next_newline(s, i) < s.len() ==> s[next_newline(s, i)] == '\n',
        forall|j: int| i <= j < next_newline(s, i) ==> s[j] != '\n',
    decreases s.len() - i,
{
    if i < s.len() && s[i] != '\n' {
        lemma_next_newline_bounds(s, i + 1);
    }
}

/// The lines of `text`, as `str::lines` gives them.
pub fn text_lines(text: &str) -> (r: Vec<String>)
    ensures
        strs(r@) == lines_from(text@, 0),
{
    let cs = chars_of(text);
    let n = cs.len();
    let mut out: Vec<String> = Vec::new();
    let mut start: usize = 0;
    let mut i: usize = 0;
    proof {
        assert(strs(out@) =~= Seq::<Seq<char>>::empty());
    }
    while i < n
        invariant
            cs@ == text@,
            n == text@.len(),
            start <= i <= n,
            forall|j: int| start <= j < i ==> text@[j] != '\n',
            lines_from(text@, 0) == strs(out@) + lines_from(text@, start as int),
        decreases n - i,
    {
        if cs[i] == '\n' {
            proof {
                lemma_next_newline_bounds(text@, start as int);
                assert(next_newline(text@, start as int) == i) by {
                    if next_newline(text@, start as int) < i {
                        assert(text@[next_newline(text@, start as int)] != '\n');
                    }
                }
            }
            let piece = text.substring_char(start, i);
            let mut piece_chars = chars_of(piece);
            let len = piece_chars.len();
            let ghost prev = out@;
            if len > 0 && piece_chars[len - 1] == '\r' {
                out.push(text.substring_char(start, i - 1).to_owned());
                proof {
                    assert(text@.subrange(start as int, i - 1) =~= text@.subrange(start as int, i as int).drop_last());
                }
            } else {
                out.push(piece.to_owned());
            }
            proof {
                assert(strs(out@) =~= strs(prev).push(strip_cr(text@.subrange(start as int, i as int))));
            }
            start = i + 1;
        }
        i = i + 1;
    }
    if start < n {
        let ghost prev = out@;
        out.push(text.substring_char(start, n).to_owned());
        proof {
            lemma_next_newline_bounds(text@, start as int);
            assert(next_newline(text@, start as int) == n as int) by {
                if next_newline(text@, start as int) < n {
                    assert(text@[next_newline(text@, start as int)] != '\n');
                }
            }
            assert(strs(out@) =~= strs(prev).push(text@.subrange(start as int, n as int)));
            assert(lines_from(text@, (n + 1) as int) == Seq::<Seq<char>>::empty());
        }
    }
    proof {
        assert(lines_from(text@, 0) =~= strs(out@));
    }
    out
}


// ---------------------------------------------------------------------------
// Shared pieces
// ---------------------------------------------------------------------------

/// A line: a sequence of styled texts.
pub open spec fn pl(t: Seq<char>) -> (Seq<char>, Style) {
    (t, Style::Plain)
}

/// `s` repeated `n` times.
pub open spec fn repeat(s: Seq<char>, n: int) -> Seq<char>
    decreases n,
{
    if n <= 0 {
        Seq::empty()
    } else {
        repeat(s, n - 1) + s
    }
}

/// The horizontal rule under and over a plan.
pub open spec fn rule_line() -> Seq<(Seq<char>, Style)> {
    seq![pl("  "@), (repeat("\u{2500}"@, 50), Style::Dim)]
}

fn rule_line_exec() -> (r: Vec<Span>)
    ensures
        line_view(r@) == rule_line(),
{
    let mut rule = String::new();
    let mut i: usize = 0;
    while i < 50
        invariant
            i <= 50,
            rule@ == repeat("\u{2500}"@, i as int),
        decreases 50 - i,
    {
        rule.append("\u{2500}");
        i = i + 1;
    }
    let mut l: Vec<Span> = Vec::new();
    l.push(span("  ", Style::Plain));
    l.push(Span { text: rule, style: Style::Dim });
    proof {
        assert(line_view(l@) =~= rule_line());
    }
    l
}

/// `s` unless `n` is one: the plural ending of a count.
pub open spec fn plural(n: int) -> Seq<char> {
    if n == 1 { Seq::empty() } else { "s"@ }
}

fn plural_exec(n: usize) -> (r: String)
    ensures
        r@ == plural(n as int),
{
    if n == 1 { String::new() } else { "s".to_owned() }
}

/// The bare gutter line of a commit block.
pub open spec fn bar_line() -> Seq<(Seq<char>, Style)> {
    seq![pl("   "@), ("\u{2502}"@, Style::Dim)]
}

/// A line of a body or footer, shown in the gutter.
pub open spec fn text_line(l: Seq<char>, st: Style) -> Seq<(Seq<char>, Style)> {
    seq![pl("   "@), ("\u{2502}"@, Style::Dim), pl("  "@), (l, st)]
}

/// Lines of text, each shown in the gutter.
pub open spec fn quoted_lines(ls: Seq<Seq<char>>, st: Style) -> Seq<Seq<(Seq<char>, Style)>> {
    Seq::new(ls.len(), |k: int| text_line(ls[k], st))
}

fn quoted_lines_exec(text: &str, st: Style) -> (r: Vec<Vec<Span>>)
    ensures
        lines_view(r@) == quoted_lines(lines_from(text@, 0), st),
{
    let ls = text_lines(text);
    let mut out: Vec<Vec<Span>> = Vec::new();
    for k in 0..ls.len()
        invariant
            strs(ls@) == lines_from(text@, 0),
            lines_view(out@) == quoted_lines(strs(ls@), st).take(k as int),
    {
        let mut l: Vec<Span> = Vec::new();
        l.push(span("   ", Style::Plain));
        l.push(span("\u{2502}", Style::Dim));
        l.push(span("  ", Style::Plain));
        l.push(Span { text: ls[k].clone(), style: st });
        proof {
            assert(line_view(l@) =~= text_line(strs(ls@)[k as int], st));
        }
        let ghost prev = out@;
        push_line(&mut out, l);
        proof {
            assert(lines_view(out@) =~= quoted_lines(strs(ls@), st).take(k + 1));
        }
    }
    proof {
        assert(quoted_lines(strs(ls@), st).take(ls@.len() as int) =~= quoted_lines(strs(ls@), st));
    }
    out
}

/// The lines of a body: each line in the gutter, dimmed; none when absent or empty.
pub open spec fn body_block(b: Option<Seq<char>>) -> Seq<Seq<(Seq<char>, Style)>> {
    match b {
        Some(t) => if t.len() > 0 { quoted_lines(lines_from(t, 0), Style::Dim) } else { Seq::empty() },
        None => Seq::empty(),
    }
}

fn body_block_exec(b: &Option<String>) -> (r: Vec<Vec<Span>>)
    ensures
        lines_view(r@) == body_block(crate::text::opt_chars(*b)),
{
    match b {
        Some(t) => if !t.as_str().is_empty() {
            quoted_lines_exec(t.as_str(), Style::Dim)
        } else {
            let r: Vec<Vec<Span>> = Vec::new();
            proof {
                assert(lines_view(r@) =~= Seq::empty());
            }
            r
        },
        None => {
            let r: Vec<Vec<Span>> = Vec::new();
            proof {
                assert(lines_view(r@) =~= Seq::empty());
            }
            r
        },
    }
}

/// The lines of a footer: a bare gutter line, then each line in yellow;
/// none when absent or empty.
pub open spec fn footer_block(f: Option<Seq<char>>) -> Seq<Seq<(Seq<char>, Style)>> {
    match f {
        Some(t) => if t.len() > 0 {
            seq![bar_line()] + quoted_lines(lines_from(t, 0), Style::Yellow)
        } else {
            Seq::empty()
        },
        None => Seq::empty(),
    }
}

fn bar_line_exec() -> (r: Vec<Span>)
    ensures
        line_view(r@) == bar_line(),
{
    let mut l: Vec<Span> = Vec::new();
    l.push(span("   ", Style::Plain));
    l.push(span("\u{2502}", Style::Dim));
    proof {
        assert(line_view(l@) =~= bar_line());
    }
    l
}

fn footer_block_exec(f: &Option<String>) -> (r: Vec<Vec<Span>>)
    ensures
        lines_view(r@) == footer_block(crate::text::opt_chars(*f)),
{
    let mut out: Vec<Vec<Span>> = Vec::new();
    match f {
        Some(t) => if !t.as_str().is_empty() {
            push_line(&mut out, bar_line_exec());
            push_lines(&mut out, quoted_lines_exec(t.as_str(), Style::Yellow));
        },
        None => {},
    }
    proof {
        assert(lines_view(out@) =~= footer_block(crate::text::opt_chars(*f)));
    }
    out
}

// ---------------------------------------------------------------------------
// The commit plan
// ---------------------------------------------------------------------------

/// The status letter recorded for `f`: the first entry for it, or `~`.
pub open spec fn status_of(st: Seq<(String, char)>, f: Seq<char>) -> char
    decreases st.len(),
{
    if st.len() == 0 {
        '~'
    } else if st[0].0@ == f {
        st[0].1
    } else {
        status_of(st.drop_first(), f)
    }
}

fn status_lookup(statuses: &Vec<(String, char)>, f: &String) -> (r: char)
    ensures
        r == status_of(statuses@, f@),
{
    let mut i: usize = 0;
    proof {
        assert(statuses@.skip(0) =~= statuses@);
    }
    while i < statuses.len()
        invariant
            i <= statuses@.len(),
            status_of(statuses@, f@) == status_of(statuses@.skip(i as int), f@),
        decreases statuses@.len() - i,
    {
        proof {
            assert(statuses@.skip(i as int).drop_first() =~= statuses@.skip(i + 1));
        }
        if statuses[i].0 == *f {
            return statuses[i].1;
        }
        i = i + 1;
    }
    '~'
}

/// How a status letter is shown: added green, deleted red, modified yellow,
/// renamed blue, anything else a dimmed dot.
pub open spec fn status_span(c: char) -> (Seq<char>, Style) {
    if c == 'A' {
        ("A"@, Style::Green)
    } else if c == 'D' {
        ("D"@, Style::Red)
    } else if c == 'M' {
        ("M"@, Style::Yellow)
    } else if c == 'R' {
        ("R"@, Style::Blue)
    } else {
        ("\u{b7}"@, Style::Dim)
    }
}

fn status_span_exec(c: char) -> (r: Span)
    ensures
        r@ == status_span(c),
{
    if c == 'A' {
        span("A", Style::Green)
    } else if c == 'D' {
        span("D", Style::Red)
    } else if c == 'M' {
        span("M", Style::Yellow)
    } else if c == 'R' {
        span("R", Style::Blue)
    } else {
        span("\u{b7}", Style::Dim)
    }
}

/// The tree connector of file `j` of `n`: the last one closes the tree.
pub open spec fn connector(j: int, n: int) -> Seq<char> {
    if j == n - 1 { "\u{2514}\u{2500}"@ } else { "\u{251c}\u{2500}"@ }
}

pub open spec fn file_line(f: Seq<char>, j: int, n: int, st: Seq<(String, char)>) -> Seq<(Seq<char>, Style)> {
    seq![pl("   "@), (connector(j, n), Style::Dim), pl(" "@), status_span(status_of(st, f)), pl(" "@), pl(f)]
}

/// The files of a commit, one per line with its status, or a note that it has none.
pub open spec fn files_block(files: Seq<Seq<char>>, st: Seq<(String, char)>) -> Seq<Seq<(Seq<char>, Style)>> {
    if files.len() == 0 {
        seq![seq![pl("   "@), ("\u{2514}\u{2500}"@, Style::Dim), pl(" "@), ("(no files)"@, Style::Dim)]]
    } else {
        Seq::new(files.len(), |j: int| file_line(files[j], j, files.len() as int, st))
    }
}

fn files_block_exec(files: &Vec<String>, statuses: &Vec<(String, char)>) -> (r: Vec<Vec<Span>>)
    ensures
        lines_view(r@) == files_block(strs(files@), statuses@),
{
    let mut out: Vec<Vec<Span>> = Vec::new();
    let fc = files.len();
    if fc == 0 {
        let mut l: Vec<Span> = Vec::new();
        l.push(span("   ", Style::Plain));
        l.push(span("\u{2514}\u{2500}", Style::Dim));
        l.push(span(" ", Style::Plain));
        l.push(span("(no files)", Style::Dim));
        proof {
            assert(line_view(l@) =~= seq![pl("   "@), ("\u{2514}\u{2500}"@, Style::Dim), pl(" "@), ("(no files)"@, Style::Dim)]);
            assert(lines_view(out@) =~= Seq::empty());
        }
        push_line(&mut out, l);
        proof {
            assert(lines_view(out@) =~= files_block(strs(files@), statuses@));
        }
        return out;
    }
    let ghost fs = strs(files@);
    for j in 0..fc
        invariant
            fc == files@.len(),
            fs == strs(files@),
            fc > 0,
            lines_view(out@) == files_block(fs, statuses@).take(j as int),
    {
        let conn = if j == fc - 1 { "\u{2514}\u{2500}" } else { "\u{251c}\u{2500}" };
        let mut l: Vec<Span> = Vec::new();
        l.push(span("   ", Style::Plain));
        l.push(span(conn, Style::Dim));
        l.push(span(" ", Style::Plain));
        l.push(status_span_exec(status_lookup(statuses, &files[j])));
        l.push(span(" ", Style::Plain));
        l.push(Span { text: files[j].clone(), style: Style::Plain });
        proof {
            assert(line_view(l@) =~= file_line(fs[j as int], j as int, fc as int, statuses@));
        }
        push_line(&mut out, l);
        proof {
            assert(lines_view(out@) =~= files_block(fs, statuses@).take(j + 1));
        }
    }
    proof {
        assert(files_block(fs, statuses@).take(fc as int) =~= files_block(fs, statuses@));
    }
    out
}

/// The number shown for commit `i`: its own order, or its position counted from 1.
pub open spec fn order_shown(c: CommitModel, i: int) -> u32 {
    match c.order {
        Some(o) => o,
        None => (i + 1) as u32,
    }
}

/// The block of one commit: a blank line, its number and message, its body
/// and footer, a gutter line, and its files.
pub open spec fn commit_block(c: CommitModel, i: int, st: Seq<(String, char)>) -> Seq<Seq<(Seq<char>, Style)>> {
    seq![
        Seq::empty(),
        seq![pl("  "@), ("["@ + decimal(order_shown(c, i) as nat) + "]"@, Style::CyanBold), pl(" "@), (c.message, Style::Bold)],
    ] + body_block(c.body) + footer_block(c.footer) + seq![bar_line()] + files_block(c.files, st)
}

pub open spec fn commit_blocks(cs: Seq<CommitModel>, st: Seq<(String, char)>, n: int) -> Seq<Seq<(Seq<char>, Style)>>
    decreases n,
{
    if n <= 0 {
        Seq::empty()
    } else {
        commit_blocks(cs, st, n - 1) + commit_block(cs[n - 1], n - 1, st)
    }
}

/// The label after the title: the number of commits, and where the plan came from.
pub open spec fn plan_label(count: nat, cache_label: Option<Seq<char>>) -> Seq<char> {
    let c = decimal(count) + " commit"@ + plural(count as int);
    match cache_label {
        Some(l) => c + " \u{b7} "@ + l,
        None => c,
    }
}

/// The whole commit plan: the title with its label, a rule, each commit's
/// block, a blank line and a rule.
pub open spec fn spec_render_plan(cs: Seq<CommitModel>, st: Seq<(String, char)>, cache_label: Option<Seq<char>>) -> Seq<Seq<(Seq<char>, Style)>> {
    seq![
        Seq::empty(),
        seq![pl("  "@), ("COMMIT PLAN"@, Style::Bold), pl(" "@), ("\u{b7} "@ + plan_label(cs.len(), cache_label), Style::Dim)],
        rule_line(),
    ] + commit_blocks(cs, st, cs.len() as int) + seq![Seq::empty(), rule_line()]
}

fn commit_block_exec(c: &crate::plan::PlannedCommit, i: usize, statuses: &Vec<(String, char)>) -> (r: Vec<Vec<Span>>)
    requires
        i < u32::MAX,
    ensures
        lines_view(r@) == commit_block(c@, i as int, statuses@),
{
    let mut out = no_lines();
    push_line(&mut out, blank_line());
    let order = match c.order {
        Some(o) => o,
        None => i as u32 + 1,
    };
    let mut idx = "[".to_owned();
    let num = decimal_text(order as u64);
    idx.append(num.as_str());
    idx.append("]");
    let mut l: Vec<Span> = Vec::new();
    l.push(span("  ", Style::Plain));
    l.push(Span { text: idx, style: Style::CyanBold });
    l.push(span(" ", Style::Plain));
    l.push(Span { text: c.message.clone(), style: Style::Bold });
    let ghost head = seq![pl("  "@), ("["@ + decimal(order_shown(c@, i as int) as nat) + "]"@, Style::CyanBold), pl(" "@), (c@.message, Style::Bold)];
    proof {
        assert(order == order_shown(c@, i as int));
        assert(idx@ =~= "["@ + decimal(order_shown(c@, i as int) as nat) + "]"@);
        assert(line_view(l@) =~= head);
        assert(lines_view(out@) =~= seq![Seq::<(Seq<char>, Style)>::empty()]);
    }
    push_line(&mut out, l);
    let ghost s1 = lines_view(out@);
    let b = body_block_exec(&c.body);
    push_lines(&mut out, b);
    let ghost s2 = lines_view(out@);
    let f = footer_block_exec(&c.footer);
    push_lines(&mut out, f);
    let ghost s3 = lines_view(out@);
    push_line(&mut out, bar_line_exec());
    let ghost s4 = lines_view(out@);
    let fl = files_block_exec(&c.files, statuses);
    push_lines(&mut out, fl);
    proof {
        let e = Seq::<(Seq<char>, Style)>::empty();
        assert(s1 =~= seq![e, head]);
        assert(s2 =~= seq![e, head] + body_block(c@.body));
        assert(s3 =~= seq![e, head] + body_block(c@.body) + footer_block(c@.footer));
        assert(s4 =~= seq![e, head] + body_block(c@.body) + footer_block(c@.footer) + seq![bar_line()]);
        assert(lines_view(out@) =~= commit_block(c@, i as int, statuses@));
    }
    out
}

/// The lines that show a commit plan; `statuses` gives the status letter of
/// changed files, `cache_label` where the plan came from.
pub fn render_plan(plan: &CommitPlan, statuses: &Vec<(String, char)>, cache_label: Option<&str>) -> (r: Vec<Vec<Span>>)
    requires
        plan@.len() < u32::MAX,
    ensures
        lines_view(r@) == spec_render_plan(plan@, statuses@, crate::services::opt_str(cache_label)),
{
    let count = plan.commits.len();
    let mut label = decimal_text(count as u64);
    label.append(" commit");
    let pl_s = plural_exec(count);
    label.append(pl_s.as_str());
    match cache_label {
        Some(l) => {
            label.append(" \u{b7} ");
            label.append(l);
        },
        None => {},
    }
    let mut title = "\u{b7} ".to_owned();
    title.append(label.as_str());
    proof {
        assert(label@ =~= plan_label(plan@.len(), crate::services::opt_str(cache_label)));
    }
    let mut out = no_lines();
    push_line(&mut out, blank_line());
    proof {
        assert(lines_view(out@) =~= seq![Seq::<(Seq<char>, Style)>::empty()]);
    }
    let mut head: Vec<Span> = Vec::new();
    head.push(span("  ", Style::Plain));
    head.push(span("COMMIT PLAN", Style::Bold));
    head.push(span(" ", Style::Plain));
    head.push(Span { text: title, style: Style::Dim });
    proof {
        assert(line_view(head@) =~= seq![pl("  "@), ("COMMIT PLAN"@, Style::Bold), pl(" "@), ("\u{b7} "@ + plan_label(plan@.len(), crate::services::opt_str(cache_label)), Style::Dim)]);
    }
    push_line(&mut out, head);
    push_line(&mut out, rule_line_exec());
    let ghost top = lines_view(out@);
    proof {
        assert(line_view(Seq::<Span>::empty()) =~= Seq::empty());
        assert(top =~= seq![
            Seq::empty(),
            seq![pl("  "@), ("COMMIT PLAN"@, Style::Bold), pl(" "@), ("\u{b7} "@ + plan_label(plan@.len(), crate::services::opt_str(cache_label)), Style::Dim)],
            rule_line(),
        ]);
    }
    for i in 0..count
        invariant
            count == plan@.len(),
            count < u32::MAX,
            lines_view(out@) == top + commit_blocks(plan@, statuses@, i as int),
    {
        let block = commit_block_exec(&plan.commits[i], i, statuses);
        push_lines(&mut out, block);
        proof {
            assert(top + commit_blocks(plan@, statuses@, i + 1) =~= top + commit_blocks(plan@, statuses@, i as int) + commit_block(plan@[i as int], i as int, statuses@));
        }
    }
    push_line(&mut out, blank_line());
    push_line(&mut out, rule_line_exec());
    proof {
        assert(lines_view(out@) =~= spec_render_plan(plan@, statuses@, crate::services::opt_str(cache_label)));
    }
    out
}


proof fn lemma_status_of_first(st: Seq<(String, char)>, f: Seq<char>, k: int)
    requires
        0 <= k <= st.len(),
        forall|m: int| 0 <= m < k ==> (#[trigger] st[m]).0@ != f,
        k < st.len() ==> st[k].0@ == f,
    ensures
        status_of(st, f) == if k < st.len() { st[k].1 } else { '~' },
    decreases k,
{
    if k > 0 {
        assert(st[0].0@ != f);
        let rest = st.drop_first();
        assert forall|m: int| 0 <= m < k - 1 implies (#[trigger] rest[m]).0@ != f by {
            assert(rest[m] == st[m + 1]);
        }
        if k < st.len() {
            assert(rest[k - 1] == st[k]);
        }
        lemma_status_of_first(rest, f, k - 1);
    }
}

proof fn lemma_commit_blocks_prefix(cs: Seq<CommitModel>, st: Seq<(String, char)>, m: int, n: int)
    requires
        0 <= m <= n,
    ensures
        commit_blocks(cs, st, m).len() <= commit_blocks(cs, st, n).len(),
        forall|q: int| 0 <= q < commit_blocks(cs, st, m).len() ==> #[trigger] commit_blocks(cs, st, n)[q] == commit_blocks(cs, st, m)[q],
    decreases n - m,
{
    if n > m {
        lemma_commit_blocks_prefix(cs, st, m, n - 1);
        let a = commit_blocks(cs, st, n - 1);
        assert forall|q: int| 0 <= q < commit_blocks(cs, st, m).len() implies #[trigger] commit_blocks(cs, st, n)[q] == commit_blocks(cs, st, m)[q] by {
            assert(commit_blocks(cs, st, n)[q] == a[q]);
        }
    }
}

/// In the displayed plan, every file of every commit has a line of its own
/// that names it and shows its status: the letter recorded for it (its first
/// entry in `st`) when that is `A` (green), `D` (red), `M` (yellow) or `R`
/// (blue), and a dimmed dot when its letter is another one or it has none.
/// `k` is the position of the file's first entry in `st`, or `st.len()`
/// when it has none.
pub proof fn law_plan_shows_file_status(
    cs: Seq<CommitModel>,
    st: Seq<(String, char)>,
    cache_label: Option<Seq<char>>,
    i: int,
    j: int,
    k: int,
)
    requires
        0 <= i < cs.len(),
        0 <= j < cs[i].files.len(),
        0 <= k <= st.len(),
        forall|m: int| 0 <= m < k ==> (#[trigger] st[m]).0@ != cs[i].files[j],
        k < st.len() ==> st[k].0@ == cs[i].files[j],
    ensures
        exists|n: int| 0 <= n < spec_render_plan(cs, st, cache_label).len() && {
            let line = #[trigger] spec_render_plan(cs, st, cache_label)[n];
            let c = st[k].1;
            &&& line.len() == 6
            &&& line[5].0 == cs[i].files[j]
            &&& (k < st.len() && (c == 'A' || c == 'D' || c == 'M' || c == 'R')) ==> line[3].0 == seq![c]
            &&& (k < st.len() && c == 'A') ==> line[3].1 == Style::Green
            &&& (k < st.len() && c == 'D') ==> line[3].1 == Style::Red
            &&& (k < st.len() && c == 'M') ==> line[3].1 == Style::Yellow
            &&& (k < st.len() && c == 'R') ==> line[3].1 == Style::Blue
            &&& !(k < st.len() && (c == 'A' || c == 'D' || c == 'M' || c == 'R')) ==> line[3] == ("\u{b7}"@, Style::Dim)
        },
{
    let f = cs[i].files[j];
    lemma_status_of_first(st, f, k);
    reveal_strlit("A");
    reveal_strlit("D");
    reveal_strlit("M");
    reveal_strlit("R");
    let c = cs[i];
    lemma_commit_blocks_prefix(cs, st, i + 1, cs.len() as int);
    let before = commit_blocks(cs, st, i);
    let block = commit_block(c, i, st);
    assert(commit_blocks(cs, st, i + 1) == before + block);
    let top = 2 + body_block(c.body).len() + footer_block(c.footer).len() + 1;
    let fb = files_block(c.files, st);
    assert(fb[j] == file_line(f, j, c.files.len() as int, st));
    assert(block[top + j] == fb[j]);
    let q = before.len() + top + j;
    assert(commit_blocks(cs, st, i + 1)[q] == fb[j]);
    let r = spec_render_plan(cs, st, cache_label);
    let n = 3 + q;
    assert(r[n] == commit_blocks(cs, st, cs.len() as int)[q]);
    assert(r[n] == fb[j]);
}

// ---------------------------------------------------------------------------
// The rebase plan
// ---------------------------------------------------------------------------

/// How an action word is shown: pick green, reword yellow, squash magenta,
/// drop red, anything else as it is.
pub open spec fn action_span(a: Seq<char>) -> (Seq<char>, Style) {
    if a == "pick"@ {
        ("pick"@, Style::Green)
    } else if a == "reword"@ {
        ("reword"@, Style::Yellow)
    } else if a == "squash"@ {
        ("squash"@, Style::Magenta)
    } else if a == "drop"@ {
        ("drop"@, Style::Red)
    } else {
        pl(a)
    }
}

fn action_span_exec(a: &String) -> (r: Span)
    ensures
        r@ == action_span(a@),
{
    if *a == "pick".to_owned() {
        span("pick", Style::Green)
    } else if *a == "reword".to_owned() {
        span("reword", Style::Yellow)
    } else if *a == "squash".to_owned() {
        span("squash", Style::Magenta)
    } else if *a == "drop".to_owned() {
        span("drop", Style::Red)
    } else {
        Span { text: a.clone(), style: Style::Plain }
    }
}

/// One commit of a rebase plan: its action, hash and message, then its body.
pub open spec fn rebase_block(c: ReorgModel) -> Seq<Seq<(Seq<char>, Style)>> {
    seq![seq![pl("  "@), action_span(c.action), pl(" "@), (c.sha, Style::Dim), pl(" "@), (c.message, Style::Bold)]]
        + body_block(c.body)
}

pub open spec fn rebase_blocks(cs: Seq<ReorgModel>, n: int) -> Seq<Seq<(Seq<char>, Style)>>
    decreases n,
{
    if n <= 0 {
        Seq::empty()
    } else {
        rebase_blocks(cs, n - 1) + rebase_block(cs[n - 1])
    }
}

/// The whole rebase plan: the title with the number of commits, a rule, each
/// commit, and a closing rule.
pub open spec fn spec_render_rebase_plan(cs: Seq<ReorgModel>) -> Seq<Seq<(Seq<char>, Style)>> {
    seq![
        Seq::empty(),
        seq![pl("  "@), ("REBASE PLAN"@, Style::Bold), pl(" "@), ("\u{b7} "@ + decimal(cs.len()) + " commits"@, Style::Dim)],
        rule_line(),
        Seq::empty(),
    ] + rebase_blocks(cs, cs.len() as int) + seq![Seq::empty(), rule_line(), Seq::empty()]
}

/// The lines that show a rebase plan.
pub fn render_rebase_plan(plan: &ReorganizePlan) -> (r: Vec<Vec<Span>>)
    ensures
        lines_view(r@) == spec_render_rebase_plan(plan@),
{
    let n = plan.commits.len();
    let mut title = "\u{b7} ".to_owned();
    let num = decimal_text(n as u64);
    title.append(num.as_str());
    title.append(" commits");
    let mut out = no_lines();
    push_line(&mut out, blank_line());
    let mut head: Vec<Span> = Vec::new();
    head.push(span("  ", Style::Plain));
    head.push(span("REBASE PLAN", Style::Bold));
    head.push(span(" ", Style::Plain));
    head.push(Span { text: title, style: Style::Dim });
    let ghost h = seq![pl("  "@), ("REBASE PLAN"@, Style::Bold), pl(" "@), ("\u{b7} "@ + decimal(plan@.len()) + " commits"@, Style::Dim)];
    proof {
        assert(line_view(head@) =~= h);
    }
    push_line(&mut out, head);
    push_line(&mut out, rule_line_exec());
    push_line(&mut out, blank_line());
    let ghost top = lines_view(out@);
    proof {
        assert(top =~= seq![Seq::empty(), h, rule_line(), Seq::empty()]);
    }
    for i in 0..n
        invariant
            n == plan@.len(),
            lines_view(out@) == top + rebase_blocks(plan@, i as int),
    {
        let c = &plan.commits[i];
        let mut l: Vec<Span> = Vec::new();
        l.push(span("  ", Style::Plain));
        l.push(action_span_exec(&c.action));
        l.push(span(" ", Style::Plain));
        l.push(Span { text: c.original_sha.clone(), style: Style::Dim });
        l.push(span(" ", Style::Plain));
        l.push(Span { text: c.message.clone(), style: Style::Bold });
        let ghost before = lines_view(out@);
        push_line(&mut out, l);
        let b = body_block_exec(&c.body);
        push_lines(&mut out, b);
        proof {
            let cm = plan@[i as int];
            assert(line_view(l@) =~= seq![pl("  "@), action_span(cm.action), pl(" "@), (cm.sha, Style::Dim), pl(" "@), (cm.message, Style::Bold)]);
            assert(lines_view(out@) =~= before + rebase_block(cm));
            assert(top + rebase_blocks(plan@, i + 1) =~= top + rebase_blocks(plan@, i as int) + rebase_block(cm));
        }
    }
    push_line(&mut out, blank_line());
    push_line(&mut out, rule_line_exec());
    push_line(&mut out, blank_line());
    proof {
        assert(lines_view(out@) =~= spec_render_rebase_plan(plan@));
    }
    out
}

/// The detail shown when planning is done, before any token counts: the
/// number of commits, and the extra note when there is one.
pub open spec fn spec_done_detail(commit_count: nat, extra: Seq<char>) -> Seq<char> {
    decimal(commit_count) + " commit"@ + plural(commit_count as int) + if extra.len() == 0 {
        Seq::empty()
    } else {
        " \u{b7} "@ + extra
    }
}

/// The detail shown when planning is done, before any token counts.
pub fn done_detail(commit_count: usize, extra: &str) -> (r: String)
    ensures
        r@ == spec_done_detail(commit_count as nat, extra@),
{
    let mut s = decimal_text(commit_count as u64);
    s.append(" commit");
    let p = plural_exec(commit_count);
    s.append(p.as_str());
    if !extra.is_empty() {
        s.append(" \u{b7} ");
        s.append(extra);
    }
    s
}

/// What `agentspec_ui::format_tokens` gives for `n`.
pub uninterp spec fn token_count_text(n: u64) -> Seq<char>;

/// Calls `agentspec_ui::format_tokens`. The contract claims that the text
/// depends on the count alone and that below 1000 it is the count in
/// decimal, as the source shows (`n.to_string()`); from 1000 on it is a
/// number of thousands ending in `k`, and from a million on a number of
/// millions ending in `M`. The digits of those two forms come from a float
/// rounded to one decimal place, and are left unsaid here.
#[verifier::external_body]
fn format_tokens(n: u64) -> (r: String)
    ensures
        r@ == token_count_text(n),
        n < 1000 ==> r@ == decimal(n as nat),
        1000 <= n < 1000000 ==> r@.len() > 0 && r@.last() == 'k',
        n >= 1000000 ==> r@.len() > 0 && r@.last() == 'M',
{
    agentspec_ui::format_tokens(n)
}

/// The token counts of a backend call, as shown after the plan's detail.
pub open spec fn spec_usage_detail(input_tokens: u64, output_tokens: u64) -> Seq<char> {
    " \u{b7} "@ + token_count_text(input_tokens) + " in / "@ + token_count_text(output_tokens) + " out"@
}

/// The token counts of a backend call, as shown after the plan's detail.
pub fn usage_detail(input_tokens: u64, output_tokens: u64) -> (r: String)
    ensures
        r@ == spec_usage_detail(input_tokens, output_tokens),
{
    let mut s = " \u{b7} ".to_owned();
    let a = format_tokens(input_tokens);
    s.append(a.as_str());
    s.append(" in / ");
    let b = format_tokens(output_tokens);
    s.append(b.as_str());
    s.append(" out");
    s
}

// ---------------------------------------------------------------------------
// Progress and summaries
// ---------------------------------------------------------------------------

/// The heading of commit `index` of `total`.
pub open spec fn spec_commit_start(index: nat, total: nat, message: Seq<char>) -> Seq<Seq<(Seq<char>, Style)>> {
    seq![
        Seq::empty(),
        seq![pl("  "@), ("["@ + decimal(index) + "/"@ + decimal(total) + "]"@, Style::CyanBold), pl(" "@), (message, Style::Bold)],
    ]
}

/// The lines that announce commit `index` of `total`.
pub fn render_commit_start(index: u64, total: u64, message: &str) -> (r: Vec<Vec<Span>>)
    ensures
        lines_view(r@) == spec_commit_start(index as nat, total as nat, message@),
{
    let mut idx = "[".to_owned();
    let a = decimal_text(index);
    idx.append(a.as_str());
    idx.append("/");
    let b = decimal_text(total);
    idx.append(b.as_str());
    idx.append("]");
    let mut l: Vec<Span> = Vec::new();
    l.push(span("  ", Style::Plain));
    l.push(Span { text: idx, style: Style::CyanBold });
    l.push(span(" ", Style::Plain));
    l.push(span(message, Style::Bold));
    proof {
        assert(idx@ =~= "["@ + decimal(index as nat) + "/"@ + decimal(total as nat) + "]"@);
        assert(line_view(l@) =~= seq![pl("  "@), ("["@ + decimal(index as nat) + "/"@ + decimal(total as nat) + "]"@, Style::CyanBold), pl(" "@), (message@, Style::Bold)]);
    }
    let mut out = no_lines();
    push_line(&mut out, blank_line());
    push_line(&mut out, l);
    proof {
        assert(lines_view(out@) =~= spec_commit_start(index as nat, total as nat, message@));
    }
    out
}

/// The line for a file that was staged, or that was not found.
pub open spec fn spec_file_staged(file: Seq<char>, success: bool) -> Seq<(Seq<char>, Style)> {
    if success {
        seq![pl("    "@), ("\u{2713}"@, Style::Green), pl(" "@), (file, Style::Dim)]
    } else {
        seq![pl("    "@), ("\u{26a0}"@, Style::Yellow), pl(" "@), pl(file), pl(" "@), ("(not found)"@, Style::Dim)]
    }
}

/// The line that reports whether a file was staged.
pub fn render_file_staged(file: &str, success: bool) -> (r: Vec<Span>)
    ensures
        line_view(r@) == spec_file_staged(file@, success),
{
    let mut l: Vec<Span> = Vec::new();
    l.push(span("    ", Style::Plain));
    if success {
        l.push(span("\u{2713}", Style::Green));
        l.push(span(" ", Style::Plain));
        l.push(span(file, Style::Dim));
    } else {
        l.push(span("\u{26a0}", Style::Yellow));
        l.push(span(" ", Style::Plain));
        l.push(span(file, Style::Plain));
        l.push(span(" ", Style::Plain));
        l.push(span("(not found)", Style::Dim));
    }
    proof {
        assert(line_view(l@) =~= spec_file_staged(file@, success));
    }
    l
}

/// The line that reports a new commit's hash.
pub fn render_commit_created(sha: &str) -> (r: Vec<Span>)
    ensures
        line_view(r@) == seq![pl("    "@), ("\u{2192}"@, Style::GreenBold), pl(" "@), (sha@, Style::Green)],
{
    let mut l: Vec<Span> = Vec::new();
    l.push(span("    ", Style::Plain));
    l.push(span("\u{2192}", Style::GreenBold));
    l.push(span(" ", Style::Plain));
    l.push(span(sha, Style::Green));
    proof {
        assert(line_view(l@) =~= seq![pl("    "@), ("\u{2192}"@, Style::GreenBold), pl(" "@), (sha@, Style::Green)]);
    }
    l
}

/// The line that reports a commit skipped for want of staged files.
pub fn render_commit_skipped() -> (r: Vec<Span>)
    ensures
        line_view(r@) == seq![pl("    "@), ("\u{2212}"@, Style::Yellow), pl(" "@), ("skipped (no staged files)"@, Style::Dim)],
{
    let mut l: Vec<Span> = Vec::new();
    l.push(span("    ", Style::Plain));
    l.push(span("\u{2212}", Style::Yellow));
    l.push(span(" ", Style::Plain));
    l.push(span("skipped (no staged files)", Style::Dim));
    proof {
        assert(line_view(l@) =~= seq![pl("    "@), ("\u{2212}"@, Style::Yellow), pl(" "@), ("skipped (no staged files)"@, Style::Dim)]);
    }
    l
}

/// The line that reports a failed commit and why.
pub fn render_commit_failed(reason: &str) -> (r: Vec<Span>)
    ensures
        line_view(r@) == seq![pl("    "@), ("\u{2717}"@, Style::RedBold), pl(" "@), ("failed:"@, Style::Red), pl(" "@), (reason@, Style::Dim)],
{
    let mut l: Vec<Span> = Vec::new();
    l.push(span("    ", Style::Plain));
    l.push(span("\u{2717}", Style::RedBold));
    l.push(span(" ", Style::Plain));
    l.push(span("failed:", Style::Red));
    l.push(span(" ", Style::Plain));
    l.push(span(reason, Style::Dim));
    proof {
        assert(line_view(l@) =~= seq![pl("    "@), ("\u{2717}"@, Style::RedBold), pl(" "@), ("failed:"@, Style::Red), pl(" "@), (reason@, Style::Dim)]);
    }
    l
}

/// One created commit in the summary: its hash and message.
pub open spec fn summary_item(e: (String, String)) -> Seq<(Seq<char>, Style)> {
    seq![pl("    "@), (e.0@, Style::Dim), pl("  "@), pl(e.1@)]
}

/// The summary of the created commits: how many, then each with its hash.
pub open spec fn spec_summary(commits: Seq<(String, String)>) -> Seq<Seq<(Seq<char>, Style)>> {
    seq![
        Seq::empty(),
        seq![pl("  "@), ("\u{2713}"@, Style::GreenBold), pl(" "@), (decimal(commits.len()), Style::Bold), pl(" commit"@ + plural(commits.len() as int) + " created"@)],
        Seq::empty(),
    ] + Seq::new(commits.len(), |k: int| summary_item(commits[k])) + seq![Seq::empty()]
}

/// The lines that sum up the created commits, given as hash and message.
pub fn render_summary(commits: &[(String, String)]) -> (r: Vec<Vec<Span>>)
    ensures
        lines_view(r@) == spec_summary(commits@),
{
    let n = commits.len();
    let mut tail = " commit".to_owned();
    let p = plural_exec(n);
    tail.append(p.as_str());
    tail.append(" created");
    let mut head: Vec<Span> = Vec::new();
    head.push(span("  ", Style::Plain));
    head.push(span("\u{2713}", Style::GreenBold));
    head.push(span(" ", Style::Plain));
    head.push(Span { text: decimal_text(n as u64), style: Style::Bold });
    head.push(Span { text: tail, style: Style::Plain });
    proof {
        assert(tail@ =~= " commit"@ + plural(commits@.len() as int) + " created"@);
        assert(line_view(head@) =~= seq![pl("  "@), ("\u{2713}"@, Style::GreenBold), pl(" "@), (decimal(commits@.len()), Style::Bold), pl(" commit"@ + plural(commits@.len() as int) + " created"@)]);
    }
    let mut out = no_lines();
    push_line(&mut out, blank_line());
    push_line(&mut out, head);
    push_line(&mut out, blank_line());
    let ghost top = lines_view(out@);
    proof {
        assert(top =~= seq![
            Seq::empty(),
            seq![pl("  "@), ("\u{2713}"@, Style::GreenBold), pl(" "@), (decimal(commits@.len()), Style::Bold), pl(" commit"@ + plural(commits@.len() as int) + " created"@)],
            Seq::empty(),
        ]);
    }
    for k in 0..n
        invariant
            n == commits@.len(),
            lines_view(out@) == top + Seq::new(commits@.len(), |k: int| summary_item(commits@[k])).take(k as int),
    {
        let mut l: Vec<Span> = Vec::new();
        l.push(span("    ", Style::Plain));
        l.push(Span { text: commits[k].0.clone(), style: Style::Dim });
        l.push(span("  ", Style::Plain));
        l.push(Span { text: commits[k].1.clone(), style: Style::Plain });
        proof {
            assert(line_view(l@) =~= summary_item(commits@[k as int]));
        }
        push_line(&mut out, l);
        proof {
            assert(top + Seq::new(commits@.len(), |k: int| summary_item(commits@[k])).take(k + 1) =~= lines_view(out@));
        }
    }
    push_line(&mut out, blank_line());
    proof {
        assert(Seq::new(commits@.len(), |k: int| summary_item(commits@[k])).take(n as int) =~= Seq::new(commits@.len(), |k: int| summary_item(commits@[k])));
        assert(lines_view(out@) =~= spec_summary(commits@));
    }
    out
}

/// One reported commit: its position, message and reason.
pub open spec fn report_item(e: (usize, String, String)) -> Seq<(Seq<char>, Style)> {
    seq![pl("    "@), ("["@ + decimal(e.0 as nat) + "]"@, Style::Cyan), pl(" "@), pl(e.1@), pl(" \u{2014} "@), (e.2@, Style::Dim)]
}

pub open spec fn report_items(items: Seq<(usize, String, String)>) -> Seq<Seq<(Seq<char>, Style)>> {
    Seq::new(items.len(), |k: int| report_item(items[k]))
}

fn report_items_exec(items: &[(usize, String, String)]) -> (r: Vec<Vec<Span>>)
    ensures
        lines_view(r@) == report_items(items@),
{
    let mut out = no_lines();
    for k in 0..items.len()
        invariant
            lines_view(out@) == report_items(items@).take(k as int),
    {
        let mut idx = "[".to_owned();
        let num = decimal_text(items[k].0 as u64);
        idx.append(num.as_str());
        idx.append("]");
        let mut l: Vec<Span> = Vec::new();
        l.push(span("    ", Style::Plain));
        l.push(Span { text: idx, style: Style::Cyan });
        l.push(span(" ", Style::Plain));
        l.push(Span { text: items[k].1.clone(), style: Style::Plain });
        l.push(span(" \u{2014} ", Style::Plain));
        l.push(Span { text: items[k].2.clone(), style: Style::Dim });
        proof {
            assert(line_view(l@) =~= report_item(items@[k as int]));
        }
        push_line(&mut out, l);
        proof {
            assert(lines_view(out@) =~= report_items(items@).take(k + 1));
        }
    }
    proof {
        assert(report_items(items@).take(items@.len() as int) =~= report_items(items@));
    }
    out
}

/// The commit messages that failed validation: how many, then each.
pub open spec fn spec_invalid_messages(items: Seq<(usize, String, String)>) -> Seq<Seq<(Seq<char>, Style)>> {
    seq![
        Seq::empty(),
        seq![pl("  "@), ("\u{26a0}"@, Style::YellowBold), pl(" "@), (decimal(items.len()) + " commit message"@ + plural(items.len() as int) + " failed validation:"@, Style::Yellow)],
    ] + report_items(items) + seq![Seq::empty()]
}

/// The lines that list the commit messages that failed validation.
pub fn render_invalid_messages(invalid: &[(usize, String, String)]) -> (r: Vec<Vec<Span>>)
    ensures
        lines_view(r@) == spec_invalid_messages(invalid@),
{
    let n = invalid.len();
    let mut text = decimal_text(n as u64);
    text.append(" commit message");
    let p = plural_exec(n);
    text.append(p.as_str());
    text.append(" failed validation:");
    let mut head: Vec<Span> = Vec::new();
    head.push(span("  ", Style::Plain));
    head.push(span("\u{26a0}", Style::YellowBold));
    head.push(span(" ", Style::Plain));
    head.push(Span { text, style: Style::Yellow });
    proof {
        assert(line_view(head@) =~= seq![pl("  "@), ("\u{26a0}"@, Style::YellowBold), pl(" "@), (decimal(invalid@.len()) + " commit message"@ + plural(invalid@.len() as int) + " failed validation:"@, Style::Yellow)]);
    }
    let mut out = no_lines();
    push_line(&mut out, blank_line());
    push_line(&mut out, head);
    push_lines(&mut out, report_items_exec(invalid));
    push_line(&mut out, blank_line());
    proof {
        assert(lines_view(out@) =~= spec_invalid_messages(invalid@));
    }
    out
}

/// The commits that failed: how many, then each.
pub open spec fn spec_failed_commits(items: Seq<(usize, String, String)>) -> Seq<Seq<(Seq<char>, Style)>> {
    seq![
        seq![pl("  "@), ("\u{26a0}"@, Style::YellowBold), pl(" "@), (decimal(items.len()) + " commit"@ + plural(items.len() as int) + " failed:"@, Style::Yellow)],
    ] + report_items(items) + seq![Seq::empty()]
}

/// The lines that list the commits that failed.
pub fn render_failed_commits(failed: &[(usize, String, String)]) -> (r: Vec<Vec<Span>>)
    ensures
        lines_view(r@) == spec_failed_commits(failed@),
{
    let n = failed.len();
    let mut text = decimal_text(n as u64);
    text.append(" commit");
    let p = plural_exec(n);
    text.append(p.as_str());
    text.append(" failed:");
    let mut head: Vec<Span> = Vec::new();
    head.push(span("  ", Style::Plain));
    head.push(span("\u{26a0}", Style::YellowBold));
    head.push(span(" ", Style::Plain));
    head.push(Span { text, style: Style::Yellow });
    proof {
        assert(line_view(head@) =~= seq![pl("  "@), ("\u{26a0}"@, Style::YellowBold), pl(" "@), (decimal(failed@.len()) + " commit"@ + plural(failed@.len() as int) + " failed:"@, Style::Yellow)]);
    }
    let mut out = no_lines();
    push_line(&mut out, head);
    push_lines(&mut out, report_items_exec(failed));
    push_line(&mut out, blank_line());
    proof {
        assert(lines_view(out@) =~= spec_failed_commits(failed@));
    }
    out
}

} // verus!
