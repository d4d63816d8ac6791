//! Reading what git prints: the short status of the working tree, and counts.

use vstd::prelude::*;
use crate::display::{lines_from, text_lines};
use crate::text::{chars_of, strs, trim, trimmed};

verus! {

/// A rename arrow ` -> ` starts at `i`.
pub open spec fn is_arrow_at(s: Seq<char>, i: int) -> bool {
    0 <= i && i + 4 <= s.len() && s[i] == ' ' && s[i + 1] == '-' && s[i + 2] == '>' && s[i + 3] == ' '
}

/// Where the text after the last rename arrow that starts before `i` begins;
/// 0 when there is none.
pub open spec fn after_last_arrow(s: Seq<char>, i: int) -> int
    decreases i,
{
    if i <= 0 {
        0
    } else if is_arrow_at(s, i - 1) {
        i + 3
    } else {
        after_last_arrow(s, i - 1)
    }
}

/// The status letter of a two-letter status code: the first that is not a
/// space, `?` (untracked) read as added, `~` when both are spaces.
pub open spec fn status_letter(x: char, y: char) -> char {
    let l = if x != ' ' { x } else if y != ' ' { y } else { '~' };
    if l == '?' { 'A' } else { l }
}

/// One line of `git status --porcelain`: `XY path`, or `XY old -> new` for
/// a rename, where the new path counts; lines too short to hold a path are
/// skipped.
pub open spec fn status_entry(line: Seq<char>) -> Option<(Seq<char>, char)> {
    if line.len() < 4 {
        None
    } else {
        let rest = line.skip(3);
        Some((rest.skip(after_last_arrow(rest, rest.len() as int)), status_letter(line[0], line[1])))
    }
}

/// The entries of the status lines `ls`, in order.
pub open spec fn status_entries(ls: Seq<Seq<char>>) -> Seq<(Seq<char>, char)>
    decreases ls.len(),
{
    if ls.len() == 0 {
        Seq::empty()
    } else {
        status_entries(ls.drop_last()) + match status_entry(ls.last()) {
            Some(e) => seq![e],
            None => Seq::empty(),
        }
    }
}

pub open spec fn entries_view(v: Seq<(String, char)>) -> Seq<(Seq<char>, char)> {
    v.map_values(|e: (String, char)| (e.0@, e.1))
}

proof fn lemma_after_last_arrow_bounds(s: Seq<char>, i: int)
    requires
        0 <= i <= s.len(),
    ensures
        0 <= after_last_arrow(s, i) <= s.len(),
    decreases i,
{
    if i > 0 && !is_arrow_at(s, i - 1) {
        lemma_after_last_arrow_bounds(s, i - 1);
    }
}

fn status_entry_exec(line: &str) -> (r: Option<(String, char)>)
    ensures
        match r {
            Some(e) => status_entry(line@) == Some((e.0@, e.1)),
            None => status_entry(line@) is None,
        },
{
    let cs = chars_of(line);
    let n = cs.len();
    if n < 4 {
        return None;
    }
    let ghost rest = line@.skip(3);
    let mut start: usize = 0;
    let mut i: usize = 0;
    while i < n - 3
        invariant
            cs@ == line@,
            n == line@.len(),
            n >= 4,
            rest == line@.skip(3),
            i <= n - 3,
            start as int == after_last_arrow(rest, i as int),
        decreases n - 3 - i,
    {
        if i + 4 <= n - 3 && cs[3 + i] == ' ' && cs[4 + i] == '-' && cs[5 + i] == '>' && cs[6 + i] == ' ' {
            start = i + 4;
        }
        i = i + 1;
    }
    proof {
        lemma_after_last_arrow_bounds(rest, rest.len() as int);
    }
    let path = line.substring_char(3 + start, n).to_owned();
    proof {
        assert(path@ =~= rest.skip(start as int));
    }
    let x = cs[0];
    let y = cs[1];
    let l = if x != ' ' { x } else if y != ' ' { y } else { '~' };
    let letter = if l == '?' { 'A' } else { l };
    Some((path, letter))
}

/// The status letter of each path that `git status --porcelain` lists.
pub fn parse_status(status: &str) -> (r: Vec<(String, char)>)
    ensures
        entries_view(r@) == status_entries(lines_from(status@, 0)),
{
    let ls = text_lines(status);
    let mut out: Vec<(String, char)> = Vec::new();
    let ghost all = strs(ls@);
    for k in 0..ls.len()
        invariant
            all == strs(ls@),
            all == lines_from(status@, 0),
            entries_view(out@) == status_entries(all.take(k as int)),
    {
        let ghost prev = out@;
        proof {
            assert(all.take(k + 1).drop_last() =~= all.take(k as int));
        }
        match status_entry_exec(ls[k].as_str()) {
            Some(e) => {
                out.push(e);
                proof {
                    assert(entries_view(out@) =~= entries_view(prev).push((e.0@, e.1)));
                }
            },
            None => {},
        }
    }
    proof {
        assert(all.take(ls@.len() as int) =~= all);
    }
    out
}

/// The value of a sequence of decimal digits.
pub open spec fn digits_value(s: Seq<char>) -> nat
    decreases s.len(),
{
    if s.len() == 0 {
        0
    } else {
        digits_value(s.drop_last()) * 10 + ((s.last() as int - '0' as int) as nat)
    }
}

pub open spec fn all_digits(s: Seq<char>) -> bool {
    forall|i: int| 0 <= i < s.len() ==> '0' <= #[trigger] s[i] <= '9'
}

/// A count that git printed: decimal digits, with surrounding white space.
pub open spec fn spec_parse_count(text: Seq<char>) -> Option<nat> {
    let t = trimmed(text);
    if t.len() > 0 && all_digits(t) && digits_value(t) <= usize::MAX {
        Some(digits_value(t))
    } else {
        None
    }
}

proof fn lemma_digits_value_grows(s: Seq<char>, i: int)
    requires
        0 <= i <= s.len(),
        all_digits(s),
    ensures
        digits_value(s.take(i)) <= digits_value(s),
    decreases s.len() - i,
{
    if i < s.len() {
        lemma_digits_value_grows(s, i + 1);
        assert(s.take(i + 1).drop_last() =~= s.take(i));
    } else {
        assert(s.take(i) =~= s);
    }
}

/// Read a count that git printed; `None` unless it is a number that fits.
pub fn parse_count(text: &str) -> (r: Option<usize>)
    ensures
        match r {
            Some(v) => spec_parse_count(text@) == Some(v as nat),
            None => spec_parse_count(text@) is None,
        },
{
    let t = trim(text);
    let cs = chars_of(t.as_str());
    let n = cs.len();
    if n == 0 {
        return None;
    }
    let mut i: usize = 0;
    while i < n
        invariant
            cs@ == t@,
            t@ == trimmed(text@),
            n == t@.len(),
            i <= n,
            forall|j: int| 0 <= j < i ==> '0' <= #[trigger] t@[j] <= '9',
        decreases n - i,
    {
        if !('0' <= cs[i] && cs[i] <= '9') {
            proof {
                assert(!('0' <= t@[i as int] <= '9'));
            }
            return None;
        }
        i = i + 1;
    }
    let mut v: usize = 0;
    let mut k: usize = 0;
    while k < n
        invariant
            cs@ == t@,
            t@ == trimmed(text@),
            n == t@.len(),
            all_digits(t@),
            k <= n,
            v as nat == digits_value(t@.take(k as int)),
        decreases n - k,
    {
        proof {
            assert(t@.take(k + 1).drop_last() =~= t@.take(k as int));
        }
        let d = (cs[k] as u32 - '0' as u32) as usize;
        proof {
            assert(t@.take(k + 1).last() == t@[k as int]);
            assert(digits_value(t@.take(k + 1)) == digits_value(t@.take(k as int)) * 10 + d);
        }
        match v.checked_mul(10) {
            Some(m) => match m.checked_add(d) {
                Some(w) => {
                    v = w;
                },
                None => {
                    proof {
                        lemma_digits_value_grows(t@, k + 1);
                        assert(digits_value(t@) > usize::MAX);
                    }
                    return None;
                },
            },
            None => {
                proof {
                    lemma_digits_value_grows(t@, k + 1);
                    assert(v * 10 > usize::MAX);
                    assert(digits_value(t@) > usize::MAX);
                }
                return None;
            },
        }
        k = k + 1;
    }
    proof {
        assert(t@.take(n as int) =~= t@);
    }
    Some(v)
}

} // verus!
