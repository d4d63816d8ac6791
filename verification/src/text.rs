//! String building blocks shared by the commit and rebase logic.

use vstd::prelude::*;

verus! {

/// The characters of a paragraph break: two newlines.
pub open spec fn paragraph_sep() -> Seq<char> {
    seq!['\n', '\n']
}

/// A paragraph break and `s`, when `s` is present and non-empty; nothing otherwise.
pub open spec fn non_empty_part(s: Option<Seq<char>>) -> Seq<char> {
    match s {
        Some(t) => if t.len() > 0 { paragraph_sep() + t } else { Seq::empty() },
        None => Seq::empty(),
    }
}

/// A full commit message: the subject line, then the body and the footer
/// as separate paragraphs, each only when present and non-empty.
pub open spec fn spec_full_message(
    message: Seq<char>,
    body: Option<Seq<char>>,
    footer: Option<Seq<char>>,
) -> Seq<char> {
    message + non_empty_part(body) + non_empty_part(footer)
}

/// The view of an optional string.
pub open spec fn opt_chars(o: Option<String>) -> Option<Seq<char>> {
    match o {
        Some(s) => Some(s@),
        None => None,
    }
}

fn append_paragraph(out: &mut String, part: &Option<String>)
    ensures
        final(out)@ == old(out)@ + non_empty_part(opt_chars(*part)),
{
    match part {
        Some(p) => {
            if !p.as_str().is_empty() {
                let sep = "\n\n";
                proof {
                    reveal_strlit("\n\n");
                }
                out.append(sep);
                out.append(p.as_str());
            } else {
                proof {
                    assert(p@.len() == 0);
                }
            }
        },
        None => {},
    }
}

/// Assemble a commit message from its subject, optional body and optional footer.
pub fn full_message(message: &String, body: &Option<String>, footer: &Option<String>) -> (r: String)
    ensures
        r@ == spec_full_message(message@, opt_chars(*body), opt_chars(*footer)),
{
    let mut out = message.clone();
    append_paragraph(&mut out, body);
    append_paragraph(&mut out, footer);
    out
}


/// The views of a sequence of strings.
pub open spec fn strs(v: Seq<String>) -> Seq<Seq<char>> {
    v.map_values(|s: String| s@)
}

/// Lexicographic order on character sequences, by code point; a proper
/// prefix comes first.
pub open spec fn chars_lt(a: Seq<char>, b: Seq<char>) -> bool
    decreases a.len(),
{
    if a.len() == 0 {
        b.len() > 0
    } else if b.len() == 0 {
        false
    } else if a[0] != b[0] {
        (a[0] as int) < (b[0] as int)
    } else {
        chars_lt(a.drop_first(), b.drop_first())
    }
}

/// No sequence comes before itself.
pub proof fn lemma_chars_lt_irreflexive(a: Seq<char>)
    ensures
        !chars_lt(a, a),
    decreases a.len(),
{
    if a.len() > 0 {
        lemma_chars_lt_irreflexive(a.drop_first());
    }
}

/// The order is transitive.
pub proof fn lemma_chars_lt_transitive(a: Seq<char>, b: Seq<char>, c: Seq<char>)
    requires
        chars_lt(a, b),
        chars_lt(b, c),
    ensures
        chars_lt(a, c),
    decreases a.len(),
{
    if a.len() > 0 && b.len() > 0 && c.len() > 0 {
        if a[0] == b[0] && b[0] == c[0] {
            lemma_chars_lt_transitive(a.drop_first(), b.drop_first(), c.drop_first());
        }
    }
}

/// Two different sequences are ordered one way or the other.
pub proof fn lemma_chars_lt_total(a: Seq<char>, b: Seq<char>)
    requires
        a != b,
    ensures
        chars_lt(a, b) || chars_lt(b, a),
    decreases a.len(),
{
    if a.len() > 0 && b.len() > 0 && a[0] == b[0] {
        if a.drop_first() == b.drop_first() {
            assert(a =~= seq![a[0]] + a.drop_first());
            assert(b =~= seq![b[0]] + b.drop_first());
        } else {
            lemma_chars_lt_total(a.drop_first(), b.drop_first());
        }
    } else if a.len() == 0 && b.len() == 0 {
        assert(a =~= b);
    }
}

/// `s` is in strictly increasing order, hence holds no element twice.
pub open spec fn sorted_strict(s: Seq<Seq<char>>) -> bool {
    forall|i: int, j: int| 0 <= i < j < s.len() ==> chars_lt(#[trigger] s[i], #[trigger] s[j])
}

/// Whether `a` sorts before `b`.
///
/// Calls `<str as PartialOrd>::lt`, which orders strings lexicographically by
/// their UTF-8 bytes; UTF-8 preserves the order of code points, so this is
/// the lexicographic order on characters that `chars_lt` states.
#[verifier::external_body]
fn str_less(a: &str, b: &str) -> (r: bool)
    ensures
        r == chars_lt(a@, b@),
{
    a < b
}

/// Insert a copy of `item` into the strictly sorted `v`, unless it is already there.
pub fn insert_sorted_unique(v: &mut Vec<String>, item: &String)
    requires
        sorted_strict(strs(old(v)@)),
    ensures
        sorted_strict(strs(final(v)@)),
        strs(final(v)@).to_set() == strs(old(v)@).to_set().insert(item@),
{
    let ghost old_s = strs(v@);
    let mut k: usize = 0;
    while k < v.len() && str_less(v[k].as_str(), item.as_str())
        invariant
            k <= v.len(),
            v@ == old(v)@,
            forall|i: int| 0 <= i < k ==> chars_lt(#[trigger] strs(v@)[i], item@),
        decreases v.len() - k,
    {
        k = k + 1;
    }
    if k < v.len() && v[k] == *item {
        assert(strs(v@)[k as int] == item@);
        assert(old_s.to_set().insert(item@) =~= old_s.to_set());
        return;
    }
    let ghost before = strs(v@);
    proof {
        if k < v.len() {
            assert(before[k as int] != item@);
            assert(!chars_lt(before[k as int], item@));
            lemma_chars_lt_total(before[k as int], item@);
            assert forall|i: int| k < i < before.len() implies chars_lt(item@, #[trigger] before[i]) by {
                lemma_chars_lt_transitive(item@, before[k as int], before[i]);
            }
        }
    }
    v.insert(k, item.clone());
    proof {
        let after = strs(v@);
        assert(after =~= before.insert(k as int, item@));
        before.insert_ensures(k as int, item@);
        assert forall|i: int, j: int| 0 <= i < j < after.len() implies chars_lt(
            #[trigger] after[i],
            #[trigger] after[j],
        ) by {
            if j < k {
            } else if i < k && j == k {
            } else if i < k && j > k {
                assert(after[j] == before[j - 1]);
                assert(chars_lt(before[i], before[j - 1]));
            } else if i == k {
                assert(after[j] == before[j - 1]);
            } else {
                assert(after[i] == before[i - 1]);
                assert(after[j] == before[j - 1]);
            }
        }
        assert forall|x: Seq<char>| after.to_set().contains(x) <==> before.to_set().insert(item@).contains(x) by {
            if after.contains(x) {
                let i = choose|i: int| 0 <= i < after.len() && after[i] == x;
                if i < k {
                    assert(before[i] == x);
                } else if i > k {
                    assert(before[i - 1] == x);
                }
            }
            if before.contains(x) {
                let i = choose|i: int| 0 <= i < before.len() && before[i] == x;
                if i < k {
                    assert(after[i] == x);
                } else {
                    assert(after[i + 1] == x);
                }
            }
            if x == item@ {
                assert(after[k as int] == x);
            }
        }
        assert(after.to_set() =~= before.to_set().insert(item@));
    }
}


/// `parts` joined with `sep` between consecutive parts.
pub open spec fn join(parts: Seq<Seq<char>>, sep: Seq<char>) -> Seq<char>
    decreases parts.len(),
{
    if parts.len() == 0 {
        Seq::empty()
    } else if parts.len() == 1 {
        parts[0]
    } else {
        join(parts.drop_last(), sep) + sep + parts.last()
    }
}

/// Join `parts` with `sep` between consecutive parts.
pub fn join_strings(parts: &Vec<String>, sep: &str) -> (r: String)
    ensures
        r@ == join(strs(parts@), sep@),
{
    let mut out = String::new();
    let ghost all = strs(parts@);
    for i in 0..parts.len()
        invariant
            all == strs(parts@),
            out@ == join(all.take(i as int), sep@),
    {
        proof {
            assert(all.take(i + 1).drop_last() =~= all.take(i as int));
        }
        if i > 0 {
            out.append(sep);
        }
        out.append(parts[i].as_str());
        proof {
            if i == 0 {
                assert(out@ =~= join(all.take(1), sep@));
            }
        }
    }
    proof {
        assert(all.take(parts@.len() as int) =~= all);
    }
    out
}

/// The set of a concatenation is the union of the sets.
pub proof fn lemma_to_set_concat<A>(a: Seq<A>, b: Seq<A>)
    ensures
        (a + b).to_set() == a.to_set().union(b.to_set()),
{
    assert forall|x: A| (a + b).to_set().contains(x) <==> a.to_set().union(b.to_set()).contains(x) by {
        if (a + b).contains(x) {
            let i = choose|i: int| 0 <= i < (a + b).len() && (a + b)[i] == x;
            if i < a.len() {
                assert(a[i] == x);
            } else {
                assert(b[i - a.len()] == x);
            }
        }
        if a.contains(x) {
            let i = choose|i: int| 0 <= i < a.len() && a[i] == x;
            assert((a + b)[i] == x);
        }
        if b.contains(x) {
            let i = choose|i: int| 0 <= i < b.len() && b[i] == x;
            assert((a + b)[a.len() + i] == x);
        }
    }
    assert((a + b).to_set() =~= a.to_set().union(b.to_set()));
}

/// A copy of an optional string.
pub fn copy_opt(o: &Option<String>) -> (r: Option<String>)
    ensures
        opt_chars(r) == opt_chars(*o),
{
    match o {
        Some(s) => Some(s.clone()),
        None => None,
    }
}

/// A copy of a list of strings.
pub fn copy_strings(v: &Vec<String>) -> (r: Vec<String>)
    ensures
        strs(r@) == strs(v@),
{
    let mut out: Vec<String> = Vec::new();
    for i in 0..v.len()
        invariant
            strs(out@) == strs(v@).take(i as int),
    {
        let item = v[i].clone();
        let ghost prev = out@;
        out.push(item);
        proof {
            assert(out@ == prev.push(item));
            assert(item@ == v@[i as int]@);
            assert(strs(prev).len() == i);
            assert(prev.len() == i);
            assert(out@.len() == i + 1);
            assert(strs(out@).len() == i + 1);
            assert forall|k: int| 0 <= k < i implies strs(out@)[k] == strs(v@)[k] by {
                assert(strs(prev)[k] == strs(v@).take(i as int)[k]);
            }
            assert(strs(out@) =~= strs(v@).take(i + 1));
        }
    }
    proof {
        assert(strs(v@).take(v@.len() as int) =~= strs(v@));
    }
    out
}


/// The characters of `s`.
pub fn chars_of(s: &str) -> (r: Vec<char>)
    ensures
        r@ == s@,
{
    let mut out: Vec<char> = Vec::new();
    for c in it: s.chars()
        invariant
            out@ == it.seq().take(it.index() as int),
    {
        let ghost prev = out@;
        out.push(c);
        proof {
            assert(out@ =~= it.seq().take(it.index() + 1));
        }
    }
    proof {
        assert(out@ =~= s@);
    }
    out
}


/// Unicode's `White_Space` property, the one `char::is_whitespace` and
/// `str::trim` go by.
pub open spec fn is_white_space(c: char) -> bool {
    let n = c as u32;
    ||| 0x9 <= n <= 0xD
    ||| n == 0x20
    ||| n == 0x85
    ||| n == 0xA0
    ||| n == 0x1680
    ||| 0x2000 <= n <= 0x200A
    ||| n == 0x2028
    ||| n == 0x2029
    ||| n == 0x202F
    ||| n == 0x205F
    ||| n == 0x3000
}

/// Whether `c` is white space.
pub fn white_space(c: char) -> (r: bool)
    ensures
        r == is_white_space(c),
{
    let n = c as u32;
    (0x9 <= n && n <= 0xD) || n == 0x20 || n == 0x85 || n == 0xA0 || n == 0x1680 || (0x2000 <= n
        && n <= 0x200A) || n == 0x2028 || n == 0x2029 || n == 0x202F || n == 0x205F || n == 0x3000
}

/// `s` without its leading white space.
pub open spec fn trim_start(s: Seq<char>) -> Seq<char>
    decreases s.len(),
{
    if s.len() > 0 && is_white_space(s[0]) {
        trim_start(s.drop_first())
    } else {
        s
    }
}

/// `s` without its trailing white space.
pub open spec fn trim_end(s: Seq<char>) -> Seq<char>
    decreases s.len(),
{
    if s.len() > 0 && is_white_space(s.last()) {
        trim_end(s.drop_last())
    } else {
        s
    }
}

/// `s` without leading and trailing white space.
pub open spec fn trimmed(s: Seq<char>) -> Seq<char> {
    trim_end(trim_start(s))
}

/// `s` without leading and trailing white space.
pub fn trim(s: &str) -> (r: String)
    ensures
        r@ == trimmed(s@),
{
    let cs = chars_of(s);
    let n = cs.len();
    let mut a: usize = 0;
    proof {
        assert(s@.subrange(0, n as int) =~= s@);
    }
    while a < n && white_space(cs[a])
        invariant
            cs@ == s@,
            n == s@.len(),
            a <= n,
            trim_start(s@) == trim_start(s@.subrange(a as int, n as int)),
        decreases n - a,
    {
        proof {
            assert(s@.subrange(a as int, n as int).drop_first() =~= s@.subrange(a + 1, n as int));
        }
        a = a + 1;
    }
    let mut b: usize = n;
    while b > a && white_space(cs[b - 1])
        invariant
            cs@ == s@,
            n == s@.len(),
            a <= b <= n,
            trim_start(s@) == s@.subrange(a as int, n as int),
            trim_end(s@.subrange(a as int, n as int)) == trim_end(s@.subrange(a as int, b as int)),
        decreases b - a,
    {
        proof {
            assert(s@.subrange(a as int, b as int).drop_last() =~= s@.subrange(a as int, b - 1));
        }
        b = b - 1;
    }
    s.substring_char(a, b).to_owned()
}

/// Whether `s` holds nothing but white space.
pub fn blank(s: &str) -> (r: bool)
    ensures
        r == (trimmed(s@).len() == 0),
{
    trim(s).as_str().is_empty()
}

/// The digit that stands for `d`.
pub open spec fn digit_char(d: int) -> char {
    (d + 48) as char
}

/// The decimal representation of `n`, without leading zeros.
pub open spec fn decimal(n: nat) -> Seq<char>
    decreases n,
{
    if n < 10 {
        seq![digit_char(n as int)]
    } else {
        decimal(n / 10).push(digit_char((n % 10) as int))
    }
}

/// The digits of `s`, last one first.
pub open spec fn reversed_digits(s: Seq<u64>) -> Seq<char>
    decreases s.len(),
{
    if s.len() == 0 {
        Seq::empty()
    } else {
        seq![digit_char(s.last() as int)] + reversed_digits(s.drop_last())
    }
}

/// The decimal representation of `n`.
pub fn decimal_text(n: u64) -> (r: String)
    ensures
        r@ == decimal(n as nat),
{
    let digits = "0123456789";
    proof {
        reveal_strlit("0123456789");
        assert(digits@.len() == 10);
        assert forall|j: int| 0 <= j < 10 implies digits@[j] == digit_char(j) by {
            assert(digits@ =~= seq!['0', '1', '2', '3', '4', '5', '6', '7', '8', '9']);
        }
    }
    let mut rev: Vec<u64> = Vec::new();
    let mut m = n;
    proof {
        assert(reversed_digits(rev@) =~= Seq::<char>::empty());
        assert(decimal(n as nat) =~= decimal(m as nat) + reversed_digits(rev@));
    }
    while m >= 10
        invariant
            decimal(n as nat) == decimal(m as nat) + reversed_digits(rev@),
            forall|k: int| 0 <= k < rev@.len() ==> rev@[k] < 10,
        decreases m,
    {
        let ghost prev = rev@;
        rev.push(m % 10);
        proof {
            assert(rev@.drop_last() =~= prev);
            assert(reversed_digits(rev@) == seq![digit_char((m % 10) as int)] + reversed_digits(prev));
            assert(decimal(m as nat) == decimal((m / 10) as nat).push(digit_char((m % 10) as int)));
            assert(decimal(m as nat) + reversed_digits(prev) =~= decimal((m / 10) as nat) + reversed_digits(rev@));
        }
        m = m / 10;
    }
    let mut out = digits.substring_char(m as usize, (m + 1) as usize).to_owned();
    proof {
        assert(out@ =~= decimal(m as nat));
        assert(rev@.take(rev@.len() as int) =~= rev@);
    }
    let mut k = rev.len();
    while k > 0
        invariant
            k <= rev@.len(),
            forall|j: int| 0 <= j < rev@.len() ==> rev@[j] < 10,
            digits@.len() == 10,
            forall|j: int| 0 <= j < 10 ==> digits@[j] == digit_char(j),
            decimal(n as nat) == out@ + reversed_digits(rev@.take(k as int)),
        decreases k,
    {
        let d = rev[k - 1];
        let ghost prev = out@;
        out.append(digits.substring_char(d as usize, (d + 1) as usize));
        proof {
            assert(out@ =~= prev.push(digit_char(d as int)));
            assert(rev@.take(k as int).drop_last() =~= rev@.take(k - 1));
            assert(reversed_digits(rev@.take(k as int)) == seq![digit_char(d as int)] + reversed_digits(rev@.take(k - 1)));
            assert(prev + reversed_digits(rev@.take(k as int)) =~= out@ + reversed_digits(rev@.take(k - 1)));
        }
        k = k - 1;
    }
    proof {
        assert(reversed_digits(rev@.take(0)) =~= Seq::<char>::empty());
        assert(out@ + reversed_digits(rev@.take(0)) =~= out@);
    }
    out
}


/// An answer to a yes/no prompt that means yes: `y` in either case, with
/// any surrounding white space.
pub open spec fn is_yes_answer(a: Seq<char>) -> bool {
    let t = trimmed(a);
    t.len() == 1 && (t[0] == 'y' || t[0] == 'Y')
}

/// Whether the answer to a yes/no prompt means yes.
pub fn is_yes(answer: &str) -> (r: bool)
    ensures
        r == is_yes_answer(answer@),
{
    let t = trim(answer);
    let cs = chars_of(t.as_str());
    cs.len() == 1 && (cs[0] == 'y' || cs[0] == 'Y')
}

} // verus!
