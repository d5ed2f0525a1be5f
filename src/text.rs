use vstd::prelude::*;
use crate::model::starts_with;

verus! {

/// Whether `s` begins with `p`, character by character.
pub fn has_prefix(s: &str, p: &str) -> (r: bool)
    ensures
        r == starts_with(s@, p@),
{
    let n = s.unicode_len();
    let m = p.unicode_len();
    if m > n {
        return false;
    }
    let mut i: usize = 0;
    while i < m
        invariant
            m <= n,
            n == s@.len(),
            m == p@.len(),
            i <= m,
            forall|j: int| 0 <= j < i ==> s@[j] == p@[j],
        decreases m - i,
    {
        if s.get_char(i) != p.get_char(i) {
            assert(s@.subrange(0, m as int)[i as int] != p@[i as int]);
            return false;
        }
        i = i + 1;
    }
    assert(s@.subrange(0, m as int) =~= p@);
    true
}

/// Whether two texts hold the same characters.
pub fn same_text(a: &str, b: &str) -> (r: bool)
    ensures
        r == (a@ == b@),
{
    let x = String::from_str(a);
    let y = String::from_str(b);
    x == y
}

} // verus!

verus! {

/// The character of a decimal digit.
pub open spec fn digit_char(d: nat) -> char {
    if d == 0 { '0' }
    else if d == 1 { '1' }
    else if d == 2 { '2' }
    else if d == 3 { '3' }
    else if d == 4 { '4' }
    else if d == 5 { '5' }
    else if d == 6 { '6' }
    else if d == 7 { '7' }
    else if d == 8 { '8' }
    else { '9' }
}

/// The decimal digits of `n`, most significant first, without leading zeros.
pub open spec fn digits_of(n: nat) -> Seq<char>
    decreases n,
{
    if n < 10 {
        seq![digit_char(n)]
    } else {
        digits_of(n / 10).push(digit_char(n % 10))
    }
}

/// The decimal text of `n`, with a leading `-` when it is negative.
pub open spec fn decimal_of(n: int) -> Seq<char> {
    if n < 0 {
        seq!['-'] + digits_of((-n) as nat)
    } else {
        digits_of(n as nat)
    }
}

fn digit_text(d: u64) -> (r: &'static str)
    requires
        d < 10,
    ensures
        r@ == seq![digit_char(d as nat)],
{
    proof {
        reveal_strlit("0");
        reveal_strlit("1");
        reveal_strlit("2");
        reveal_strlit("3");
        reveal_strlit("4");
        reveal_strlit("5");
        reveal_strlit("6");
        reveal_strlit("7");
        reveal_strlit("8");
        reveal_strlit("9");
    }
    let r = if d == 0 { "0" }
    else if d == 1 { "1" }
    else if d == 2 { "2" }
    else if d == 3 { "3" }
    else if d == 4 { "4" }
    else if d == 5 { "5" }
    else if d == 6 { "6" }
    else if d == 7 { "7" }
    else if d == 8 { "8" }
    else { "9" };
    assert(r@ =~= seq![digit_char(d as nat)]);
    r
}

fn digits(n: u64) -> (r: String)
    ensures
        r@ == digits_of(n as nat),
    decreases n,
{
    if n < 10 {
        String::from_str(digit_text(n))
    } else {
        let mut s = digits(n / 10);
        s.append(digit_text(n % 10));
        assert(s@ =~= digits_of(n as nat));
        s
    }
}

/// The decimal text of a status code.
pub fn decimal_text(n: i32) -> (r: String)
    ensures
        r@ == decimal_of(n as int),
{
    if n < 0 {
        let magnitude = (-(n as i64)) as u64;
        let mut s = String::from_str("-");
        proof {
            reveal_strlit("-");
        }
        s.append(digits(magnitude).as_str());
        assert(s@ =~= decimal_of(n as int));
        s
    } else {
        digits(n as u64)
    }
}

} // verus!

verus! {

/// Unicode white space, as `char::is_whitespace` defines it.
pub open spec fn is_space(c: char) -> bool {
    c == ' ' || ('\t' <= c && c <= '\r') || c == '\u{85}' || c == '\u{a0}' || c == '\u{1680}'
        || ('\u{2000}' <= c && c <= '\u{200a}') || c == '\u{2028}' || c == '\u{2029}'
        || c == '\u{202f}' || c == '\u{205f}' || c == '\u{3000}'
}

pub fn space(c: char) -> (r: bool)
    ensures
        r == is_space(c),
{
    c == ' ' || ('\t' <= c && c <= '\r') || c == '\u{85}' || c == '\u{a0}' || c == '\u{1680}'
        || ('\u{2000}' <= c && c <= '\u{200a}') || c == '\u{2028}' || c == '\u{2029}'
        || c == '\u{202f}' || c == '\u{205f}' || c == '\u{3000}'
}

/// The number of white-space characters that `s` starts with.
pub open spec fn leading_space(s: Seq<char>) -> nat
    decreases s.len(),
{
    if s.len() > 0 && is_space(s[0]) {
        1 + leading_space(s.drop_first())
    } else {
        0
    }
}

/// The number of white-space characters that `s` ends with.
pub open spec fn trailing_space(s: Seq<char>) -> nat
    decreases s.len(),
{
    if s.len() > 0 && is_space(s.last()) {
        1 + trailing_space(s.drop_last())
    } else {
        0
    }
}

/// `s` without leading and trailing white space.
pub open spec fn trimmed(s: Seq<char>) -> Seq<char> {
    let t = s.subrange(leading_space(s) as int, s.len() as int);
    t.subrange(0, t.len() - trailing_space(t))
}

proof fn leading_space_at(s: Seq<char>, i: int)
    requires
        0 <= i <= s.len(),
        forall|k: int| 0 <= k < i ==> is_space(s[k]),
        i == s.len() || !is_space(s[i]),
    ensures
        leading_space(s) == i,
    decreases i,
{
    if i > 0 {
        leading_space_at(s.drop_first(), i - 1);
    }
}

proof fn trailing_space_at(s: Seq<char>, j: int)
    requires
        0 <= j <= s.len(),
        forall|k: int| j <= k < s.len() ==> is_space(s[k]),
        j == 0 || !is_space(s[j - 1]),
    ensures
        trailing_space(s) == s.len() - j,
    decreases s.len() - j,
{
    if j < s.len() {
        trailing_space_at(s.drop_last(), j);
    }
}

/// `s` without leading and trailing white space.
pub fn trim(s: &str) -> (r: &str)
    ensures
        r@ == trimmed(s@),
{
    let n = s.unicode_len();
    let mut i: usize = 0;
    while i < n && space(s.get_char(i))
        invariant
            n == s@.len(),
            i <= n,
            forall|k: int| 0 <= k < i ==> is_space(s@[k]),
        decreases n - i,
    {
        i = i + 1;
    }
    proof {
        leading_space_at(s@, i as int);
    }
    let mut j: usize = n;
    while j > i && space(s.get_char(j - 1))
        invariant
            n == s@.len(),
            i <= j <= n,
            forall|k: int| j <= k < n ==> is_space(s@[k]),
        decreases j,
    {
        j = j - 1;
    }
    proof {
        let t = s@.subrange(i as int, n as int);
        assert forall|k: int| j - i <= k < t.len() implies is_space(t[k]) by {
            assert(t[k] == s@[k + i]);
        }
        if j > i {
            assert(t[j - i - 1] == s@[j - 1]);
        }
        trailing_space_at(t, j - i);
        assert(t.subrange(0, t.len() - trailing_space(t)) =~= s@.subrange(i as int, j as int));
    }
    s.substring_char(i, j)
}

/// The pieces of `s` between `'\n'` characters: one more than there are newlines.
pub open spec fn newline_pieces(s: Seq<char>) -> Seq<Seq<char>>
    decreases s.len(),
{
    if s.len() == 0 {
        seq![Seq::<char>::empty()]
    } else {
        let prev = newline_pieces(s.drop_last());
        if s.last() == '\n' {
            prev.push(Seq::<char>::empty())
        } else {
            prev.update(prev.len() - 1, prev.last().push(s.last()))
        }
    }
}

pub open spec fn without_cr(line: Seq<char>) -> Seq<char> {
    if line.len() > 0 && line.last() == '\r' {
        line.drop_last()
    } else {
        line
    }
}

/// The lines of `s` as `str::lines` gives them: split at `'\n'`, a `'\r'` before the
/// `'\n'` dropped, and no empty line after a final `'\n'`.
pub open spec fn lines_of(s: Seq<char>) -> Seq<Seq<char>> {
    let pieces = newline_pieces(s);
    let ended = pieces.drop_last().map_values(|p: Seq<char>| without_cr(p));
    if pieces.last().len() == 0 {
        ended
    } else {
        ended.push(pieces.last())
    }
}

proof fn newline_pieces_nonempty(s: Seq<char>)
    ensures
        newline_pieces(s).len() >= 1,
    decreases s.len(),
{
    if s.len() > 0 {
        newline_pieces_nonempty(s.drop_last());
    }
}

/// The lines of `s` (see `lines_of`).
pub fn lines(s: &str) -> (r: Vec<String>)
    ensures
        r@.map_values(|l: String| l@) == lines_of(s@),
{
    let n = s.unicode_len();
    let mut done: Vec<String> = Vec::new();
    let mut current = String::new();
    let mut i: usize = 0;
    while i < n
        invariant
            n == s@.len(),
            i <= n,
            done@.map_values(|l: String| l@).push(current@) == newline_pieces(s@.subrange(0, i as int)),
        decreases n - i,
    {
        let c = s.get_char(i);
        let ghost before = s@.subrange(0, i as int);
        let ghost after = s@.subrange(0, i as int + 1);
        assert(after.drop_last() =~= before);
        proof {
            newline_pieces_nonempty(before);
        }
        if c == '\n' {
            done.push(current);
            current = String::new();
            assert(done@.map_values(|l: String| l@).push(current@) =~= newline_pieces(after));
        } else {
            let ghost old_current = current@;
            let ghost old_done = done@.map_values(|l: String| l@);
            assert(newline_pieces(before).last() == old_current);
            assert(newline_pieces(before).len() == old_done.len() + 1);
            current.append(s.substring_char(i, i + 1));
            assert(s@.subrange(i as int, i as int + 1) =~= seq![c]);
            assert(current@ == old_current.push(c));
            assert(done@.map_values(|l: String| l@).push(current@) =~= newline_pieces(after));
        }
        i = i + 1;
    }
    assert(s@.subrange(0, n as int) =~= s@);
    let ghost pieces = newline_pieces(s@);
    let mut out: Vec<String> = Vec::new();
    let mut k: usize = 0;
    while k < done.len()
        invariant
            k <= done@.len(),
            done@.map_values(|l: String| l@).push(current@) == pieces,
            out@.map_values(|l: String| l@) == pieces.drop_last().map_values(|p: Seq<char>| without_cr(p)).subrange(0, k as int),
        decreases done@.len() - k,
    {
        let line = &done[k];
        let len = line.as_str().unicode_len();
        let kept = if len > 0 && line.as_str().get_char(len - 1) == '\r' {
            String::from_str(line.as_str().substring_char(0, len - 1))
        } else {
            line.clone()
        };
        assert(pieces[k as int] == done@[k as int]@);
        assert(kept@ =~= without_cr(pieces[k as int]));
        assert(pieces.drop_last()[k as int] == pieces[k as int]);
        let ghost prior = out@.map_values(|l: String| l@);
        out.push(kept);
        assert(out@.map_values(|l: String| l@) =~= prior.push(kept@));
        assert(out@.map_values(|l: String| l@) =~= pieces.drop_last().map_values(|p: Seq<char>| without_cr(p)).subrange(0, k as int + 1));
        k = k + 1;
    }
    assert(pieces.drop_last().map_values(|p: Seq<char>| without_cr(p)).subrange(0, done@.len() as int)
        =~= pieces.drop_last().map_values(|p: Seq<char>| without_cr(p)));
    if current.as_str().unicode_len() > 0 {
        out.push(current);
        assert(out@.map_values(|l: String| l@) =~= lines_of(s@));
    }
    out
}

} // verus!

verus! {

/// `pat` occurs in `s` at position `i`.
pub open spec fn occurs_at(s: Seq<char>, pat: Seq<char>, i: int) -> bool {
    0 <= i && i + pat.len() <= s.len() && s.subrange(i, i + pat.len()) == pat
}

/// The first position at or after `i` where `pat` occurs in `s`.
pub open spec fn first_index_from(s: Seq<char>, pat: Seq<char>, i: int) -> Option<int>
    decreases s.len() + 1 - i,
{
    if i < 0 || i + pat.len() > s.len() {
        None
    } else if occurs_at(s, pat, i) {
        Some(i)
    } else {
        first_index_from(s, pat, i + 1)
    }
}

pub open spec fn first_index(s: Seq<char>, pat: Seq<char>) -> Option<int> {
    first_index_from(s, pat, 0)
}

/// Whether `pat` occurs in `s` at position `i`.
fn occurs(s: &str, pat: &str, i: usize) -> (r: bool)
    requires
        i <= s@.len(),
    ensures
        r == occurs_at(s@, pat@, i as int),
{
    let n = s.unicode_len();
    let m = pat.unicode_len();
    if m > n - i {
        return false;
    }
    let sub = s.substring_char(i, i + m);
    let r = has_prefix(sub, pat);
    assert(sub@.subrange(0, m as int) =~= sub@);
    r
}

/// The first position where `pat` occurs in `s`.
pub fn find_text(s: &str, pat: &str) -> (r: Option<usize>)
    ensures
        r is None ==> first_index(s@, pat@) is None,
        r is Some ==> first_index(s@, pat@) == Some(r->0 as int) && r->0 + pat@.len() <= s@.len(),
{
    let n = s.unicode_len();
    let m = pat.unicode_len();
    if m > n {
        return None;
    }
    if m == 0 {
        assert(s@.subrange(0, 0) =~= pat@);
        return Some(0);
    }
    let mut i: usize = 0;
    while i <= n - m
        invariant
            n == s@.len(),
            m == pat@.len(),
            0 < m <= n,
            i <= n - m + 1,
            first_index(s@, pat@) == first_index_from(s@, pat@, i as int),
        decreases n - m + 1 - i,
    {
        if occurs(s, pat, i) {
            return Some(i);
        }
        i = i + 1;
    }
    None
}

/// `s` with each occurrence of `from`, from left to right, replaced by `to`.
pub open spec fn replaced(s: Seq<char>, from: Seq<char>, to: Seq<char>) -> Seq<char>
    decreases s.len(),
{
    if from.len() == 0 || s.len() < from.len() {
        s
    } else if s.subrange(0, from.len() as int) == from {
        to + replaced(s.subrange(from.len() as int, s.len() as int), from, to)
    } else {
        seq![s[0]] + replaced(s.drop_first(), from, to)
    }
}

/// `s` with each occurrence of `from`, from left to right, replaced by `to`.
pub fn replace_text(s: &str, from: &str, to: &str) -> (r: String)
    requires
        from@.len() > 0,
    ensures
        r@ == replaced(s@, from@, to@),
{
    let n = s.unicode_len();
    let m = from.unicode_len();
    let mut out = String::new();
    let mut i: usize = 0;
    assert(s@.subrange(0, n as int) =~= s@);
    assert(out@ + replaced(s@, from@, to@) =~= replaced(s@, from@, to@));
    while i < n
        invariant
            n == s@.len(),
            m == from@.len(),
            m > 0,
            i <= n,
            out@ + replaced(s@.subrange(i as int, n as int), from@, to@) == replaced(s@, from@, to@),
        decreases n - i,
    {
        let ghost rest = s@.subrange(i as int, n as int);
        let ghost before = out@;
        if n - i < m {
            out.append(s.substring_char(i, n));
            i = n;
        } else if occurs(s, from, i) {
            assert(rest.subrange(0, m as int) =~= s@.subrange(i as int, i + m));
            assert(rest.subrange(m as int, rest.len() as int) =~= s@.subrange(i + m, n as int));
            out.append(to);
            i = i + m;
        } else {
            assert(rest.subrange(0, m as int) =~= s@.subrange(i as int, i + m));
            assert(rest.drop_first() =~= s@.subrange(i + 1, n as int));
            out.append(s.substring_char(i, i + 1));
            assert(s@.subrange(i as int, i + 1) =~= seq![rest[0]]);
            assert(out@ + replaced(rest.drop_first(), from@, to@) =~= before + replaced(rest, from@, to@));
            i = i + 1;
        }
    }
    assert(out@ =~= replaced(s@, from@, to@));
    out
}

/// `s` with every trailing repetition of `suffix` removed.
pub open spec fn without_suffixes(s: Seq<char>, suffix: Seq<char>) -> Seq<char>
    decreases s.len(),
{
    if suffix.len() > 0 && suffix.len() <= s.len() && s.subrange(s.len() - suffix.len(), s.len() as int) == suffix {
        without_suffixes(s.subrange(0, s.len() - suffix.len()), suffix)
    } else {
        s
    }
}

/// `s` with every trailing repetition of `suffix` removed.
pub fn trim_suffixes<'a>(s: &'a str, suffix: &str) -> (r: &'a str)
    ensures
        r@ == without_suffixes(s@, suffix@),
{
    let m = suffix.unicode_len();
    let mut end = s.unicode_len();
    assert(s@.subrange(0, end as int) =~= s@);
    while m > 0 && m <= end && occurs(s, suffix, end - m)
        invariant
            end <= s@.len(),
            m == suffix@.len(),
            without_suffixes(s@, suffix@) == without_suffixes(s@.subrange(0, end as int), suffix@),
        decreases end,
    {
        let ghost cur = s@.subrange(0, end as int);
        assert(cur.subrange(cur.len() - m, cur.len() as int) =~= s@.subrange(end - m, end as int));
        assert(cur.subrange(0, cur.len() - m) =~= s@.subrange(0, end - m));
        end = end - m;
    }
    proof {
        let cur = s@.subrange(0, end as int);
        if m > 0 && m <= end {
            assert(cur.subrange(cur.len() - m, cur.len() as int) =~= s@.subrange(end - m, end as int));
        }
    }
    s.substring_char(0, end)
}

} // verus!

verus! {

/// `a` comes no later than `b` in the order of `str`'s comparison: character by
/// character by code point, a prefix first.
pub open spec fn text_le(a: Seq<char>, b: Seq<char>) -> bool
    decreases a.len(),
{
    if a.len() == 0 {
        true
    } else if b.len() == 0 {
        false
    } else if (a[0] as u32) != (b[0] as u32) {
        (a[0] as u32) < (b[0] as u32)
    } else {
        text_le(a.drop_first(), b.drop_first())
    }
}

pub proof fn text_le_total(a: Seq<char>, b: Seq<char>)
    ensures
        text_le(a, b) || text_le(b, a),
    decreases a.len(),
{
    if a.len() > 0 && b.len() > 0 && (a[0] as u32) == (b[0] as u32) {
        text_le_total(a.drop_first(), b.drop_first());
    }
}

pub proof fn text_le_transitive(a: Seq<char>, b: Seq<char>, c: Seq<char>)
    requires
        text_le(a, b),
        text_le(b, c),
    ensures
        text_le(a, c),
    decreases a.len(),
{
    if a.len() > 0 && b.len() > 0 && c.len() > 0 && (a[0] as u32) == (b[0] as u32) && (b[0] as u32) == (c[0] as u32) {
        text_le_transitive(a.drop_first(), b.drop_first(), c.drop_first());
    }
}

/// Whether `a` comes no later than `b` (see `text_le`).
pub fn text_le_exec(a: &str, b: &str) -> (r: bool)
    ensures
        r == text_le(a@, b@),
{
    let n = a.unicode_len();
    let m = b.unicode_len();
    let mut i: usize = 0;
    assert(a@.subrange(0, n as int) =~= a@);
    assert(b@.subrange(0, m as int) =~= b@);
    while i < n && i < m && (a.get_char(i) as u32) == (b.get_char(i) as u32)
        invariant
            n == a@.len(),
            m == b@.len(),
            i <= n,
            i <= m,
            text_le(a@, b@) == text_le(a@.subrange(i as int, n as int), b@.subrange(i as int, m as int)),
        decreases n - i,
    {
        let ghost x = a@.subrange(i as int, n as int);
        let ghost y = b@.subrange(i as int, m as int);
        assert(x.drop_first() =~= a@.subrange(i + 1, n as int));
        assert(y.drop_first() =~= b@.subrange(i + 1, m as int));
        i = i + 1;
    }
    let ghost x = a@.subrange(i as int, n as int);
    let ghost y = b@.subrange(i as int, m as int);
    if i == n {
        true
    } else if i == m {
        false
    } else {
        assert(x[0] == a@[i as int] && y[0] == b@[i as int]);
        (a.get_char(i) as u32) < (b.get_char(i) as u32)
    }
}

/// Each text of `lines` comes no later than every text after it.
pub open spec fn sorted_texts(lines: Seq<Seq<char>>) -> bool {
    forall|i: int, j: int| 0 <= i < j < lines.len() ==> text_le(lines[i], lines[j])
}

pub open spec fn texts_of(v: Seq<String>) -> Seq<Seq<char>> {
    v.map_values(|s: String| s@)
}

/// `lines` in order (see `text_le`).
pub fn sort_texts(lines: Vec<String>) -> (r: Vec<String>)
    ensures
        sorted_texts(texts_of(r@)),
        texts_of(r@).to_multiset() == texts_of(lines@).to_multiset(),
{
    let mut sorted: Vec<String> = Vec::new();
    let mut i: usize = 0;
    assert(texts_of(lines@).subrange(0, 0) =~= Seq::<Seq<char>>::empty());
    assert(texts_of(sorted@) =~= Seq::<Seq<char>>::empty());
    while i < lines.len()
        invariant
            i <= lines@.len(),
            sorted_texts(texts_of(sorted@)),
            texts_of(sorted@).to_multiset() == texts_of(lines@).subrange(0, i as int).to_multiset(),
        decreases lines@.len() - i,
    {
        let l = lines[i].as_str();
        let mut j: usize = 0;
        while j < sorted.len() && text_le_exec(sorted[j].as_str(), l)
            invariant
                j <= sorted@.len(),
                forall|k: int| 0 <= k < j ==> text_le(sorted@[k]@, l@),
            decreases sorted@.len() - j,
        {
            j = j + 1;
        }
        let ghost before = texts_of(sorted@);
        proof {
            if j < sorted@.len() {
                text_le_total(sorted@[j as int]@, l@);
            }
        }
        sorted.insert(j, lines[i].clone());
        proof {
            let after = texts_of(sorted@);
            assert(after =~= before.insert(j as int, l@));
            assert forall|a: int, b: int| 0 <= a < b < after.len() implies text_le(after[a], after[b]) by {
                if b == j {
                    assert(after[a] == before[a]);
                } else if a == j {
                    assert(after[b] == before[b - 1]);
                    if b - 1 > j {
                        assert(text_le(before[j as int], before[b - 1]));
                        text_le_transitive(l@, before[j as int], before[b - 1]);
                    }
                } else {
                    let a0 = if a < j { a } else { a - 1 };
                    let b0 = if b < j { b } else { b - 1 };
                    assert(after[a] == before[a0]);
                    assert(after[b] == before[b0]);
                }
            }
            vstd::seq_lib::to_multiset_insert(before, j as int, l@);
            let upto = texts_of(lines@).subrange(0, i as int + 1);
            assert(upto =~= texts_of(lines@).subrange(0, i as int).push(l@));
            vstd::seq_lib::to_multiset_build(texts_of(lines@).subrange(0, i as int), l@);
        }
        i = i + 1;
    }
    assert(texts_of(lines@).subrange(0, lines@.len() as int) =~= texts_of(lines@));
    sorted
}

} // verus!
