//! Reading and writing `.env` text: `KEY=value` lines, `#` comments, quoted values with
//! backslash escapes.

use vstd::prelude::*;
use crate::error::KeychainError;
use crate::text::{lines, lines_of, sort_texts, sorted_texts, texts_of, trim, trimmed};

verus! {

/// Whether some pair of `pairs` has key `k`.
pub open spec fn has_key(pairs: Seq<(Seq<char>, Seq<char>)>, k: Seq<char>) -> bool {
    exists|i: int| 0 <= i < pairs.len() && #[trigger] pairs[i].0 == k
}

/// The position of key `k` in `pairs`, when it is there.
pub open spec fn position_of(pairs: Seq<(Seq<char>, Seq<char>)>, k: Seq<char>) -> int {
    choose|i: int| 0 <= i < pairs.len() && #[trigger] pairs[i].0 == k
}

/// The value stored for `k` in `pairs`.
pub open spec fn value_for(pairs: Seq<(Seq<char>, Seq<char>)>, k: Seq<char>) -> Seq<char> {
    pairs[position_of(pairs, k)].1
}

/// No key occurs twice in `pairs`.
pub open spec fn keys_unique(pairs: Seq<(Seq<char>, Seq<char>)>) -> bool {
    forall|i: int, j: int| 0 <= i < j < pairs.len() ==> pairs[i].0 != pairs[j].0
}

/// `pairs` after `k` was set to `v`: an existing key keeps its place and takes the new
/// value; a new key goes at the end.
pub open spec fn assign(pairs: Seq<(Seq<char>, Seq<char>)>, k: Seq<char>, v: Seq<char>) -> Seq<(Seq<char>, Seq<char>)> {
    if has_key(pairs, k) {
        pairs.update(position_of(pairs, k), (k, v))
    } else {
        pairs.push((k, v))
    }
}

pub open spec fn pair_view(p: (String, String)) -> (Seq<char>, Seq<char>) {
    (p.0@, p.1@)
}

pub open spec fn pairs_view(pairs: Seq<(String, String)>) -> Seq<(Seq<char>, Seq<char>)> {
    pairs.map_values(|p: (String, String)| pair_view(p))
}

/// A set of variables: each key once, in the order in which keys first appeared.
pub struct EnvVars {
    pairs: Vec<(String, String)>,
}

impl View for EnvVars {
    type V = Seq<(Seq<char>, Seq<char>)>;

    closed spec fn view(&self) -> Seq<(Seq<char>, Seq<char>)> {
        pairs_view(self.pairs@)
    }
}

impl EnvVars {
    pub open spec fn wf(&self) -> bool {
        keys_unique(self@)
    }

    /// No variables.
    pub fn new() -> (r: EnvVars)
        ensures
            r@ == Seq::<(Seq<char>, Seq<char>)>::empty(),
            r.wf(),
    {
        let r = EnvVars { pairs: Vec::new() };
        assert(r@ =~= Seq::<(Seq<char>, Seq<char>)>::empty());
        r
    }

    /// The number of variables.
    pub fn len(&self) -> (r: usize)
        ensures
            r == self@.len(),
    {
        self.pairs.len()
    }

    fn position(&self, key: &str) -> (r: Option<usize>)
        requires
            self.wf(),
        ensures
            r is Some ==> r->0 < self@.len() && self@[r->0 as int].0 == key@ && has_key(self@, key@)
                && position_of(self@, key@) == r->0,
            r is None ==> !has_key(self@, key@),
    {
        let mut i: usize = 0;
        while i < self.pairs.len()
            invariant
                self.wf(),
                self@.len() == self.pairs@.len(),
                i <= self.pairs@.len(),
                forall|j: int| 0 <= j < i ==> self@[j].0 != key@,
            decreases self.pairs@.len() - i,
        {
            assert(self@[i as int].0 == self.pairs@[i as int].0@);
            if crate::text::same_text(self.pairs[i].0.as_str(), key) {
                assert(self@[i as int].0 == key@);
                assert(has_key(self@, key@));
                let ghost j = position_of(self@, key@);
                assert(self@[j].0 == key@);
                assert(j == i);
                return Some(i);
            }
            i = i + 1;
        }
        None
    }

    /// The value of `key`, if it is set.
    pub fn get(&self, key: &str) -> (r: Option<&String>)
        requires
            self.wf(),
        ensures
            r is Some <==> has_key(self@, key@),
            r is Some ==> r->0@ == value_for(self@, key@),
    {
        match self.position(key) {
            Some(i) => {
                assert(self@[i as int].1 == self.pairs@[i as int].1@);
                Some(&self.pairs[i].1)
            },
            None => None,
        }
    }

    /// Sets `key` to `value`, replacing an earlier value.
    pub fn insert(&mut self, key: String, value: String)
        requires
            old(self).wf(),
        ensures
            final(self).wf(),
            final(self)@ == assign(old(self)@, key@, value@),
    {
        match self.position(key.as_str()) {
            Some(i) => {
                let ghost k = key@;
                let ghost v = value@;
                self.pairs.set(i, (key, value));
                assert(self@ =~= old(self)@.update(i as int, (k, v)));
            },
            None => {
                let ghost k = key@;
                let ghost v = value@;
                self.pairs.push((key, value));
                assert(self@ =~= old(self)@.push((k, v)));
            },
        }
    }

    /// The variables as `(key, value)` pairs, in order.
    pub fn pairs(&self) -> (r: &Vec<(String, String)>)
        ensures
            pairs_view(r@) == self@,
    {
        &self.pairs
    }
}

/// The position of the first `=` of `s` at or after `i` that is not escaped by a
/// backslash; `escaped` says whether the character at `i` is escaped.
pub open spec fn first_equals_from(s: Seq<char>, i: int, escaped: bool) -> Option<int>
    decreases s.len() - i,
{
    if i < 0 || i >= s.len() {
        None
    } else if escaped {
        first_equals_from(s, i + 1, false)
    } else if s[i] == '\\' {
        first_equals_from(s, i + 1, true)
    } else if s[i] == '=' {
        Some(i)
    } else {
        first_equals_from(s, i + 1, false)
    }
}

pub open spec fn first_equals(s: Seq<char>) -> Option<int> {
    first_equals_from(s, 0, false)
}

/// What an escape `\c` stands for: a known escape its character, any other `c` the
/// backslash and `c` both.
pub open spec fn escape_of(c: char) -> Seq<char> {
    if c == 'n' {
        seq!['\n']
    } else if c == 't' {
        seq!['\t']
    } else if c == 'r' {
        seq!['\r']
    } else if c == '\\' || c == '"' || c == '\'' {
        seq![c]
    } else {
        seq!['\\', c]
    }
}

/// The text of `s` from `i` on with its escapes resolved; a final lone backslash stays.
pub open spec fn unescaped_from(s: Seq<char>, i: int) -> Seq<char>
    decreases s.len() - i,
{
    if i < 0 || i >= s.len() {
        seq![]
    } else if s[i] == '\\' {
        if i + 1 < s.len() {
            escape_of(s[i + 1]) + unescaped_from(s, i + 2)
        } else {
            seq!['\\']
        }
    } else {
        seq![s[i]] + unescaped_from(s, i + 1)
    }
}

pub open spec fn unescaped(s: Seq<char>) -> Seq<char> {
    unescaped_from(s, 0)
}

/// Whether `t` is enclosed in a matching pair of double or single quotes.
pub open spec fn is_quoted(t: Seq<char>) -> bool {
    t.len() >= 2 && ((t[0] == '"' && t.last() == '"') || (t[0] == '\'' && t.last() == '\''))
}

/// A value as written in a file, trimmed, and unquoted and unescaped when quoted.
pub open spec fn unquoted(v: Seq<char>) -> Seq<char> {
    let t = trimmed(v);
    if is_quoted(t) {
        unescaped(t.subrange(1, t.len() - 1))
    } else {
        t
    }
}

/// The variable that one line assigns: none for a blank line, a comment, a line
/// without an unescaped `=`, or an empty key.
pub open spec fn assignment_of(line: Seq<char>) -> Option<(Seq<char>, Seq<char>)> {
    let t = trimmed(line);
    if t.len() == 0 || t[0] == '#' {
        None
    } else {
        match first_equals(t) {
            None => None,
            Some(p) => {
                let key = trimmed(t.subrange(0, p));
                if key.len() == 0 {
                    None
                } else {
                    Some((key, unquoted(t.subrange(p + 1, t.len() as int))))
                }
            },
        }
    }
}

/// The variables that `lines` assign, a later assignment of a key replacing an earlier.
pub open spec fn assigned_by(lines: Seq<Seq<char>>) -> Seq<(Seq<char>, Seq<char>)>
    decreases lines.len(),
{
    if lines.len() == 0 {
        seq![]
    } else {
        let prev = assigned_by(lines.drop_last());
        match assignment_of(lines.last()) {
            Some(kv) => assign(prev, kv.0, kv.1),
            None => prev,
        }
    }
}

/// The variables that `.env` text defines.
pub open spec fn parsed_env(content: Seq<char>) -> Seq<(Seq<char>, Seq<char>)> {
    assigned_by(lines_of(content))
}

/// Characters that make a value need quotes when written.
pub open spec fn is_special(c: char) -> bool {
    c == ' ' || c == '\n' || c == '\t' || c == '"' || c == '\''
}

/// `v` with each `"` preceded by a backslash.
pub open spec fn quotes_escaped(v: Seq<char>) -> Seq<char>
    decreases v.len(),
{
    if v.len() == 0 {
        seq![]
    } else if v.last() == '"' {
        quotes_escaped(v.drop_last()) + seq!['\\', '"']
    } else {
        quotes_escaped(v.drop_last()).push(v.last())
    }
}

/// A value as it is written to a file: in double quotes, with its double quotes
/// escaped, when it holds a space, newline, tab or quote; as it is otherwise.
pub open spec fn quoted(v: Seq<char>) -> Seq<char> {
    if exists|i: int| 0 <= i < v.len() && is_special(#[trigger] v[i]) {
        seq!['"'] + quotes_escaped(v) + seq!['"']
    } else {
        v
    }
}

/// The line `key=value` with the value quoted as needed.
pub open spec fn assignment_line(key: Seq<char>, value: Seq<char>) -> Seq<char> {
    key + seq!['='] + quoted(value)
}

/// `lines` joined with `'\n'` between them.
pub open spec fn joined(lines: Seq<Seq<char>>) -> Seq<char>
    decreases lines.len(),
{
    if lines.len() == 0 {
        seq![]
    } else if lines.len() == 1 {
        lines[0]
    } else {
        joined(lines.drop_last()) + seq!['\n'] + lines.last()
    }
}

/// The key of a line that holds an unescaped `=` and is neither blank nor a comment.
pub open spec fn line_key(line: Seq<char>) -> Option<Seq<char>> {
    let t = trimmed(line);
    if t.len() == 0 || t[0] == '#' {
        None
    } else {
        match first_equals(t) {
            None => None,
            Some(p) => Some(trimmed(t.subrange(0, p))),
        }
    }
}

/// A line of an existing file after an update: a line whose key `vars` sets is
/// rewritten with the new value; every other line is kept as it is.
pub open spec fn updated_line(line: Seq<char>, vars: Seq<(Seq<char>, Seq<char>)>) -> Seq<char> {
    match line_key(line) {
        Some(k) => if has_key(vars, k) {
            assignment_line(k, value_for(vars, k))
        } else {
            line
        },
        None => line,
    }
}

/// The text of `existing` with the values of `vars` written in: its lines updated in
/// place, then a line for each variable that no line of it had a key for, in order.
pub open spec fn updated_content(existing: Seq<char>, vars: Seq<(Seq<char>, Seq<char>)>) -> Seq<char> {
    let ls = lines_of(existing);
    let keys = ls.filter_map(|l: Seq<char>| line_key(l));
    joined(
        ls.map_values(|l: Seq<char>| updated_line(l, vars)) + vars.filter(
            |p: (Seq<char>, Seq<char>)| !keys.contains(p.0),
        ).map_values(|p: (Seq<char>, Seq<char>)| assignment_line(p.0, p.1)),
    )
}

/// The text of a new file for `vars`: the `key=value` lines of all variables, in the
/// order of `text_le`, joined with newlines.
pub open spec fn is_created_content(text: Seq<char>, vars: Seq<(Seq<char>, Seq<char>)>) -> bool {
    exists|ls: Seq<Seq<char>>|
        sorted_texts(ls) && ls.to_multiset() == vars.map_values(
            |p: (Seq<char>, Seq<char>)| assignment_line(p.0, p.1),
        ).to_multiset() && text == joined(ls)
}

/// Reads and writes `.env` text.
pub struct EnvFileParser;

impl EnvFileParser {
    /// The variables that `content` defines, line by line: blank lines and lines
    /// starting with `#` are skipped, the key is the trimmed text before the first
    /// unescaped `=`, the value the text after it, unquoted (see `unquote_value`).
    pub fn parse_content(content: &str) -> (r: Result<EnvVars, KeychainError>)
        ensures
            r is Ok,
            r->Ok_0.wf(),
            r->Ok_0@ == parsed_env(content@),
    {
        let ls = lines(content);
        let ghost all = lines_of(content@);
        let mut vars = EnvVars::new();
        let mut i: usize = 0;
        while i < ls.len()
            invariant
                i <= ls@.len(),
                ls@.map_values(|l: String| l@) == all,
                vars.wf(),
                vars@ == assigned_by(all.subrange(0, i as int)),
            decreases ls@.len() - i,
        {
            let ghost upto = all.subrange(0, i as int + 1);
            assert(upto.drop_last() =~= all.subrange(0, i as int));
            assert(upto.last() == ls@[i as int]@);
            match Self::parse_line(ls[i].as_str()) {
                Some(kv) => {
                    let (k, v) = kv;
                    vars.insert(k, v);
                },
                None => {},
            }
            i = i + 1;
        }
        assert(all.subrange(0, ls@.len() as int) =~= all);
        Ok(vars)
    }

    fn parse_line(line: &str) -> (r: Option<(String, String)>)
        ensures
            r is None <==> assignment_of(line@) is None,
            r is Some ==> assignment_of(line@) == Some(pair_view(r->0)),
    {
        let t = trim(line);
        let n = t.unicode_len();
        if n == 0 || t.get_char(0) == '#' {
            return None;
        }
        match Self::find_unescaped_equals(t) {
            None => None,
            Some(p) => {
                let key = trim(t.substring_char(0, p));
                if key.unicode_len() == 0 {
                    None
                } else {
                    let value = Self::unquote_value(t.substring_char(p + 1, n));
                    Some((String::from_str(key), value))
                }
            },
        }
    }

    /// The position (in characters) of the first `=` not escaped by a backslash.
    pub fn find_unescaped_equals(s: &str) -> (r: Option<usize>)
        ensures
            r is None ==> first_equals(s@) is None,
            r is Some ==> first_equals(s@) == Some(r->0 as int) && r->0 < s@.len(),
    {
        let n = s.unicode_len();
        let mut escaped = false;
        let mut i: usize = 0;
        while i < n
            invariant
                n == s@.len(),
                i <= n,
                first_equals(s@) == first_equals_from(s@, i as int, escaped),
            decreases n - i,
        {
            let c = s.get_char(i);
            if escaped {
                escaped = false;
            } else if c == '\\' {
                escaped = true;
            } else if c == '=' {
                return Some(i);
            }
            i = i + 1;
        }
        None
    }

    /// `value` trimmed; when it is enclosed in matching double or single quotes, the
    /// text inside them with its escapes resolved.
    pub fn unquote_value(value: &str) -> (r: String)
        ensures
            r@ == unquoted(value@),
    {
        let t = trim(value);
        let n = t.unicode_len();
        if n >= 2 && ((t.get_char(0) == '"' && t.get_char(n - 1) == '"') || (t.get_char(0) == '\''
            && t.get_char(n - 1) == '\'')) {
            Self::unescape_value(t.substring_char(1, n - 1))
        } else {
            String::from_str(t)
        }
    }

    /// `s` with `\n`, `\t`, `\r`, `\\`, `\"` and `\'` resolved; other escapes are kept
    /// as written.
    pub fn unescape_value(s: &str) -> (r: String)
        ensures
            r@ == unescaped(s@),
    {
        let n = s.unicode_len();
        let mut result = String::new();
        let mut i: usize = 0;
        while i < n
            invariant
                n == s@.len(),
                i <= n,
                result@ + unescaped_from(s@, i as int) == unescaped(s@),
            decreases n - i,
        {
            let ch = s.get_char(i);
            if ch == '\\' {
                if i + 1 < n {
                    let next = s.get_char(i + 1);
                    let piece = if next == 'n' {
                        "\n"
                    } else if next == 't' {
                        "\t"
                    } else if next == 'r' {
                        "\r"
                    } else if next == '\\' {
                        "\\"
                    } else if next == '"' {
                        "\""
                    } else if next == '\'' {
                        "'"
                    } else {
                        ""
                    };
                    proof {
                        reveal_strlit("\n");
                        reveal_strlit("\t");
                        reveal_strlit("\r");
                        reveal_strlit("\\");
                        reveal_strlit("\"");
                        reveal_strlit("'");
                        reveal_strlit("");
                    }
                    let ghost before = result@;
                    if piece.unicode_len() == 0 {
                        result.append("\\");
                        result.append(s.substring_char(i + 1, i + 2));
                        assert(s@.subrange(i + 1, i + 2) =~= seq![next]);
                        assert(result@ =~= before + escape_of(next));
                    } else {
                        result.append(piece);
                        assert(result@ =~= before + escape_of(next));
                    }
                    assert(unescaped_from(s@, i as int) == escape_of(next) + unescaped_from(s@, i + 2));
                    assert(result@ + unescaped_from(s@, i + 2) =~= before + unescaped_from(s@, i as int));
                    i = i + 2;
                } else {
                    let ghost before = result@;
                    result.append("\\");
                    proof {
                        reveal_strlit("\\");
                    }
                    assert(unescaped_from(s@, i + 1) =~= seq![]);
                    assert(result@ + unescaped_from(s@, i + 1) =~= before + unescaped_from(s@, i as int));
                    i = i + 1;
                }
            } else {
                let ghost before = result@;
                result.append(s.substring_char(i, i + 1));
                assert(s@.subrange(i as int, i + 1) =~= seq![ch]);
                assert(result@ + unescaped_from(s@, i + 1) =~= before + unescaped_from(s@, i as int));
                i = i + 1;
            }
        }
        assert(unescaped_from(s@, n as int) =~= seq![]);
        assert(result@ =~= unescaped(s@));
        result
    }

    /// `value` as it is written to a file (see `quoted`).
    pub fn quote_value(value: &str) -> (r: String)
        ensures
            r@ == quoted(value@),
    {
        let n = value.unicode_len();
        let mut special = false;
        let mut escaped = String::new();
        let mut i: usize = 0;
        while i < n
            invariant
                n == value@.len(),
                i <= n,
                escaped@ == quotes_escaped(value@.subrange(0, i as int)),
                special == exists|j: int| 0 <= j < i && is_special(#[trigger] value@[j]),
            decreases n - i,
        {
            let c = value.get_char(i);
            let ghost upto = value@.subrange(0, i as int + 1);
            assert(upto.drop_last() =~= value@.subrange(0, i as int));
            let ghost before = escaped@;
            if c == '"' {
                escaped.append("\\\"");
                proof {
                    reveal_strlit("\\\"");
                }
                assert(escaped@ =~= quotes_escaped(upto));
            } else {
                escaped.append(value.substring_char(i, i + 1));
                assert(value@.subrange(i as int, i + 1) =~= seq![c]);
                assert(escaped@ =~= quotes_escaped(upto));
            }
            if c == ' ' || c == '\n' || c == '\t' || c == '"' || c == '\'' {
                special = true;
            }
            i = i + 1;
        }
        assert(value@.subrange(0, n as int) =~= value@);
        if special {
            let mut r = String::from_str("\"");
            r.append(escaped.as_str());
            r.append("\"");
            proof {
                reveal_strlit("\"");
            }
            assert(r@ =~= quoted(value@));
            r
        } else {
            String::from_str(value)
        }
    }

    fn assignment(key: &str, value: &str) -> (r: String)
        ensures
            r@ == assignment_line(key@, value@),
    {
        let mut r = String::from_str(key);
        r.append("=");
        proof {
            reveal_strlit("=");
        }
        r.append(Self::quote_value(value).as_str());
        assert(r@ =~= assignment_line(key@, value@));
        r
    }

    fn join(lines: &Vec<String>) -> (r: String)
        ensures
            r@ == joined(lines@.map_values(|l: String| l@)),
    {
        let mut r = String::new();
        let mut i: usize = 0;
        while i < lines.len()
            invariant
                i <= lines@.len(),
                r@ == joined(lines@.map_values(|l: String| l@).subrange(0, i as int)),
            decreases lines@.len() - i,
        {
            let ghost upto = lines@.map_values(|l: String| l@).subrange(0, i as int + 1);
            assert(upto.drop_last() =~= lines@.map_values(|l: String| l@).subrange(0, i as int));
            if i > 0 {
                r.append("\n");
                proof {
                    reveal_strlit("\n");
                }
            }
            r.append(lines[i].as_str());
            assert(r@ =~= joined(upto));
            i = i + 1;
        }
        assert(lines@.map_values(|l: String| l@).subrange(0, lines@.len() as int) =~= lines@.map_values(
            |l: String| l@,
        ));
        r
    }

    fn line_key(line: &str) -> (r: Option<String>)
        ensures
            r is None ==> line_key(line@) is None,
            r is Some ==> line_key(line@) == Some(r->0@),
    {
        let t = trim(line);
        let n = t.unicode_len();
        if n == 0 || t.get_char(0) == '#' {
            return None;
        }
        match Self::find_unescaped_equals(t) {
            None => None,
            Some(p) => Some(String::from_str(trim(t.substring_char(0, p)))),
        }
    }

    fn contains_text(items: &Vec<String>, k: &str) -> (r: bool)
        ensures
            r == items@.map_values(|l: String| l@).contains(k@),
    {
        let mut i: usize = 0;
        while i < items.len()
            invariant
                i <= items@.len(),
                forall|j: int| 0 <= j < i ==> items@[j]@ != k@,
            decreases items@.len() - i,
        {
            if crate::text::same_text(items[i].as_str(), k) {
                assert(items@.map_values(|l: String| l@)[i as int] == k@);
                return true;
            }
            i = i + 1;
        }
        proof {
            if items@.map_values(|l: String| l@).contains(k@) {
                let views = items@.map_values(|l: String| l@);
                let j = choose|j: int| 0 <= j < views.len() && #[trigger] views[j] == k@;
                assert(items@[j]@ == k@);
            }
        }
        false
    }

    /// The text of `existing` with the values of `vars` written in (see `updated_content`).
    pub fn update_content(existing: &str, vars: &EnvVars) -> (r: String)
        requires
            vars.wf(),
        ensures
            r@ == updated_content(existing@, vars@),
    {
        let ls = lines(existing);
        let ghost all = lines_of(existing@);
        let mut out: Vec<String> = Vec::new();
        let mut seen: Vec<String> = Vec::new();
        let mut i: usize = 0;
        while i < ls.len()
            invariant
                vars.wf(),
                i <= ls@.len(),
                ls@.map_values(|l: String| l@) == all,
                out@.map_values(|l: String| l@) == all.subrange(0, i as int).map_values(
                    |l: Seq<char>| updated_line(l, vars@),
                ),
                seen@.map_values(|l: String| l@) == all.subrange(0, i as int).filter_map(
                    |l: Seq<char>| line_key(l),
                ),
            decreases ls@.len() - i,
        {
            let ghost upto = all.subrange(0, i as int + 1);
            assert(upto.drop_last() =~= all.subrange(0, i as int));
            assert(upto.last() == ls@[i as int]@);
            let ghost out_before = out@.map_values(|l: String| l@);
            let ghost seen_before = seen@.map_values(|l: String| l@);
            let line = ls[i].as_str();
            match Self::line_key(line) {
                Some(k) => {
                    match vars.get(k.as_str()) {
                        Some(v) => out.push(Self::assignment(k.as_str(), v.as_str())),
                        None => out.push(String::from_str(line)),
                    }
                    seen.push(k);
                },
                None => out.push(String::from_str(line)),
            }
            assert(out@.map_values(|l: String| l@) =~= out_before.push(updated_line(upto.last(), vars@)));
            assert(all.subrange(0, i as int + 1).map_values(|l: Seq<char>| updated_line(l, vars@))
                =~= all.subrange(0, i as int).map_values(|l: Seq<char>| updated_line(l, vars@)).push(
                updated_line(upto.last(), vars@),
            ));
            assert(seen@.map_values(|l: String| l@) =~= upto.filter_map(|l: Seq<char>| line_key(l)));
            i = i + 1;
        }
        assert(all.subrange(0, ls@.len() as int) =~= all);
        let ghost keys = all.filter_map(|l: Seq<char>| line_key(l));
        let ghost kept = out@.map_values(|l: String| l@);
        let pairs = vars.pairs();
        let ghost pv = pairs_view(pairs@);
        let ghost pick = |p: (Seq<char>, Seq<char>)| !keys.contains(p.0);
        let ghost line_for = |p: (Seq<char>, Seq<char>)| assignment_line(p.0, p.1);
        let mut j: usize = 0;
        while j < pairs.len()
            invariant
                j <= pairs@.len(),
                pv == pairs_view(pairs@),
                pv == vars@,
                keys == all.filter_map(|l: Seq<char>| line_key(l)),
                kept == all.map_values(|l: Seq<char>| updated_line(l, vars@)),
                pick == (|p: (Seq<char>, Seq<char>)| !keys.contains(p.0)),
                line_for == (|p: (Seq<char>, Seq<char>)| assignment_line(p.0, p.1)),
                seen@.map_values(|l: String| l@) == keys,
                out@.map_values(|l: String| l@) == kept + pv.subrange(0, j as int).filter(pick).map_values(line_for),
            decreases pairs@.len() - j,
        {
            let ghost upto = pv.subrange(0, j as int + 1);
            assert(upto.drop_last() =~= pv.subrange(0, j as int));
            assert(upto.last() == pair_view(pairs@[j as int]));
            let ghost before = out@.map_values(|l: String| l@);
            let k = pairs[j].0.as_str();
            let v = pairs[j].1.as_str();
            assert(upto.last() == (k@, v@));
            assert(line_for(upto.last()) == assignment_line(k@, v@));
            assert(pick(upto.last()) == !keys.contains(k@));
            assert(upto.len() == j + 1);
            reveal(Seq::filter);
            assert(upto.filter(pick) == (if pick(upto.last()) {
                upto.drop_last().filter(pick).push(upto.last())
            } else {
                upto.drop_last().filter(pick)
            }));
            let ghost prior = pv.subrange(0, j as int).filter(pick);
            assert(prior.push(upto.last()).map_values(line_for) =~= prior.map_values(line_for).push(
                line_for(upto.last()),
            ));
            if !Self::contains_text(&seen, k) {
                out.push(Self::assignment(k, v));
                assert(out@.map_values(|l: String| l@) =~= before.push(line_for(upto.last())));
            } else {
                assert(out@.map_values(|l: String| l@) =~= before);
            }
            assert(out@.map_values(|l: String| l@) =~= kept + upto.filter(pick).map_values(line_for));
            j = j + 1;
        }
        assert(pv.subrange(0, pairs@.len() as int) =~= pv);
        Self::join(&out)
    }

    /// The text of a new file for `vars` (see `is_created_content`).
    pub fn create_content(vars: &EnvVars) -> (r: String)
        ensures
            is_created_content(r@, vars@),
    {
        let pairs = vars.pairs();
        let ghost line_for = |p: (Seq<char>, Seq<char>)| assignment_line(p.0, p.1);
        let mut out: Vec<String> = Vec::new();
        let mut i: usize = 0;
        while i < pairs.len()
            invariant
                i <= pairs@.len(),
                pairs_view(pairs@) == vars@,
                line_for == (|p: (Seq<char>, Seq<char>)| assignment_line(p.0, p.1)),
                texts_of(out@) == vars@.subrange(0, i as int).map_values(line_for),
            decreases pairs@.len() - i,
        {
            assert(vars@[i as int] == pair_view(pairs@[i as int]));
            let ghost prior = texts_of(out@);
            let line = Self::assignment(pairs[i].0.as_str(), pairs[i].1.as_str());
            assert(line@ == line_for(vars@[i as int]));
            out.push(line);
            assert(texts_of(out@) =~= prior.push(line@));
            assert(texts_of(out@) =~= vars@.subrange(0, i as int + 1).map_values(line_for));
            i = i + 1;
        }
        assert(vars@.subrange(0, pairs@.len() as int) =~= vars@);
        let sorted = sort_texts(out);
        let r = Self::join(&sorted);
        assert(texts_of(sorted@) == sorted@.map_values(|l: String| l@));
        r
    }
}

} // verus!
