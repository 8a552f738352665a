//! Text primitives shared by the codec and the stores: trimming, newline
//! stripping, line splitting and the `"value id"` index-line shape.

use vstd::prelude::*;

verus! {

/// The whitespace characters that trimming removes (the ASCII ones).
pub open spec fn is_space_char(c: char) -> bool {
    c == ' ' || c == '\t' || c == '\n' || c == '\r' || c == '\u{000B}' || c == '\u{000C}'
}

/// `s` without its leading whitespace.
pub open spec fn trim_front(s: Seq<char>) -> Seq<char>
    decreases s.len(),
{
    if s.len() == 0 {
        s
    } else if is_space_char(s.first()) {
        trim_front(s.drop_first())
    } else {
        s
    }
}

/// `s` without its trailing whitespace.
pub open spec fn trim_back(s: Seq<char>) -> Seq<char>
    decreases s.len(),
{
    if s.len() == 0 {
        s
    } else if is_space_char(s.last()) {
        trim_back(s.drop_last())
    } else {
        s
    }
}

/// `s` without leading and trailing whitespace.
pub open spec fn trim_spec(s: Seq<char>) -> Seq<char> {
    trim_back(trim_front(s))
}

/// `s` with every line feed and carriage return removed.
pub open spec fn strip_crlf(s: Seq<char>) -> Seq<char>
    decreases s.len(),
{
    if s.len() == 0 {
        s
    } else if s.last() == '\n' || s.last() == '\r' {
        strip_crlf(s.drop_last())
    } else {
        strip_crlf(s.drop_last()).push(s.last())
    }
}

/// Canonical form of a single-line field: trimmed, with internal line breaks
/// removed.
pub open spec fn canon_spec(s: Seq<char>) -> Seq<char> {
    strip_crlf(trim_spec(s))
}

pub fn trim(s: &str) -> (r: String)
    ensures
        r@ == trim_spec(s@),
{
    let n = s.unicode_len();
    let mut start: usize = 0;
    proof {
        assert(s@.skip(0) =~= s@);
    }
    while start < n && is_space_exec(s.get_char(start))
        invariant
            n == s@.len(),
            0 <= start <= n,
            trim_front(s@) == trim_front(s@.skip(start as int)),
        decreases n - start,
    {
        proof {
            assert(s@.skip(start as int).first() == s@[start as int]);
            assert(s@.skip(start as int).drop_first() =~= s@.skip(start as int + 1));
        }
        start = start + 1;
    }
    proof {
        if start < n {
            assert(s@.skip(start as int).first() == s@[start as int]);
            assert(!is_space_char(s@.skip(start as int).first()));
        }
        assert(trim_front(s@) == s@.skip(start as int));
        assert(s@.skip(start as int) =~= s@.subrange(start as int, n as int));
    }
    let mut end: usize = n;
    while end > start && is_space_exec(s.get_char(end - 1))
        invariant
            n == s@.len(),
            0 <= start <= end <= n,
            trim_front(s@) == s@.subrange(start as int, n as int),
            trim_back(s@.subrange(start as int, n as int)) == trim_back(
                s@.subrange(start as int, end as int),
            ),
        decreases end,
    {
        proof {
            let cur = s@.subrange(start as int, end as int);
            assert(cur.last() == s@[end - 1]);
            assert(cur.drop_last() =~= s@.subrange(start as int, end as int - 1));
        }
        end = end - 1;
    }
    proof {
        let cur = s@.subrange(start as int, end as int);
        if end > start {
            assert(cur.last() == s@[end - 1]);
            assert(!is_space_char(cur.last()));
        }
        assert(trim_back(cur) == cur);
    }
    let r = s.substring_char(start, end);
    string_of(r)
}

/// Whether `c` is one of the whitespace characters that trimming removes.
pub fn is_space_exec(c: char) -> (r: bool)
    ensures
        r == is_space_char(c),
{
    c == ' ' || c == '\t' || c == '\n' || c == '\r' || c == '\u{000B}' || c == '\u{000C}'
}

/// Whether two texts hold the same characters.
pub fn str_eq(a: &str, b: &str) -> (r: bool)
    ensures
        r == (a@ == b@),
{
    let n = a.unicode_len();
    if n != b.unicode_len() {
        return false;
    }
    let mut i: usize = 0;
    while i < n
        invariant
            n == a@.len(),
            n == b@.len(),
            0 <= i <= n,
            forall|j: int| 0 <= j < i ==> a@[j] == b@[j],
        decreases n - i,
    {
        if a.get_char(i) != b.get_char(i) {
            return false;
        }
        i = i + 1;
    }
    proof {
        assert(a@ =~= b@);
    }
    true
}

/// An owned copy of `s`.
pub fn string_of(s: &str) -> (r: String)
    ensures
        r@ == s@,
{
    String::from_str(s)
}

/// `s` with every line feed and carriage return removed.
pub fn strip_newlines(s: &str) -> (r: String)
    ensures
        r@ == strip_crlf(s@),
{
    let n = s.unicode_len();
    let mut out = String::new();
    let mut i: usize = 0;
    while i < n
        invariant
            n == s@.len(),
            0 <= i <= n,
            out@ == strip_crlf(s@.take(i as int)),
        decreases n - i,
    {
        let c = s.get_char(i);
        if !(c == '\n' || c == '\r') {
            let piece = s.substring_char(i, i + 1);
            out.append(piece);
        }
        proof {
            assert(s@.take(i as int + 1).drop_last() =~= s@.take(i as int));
            assert(s@.take(i as int + 1).last() == s@[i as int]);
            if !(s@[i as int] == '\n' || s@[i as int] == '\r') {
                assert(out@ =~= strip_crlf(s@.take(i as int)).push(s@[i as int]));
            }
        }
        i = i + 1;
    }
    proof {
        assert(s@.take(n as int) =~= s@);
    }
    out
}

/// Canonical form of a single-line field: trimmed, with internal line breaks
/// removed.
pub fn canonicalize(s: &str) -> (r: String)
    ensures
        r@ == canon_spec(s@),
{
    let t = trim(s);
    strip_newlines(t.as_str())
}

/// Index of the first occurrence of `c` in `s`, or `-1` when absent.
pub open spec fn find_char(s: Seq<char>, c: char) -> int
    decreases s.len(),
{
    if s.len() == 0 {
        -1
    } else if s.first() == c {
        0
    } else if find_char(s.drop_first(), c) < 0 {
        -1
    } else {
        1 + find_char(s.drop_first(), c)
    }
}

/// The first occurrence is an occurrence, is the least one, and `-1` means
/// there is none.
pub proof fn lemma_find_char_props(s: Seq<char>, c: char)
    ensures
        find_char(s, c) >= 0 ==> find_char(s, c) < s.len() && s[find_char(s, c)] == c && (forall|j:
            int|
            0 <= j < find_char(s, c) ==> s[j] != c),
        find_char(s, c) < 0 ==> (forall|j: int| 0 <= j < s.len() ==> s[j] != c),
    decreases s.len(),
{
    if s.len() > 0 && s.first() != c {
        let t = s.drop_first();
        lemma_find_char_props(t, c);
        assert(forall|j: int| 0 <= j < t.len() ==> t[j] == s[j + 1]);
        let r = find_char(t, c);
        if r >= 0 {
            assert(find_char(s, c) == 1 + r);
            assert(s[1 + r] == t[r]);
            assert(forall|j: int| 1 <= j < 1 + r ==> s[j] == t[j - 1] && t[j - 1] != c);
        } else {
            assert(find_char(s, c) == -1);
            assert(forall|j: int| 1 <= j < s.len() ==> s[j] == t[j - 1] && t[j - 1] != c);
        }
    }
}

/// A position that is an occurrence and has none before it is the first
/// occurrence.
pub proof fn lemma_find_char_at(s: Seq<char>, c: char, i: int)
    requires
        0 <= i < s.len(),
        s[i] == c,
        forall|j: int| 0 <= j < i ==> s[j] != c,
    ensures
        find_char(s, c) == i,
    decreases s.len(),
{
    if i > 0 {
        assert(forall|j: int|
            0 <= j < s.drop_first().len() ==> s.drop_first()[j] == s[j + 1]);
        lemma_find_char_at(s.drop_first(), c, i - 1);
    }
}

/// When `c` does not occur in `s`, `find_char` reports `-1`.
pub proof fn lemma_find_char_none(s: Seq<char>, c: char)
    requires
        forall|j: int| 0 <= j < s.len() ==> s[j] != c,
    ensures
        find_char(s, c) == -1,
    decreases s.len(),
{
    if s.len() > 0 {
        assert(forall|j: int|
            0 <= j < s.drop_first().len() ==> s.drop_first()[j] == s[j + 1]);
        lemma_find_char_none(s.drop_first(), c);
    }
}

/// A line with one trailing carriage return removed, as line splitting
/// produces it.
pub open spec fn chomp_cr(l: Seq<char>) -> Seq<char> {
    if l.len() > 0 && l.last() == '\r' {
        l.drop_last()
    } else {
        l
    }
}

/// The lines of `s`: segments split at line feeds, each with one carriage
/// return before the line feed removed; a final line ending is optional and an
/// empty text has no lines.
pub open spec fn lines_spec(s: Seq<char>) -> Seq<Seq<char>>
    decreases s.len(),
{
    if s.len() == 0 {
        Seq::empty()
    } else if find_char(s, '\n') < 0 || find_char(s, '\n') >= s.len() {
        seq![s]
    } else {
        seq![chomp_cr(s.take(find_char(s, '\n')))] + lines_spec(s.skip(find_char(s, '\n') + 1))
    }
}

/// The text after the first line feed, or empty when there is none.
pub open spec fn tail_after_line(s: Seq<char>) -> Seq<char> {
    if find_char(s, '\n') < 0 || find_char(s, '\n') >= s.len() {
        Seq::empty()
    } else {
        s.skip(find_char(s, '\n') + 1)
    }
}

/// The text after the first line feed, or empty when there is none.
pub fn skip_past_line<'a>(s: &'a str) -> (r: &'a str)
    ensures
        r@ == tail_after_line(s@),
{
    match find_char_exec(s, '\n') {
        None => {
            proof {
                reveal_strlit("");
                assert(""@ =~= Seq::<char>::empty());
            }
            ""
        },
        Some(i) => {
            proof {
                lemma_find_char_props(s@, '\n');
            }
            let n = s.unicode_len();
            let r = s.substring_char(i + 1, n);
            proof {
                assert(s@.subrange(i as int + 1, n as int) =~= s@.skip(i as int + 1));
            }
            r
        },
    }
}

/// After a clean text and its line feed, the tail is the rest.
pub proof fn lemma_tail_after_prefix(a: Seq<char>, rest: Seq<char>)
    requires
        forall|i: int| 0 <= i < a.len() ==> a[i] != '\n',
    ensures
        tail_after_line(a + seq!['\n'] + rest) == rest,
{
    let s = a + seq!['\n'] + rest;
    assert(forall|i: int| 0 <= i < a.len() ==> s[i] == a[i]);
    assert(s[a.len() as int] == '\n');
    lemma_find_char_at(s, '\n', a.len() as int);
    assert(s.skip(a.len() as int + 1) =~= rest);
}

/// The `i`-th member of a sequence of lines, or the empty line when there is
/// none.
pub open spec fn line_or_empty(ls: Seq<Seq<char>>, i: int) -> Seq<char> {
    if 0 <= i < ls.len() {
        ls[i]
    } else {
        Seq::empty()
    }
}

/// A well-formed index line holds a space between the value and the id.
pub open spec fn wf_line(l: Seq<char>) -> bool {
    find_char(l, ' ') >= 0
}

/// The value of an index line: what stands before its first space.
pub open spec fn line_value(l: Seq<char>) -> Seq<char> {
    l.take(find_char(l, ' '))
}

/// The id of an index line: what stands after its first space.
pub open spec fn line_id(l: Seq<char>) -> Seq<char> {
    l.skip(find_char(l, ' ') + 1)
}

/// A line appended to a line-oriented text: the text itself when it is empty,
/// else the text, a line feed, and the line.
pub open spec fn append_line_spec(idx: Seq<char>, line: Seq<char>) -> Seq<char> {
    if idx.len() == 0 {
        line
    } else {
        idx + seq!['\n'] + line
    }
}

/// Appends one line to a line-oriented text.
pub fn append_line(idx: &str, line: &str) -> (r: String)
    ensures
        r@ == append_line_spec(idx@, line@),
{
    if idx.is_empty() {
        proof {
            assert(idx@.len() == 0);
        }
        string_of(line)
    } else {
        let mut out = string_of(idx);
        out.append("\n");
        out.append(line);
        proof {
            reveal_strlit("\n");
            assert("\n"@ =~= seq!['\n']);
            assert(out@ =~= idx@ + seq!['\n'] + line@);
        }
        out
    }
}

/// Index of the first occurrence of `c` in `s`, or none.
pub fn find_char_exec(s: &str, c: char) -> (r: Option<usize>)
    ensures
        match r {
            Some(i) => find_char(s@, c) == i as int,
            None => find_char(s@, c) < 0,
        },
{
    let n = s.unicode_len();
    let mut i: usize = 0;
    while i < n
        invariant
            n == s@.len(),
            0 <= i <= n,
            forall|j: int| 0 <= j < i ==> s@[j] != c,
        decreases n - i,
    {
        if s.get_char(i) == c {
            proof {
                lemma_find_char_at(s@, c, i as int);
            }
            return Some(i);
        }
        i = i + 1;
    }
    proof {
        lemma_find_char_none(s@, c);
    }
    None
}

/// Splits an index line at its first space into the value and the id; a line
/// without a space is malformed and yields nothing.
pub fn split_index_line(l: &str) -> (r: Option<(String, String)>)
    ensures
        match r {
            Some(p) => wf_line(l@) && p.0@ == line_value(l@) && p.1@ == line_id(l@),
            None => !wf_line(l@),
        },
{
    match find_char_exec(l, ' ') {
        None => None,
        Some(i) => {
            proof {
                lemma_find_char_props(l@, ' ');
            }
            let n = l.unicode_len();
            let value = l.substring_char(0, i);
            let id = l.substring_char(i + 1, n);
            proof {
                assert(l@.subrange(0, i as int) =~= l@.take(i as int));
                assert(l@.subrange(i as int + 1, n as int) =~= l@.skip(i as int + 1));
            }
            Some((string_of(value), string_of(id)))
        },
    }
}

/// Splits a text into its lines.
pub fn split_lines(s: &str) -> (r: Vec<String>)
    ensures
        r@.len() == lines_spec(s@).len(),
        forall|i: int| 0 <= i < r@.len() ==> r@[i]@ == lines_spec(s@)[i],
{
    let n = s.unicode_len();
    let mut out: Vec<String> = Vec::new();
    let mut pos: usize = 0;
    proof {
        assert(s@.skip(0) =~= s@);
    }
    while pos < n
        invariant
            n == s@.len(),
            0 <= pos <= n,
            lines_spec(s@) =~= out@.map_values(|x: String| x@) + lines_spec(
                s@.skip(pos as int),
            ),
        decreases n - pos,
    {
        let ghost rest = s@.skip(pos as int);
        let mut j: usize = pos;
        while j < n && s.get_char(j) != '\n'
            invariant
                n == s@.len(),
                pos <= j <= n,
                forall|k: int| pos <= k < j ==> s@[k] != '\n',
            decreases n - j,
        {
            j = j + 1;
        }
        proof {
            assert(forall|k: int|
                0 <= k < j - pos ==> rest[k] == s@[pos + k] && s@[pos + k] != '\n');
            if j < n {
                assert(rest[j - pos] == s@[j as int]);
                lemma_find_char_at(rest, '\n', j - pos);
            } else {
                lemma_find_char_none(rest, '\n');
            }
        }
        if j < n {
            // a full line ending at the line feed
            let line = if j > pos && s.get_char(j - 1) == '\r' {
                s.substring_char(pos, j - 1)
            } else {
                s.substring_char(pos, j)
            };
            proof {
                let cut = rest.take(j - pos);
                assert(cut =~= s@.subrange(pos as int, j as int));
                if j > pos && s@[j - 1] == '\r' {
                    assert(cut.last() == s@[j - 1]);
                    assert(cut.drop_last() =~= s@.subrange(pos as int, j as int - 1));
                    assert(chomp_cr(cut) == s@.subrange(pos as int, j as int - 1));
                } else {
                    assert(chomp_cr(cut) == cut);
                }
            }
            out.push(string_of(line));
            proof {
                assert(rest.skip(j - pos + 1) =~= s@.skip(j as int + 1));
                assert(lines_spec(rest) =~= seq![chomp_cr(rest.take(j - pos))] + lines_spec(
                    s@.skip(j as int + 1),
                ));
                assert(out@.map_values(|x: String| x@) =~= out@.drop_last().map_values(
                    |x: String| x@,
                ).push(out@.last()@));
            }
            pos = j + 1;
        } else {
            // the final line, with no line ending
            let line = s.substring_char(pos, n);
            proof {
                assert(s@.subrange(pos as int, n as int) =~= rest);
                assert(lines_spec(rest) =~= seq![rest]);
            }
            out.push(string_of(line));
            proof {
                assert(out@.map_values(|x: String| x@) =~= out@.drop_last().map_values(
                    |x: String| x@,
                ).push(out@.last()@));
                assert(s@.skip(n as int) =~= Seq::<char>::empty());
            }
            pos = n;
        }
    }
    proof {
        assert(s@.skip(n as int) =~= Seq::<char>::empty());
        assert(lines_spec(s@) =~= out@.map_values(|x: String| x@));
        assert(forall|i: int|
            0 <= i < out@.len() ==> out@.map_values(|x: String| x@)[i] == out@[i]@);
    }
    out
}

/// Stripping leaves no line break behind.
pub proof fn lemma_strip_crlf_no_crlf(s: Seq<char>)
    ensures
        forall|i: int|
            0 <= i < strip_crlf(s).len() ==> strip_crlf(s)[i] != '\n' && strip_crlf(s)[i] != '\r',
    decreases s.len(),
{
    if s.len() > 0 {
        lemma_strip_crlf_no_crlf(s.drop_last());
        if !(s.last() == '\n' || s.last() == '\r') {
            let t = strip_crlf(s.drop_last());
            assert(forall|i: int| 0 <= i < t.len() ==> t.push(s.last())[i] == t[i]);
            assert(t.push(s.last())[t.len() as int] == s.last());
        }
    }
}

/// Stripping changes nothing in a text without line breaks.
pub proof fn lemma_strip_crlf_identity(s: Seq<char>)
    requires
        forall|i: int| 0 <= i < s.len() ==> s[i] != '\n' && s[i] != '\r',
    ensures
        strip_crlf(s) == s,
    decreases s.len(),
{
    if s.len() > 0 {
        assert(forall|i: int| 0 <= i < s.drop_last().len() ==> s.drop_last()[i] == s[i]);
        lemma_strip_crlf_identity(s.drop_last());
        assert(strip_crlf(s) =~= s);
    }
}

/// Stripping keeps a first character that is no line break.
pub proof fn lemma_strip_crlf_first(s: Seq<char>)
    requires
        s.len() > 0,
        s.first() != '\n',
        s.first() != '\r',
    ensures
        strip_crlf(s).len() > 0,
        strip_crlf(s).first() == s.first(),
    decreases s.len(),
{
    if s.len() > 1 {
        assert(s.drop_last().first() == s.first());
        lemma_strip_crlf_first(s.drop_last());
        if !(s.last() == '\n' || s.last() == '\r') {
            let t = strip_crlf(s.drop_last());
            assert(t.push(s.last())[0] == t[0]);
        }
    } else {
        let e = strip_crlf(s.drop_last());
        assert(e.len() == 0);
        assert(e.push(s.last())[0] == s.last());
        assert(s.last() == s.first());
    }
}

/// Trimming changes nothing in a text with clean ends.
pub proof fn lemma_trim_identity(s: Seq<char>)
    requires
        s.len() > 0 ==> !is_space_char(s.first()) && !is_space_char(s.last()),
    ensures
        trim_spec(s) == s,
{
}

/// What trimming leaves has clean ends, and an unchanged first character when
/// anything is left.
pub proof fn lemma_trim_front_props(s: Seq<char>)
    ensures
        trim_front(s).len() > 0 ==> !is_space_char(trim_front(s).first()),
    decreases s.len(),
{
    if s.len() > 0 && is_space_char(s.first()) {
        lemma_trim_front_props(s.drop_first());
    }
}

/// What back-trimming leaves has a clean last character, and keeps the first.
pub proof fn lemma_trim_back_props(s: Seq<char>)
    ensures
        trim_back(s).len() > 0 ==> !is_space_char(trim_back(s).last()),
        trim_back(s).len() > 0 ==> trim_back(s).first() == s.first(),
    decreases s.len(),
{
    if s.len() > 0 && is_space_char(s.last()) {
        assert(s.drop_last().len() > 0 ==> s.drop_last().first() == s.first());
        lemma_trim_back_props(s.drop_last());
    }
}

/// What trimming leaves has clean ends.
pub proof fn lemma_trim_props(s: Seq<char>)
    ensures
        trim_spec(s).len() > 0 ==> !is_space_char(trim_spec(s).first()) && !is_space_char(
            trim_spec(s).last(),
        ),
{
    lemma_trim_front_props(s);
    lemma_trim_back_props(trim_front(s));
}

/// The canonical form has clean ends and no line breaks, so canonicalizing
/// twice changes nothing more.
pub proof fn lemma_canon_idempotent(s: Seq<char>)
    ensures
        canon_spec(canon_spec(s)) == canon_spec(s),
        trim_spec(canon_spec(s)) == canon_spec(s),
{
    let t = trim_spec(s);
    let c = canon_spec(s);
    lemma_trim_props(s);
    lemma_strip_crlf_no_crlf(t);
    if c.len() > 0 {
        assert(t.len() > 0) by {
            if t.len() == 0 {
                assert(c =~= Seq::<char>::empty());
            }
        }
        lemma_strip_crlf_first(t);
        assert(c.first() == t.first());
        assert(c.last() == t.last()) by {
            assert(!(t.last() == '\n' || t.last() == '\r'));
            assert(c == strip_crlf(t.drop_last()).push(t.last()));
        }
        lemma_trim_identity(c);
        lemma_strip_crlf_identity(c);
    } else {
        assert(trim_spec(c) =~= Seq::<char>::empty());
        assert(strip_crlf(trim_spec(c)) =~= Seq::<char>::empty());
        assert(c =~= Seq::<char>::empty());
    }
}

/// Trimming twice changes nothing more.
pub proof fn lemma_trim_idempotent(s: Seq<char>)
    ensures
        trim_spec(trim_spec(s)) == trim_spec(s),
{
    lemma_trim_props(s);
    lemma_trim_identity(trim_spec(s));
}

/// A text of clean characters — no whitespace at the ends, no line break
/// anywhere — is its own canonical form.
pub proof fn lemma_canon_identity(s: Seq<char>)
    requires
        s.len() > 0 ==> !is_space_char(s.first()) && !is_space_char(s.last()),
        forall|i: int| 0 <= i < s.len() ==> s[i] != '\n' && s[i] != '\r',
    ensures
        canon_spec(s) == s,
{
    lemma_trim_identity(s);
    lemma_strip_crlf_identity(s);
}

/// The decimal digit character for `d < 10`.
pub open spec fn digit_char(d: int) -> char {
    if d == 0 {
        '0'
    } else if d == 1 {
        '1'
    } else if d == 2 {
        '2'
    } else if d == 3 {
        '3'
    } else if d == 4 {
        '4'
    } else if d == 5 {
        '5'
    } else if d == 6 {
        '6'
    } else if d == 7 {
        '7'
    } else if d == 8 {
        '8'
    } else {
        '9'
    }
}

/// The decimal notation of `n`, without sign or leading zeros.
pub open spec fn dec_str(n: int) -> Seq<char>
    decreases n,
{
    if n < 10 {
        seq![digit_char(n)]
    } else {
        dec_str(n / 10).push(digit_char(n % 10))
    }
}

/// The decimal notation of `n`.
pub fn usize_to_string(n: usize) -> (r: String)
    ensures
        r@ == dec_str(n as int),
    decreases n,
{
    if n < 10 {
        let d = digit_str(n as u8);
        string_of(d)
    } else {
        let mut r = usize_to_string(n / 10);
        let d = digit_str((n % 10) as u8);
        r.append(d);
        proof {
            assert(r@ =~= dec_str(n as int / 10).push(digit_char(n as int % 10)));
        }
        r
    }
}

/// The one-character text for a decimal digit.
pub fn digit_str(d: u8) -> (r: &'static str)
    requires
        d < 10,
    ensures
        r@ =~= seq![digit_char(d as int)],
{
    proof {
        reveal_strlit("0");
        reveal_strlit("1");
        reveal_strlit("2");
        reveal_strlit("3");
        reveal_strlit("4");
        reveal_strlit("5");
        reveal_strlit("6");
        reveal_strlit("7");
        reveal_strlit("8");
        reveal_strlit("9");
    }
    if d == 0 {
        "0"
    } else if d == 1 {
        "1"
    } else if d == 2 {
        "2"
    } else if d == 3 {
        "3"
    } else if d == 4 {
        "4"
    } else if d == 5 {
        "5"
    } else if d == 6 {
        "6"
    } else if d == 7 {
        "7"
    } else if d == 8 {
        "8"
    } else {
        "9"
    }
}

/// Whether `c` is a decimal digit.
pub open spec fn is_digit(c: char) -> bool {
    '0' <= c && c <= '9'
}

/// The numeric value of a digit character.
pub open spec fn digit_value(c: char) -> int {
    c as int - '0' as int
}

/// The number that a sequence of digit characters denotes.
pub open spec fn digits_value(s: Seq<char>) -> int
    decreases s.len(),
{
    if s.len() == 0 {
        0
    } else {
        digits_value(s.drop_last()) * 10 + digit_value(s.last())
    }
}

/// Whether `s` is a plain decimal numeral: nonempty and all digits.
pub open spec fn is_numeral(s: Seq<char>) -> bool {
    s.len() > 0 && forall|i: int| 0 <= i < s.len() ==> is_digit(s[i])
}

/// Reads a number from a plain decimal numeral; anything else, and any value
/// that does not fit the result type, yields nothing.
pub fn parse_usize(s: &str) -> (r: Option<usize>)
    ensures
        match r {
            Some(v) => is_numeral(s@) && digits_value(s@) == v as int,
            None => !is_numeral(s@) || digits_value(s@) > usize::MAX,
        },
{
    let n = s.unicode_len();
    if n == 0 {
        return None;
    }
    let mut acc: usize = 0;
    let mut i: usize = 0;
    while i < n
        invariant
            n == s@.len(),
            0 <= i <= n,
            forall|j: int| 0 <= j < i ==> is_digit(s@[j]),
            acc as int == digits_value(s@.take(i as int)),
        decreases n - i,
    {
        let c = s.get_char(i);
        if !(c >= '0' && c <= '9') {
            return None;
        }
        let d = (c as u32 - '0' as u32) as usize;
        if acc > (usize::MAX - d) / 10 {
            proof {
                let t = s@.take(i as int + 1);
                assert(t.drop_last() =~= s@.take(i as int));
                assert(t.last() == s@[i as int]);
                assert(digits_value(t) == acc as int * 10 + d);
                assert(acc as int * 10 + d > usize::MAX) by (nonlinear_arith)
                    requires
                        acc > (usize::MAX - d) / 10,
                        0 <= d < 10,
                        acc <= usize::MAX,
                ;
                if is_numeral(s@) {
                    lemma_digits_prefix_le(s@, i as int + 1);
                }
            }
            return None;
        }
        acc = acc * 10 + d;
        proof {
            assert(s@.take(i as int + 1).drop_last() =~= s@.take(i as int));
            assert(s@.take(i as int + 1).last() == s@[i as int]);
        }
        i = i + 1;
    }
    proof {
        assert(s@.take(n as int) =~= s@);
    }
    Some(acc)
}

/// A numeral's value does not shrink when digits follow.
proof fn lemma_digits_value_grows(s: Seq<char>)
    requires
        s.len() > 0,
        forall|i: int| 0 <= i < s.len() ==> is_digit(s[i]),
    ensures
        digits_value(s) >= 0,
        digits_value(s) >= digits_value(s.drop_last()),
    decreases s.len(),
{
    assert(0 <= digit_value(s.last()) <= 9);
    if s.len() > 1 {
        lemma_digits_value_grows(s.drop_last());
    }
}

/// The value of a digit prefix is at most the value of the whole numeral.
proof fn lemma_digits_prefix_le(s: Seq<char>, i: int)
    requires
        0 <= i <= s.len(),
        forall|j: int| 0 <= j < s.len() ==> is_digit(s[j]),
    ensures
        digits_value(s.take(i)) <= digits_value(s),
    decreases s.len() - i,
{
    if i < s.len() {
        lemma_digits_prefix_le(s, i + 1);
        let t = s.take(i + 1);
        assert(t.drop_last() =~= s.take(i));
        assert(t.last() == s[i]);
        if i + 1 <= s.len() {
            assert(forall|j: int| 0 <= j < t.len() ==> is_digit(t[j]));
            lemma_digits_value_grows(t);
        }
    } else {
        assert(s.take(i) =~= s);
    }
}

} // verus!
