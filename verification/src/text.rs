//! Character-level helpers shared by the rest of the crate: whitespace,
//! indentation, trimming, splitting into lines and joining.
use vstd::prelude::*;

verus! {

/// Whether `c` is a Unicode `White_Space` character, the set that
/// `char::is_whitespace` tests for.
pub open spec fn is_white_space(c: char) -> bool {
    ||| c == ' '
    ||| ('\u{9}' <= c && c <= '\u{d}')
    ||| c == '\u{85}'
    ||| c == '\u{a0}'
    ||| c == '\u{1680}'
    ||| ('\u{2000}' <= c && c <= '\u{200a}')
    ||| c == '\u{2028}'
    ||| c == '\u{2029}'
    ||| c == '\u{202f}'
    ||| c == '\u{205f}'
    ||| c == '\u{3000}'
}

/// Executable test for [`is_white_space`].
pub fn char_is_white_space(c: char) -> (b: bool)
    ensures
        b == is_white_space(c),
{
    c == ' ' || ('\u{9}' <= c && c <= '\u{d}') || c == '\u{85}' || c == '\u{a0}' || c == '\u{1680}'
        || ('\u{2000}' <= c && c <= '\u{200a}') || c == '\u{2028}' || c == '\u{2029}'
        || c == '\u{202f}' || c == '\u{205f}' || c == '\u{3000}'
}

/// Appends one character to a string (`String::push`).
#[verifier::external_body]
pub(crate) fn push_char(s: &mut String, c: char)
    ensures
        final(s)@ == old(s)@.push(c),
{
    s.push(c);
}

/// The characters of a string, in order.
pub fn chars_of(s: &str) -> (v: Vec<char>)
    ensures
        v@ == s@,
{
    let mut v: Vec<char> = Vec::new();
    for c in it: s.chars()
        invariant
            v@ == it.seq().take(it.index() as int),
    {
        v.push(c);
    }
    v
}

/// Appends `v[from..to]` to `out`.
pub fn append_range(out: &mut String, v: &Vec<char>, from: usize, to: usize)
    requires
        from <= to <= v@.len(),
    ensures
        final(out)@ == old(out)@ + v@.subrange(from as int, to as int),
{
    let mut i = from;
    while i < to
        invariant
            from <= i <= to <= v@.len(),
            out@ == old(out)@ + v@.subrange(from as int, i as int),
        decreases to - i,
    {
        push_char(out, v[i]);
        i = i + 1;
        assert(v@.subrange(from as int, i as int) == v@.subrange(from as int, (i - 1) as int).push(
            v@[i - 1],
        ));
    }
}

/// Appends all of `v` to `out`.
pub fn append_all(out: &mut String, v: &Vec<char>)
    ensures
        final(out)@ == old(out)@ + v@,
{
    append_range(out, v, 0, v.len());
    assert(v@.subrange(0, v@.len() as int) == v@);
}

/// The string made of `v[from..to]`.
pub fn string_of_range(v: &Vec<char>, from: usize, to: usize) -> (s: String)
    requires
        from <= to <= v@.len(),
    ensures
        s@ == v@.subrange(from as int, to as int),
{
    let mut s = String::new();
    append_range(&mut s, v, from, to);
    s
}

/// The string made of all of `v`.
pub fn string_of(v: &Vec<char>) -> (s: String)
    ensures
        s@ == v@,
{
    let mut s = String::new();
    append_all(&mut s, v);
    s
}

/// Number of whitespace characters at the start of `s`.
pub open spec fn leading_white_len(s: Seq<char>) -> nat
    decreases s.len(),
{
    if s.len() > 0 && is_white_space(s[0]) {
        1 + leading_white_len(s.drop_first())
    } else {
        0
    }
}

/// Number of whitespace characters at the end of `s`.
pub open spec fn trailing_white_len(s: Seq<char>) -> nat
    decreases s.len(),
{
    if s.len() > 0 && is_white_space(s.last()) {
        1 + trailing_white_len(s.drop_last())
    } else {
        0
    }
}

/// The indentation of a line: its longest prefix made of whitespace.
pub open spec fn indent_of(s: Seq<char>) -> Seq<char> {
    s.take(leading_white_len(s) as int)
}

/// `s` without leading and trailing whitespace (`str::trim`).
pub open spec fn trimmed(s: Seq<char>) -> Seq<char> {
    let a = leading_white_len(s);
    if a == s.len() {
        Seq::empty()
    } else {
        s.subrange(a as int, s.len() - trailing_white_len(s))
    }
}

/// `leading_white_len` counts exactly the whitespace prefix.
pub proof fn lemma_leading_white(s: Seq<char>)
    ensures
        leading_white_len(s) <= s.len(),
        forall|i: int| 0 <= i < leading_white_len(s) ==> is_white_space(#[trigger] s[i]),
        leading_white_len(s) < s.len() ==> !is_white_space(s[leading_white_len(s) as int]),
    decreases s.len(),
{
    if s.len() > 0 && is_white_space(s[0]) {
        lemma_leading_white(s.drop_first());
        assert forall|i: int| 0 <= i < leading_white_len(s) implies is_white_space(
            #[trigger] s[i],
        ) by {
            if i > 0 {
                assert(s[i] == s.drop_first()[i - 1]);
            }
        }
    }
}

/// `trailing_white_len` counts exactly the whitespace suffix.
pub proof fn lemma_trailing_white(s: Seq<char>)
    ensures
        trailing_white_len(s) <= s.len(),
        forall|i: int|
            s.len() - trailing_white_len(s) <= i < s.len() ==> is_white_space(#[trigger] s[i]),
        trailing_white_len(s) < s.len() ==> !is_white_space(
            s[s.len() - trailing_white_len(s) - 1],
        ),
    decreases s.len(),
{
    if s.len() > 0 && is_white_space(s.last()) {
        lemma_trailing_white(s.drop_last());
        assert forall|i: int|
            s.len() - trailing_white_len(s) <= i < s.len() implies is_white_space(
            #[trigger] s[i],
        ) by {
            if i < s.len() - 1 {
                assert(s[i] == s.drop_last()[i]);
            }
        }
    }
}

/// Length of the whitespace prefix of `v[from..]`, searching forward.
fn leading_white_from(v: &Vec<char>, from: usize) -> (k: usize)
    requires
        from <= v@.len(),
    ensures
        k == from + leading_white_len(v@.skip(from as int)),
        k <= v@.len(),
{
    let mut k = from;
    while k < v.len() && char_is_white_space(v[k])
        invariant
            from <= k <= v@.len(),
            leading_white_len(v@.skip(from as int)) == (k - from) + leading_white_len(
                v@.skip(k as int),
            ),
        decreases v@.len() - k,
    {
        assert(v@.skip(k as int).drop_first() == v@.skip(k + 1));
        k = k + 1;
    }
    k
}

/// The indentation of `line`: its leading whitespace.
pub fn get_indent(line: &str) -> (res: String)
    ensures
        res@ == indent_of(line@),
{
    let v = chars_of(line);
    let k = leading_white_from(&v, 0);
    assert(v@.skip(0) == v@);
    string_of_range(&v, 0, k)
}

/// Bounds `(a, b)` of `trimmed(v[from..to])` within `v`.
pub fn trim_bounds(v: &Vec<char>, from: usize, to: usize) -> (r: (usize, usize))
    requires
        from <= to <= v@.len(),
    ensures
        from <= r.0 <= r.1 <= to,
        v@.subrange(r.0 as int, r.1 as int) == trimmed(v@.subrange(from as int, to as int)),
{
    let ghost s = v@.subrange(from as int, to as int);
    let mut a = from;
    while a < to && char_is_white_space(v[a])
        invariant
            from <= a <= to <= v@.len(),
            s == v@.subrange(from as int, to as int),
            leading_white_len(s) == (a - from) + leading_white_len(v@.subrange(a as int, to as int)),
        decreases to - a,
    {
        assert(v@.subrange(a as int, to as int).drop_first() == v@.subrange(a + 1, to as int));
        a = a + 1;
    }
    if a == to {
        assert(leading_white_len(s) == s.len());
        return (a, a);
    }
    assert(leading_white_len(v@.subrange(a as int, to as int)) == 0);
    let mut b = to;
    while b > a && char_is_white_space(v[b - 1])
        invariant
            from <= a < to <= v@.len(),
            a < b <= to,
            s == v@.subrange(from as int, to as int),
            !is_white_space(v@[a as int]),
            trailing_white_len(s) == (to - b) + trailing_white_len(v@.subrange(from as int, b as int)),
        decreases b - a,
    {
        assert(v@.subrange(from as int, b as int).drop_last() == v@.subrange(from as int, b - 1));
        b = b - 1;
    }
    assert(b > a);
    assert(trailing_white_len(v@.subrange(from as int, b as int)) == 0);
    assert(s.subrange((a - from) as int, s.len() - trailing_white_len(s)) == v@.subrange(
        a as int,
        b as int,
    ));
    (a, b)
}

/// The index of the first `'\n'` in `s` at or after `i`, or `s.len()`.
pub open spec fn newline_from(s: Seq<char>, i: int) -> int
    decreases s.len() - i,
{
    if i >= s.len() {
        s.len() as int
    } else if s[i] == '\n' {
        i
    } else {
        newline_from(s, i + 1)
    }
}

/// A line without its terminating carriage return.
pub open spec fn strip_cr(t: Seq<char>) -> Seq<char> {
    if t.len() > 0 && t.last() == '\r' {
        t.drop_last()
    } else {
        t
    }
}

/// The lines of `s`, as `str::lines` yields them: split at `'\n'`, a
/// `'\r'` just before a `'\n'` dropped, no empty line after a final `'\n'`.
pub open spec fn lines_of(s: Seq<char>) -> Seq<Seq<char>>
    decreases s.len(),
{
    if s.len() == 0 {
        Seq::empty()
    } else {
        let k = newline_from(s, 0);
        if k >= s.len() {
            seq![s]
        } else {
            proof {
                lemma_newline_from_bounds(s, 0);
            }
            seq![strip_cr(s.take(k))] + lines_of(s.skip(k + 1))
        }
    }
}

/// `newline_from` stays within bounds and skips only other characters.
pub proof fn lemma_newline_from_bounds(s: Seq<char>, i: int)
    requires
        0 <= i,
    ensures
        i <= s.len() ==> i <= newline_from(s, i) <= s.len(),
        newline_from(s, i) < s.len() ==> s[newline_from(s, i)] == '\n',
        forall|j: int| i <= j < newline_from(s, i) ==> s[j] != '\n',
    decreases s.len() - i,
{
    if i < s.len() && s[i] != '\n' {
        lemma_newline_from_bounds(s, i + 1);
    }
}

/// Searching in a suffix gives the same answer, shifted.
pub proof fn lemma_newline_from_skip(s: Seq<char>, p: int, i: int)
    requires
        0 <= p <= s.len(),
        0 <= i,
    ensures
        newline_from(s.skip(p), i) == newline_from(s, p + i) - p,
    decreases s.len() - p - i,
{
    if p + i < s.len() && s[p + i] != '\n' {
        lemma_newline_from_skip(s, p, i + 1);
    }
}

/// Index of the first `'\n'` in `v` at or after `from`, or `v.len()`.
pub fn find_newline(v: &Vec<char>, from: usize) -> (k: usize)
    requires
        from <= v@.len(),
    ensures
        k == newline_from(v@, from as int),
        from <= k <= v@.len(),
{
    let mut k = from;
    while k < v.len() && v[k] != '\n'
        invariant
            from <= k <= v@.len(),
            newline_from(v@, from as int) == newline_from(v@, k as int),
        decreases v@.len() - k,
    {
        k = k + 1;
    }
    k
}

/// One step of `lines_of` on a suffix of `s` that starts at `p`.
pub proof fn lemma_lines_step(s: Seq<char>, p: int)
    requires
        0 <= p < s.len(),
    ensures
        ({
            let k = newline_from(s, p);
            &&& p <= k <= s.len()
            &&& k == s.len() ==> lines_of(s.skip(p)) == seq![s.skip(p)]
            &&& k < s.len() ==> lines_of(s.skip(p)) == seq![strip_cr(s.subrange(p, k))]
                + lines_of(s.skip(k + 1))
        }),
{
    lemma_newline_from_bounds(s, p);
    lemma_newline_from_skip(s, p, 0);
    let k = newline_from(s, p);
    let t = s.skip(p);
    assert(newline_from(t, 0) == k - p);
    if k < s.len() {
        assert(t.take(k - p) == s.subrange(p, k));
        assert(t.skip(k - p + 1) == s.skip(k + 1));
    }
}

/// Bounds `(start, end)` in `v` of each line of `v`, as [`lines_of`] gives them.
pub fn line_bounds(v: &Vec<char>) -> (r: Vec<(usize, usize)>)
    ensures
        r@.len() == lines_of(v@).len(),
        forall|i: int|
            0 <= i < r@.len() ==> {
                &&& (#[trigger] r@[i]).0 <= r@[i].1 <= v@.len()
                &&& v@.subrange(r@[i].0 as int, r@[i].1 as int) == lines_of(v@)[i]
            },
{
    let mut r: Vec<(usize, usize)> = Vec::new();
    let mut p: usize = 0;
    let ghost mut done: Seq<Seq<char>> = Seq::empty();
    assert(v@.skip(0) == v@);
    while p < v.len()
        invariant
            p <= v@.len(),
            lines_of(v@) == done + lines_of(v@.skip(p as int)),
            r@.len() == done.len(),
            forall|i: int|
                0 <= i < r@.len() ==> {
                    &&& (#[trigger] r@[i]).0 <= r@[i].1 <= v@.len()
                    &&& v@.subrange(r@[i].0 as int, r@[i].1 as int) == done[i]
                },
        decreases v@.len() - p,
    {
        proof {
            lemma_lines_step(v@, p as int);
        }
        let k = find_newline(v, p);
        if k == v.len() {
            r.push((p, k));
            proof {
                assert(v@.subrange(p as int, k as int) == v@.skip(p as int));
                done = done.push(v@.skip(p as int));
                assert(v@.skip(k as int) == Seq::<char>::empty());
                assert(lines_of(v@.skip(k as int)) == Seq::<Seq<char>>::empty());
                assert(lines_of(v@) == done + lines_of(v@.skip(k as int)));
            }
            p = k;
        } else {
            let e = if k > p && v[k - 1] == '\r' {
                k - 1
            } else {
                k
            };
            r.push((p, e));
            proof {
                let line = v@.subrange(p as int, k as int);
                assert(strip_cr(line) == v@.subrange(p as int, e as int));
                done = done.push(strip_cr(line));
                assert(lines_of(v@) == done + lines_of(v@.skip(k + 1)));
            }
            p = k + 1;
        }
    }
    assert(v@.skip(p as int) == Seq::<char>::empty());
    assert(lines_of(v@.skip(p as int)) == Seq::<Seq<char>>::empty());
    assert(done + Seq::<Seq<char>>::empty() == done);
    r
}

/// Lines joined with `sep` between consecutive ones (`join`).
pub open spec fn join_with(lines: Seq<Seq<char>>, sep: Seq<char>) -> Seq<char>
    decreases lines.len(),
{
    if lines.len() == 0 {
        Seq::empty()
    } else if lines.len() == 1 {
        lines[0]
    } else {
        join_with(lines.drop_last(), sep) + sep + lines.last()
    }
}

/// The views of a vector of character vectors.
pub open spec fn views_of(v: Seq<Vec<char>>) -> Seq<Seq<char>> {
    Seq::new(v.len(), |i: int| v[i]@)
}

/// Joins the lines in `v` with `sep` between consecutive ones.
pub fn join_lines(v: &Vec<Vec<char>>, sep: char) -> (s: String)
    ensures
        s@ == join_with(views_of(v@), seq![sep]),
{
    let ghost w = views_of(v@);
    let mut s = String::new();
    let mut i: usize = 0;
    while i < v.len()
        invariant
            i <= v@.len(),
            w == views_of(v@),
            s@ == join_with(w.take(i as int), seq![sep]),
        decreases v@.len() - i,
    {
        if i > 0 {
            push_char(&mut s, sep);
        }
        append_all(&mut s, &v[i]);
        proof {
            let t = w.take(i + 1);
            assert(t.drop_last() == w.take(i as int));
            assert(t.last() == v@[i as int]@);
            if i == 0 {
                assert(t.len() == 1);
            }
        }
        i = i + 1;
    }
    assert(w.take(v@.len() as int) == w);
    s
}

/// Whether two character vectors are equal.
pub fn chars_equal(a: &Vec<char>, b: &Vec<char>) -> (r: bool)
    ensures
        r == (a@ == b@),
{
    if a.len() != b.len() {
        return false;
    }
    let mut i: usize = 0;
    while i < a.len()
        invariant
            a@.len() == b@.len(),
            i <= a@.len(),
            forall|j: int| 0 <= j < i ==> a@[j] == b@[j],
        decreases a@.len() - i,
    {
        if a[i] != b[i] {
            return false;
        }
        i = i + 1;
    }
    assert(a@ =~= b@);
    true
}

/// Whether two strings hold the same characters.
pub fn strs_equal(a: &str, b: &str) -> (r: bool)
    ensures
        r == (a@ == b@),
{
    chars_equal(&chars_of(a), &chars_of(b))
}

/// Whether the string `a` holds exactly the characters of `b`.
pub fn str_eq(a: &String, b: &str) -> (r: bool)
    ensures
        r == (a@ == b@),
{
    let t = b.to_string();
    proof {
        assert(t@ == b@);
    }
    *a == t
}

/// Zero-based line of character offset `pos` in `s`: the number of
/// `'\n'` before it.
pub open spec fn line_of_offset(s: Seq<char>, pos: int) -> nat
    decreases pos,
{
    if pos <= 0 || s.len() == 0 {
        0
    } else if pos - 1 < s.len() && s[pos - 1] == '\n' {
        1 + line_of_offset(s, pos - 1)
    } else {
        line_of_offset(s, pos - 1)
    }
}

/// Offset at which the line holding `pos` starts: just past the last
/// `'\n'` before `pos`, or 0.
pub open spec fn line_start_of_offset(s: Seq<char>, pos: int) -> int
    decreases pos,
{
    if pos <= 0 {
        0
    } else if pos - 1 < s.len() && s[pos - 1] == '\n' {
        pos
    } else {
        line_start_of_offset(s, pos - 1)
    }
}

/// Zero-based `(line, column)` of character offset `pos` in `v`.
pub fn offset_to_line_column(v: &Vec<char>, pos: usize) -> (r: (usize, usize))
    requires
        pos <= v@.len(),
    ensures
        r.0 == line_of_offset(v@, pos as int),
        r.1 == pos - line_start_of_offset(v@, pos as int),
{
    let mut line: usize = 0;
    let mut start: usize = 0;
    let mut i: usize = 0;
    proof {
        lemma_line_start_bounds(v@, 0);
    }
    while i < pos
        invariant
            i <= pos <= v@.len(),
            line == line_of_offset(v@, i as int),
            line <= i,
            start == line_start_of_offset(v@, i as int),
        decreases pos - i,
    {
        if v[i] == '\n' {
            line = line + 1;
            start = i + 1;
        }
        i = i + 1;
    }
    proof {
        lemma_line_start_bounds(v@, pos as int);
    }
    (line, pos - start)
}

/// The start of the line holding `pos` is not after `pos`.
pub proof fn lemma_line_start_bounds(s: Seq<char>, pos: int)
    ensures
        pos >= 0 ==> 0 <= line_start_of_offset(s, pos) <= pos,
    decreases pos,
{
    if pos > 0 {
        lemma_line_start_bounds(s, pos - 1);
    }
}

} // verus!

verus! {

/// How a line of a unified diff is shown.
#[derive(Clone, Copy, Debug, PartialEq, Eq, Structural)]
pub enum DiffLineStyle {
    /// A removed line (`-`): red
    Removed,
    /// An added line (`+`): green
    Added,
    /// A location line (`@`): cyan
    Location,
    /// Anything else: unstyled
    Plain,
}

/// The style of a line of a unified diff, by its first character.
pub open spec fn diff_style_of(line: Seq<char>) -> DiffLineStyle {
    if line.len() > 0 && line[0] == '-' {
        DiffLineStyle::Removed
    } else if line.len() > 0 && line[0] == '+' {
        DiffLineStyle::Added
    } else if line.len() > 0 && line[0] == '@' {
        DiffLineStyle::Location
    } else {
        DiffLineStyle::Plain
    }
}

/// The lines of a unified diff (as `str::lines` splits them), each with the
/// style it is shown in.
pub fn diff_line_styles(diff: &str) -> (r: Vec<(String, DiffLineStyle)>)
    ensures
        r@.len() == lines_of(diff@).len(),
        forall|i: int|
            0 <= i < r@.len() ==> (#[trigger] r@[i]).0@ == lines_of(diff@)[i] && r@[i].1 == diff_style_of(
                lines_of(diff@)[i],
            ),
{
    let v = chars_of(diff);
    let b = line_bounds(&v);
    let mut r: Vec<(String, DiffLineStyle)> = Vec::new();
    let mut i: usize = 0;
    while i < b.len()
        invariant
            i <= b@.len(),
            v@ == diff@,
            b@.len() == lines_of(v@).len(),
            forall|j: int|
                0 <= j < b@.len() ==> {
                    &&& (#[trigger] b@[j]).0 <= b@[j].1 <= v@.len()
                    &&& v@.subrange(b@[j].0 as int, b@[j].1 as int) == lines_of(v@)[j]
                },
            r@.len() == i,
            forall|j: int|
                0 <= j < i ==> (#[trigger] r@[j]).0@ == lines_of(diff@)[j] && r@[j].1 == diff_style_of(
                    lines_of(diff@)[j],
                ),
        decreases b@.len() - i,
    {
        let (s, e) = b[i];
        let line = string_of_range(&v, s, e);
        let style = if e > s && v[s] == '-' {
            DiffLineStyle::Removed
        } else if e > s && v[s] == '+' {
            DiffLineStyle::Added
        } else if e > s && v[s] == '@' {
            DiffLineStyle::Location
        } else {
            DiffLineStyle::Plain
        };
        assert(line@ == lines_of(diff@)[i as int]);
        r.push((line, style));
        i = i + 1;
    }
    r
}

} // verus!
