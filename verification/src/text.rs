//! Text as the diagrams and the renderer's diagnostics hold it: characters, lines, white space.

use vstd::prelude::*;

verus! {

/// `String::push` appends one character to the end of the string and changes nothing else.
pub assume_specification[ String::push ](s: &mut String, c: char)
    ensures
        final(s)@ == old(s)@.push(c),
;

/// The characters of a string, in order.
pub fn chars_of(s: &str) -> (r: Vec<char>)
    ensures
        r@ == s@,
{
    let mut r: Vec<char> = Vec::new();
    for c in it: s.chars()
        invariant
            r@ == it.seq().take(it.index() as int),
            it.seq() == s@,
    {
        r.push(c);
    }
    r
}

/// The string with the given characters.
pub fn string_of(chars: &Vec<char>) -> (r: String)
    ensures
        r@ == chars@,
{
    let mut r: String = String::new();
    let mut i: usize = 0;
    while i < chars.len()
        invariant
            i <= chars.len(),
            r@ == chars@.take(i as int),
        decreases chars.len() - i,
    {
        r.push(chars[i]);
        i = i + 1;
    }
    r
}

/// Whether two strings hold the same characters.
pub fn same_text(a: &str, b: &str) -> (r: bool)
    ensures
        r == (a@ == b@),
{
    let x = chars_of(a);
    let y = chars_of(b);
    same_chars(&x, &y)
}

/// Whether two rows of characters are equal.
pub fn same_chars(a: &Vec<char>, b: &Vec<char>) -> (r: bool)
    ensures
        r == (a@ == b@),
{
    if a.len() != b.len() {
        return false;
    }
    let mut i: usize = 0;
    while i < a.len()
        invariant
            i <= a.len(),
            a.len() == b.len(),
            forall|j: int| 0 <= j < i ==> a[j] == b[j],
        decreases a.len() - i,
    {
        if a[i] != b[i] {
            return false;
        }
        i = i + 1;
    }
    assert(a@ =~= b@);
    true
}

/// Whether `chars` begins with the characters of `prefix`.
pub fn starts_with(chars: &Vec<char>, prefix: &str) -> (r: bool)
    ensures
        r == prefix@.is_prefix_of(chars@),
{
    let p = chars_of(prefix);
    if p.len() > chars.len() {
        return false;
    }
    let mut i: usize = 0;
    while i < p.len()
        invariant
            i <= p.len() <= chars.len(),
            p@ == prefix@,
            forall|j: int| 0 <= j < i ==> p[j] == chars[j],
        decreases p.len() - i,
    {
        if p[i] != chars[i] {
            assert(chars@.subrange(0, p@.len() as int)[i as int] != p@[i as int]);
            return false;
        }
        i = i + 1;
    }
    assert(p@ =~= chars@.subrange(0, p@.len() as int));
    true
}

/// Whether `chars` ends with the characters of `suffix`.
pub fn ends_with(chars: &Vec<char>, suffix: &str) -> (r: bool)
    ensures
        r == suffix@.is_suffix_of(chars@),
{
    let p = chars_of(suffix);
    if p.len() > chars.len() {
        return false;
    }
    let start: usize = chars.len() - p.len();
    let mut i: usize = 0;
    while i < p.len()
        invariant
            i <= p.len() <= chars.len(),
            start == chars.len() - p.len(),
            p@ == suffix@,
            forall|j: int| 0 <= j < i ==> p[j] == chars[start + j],
        decreases p.len() - i,
    {
        if p[i] != chars[start + i] {
            assert(chars@.subrange(start as int, chars@.len() as int)[i as int] != p@[i as int]);
            return false;
        }
        i = i + 1;
    }
    assert(p@ =~= chars@.subrange(start as int, chars@.len() as int));
    true
}

// ---------------------------------------------------------------------------------------------
// White space
// ---------------------------------------------------------------------------------------------

/// The characters with Unicode's `White_Space` property.
pub open spec fn white(c: char) -> bool {
    ||| '\u{9}' <= c <= '\u{d}'
    ||| c == ' '
    ||| c == '\u{85}'
    ||| c == '\u{a0}'
    ||| c == '\u{1680}'
    ||| '\u{2000}' <= c <= '\u{200a}'
    ||| c == '\u{2028}'
    ||| c == '\u{2029}'
    ||| c == '\u{202f}'
    ||| c == '\u{205f}'
    ||| c == '\u{3000}'
}

/// Whether `c` is white space.
pub fn is_white(c: char) -> (r: bool)
    ensures
        r == white(c),
{
    ('\u{9}' <= c && c <= '\u{d}') || c == ' ' || c == '\u{85}' || c == '\u{a0}' || c == '\u{1680}'
        || ('\u{2000}' <= c && c <= '\u{200a}') || c == '\u{2028}' || c == '\u{2029}' || c
        == '\u{202f}' || c == '\u{205f}' || c == '\u{3000}'
}

/// `s` without the white space it begins with.
pub open spec fn trimmed_start(s: Seq<char>) -> Seq<char>
    decreases s.len(),
{
    if s.len() > 0 && white(s.first()) {
        trimmed_start(s.drop_first())
    } else {
        s
    }
}

/// `s` without the white space it ends with.
pub open spec fn trimmed_end(s: Seq<char>) -> Seq<char>
    decreases s.len(),
{
    if s.len() > 0 && white(s.last()) {
        trimmed_end(s.drop_last())
    } else {
        s
    }
}

/// `s` without the white space at its two ends.
pub open spec fn trimmed(s: Seq<char>) -> Seq<char> {
    trimmed_end(trimmed_start(s))
}

/// Whether `s` holds nothing but white space.
pub open spec fn blank(s: Seq<char>) -> bool {
    forall|i: int| 0 <= i < s.len() ==> white(#[trigger] s[i])
}

proof fn lemma_trimmed_start_is(s: Seq<char>, n: int)
    requires
        0 <= n <= s.len(),
        forall|i: int| 0 <= i < n ==> white(#[trigger] s[i]),
        n < s.len() ==> !white(s[n]),
    ensures
        trimmed_start(s) == s.skip(n),
    decreases n,
{
    if n == 0 {
        assert(s.skip(0) =~= s);
    } else {
        assert(white(s[0]));
        lemma_trimmed_start_is(s.drop_first(), n - 1);
        assert(s.drop_first().skip(n - 1) =~= s.skip(n));
    }
}

proof fn lemma_trimmed_end_is(s: Seq<char>, n: int)
    requires
        0 <= n <= s.len(),
        forall|i: int| n <= i < s.len() ==> white(#[trigger] s[i]),
        n > 0 ==> !white(s[n - 1]),
    ensures
        trimmed_end(s) == s.take(n),
    decreases s.len() - n,
{
    if n == s.len() {
        assert(s.take(n) =~= s);
    } else {
        assert(white(s[s.len() - 1]));
        lemma_trimmed_end_is(s.drop_last(), n);
        assert(s.drop_last().take(n) =~= s.take(n));
    }
}

/// `chars` without the white space at its two ends.
pub fn trim(chars: &Vec<char>) -> (r: Vec<char>)
    ensures
        r@ == trimmed(chars@),
{
    let mut a: usize = 0;
    while a < chars.len() && is_white(chars[a])
        invariant
            a <= chars.len(),
            forall|i: int| 0 <= i < a ==> white(#[trigger] chars@[i]),
        decreases chars.len() - a,
    {
        a = a + 1;
    }
    proof {
        lemma_trimmed_start_is(chars@, a as int);
    }
    let mut b: usize = chars.len();
    while b > a && is_white(chars[b - 1])
        invariant
            a <= b <= chars.len(),
            forall|i: int| b <= i < chars.len() ==> white(#[trigger] chars@[i]),
        decreases b,
    {
        b = b - 1;
    }
    let ghost rest = chars@.skip(a as int);
    proof {
        assert forall|i: int| b - a <= i < rest.len() implies white(#[trigger] rest[i]) by {
            assert(rest[i] == chars@[a + i]);
        }
        lemma_trimmed_end_is(rest, b - a);
        assert(rest.take(b - a) =~= chars@.subrange(a as int, b as int));
    }
    copy_range(chars, a, b)
}

/// The characters of `chars` from `a` up to but not including `b`.
fn copy_range(chars: &Vec<char>, a: usize, b: usize) -> (r: Vec<char>)
    requires
        a <= b <= chars.len(),
    ensures
        r@ == chars@.subrange(a as int, b as int),
{
    let mut r: Vec<char> = Vec::new();
    let mut i: usize = a;
    while i < b
        invariant
            a <= i <= b <= chars.len(),
            r@ == chars@.subrange(a as int, i as int),
        decreases b - i,
    {
        r.push(chars[i]);
        i = i + 1;
        assert(chars@.subrange(a as int, i as int) =~= chars@.subrange(a as int, i - 1).push(
            chars@[i - 1],
        ));
    }
    r
}

/// Whether `chars` holds nothing but white space.
pub fn is_blank(chars: &Vec<char>) -> (r: bool)
    ensures
        r == blank(chars@),
{
    let mut i: usize = 0;
    while i < chars.len()
        invariant
            i <= chars.len(),
            forall|j: int| 0 <= j < i ==> white(#[trigger] chars@[j]),
        decreases chars.len() - i,
    {
        if !is_white(chars[i]) {
            assert(!white(chars@[i as int]));
            return false;
        }
        i = i + 1;
    }
    true
}

/// Trimming leaves nothing exactly where there is nothing but white space.
pub proof fn trimmed_is_empty_iff_blank(s: Seq<char>)
    ensures
        trimmed(s).len() == 0 <==> blank(s),
{
    let n = lead(s);
    lemma_lead(s);
    lemma_trimmed_start_is(s, n);
    let t = s.skip(n);
    if n < s.len() {
        assert(t[0] == s[n]);
        lemma_trimmed_end_keeps_first(t);
    }
}

/// The number of characters of white space that `s` begins with.
spec fn lead(s: Seq<char>) -> int
    decreases s.len(),
{
    if s.len() > 0 && white(s.first()) {
        1 + lead(s.drop_first())
    } else {
        0
    }
}

proof fn lemma_lead(s: Seq<char>)
    ensures
        0 <= lead(s) <= s.len(),
        forall|i: int| 0 <= i < lead(s) ==> white(#[trigger] s[i]),
        lead(s) < s.len() ==> !white(s[lead(s)]),
    decreases s.len(),
{
    if s.len() > 0 && white(s.first()) {
        let t = s.drop_first();
        lemma_lead(t);
        assert forall|i: int| 0 <= i < lead(s) implies white(#[trigger] s[i]) by {
            if i > 0 {
                assert(t[i - 1] == s[i]);
            }
        }
    }
}

/// A row that begins with no white space keeps its first character when its end is trimmed.
proof fn lemma_trimmed_end_keeps_first(s: Seq<char>)
    requires
        s.len() > 0,
        !white(s[0]),
    ensures
        trimmed_end(s).len() > 0,
        trimmed_end(s)[0] == s[0],
    decreases s.len(),
{
    if white(s.last()) {
        lemma_trimmed_end_keeps_first(s.drop_last());
    }
}

/// What trimming leaves is a stretch of the row that neither begins nor ends with white space.
pub proof fn trimmed_is_tight(s: Seq<char>)
    ensures
        exists|a: int, b: int|
            0 <= a <= b <= s.len() && trimmed(s) == #[trigger] s.subrange(a, b),
        trimmed(s).len() > 0 ==> !white(trimmed(s).first()) && !white(trimmed(s).last()),
{
    let n = lead(s);
    lemma_lead(s);
    lemma_trimmed_start_is(s, n);
    let t = s.skip(n);
    lemma_trimmed_end_tight(t);
    let b = trimmed(s).len() as int;
    assert(trimmed(s) =~= s.subrange(n, n + b));
    if n < s.len() {
        assert(t[0] == s[n]);
        lemma_trimmed_end_keeps_first(t);
    }
}

proof fn lemma_trimmed_end_tight(s: Seq<char>)
    ensures
        trimmed_end(s).len() <= s.len(),
        trimmed_end(s) == s.take(trimmed_end(s).len() as int),
        trimmed_end(s).len() > 0 ==> !white(trimmed_end(s).last()),
    decreases s.len(),
{
    if s.len() > 0 && white(s.last()) {
        lemma_trimmed_end_tight(s.drop_last());
        let n = trimmed_end(s).len() as int;
        assert(s.drop_last().take(n) =~= s.take(n));
    } else {
        assert(s.take(s.len() as int) =~= s);
    }
}

// ---------------------------------------------------------------------------------------------
// Lines
// ---------------------------------------------------------------------------------------------

/// The number of characters before the first line feed of `s`, or all of them where it has none.
pub open spec fn line_len(s: Seq<char>) -> int
    decreases s.len(),
{
    if s.len() == 0 || s.first() == '\n' {
        0
    } else {
        1 + line_len(s.drop_first())
    }
}

/// `s` without the one carriage return it may end with.
pub open spec fn without_cr(s: Seq<char>) -> Seq<char> {
    if s.len() > 0 && s.last() == '\r' {
        s.drop_last()
    } else {
        s
    }
}

/// The lines of `s`. A line ends at a line feed or at a carriage return with a line feed behind
/// it, and neither is part of the line. The last line need not have an ending.
pub open spec fn lines(s: Seq<char>) -> Seq<Seq<char>>
    decreases s.len(),
{
    let n = line_len(s);
    if s.len() == 0 {
        Seq::empty()
    } else if n < 0 || n >= s.len() {
        seq![s]
    } else {
        seq![without_cr(s.take(n))] + lines(s.skip(n + 1))
    }
}

/// The rows with a line feed between each two.
pub open spec fn joined(rows: Seq<Seq<char>>) -> Seq<char>
    decreases rows.len(),
{
    if rows.len() == 0 {
        Seq::empty()
    } else if rows.len() == 1 {
        rows[0]
    } else {
        joined(rows.drop_last()).push('\n') + rows.last()
    }
}

/// Rows of characters as sequences.
pub open spec fn rows(v: Seq<Vec<char>>) -> Seq<Seq<char>> {
    v.map_values(|r: Vec<char>| r@)
}

proof fn lemma_line_len_is(s: Seq<char>, n: int)
    requires
        0 <= n <= s.len(),
        forall|i: int| 0 <= i < n ==> s[i] != '\n',
        n < s.len() ==> s[n] == '\n',
    ensures
        line_len(s) == n,
    decreases n,
{
    if n > 0 {
        assert(s[0] != '\n');
        lemma_line_len_is(s.drop_first(), n - 1);
    }
}

proof fn lemma_line_len(s: Seq<char>)
    ensures
        0 <= line_len(s) <= s.len(),
        forall|i: int| 0 <= i < line_len(s) ==> s[i] != '\n',
        line_len(s) < s.len() ==> s[line_len(s)] == '\n',
    decreases s.len(),
{
    if s.len() > 0 && s.first() != '\n' {
        let t = s.drop_first();
        lemma_line_len(t);
        assert forall|i: int| 0 <= i < line_len(s) implies s[i] != '\n' by {
            if i > 0 {
                assert(t[i - 1] == s[i]);
            }
        }
    }
}

/// The lines of a row of characters.
pub fn split_lines(chars: &Vec<char>) -> (r: Vec<Vec<char>>)
    ensures
        rows(r@) == lines(chars@),
{
    let mut r: Vec<Vec<char>> = Vec::new();
    let mut pos: usize = 0;
    assert(chars@.skip(0) =~= chars@);
    assert(rows(r@) + lines(chars@) =~= lines(chars@));
    while pos < chars.len()
        invariant
            pos <= chars.len(),
            rows(r@) + lines(chars@.skip(pos as int)) == lines(chars@),
        decreases chars.len() - pos,
    {
        let ghost rest = chars@.skip(pos as int);
        let ghost before = r@;
        let mut end: usize = pos;
        while end < chars.len() && chars[end] != '\n'
            invariant
                pos <= end <= chars.len(),
                forall|i: int| pos <= i < end ==> chars@[i] != '\n',
            decreases chars.len() - end,
        {
            end = end + 1;
        }
        proof {
            let n = end - pos;
            assert forall|i: int| 0 <= i < n implies rest[i] != '\n' by {
                assert(rest[i] == chars@[pos + i]);
            }
            lemma_line_len_is(rest, n);
        }
        if end == chars.len() {
            let row = copy_range(chars, pos, end);
            r.push(row);
            proof {
                assert(row@ =~= rest);
                assert(lines(rest) =~= seq![rest]);
                assert(rows(r@) =~= rows(before).push(row@));
                assert(chars@.skip(end as int) =~= Seq::<char>::empty());
                assert(lines(chars@.skip(end as int)) =~= Seq::<Seq<char>>::empty());
                assert(rows(r@) + lines(chars@.skip(end as int)) =~= rows(before) + lines(rest));
            }
            pos = end;
        } else {
            let stop: usize = if end > pos && chars[end - 1] == '\r' {
                end - 1
            } else {
                end
            };
            let row = copy_range(chars, pos, stop);
            r.push(row);
            proof {
                let line = rest.take(end - pos);
                assert(line =~= chars@.subrange(pos as int, end as int));
                if end > pos {
                    assert(line.last() == chars@[end - 1]);
                }
                assert(row@ =~= without_cr(line));
                assert(rest.skip(end - pos + 1) =~= chars@.skip(end + 1));
                assert(rows(r@) =~= rows(before).push(row@));
                assert(rows(r@) + lines(chars@.skip(end + 1)) =~= rows(before) + lines(rest));
            }
            pos = end + 1;
        }
    }
    proof {
        assert(chars@.skip(pos as int) =~= Seq::<char>::empty());
        assert(rows(r@) + lines(chars@.skip(pos as int)) =~= rows(r@));
    }
    r
}

/// The rows with a line feed between each two, as one string.
pub fn join_lines(v: &Vec<Vec<char>>) -> (r: String)
    ensures
        r@ == joined(rows(v@)),
{
    let mut r: String = String::new();
    let mut i: usize = 0;
    while i < v.len()
        invariant
            i <= v.len(),
            r@ == joined(rows(v@).take(i as int)),
        decreases v.len() - i,
    {
        let ghost done = rows(v@).take(i as int);
        if i > 0 {
            r.push('\n');
        }
        let ghost start = r@;
        let row = &v[i];
        let mut k: usize = 0;
        while k < row.len()
            invariant
                k <= row.len(),
                r@ == start + row@.take(k as int),
            decreases row.len() - k,
        {
            r.push(row[k]);
            k = k + 1;
        }
        i = i + 1;
        proof {
            let now = rows(v@).take(i as int);
            assert(row@.take(k as int) =~= row@);
            assert(now.drop_last() =~= done);
            assert(now.last() == row@);
            if i == 1 {
                assert(done =~= Seq::<Seq<char>>::empty());
                assert(r@ =~= row@);
                assert(now[0] == row@);
            }
        }
    }
    assert(rows(v@).take(i as int) =~= rows(v@));
    r
}

/// No line holds a line feed.
pub proof fn lines_hold_no_line_feed(s: Seq<char>, i: int)
    requires
        0 <= i < lines(s).len(),
    ensures
        !lines(s)[i].contains('\n'),
    decreases s.len(),
{
    lemma_line_len(s);
    let n = line_len(s);
    if n < s.len() {
        let first = without_cr(s.take(n));
        if i == 0 {
            assert forall|k: int| 0 <= k < first.len() implies first[k] != '\n' by {
                assert(first[k] == s[k]);
            }
        } else {
            lines_hold_no_line_feed(s.skip(n + 1), i - 1);
        }
    }
}

proof fn lemma_joined_first(rows: Seq<Seq<char>>)
    requires
        rows.len() >= 2,
    ensures
        joined(rows) == rows[0].push('\n') + joined(rows.drop_first()),
    decreases rows.len(),
{
    let tail = rows.drop_first();
    if rows.len() == 2 {
        assert(rows.drop_last() =~= seq![rows[0]]);
        assert(joined(rows.drop_last()) == rows[0]);
        assert(tail =~= seq![rows[1]]);
        assert(joined(tail) == rows[1]);
    } else {
        lemma_joined_first(rows.drop_last());
        assert(rows.drop_last().drop_first() =~= tail.drop_last());
        assert(tail.last() == rows.last());
        assert(joined(rows) =~= rows[0].push('\n') + joined(tail));
    }
}

proof fn lemma_lines_one(s: Seq<char>)
    requires
        s.len() > 0,
        !s.contains('\n'),
    ensures
        lines(s) == seq![s],
{
    assert forall|i: int| 0 <= i < s.len() implies s[i] != '\n' by {
        assert(s.contains(s[i]));
    }
    lemma_line_len_is(s, s.len() as int);
}

proof fn lemma_lines_first(first: Seq<char>, rest: Seq<char>)
    requires
        !first.contains('\n'),
    ensures
        lines(first.push('\n') + rest) == seq![without_cr(first)] + lines(rest),
{
    let s = first.push('\n') + rest;
    let n = first.len() as int;
    assert forall|i: int| 0 <= i < n implies s[i] != '\n' by {
        assert(first.contains(first[i]));
    }
    lemma_line_len_is(s, n);
    assert(s.take(n) =~= first);
    assert(s.skip(n + 1) =~= rest);
}

/// A row that a text can hold as one of its lines.
pub open spec fn fits_a_line(row: Seq<char>) -> bool {
    !row.contains('\n') && (row.len() > 0 ==> row.last() != '\r')
}

/// Joined rows split into the same rows again: where no row holds a line feed or ends with a
/// carriage return, and the last row is not empty.
pub proof fn lines_of_joined(rows: Seq<Seq<char>>)
    requires
        forall|i: int| 0 <= i < rows.len() ==> fits_a_line(#[trigger] rows[i]),
        rows.len() > 0 ==> rows.last().len() > 0,
    ensures
        lines(joined(rows)) == rows,
    decreases rows.len(),
{
    if rows.len() == 0 {
        assert(lines(joined(rows)) =~= rows);
    } else if rows.len() == 1 {
        assert(fits_a_line(rows[0]));
        lemma_lines_one(rows[0]);
        assert(rows =~= seq![rows[0]]);
    } else {
        lemma_joined_first(rows);
        let tail = rows.drop_first();
        assert forall|i: int| 0 <= i < tail.len() implies fits_a_line(#[trigger] tail[i]) by {
            assert(tail[i] == rows[i + 1]);
        }
        lines_of_joined(tail);
        assert(fits_a_line(rows[0]));
        lemma_lines_first(rows[0], joined(tail));
        assert(rows =~= seq![rows[0]] + tail);
    }
}

/// The lines of joined rows are rows again, each but for a carriage return at its end.
pub proof fn lines_of_joined_are_rows(rows: Seq<Seq<char>>, i: int)
    requires
        forall|k: int| 0 <= k < rows.len() ==> !(#[trigger] rows[k]).contains('\n'),
        0 <= i < lines(joined(rows)).len(),
    ensures
        i < rows.len(),
        lines(joined(rows))[i] == rows[i] || lines(joined(rows))[i] == without_cr(rows[i]),
    decreases rows.len(),
{
    if rows.len() == 1 {
        assert(!rows[0].contains('\n'));
        if rows[0].len() > 0 {
            lemma_lines_one(rows[0]);
        }
    } else if rows.len() > 1 {
        lemma_joined_first(rows);
        let tail = rows.drop_first();
        assert(!rows[0].contains('\n'));
        lemma_lines_first(rows[0], joined(tail));
        if i > 0 {
            assert forall|k: int| 0 <= k < tail.len() implies !(#[trigger] tail[k]).contains(
                '\n',
            ) by {
                assert(tail[k] == rows[k + 1]);
            }
            lines_of_joined_are_rows(tail, i - 1);
        }
    }
}

/// A carriage return at the end of a row is trimmed with the rest of its white space.
pub proof fn trimmed_without_cr(s: Seq<char>)
    ensures
        trimmed(without_cr(s)) == trimmed(s),
{
    if s.len() > 0 && s.last() == '\r' {
        let t = s.drop_last();
        let n = lead(s);
        lemma_lead(s);
        lemma_trimmed_start_is(s, n);
        if n == s.len() {
            lemma_trimmed_start_is(t, t.len() as int);
        } else {
            assert(n < t.len());
            lemma_trimmed_start_is(t, n);
            assert(s.skip(n).drop_last() =~= t.skip(n));
        }
    }
}

/// A text without a carriage return before a line feed, and without a line feed at its end, is
/// its own lines joined.
pub proof fn joined_lines(s: Seq<char>)
    requires
        forall|i: int| 0 <= i && i + 1 < s.len() ==> !(#[trigger] s[i] == '\r' && s[i + 1] == '\n'),
        s.len() > 0 ==> s.last() != '\n',
    ensures
        joined(lines(s)) == s,
    decreases s.len(),
{
    lemma_line_len(s);
    let n = line_len(s);
    if s.len() == 0 {
    } else if n == s.len() {
        assert(lines(s) =~= seq![s]);
    } else {
        let rest = s.skip(n + 1);
        assert(rest.len() > 0);
        assert forall|i: int| 0 <= i && i + 1 < rest.len() implies !(#[trigger] rest[i] == '\r'
            && rest[i + 1] == '\n') by {
            assert(rest[i] == s[n + 1 + i]);
            assert(rest[i + 1] == s[n + 1 + i + 1]);
        }
        joined_lines(rest);
        let first = s.take(n);
        if n > 0 {
            assert(first.last() == s[n - 1]);
        }
        assert(without_cr(first) == first);
        let all = lines(s);
        assert(all =~= seq![first] + lines(rest));
        assert(all.drop_first() =~= lines(rest));
        if lines(rest).len() == 0 {
            assert(joined(lines(rest)).len() == 0);
        }
        lemma_joined_first(all);
        assert(joined(all) =~= s);
    }
}

// ---------------------------------------------------------------------------------------------
// What lines, joining and trimming come to
// ---------------------------------------------------------------------------------------------

/// Rows of characters are taken as they are, each whole and in its place.
pub proof fn rows_are_taken_whole(v: Seq<Vec<char>>, i: int)
    requires
        0 <= i < v.len(),
    ensures
        rows(v).len() == v.len(),
        rows(v)[i] == v[i]@,
{
}

/// A text without a line feed is one line, whatever else it holds, unless it is empty.
pub proof fn text_without_line_feed_is_one_line(s: Seq<char>)
    requires
        forall|i: int| 0 <= i < s.len() ==> s[i] != '\n',
    ensures
        s.len() > 0 ==> lines(s) == seq![s],
        s.len() == 0 ==> lines(s).len() == 0,
{
    if s.len() > 0 {
        lemma_lines_one(s);
    }
}

/// A line feed ends a line, and what comes behind it is split in the same way. Only one carriage
/// return right before the line feed goes with it.
pub proof fn line_feed_ends_a_line(first: Seq<char>, rest: Seq<char>)
    requires
        forall|i: int| 0 <= i < first.len() ==> first[i] != '\n',
    ensures
        lines(first + seq!['\n'] + rest) == seq![
            if first.len() > 0 && first.last() == '\r' {
                first.drop_last()
            } else {
                first
            },
        ] + lines(rest),
{
    lemma_lines_first(first, rest);
    assert(first.push('\n') + rest =~= first + seq!['\n'] + rest);
}

/// Joining puts one line feed between each two rows, and nothing else.
pub proof fn joining_adds_line_feeds_only(rows: Seq<Seq<char>>, last: Seq<char>)
    ensures
        joined(Seq::empty()).len() == 0,
        joined(seq![last]) == last,
        rows.len() > 0 ==> joined(rows.push(last)) == joined(rows) + seq!['\n'] + last,
{
    if rows.len() > 0 {
        assert(rows.push(last).drop_last() =~= rows);
        assert(joined(rows).push('\n') + last =~= joined(rows) + seq!['\n'] + last);
    }
}

/// Trimming takes off all white space at the two ends, and nothing else.
pub proof fn trimming_takes_white_space_off_the_ends(s: Seq<char>) -> (range: (int, int))
    ensures
        0 <= range.0 <= range.1 <= s.len(),
        trimmed(s) == s.subrange(range.0, range.1),
        forall|i: int| 0 <= i < range.0 ==> white(#[trigger] s[i]),
        forall|i: int| range.1 <= i < s.len() ==> white(#[trigger] s[i]),
        range.0 < range.1 ==> !white(s[range.0]) && !white(s[range.1 - 1]),
{
    let n = lead(s);
    lemma_lead(s);
    lemma_trimmed_start_is(s, n);
    let t = s.skip(n);
    lemma_trimmed_end_tight(t);
    lemma_trimmed_end_cuts_white(t);
    let m = n + trimmed(s).len();
    assert(trimmed(s) =~= s.subrange(n, m));
    assert forall|i: int| m <= i < s.len() implies white(#[trigger] s[i]) by {
        assert(t[i - n] == s[i]);
    }
    if n < s.len() {
        assert(t[0] == s[n]);
        lemma_trimmed_end_keeps_first(t);
        assert(trimmed(s).last() == s[m - 1]);
    }
    (n, m)
}

proof fn lemma_trimmed_end_cuts_white(s: Seq<char>)
    ensures
        forall|i: int| trimmed_end(s).len() <= i < s.len() ==> white(#[trigger] s[i]),
    decreases s.len(),
{
    if s.len() > 0 && white(s.last()) {
        let t = s.drop_last();
        lemma_trimmed_end_cuts_white(t);
        assert forall|i: int| trimmed_end(s).len() <= i < s.len() implies white(
            #[trigger] s[i],
        ) by {
            if i < t.len() {
                assert(t[i] == s[i]);
            }
        }
    }
}

/// A text is blank unless it holds a character that is no white space.
pub proof fn one_other_character_makes_a_text_not_blank(s: Seq<char>)
    ensures
        !blank(s) <==> exists|i: int| 0 <= i < s.len() && !white(#[trigger] s[i]),
{
}

/// The places, in order, of what a filter keeps.
pub proof fn filter_picks<A>(s: Seq<A>, keep: spec_fn(A) -> bool) -> (at: Seq<int>)
    ensures
        s.filter(keep).len() == at.len(),
        forall|k: int| 0 <= k < at.len() ==> 0 <= #[trigger] at[k] < s.len(),
        forall|k: int| 0 <= k < at.len() ==> s.filter(keep)[k] == s[#[trigger] at[k]],
        forall|k: int, m: int| 0 <= k < m < at.len() ==> #[trigger] at[k] < #[trigger] at[m],
        forall|i: int| 0 <= i < s.len() ==> (#[trigger] at.contains(i) <==> keep(s[i])),
    decreases s.len(),
{
    reveal(Seq::filter);
    if s.len() == 0 {
        Seq::empty()
    } else {
        let t = s.drop_last();
        let before = filter_picks(t, keep);
        let n = t.len() as int;
        assert(forall|i: int| 0 <= i < n ==> t[i] == s[i]);
        assert forall|i: int| before.contains(i) implies 0 <= i < n by {
            let k = choose|k: int| 0 <= k < before.len() && before[k] == i;
        }
        if keep(s.last()) {
            let at = before.push(n);
            assert forall|i: int| 0 <= i < s.len() implies (#[trigger] at.contains(i) <==> keep(
                s[i],
            )) by {
                if i < n {
                    if before.contains(i) {
                        let k = choose|k: int| 0 <= k < before.len() && before[k] == i;
                        assert(at[k] == i);
                    }
                    if at.contains(i) {
                        let k = choose|k: int| 0 <= k < at.len() && at[k] == i;
                        assert(before[k] == i);
                    }
                    assert(before.contains(i) <==> keep(t[i]));
                } else {
                    assert(at[before.len() as int] == n);
                }
            }
            at
        } else {
            assert forall|i: int| 0 <= i < s.len() implies (#[trigger] before.contains(i) <==> keep(
                s[i],
            )) by {
                if i < n {
                    assert(before.contains(i) <==> keep(t[i]));
                }
            }
            before
        }
    }
}

} // verus!
