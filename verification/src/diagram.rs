//! Diagram sources, and what the Mermaid CLI prints about them.

use crate::text;
use vstd::prelude::*;

verus! {

/// How many lines of the CLI's diagnostics a message shows.
pub const SUMMARY_LINES: usize = 6;

// ---------------------------------------------------------------------------------------------
// Bare comment markers
// ---------------------------------------------------------------------------------------------

/// A comment marker with nothing behind it: `%%` alone on a line.
pub open spec fn bare_marker(line: Seq<char>) -> bool {
    text::trimmed(line) == "%%"@
}

/// The lines that are no bare comment marker, in order.
pub open spec fn without_bare_markers(lines: Seq<Seq<char>>) -> Seq<Seq<char>> {
    lines.filter(|line: Seq<char>| !bare_marker(line))
}

/// The source without the lines that are a bare comment marker.
pub open spec fn stripped(source: Seq<char>) -> Seq<char> {
    text::joined(without_bare_markers(text::lines(source)))
}

/// Mermaid's parser rejects a comment marker with nothing after it (`%%` alone on a line), and
/// misreports the position as line 1. People use those as spacers in comment headers, so drop
/// them rather than making the user hunt for it.
pub fn strip_empty_comments(source: &str) -> (r: String)
    ensures
        r@ == stripped(source@),
{
    let chars = text::chars_of(source);
    let marker = text::chars_of("%%");
    let lines = text::split_lines(&chars);
    let ghost all = text::rows(lines@);
    let mut kept: Vec<Vec<char>> = Vec::new();
    let mut i: usize = 0;
    assert(without_bare_markers(all.take(0)) =~= Seq::<Seq<char>>::empty()) by {
        reveal(Seq::filter);
    }
    while i < lines.len()
        invariant
            i <= lines.len(),
            marker@ == "%%"@,
            all == text::rows(lines@),
            text::rows(kept@) == without_bare_markers(all.take(i as int)),
        decreases lines.len() - i,
    {
        let line = &lines[i];
        let bare = text::same_chars(&text::trim(line), &marker);
        proof {
            reveal(Seq::filter);
            assert(all.take(i + 1).drop_last() =~= all.take(i as int));
            assert(all.take(i + 1).last() == line@);
        }
        if !bare {
            let ghost before = kept@;
            kept.push(line.clone());
            assert(kept@.last()@ =~= line@);
            assert(text::rows(kept@) =~= text::rows(before).push(line@));
        }
        i = i + 1;
    }
    assert(all.take(i as int) =~= all);
    text::join_lines(&kept)
}

/// What stripping leaves has no bare comment marker on any line.
pub proof fn stripped_has_no_bare_marker(source: Seq<char>, i: int)
    requires
        0 <= i < text::lines(stripped(source)).len(),
    ensures
        !bare_marker(text::lines(stripped(source))[i]),
{
    let all = text::lines(source);
    let keep = |line: Seq<char>| !bare_marker(line);
    let kept = without_bare_markers(all);
    assert forall|k: int| 0 <= k < kept.len() implies !(#[trigger] kept[k]).contains('\n') by {
        assert(kept.contains(kept[k]));
        all.lemma_filter_contains_rev(keep, kept[k]);
        let m = choose|m: int| 0 <= m < all.len() && all[m] == kept[k];
        text::lines_hold_no_line_feed(source, m);
    }
    text::lines_of_joined_are_rows(kept, i);
    all.lemma_filter_pred(keep, i);
    text::trimmed_without_cr(kept[i]);
}

/// A source without a bare comment marker is left alone: where no carriage return stands before
/// a line feed and no line feed at the end.
pub proof fn stripped_leaves_the_rest_alone(source: Seq<char>)
    requires
        forall|i: int| 0 <= i < text::lines(source).len() ==> !bare_marker(#[trigger] text::lines(source)[i]),
        forall|i: int|
            0 <= i && i + 1 < source.len() ==> !(#[trigger] source[i] == '\r' && source[i + 1]
                == '\n'),
        source.len() > 0 ==> source.last() != '\n',
    ensures
        stripped(source) == source,
{
    lemma_filter_keeps_all(text::lines(source));
    text::joined_lines(source);
}

proof fn lemma_filter_keeps_all(lines: Seq<Seq<char>>)
    requires
        forall|i: int| 0 <= i < lines.len() ==> !bare_marker(#[trigger] lines[i]),
    ensures
        without_bare_markers(lines) == lines,
    decreases lines.len(),
{
    reveal(Seq::filter);
    if lines.len() > 0 {
        let init = lines.drop_last();
        assert forall|i: int| 0 <= i < init.len() implies !bare_marker(#[trigger] init[i]) by {
            assert(init[i] == lines[i]);
        }
        lemma_filter_keeps_all(init);
        assert(!bare_marker(lines[lines.len() - 1]));
        assert(init.push(lines.last()) =~= lines);
    }
}

/// Stripping a second time changes nothing: where what the first time left has no carriage
/// return before a line feed and no line feed at its end.
pub proof fn stripping_twice_is_stripping_once(source: Seq<char>)
    requires
        forall|i: int|
            0 <= i && i + 1 < stripped(source).len() ==> !(#[trigger] stripped(source)[i] == '\r'
                && stripped(source)[i + 1] == '\n'),
        stripped(source).len() > 0 ==> stripped(source).last() != '\n',
    ensures
        stripped(stripped(source)) == stripped(source),
{
    let s = stripped(source);
    assert forall|i: int| 0 <= i < text::lines(s).len() implies !bare_marker(
        #[trigger] text::lines(s)[i],
    ) by {
        stripped_has_no_bare_marker(source, i);
    }
    stripped_leaves_the_rest_alone(s);
}

// ---------------------------------------------------------------------------------------------
// The CLI's diagnostics
// ---------------------------------------------------------------------------------------------

/// A line of a JavaScript stack trace.
pub open spec fn stack_line(line: Seq<char>) -> bool {
    "at "@.is_prefix_of(line)
}

/// The lines, trimmed, that are neither empty nor a note on progress, in order.
pub open spec fn relevant(lines: Seq<Seq<char>>) -> Seq<Seq<char>> {
    lines.map_values(|line: Seq<char>| text::trimmed(line)).filter(
        |line: Seq<char>| line.len() > 0 && !"Generating"@.is_prefix_of(line),
    )
}

/// How many lines stand before the first line of a stack trace.
pub open spec fn before_stack(lines: Seq<Seq<char>>) -> nat
    decreases lines.len(),
{
    if lines.len() == 0 || stack_line(lines.first()) {
        0
    } else {
        1 + before_stack(lines.drop_first())
    }
}

/// The lines of the diagnostics that a user can act on: the relevant ones before the stack trace,
/// and no more than the first six of those.
pub open spec fn useful(stderr: Seq<char>) -> Seq<Seq<char>> {
    let lines = relevant(text::lines(stderr));
    let n = before_stack(lines);
    lines.take(
        if n < SUMMARY_LINES {
            n as int
        } else {
            SUMMARY_LINES as int
        },
    )
}

/// What a user is told of a failed run.
pub open spec fn summary(stderr: Seq<char>) -> Seq<char> {
    if useful(stderr).len() == 0 {
        "mmdc failed"@
    } else {
        text::joined(useful(stderr))
    }
}

proof fn lemma_before_stack_is(lines: Seq<Seq<char>>, n: int)
    requires
        0 <= n <= lines.len(),
        forall|i: int| 0 <= i < n ==> !stack_line(#[trigger] lines[i]),
    ensures
        n <= before_stack(lines) <= lines.len(),
        n == lines.len() || stack_line(lines[n]) ==> before_stack(lines) == n,
    decreases lines.len(),
{
    if n > 0 {
        assert(!stack_line(lines[0]));
        let t = lines.drop_first();
        assert forall|i: int| 0 <= i < n - 1 implies !stack_line(#[trigger] t[i]) by {
            assert(t[i] == lines[i + 1]);
        }
        lemma_before_stack_is(t, n - 1);
    } else if lines.len() > 0 {
        lemma_before_stack_is(lines.drop_first(), 0);
    }
}

/// The relevant lines of the diagnostics.
fn relevant_lines(stderr: &str) -> (r: Vec<Vec<char>>)
    ensures
        text::rows(r@) == relevant(text::lines(stderr@)),
{
    let chars = text::chars_of(stderr);
    let lines = text::split_lines(&chars);
    let ghost all = text::lines(stderr@);
    let mut kept: Vec<Vec<char>> = Vec::new();
    let mut i: usize = 0;
    assert(relevant(all.take(0)) =~= Seq::<Seq<char>>::empty()) by {
        reveal(Seq::filter);
    }
    while i < lines.len()
        invariant
            i <= lines.len(),
            all == text::rows(lines@),
            text::rows(kept@) == relevant(all.take(i as int)),
        decreases lines.len() - i,
    {
        let line = text::trim(&lines[i]);
        let noise = line.len() == 0 || text::starts_with(&line, "Generating");
        proof {
            reveal(Seq::filter);
            let cut = |line: Seq<char>| text::trimmed(line);
            let now = all.take(i + 1).map_values(cut);
            assert(now.drop_last() =~= all.take(i as int).map_values(cut));
            assert(now.last() == line@);
        }
        if !noise {
            let ghost before = kept@;
            let ghost row = line@;
            kept.push(line);
            assert(text::rows(kept@) =~= text::rows(before).push(row));
        }
        i = i + 1;
    }
    assert(all.take(i as int) =~= all);
    kept
}

/// mmdc wraps the real syntax error in Chromium/puppeteer stack noise. Keep the part a user can
/// act on -- the message plus Mermaid's caret and "Expecting ..." detail -- and cut the stack,
/// since this ends up in a Zed toast.
pub fn error_summary(stderr: &str) -> (r: String)
    ensures
        r@ == summary(stderr@),
{
    let mut lines = relevant_lines(stderr);
    let ghost all = relevant(text::lines(stderr@));
    let mut n: usize = 0;
    while n < lines.len() && n < SUMMARY_LINES && !text::starts_with(&lines[n], "at ")
        invariant
            n <= lines.len(),
            n <= SUMMARY_LINES,
            all == text::rows(lines@),
            forall|i: int| 0 <= i < n ==> !stack_line(#[trigger] all[i]),
        decreases lines.len() - n,
    {
        assert(all[n as int] == lines@[n as int]@);
        n = n + 1;
    }
    proof {
        if n < lines.len() {
            assert(all[n as int] == lines@[n as int]@);
        }
        lemma_before_stack_is(all, n as int);
    }
    lines.truncate(n);
    assert(text::rows(lines@) =~= all.take(n as int));
    assert(useful(stderr@) == all.take(n as int));
    if n == 0 {
        return "mmdc failed".to_owned();
    }
    text::join_lines(&lines)
}

proof fn lemma_relevant_line(stderr: Seq<char>, i: int)
    requires
        0 <= i < relevant(text::lines(stderr)).len(),
    ensures
        text::fits_a_line(relevant(text::lines(stderr))[i]),
        relevant(text::lines(stderr))[i].len() > 0,
        !"Generating"@.is_prefix_of(relevant(text::lines(stderr))[i]),
{
    let all = text::lines(stderr);
    let cut = all.map_values(|line: Seq<char>| text::trimmed(line));
    let keep = |line: Seq<char>| line.len() > 0 && !"Generating"@.is_prefix_of(line);
    let kept = relevant(all);
    cut.lemma_filter_pred(keep, i);
    assert(kept.contains(kept[i]));
    cut.lemma_filter_contains_rev(keep, kept[i]);
    let m = choose|m: int| 0 <= m < cut.len() && cut[m] == kept[i];
    text::lines_hold_no_line_feed(stderr, m);
    text::trimmed_is_tight(all[m]);
    let (a, b) = choose|a: int, b: int|
        0 <= a <= b <= all[m].len() && text::trimmed(all[m]) == #[trigger] all[m].subrange(a, b);
    if kept[i].contains('\n') {
        let k = choose|k: int| 0 <= k < kept[i].len() && kept[i][k] == '\n';
        assert(all[m][a + k] == '\n');
    }
}

/// A summary is never empty, and each of its lines is a useful line: at most six of them, none
/// empty, none a note on progress, none from a stack trace.
pub proof fn summary_is_short_and_useful(stderr: Seq<char>)
    ensures
        summary(stderr).len() > 0,
        useful(stderr).len() > 0 ==> text::lines(summary(stderr)) == useful(stderr),
        useful(stderr).len() <= SUMMARY_LINES,
        forall|i: int|
            0 <= i < useful(stderr).len() ==> (#[trigger] useful(stderr)[i]).len() > 0
                && !stack_line(useful(stderr)[i]) && !"Generating"@.is_prefix_of(
                useful(stderr)[i],
            ),
{
    let all = relevant(text::lines(stderr));
    let rows = useful(stderr);
    lemma_before_stack(all);
    assert forall|i: int| 0 <= i < rows.len() implies text::fits_a_line(#[trigger] rows[i])
        && rows[i].len() > 0 && !stack_line(rows[i]) && !"Generating"@.is_prefix_of(rows[i]) by {
        assert(rows[i] == all[i]);
        lemma_relevant_line(stderr, i);
    }
    reveal_strlit("mmdc failed");
    if rows.len() > 0 {
        assert(rows[rows.len() - 1].len() > 0);
        text::lines_of_joined(rows);
        if summary(stderr).len() == 0 {
            assert(text::lines(summary(stderr)).len() == 0);
        }
    }
}

proof fn lemma_before_stack(lines: Seq<Seq<char>>)
    ensures
        before_stack(lines) <= lines.len(),
        forall|i: int| 0 <= i < before_stack(lines) ==> !stack_line(#[trigger] lines[i]),
        before_stack(lines) < lines.len() ==> stack_line(lines[before_stack(lines) as int]),
    decreases lines.len(),
{
    if lines.len() > 0 && !stack_line(lines.first()) {
        let t = lines.drop_first();
        lemma_before_stack(t);
        assert forall|i: int| 0 <= i < before_stack(lines) implies !stack_line(
            #[trigger] lines[i],
        ) by {
            if i > 0 {
                assert(t[i - 1] == lines[i]);
            }
        }
    }
}

// ---------------------------------------------------------------------------------------------
// Which lines are dropped
// ---------------------------------------------------------------------------------------------

proof fn lemma_bare_marker(line: Seq<char>)
    ensures
        bare_marker(line) <==> exists|a: int|
            0 <= a && a + 2 <= line.len() && #[trigger] line[a] == '%' && line[a + 1] == '%'
                && forall|j: int|
                0 <= j < line.len() && j != a && j != a + 1 ==> text::white(#[trigger] line[j]),
{
    reveal_strlit("%%");
    let range = text::trimming_takes_white_space_off_the_ends(line);
    let a = range.0;
    let b = range.1;
    if bare_marker(line) {
        let cut = text::trimmed(line);
        assert(cut.len() == 2);
        assert(cut[0] == line[a] && cut[1] == line[a + 1]);
        assert forall|j: int| 0 <= j < line.len() && j != a && j != a + 1 implies text::white(
            #[trigger] line[j],
        ) by {}
    }
    if exists|a: int|
        0 <= a && a + 2 <= line.len() && #[trigger] line[a] == '%' && line[a + 1] == '%'
            && forall|j: int|
            0 <= j < line.len() && j != a && j != a + 1 ==> text::white(#[trigger] line[j]) {
        let c = choose|a: int|
            0 <= a && a + 2 <= line.len() && #[trigger] line[a] == '%' && line[a + 1] == '%'
                && forall|j: int|
                0 <= j < line.len() && j != a && j != a + 1 ==> text::white(#[trigger] line[j]);
        assert(!text::white(line[c]));
        assert(!text::white(line[c + 1]));
        assert(a <= c && c + 1 < b);
        assert(a == c) by {
            if a < c {
                assert(text::white(line[a]));
            }
        }
        assert(b == c + 2) by {
            if b > c + 2 {
                assert(text::white(line[b - 1]));
            }
        }
        assert(text::trimmed(line) =~= "%%"@);
    }
}

/// A line of the source is dropped if and only if two percent signs, side by side, are all that it
/// holds but for white space. Every other line is kept as it is, in its order, with a line feed
/// between each two. The result has the places of the lines that are kept.
pub proof fn only_bare_markers_are_dropped(source: Seq<char>) -> (at: Seq<int>)
    ensures
        forall|k: int| 0 <= k < at.len() ==> 0 <= #[trigger] at[k] < text::lines(source).len(),
        forall|k: int, m: int| 0 <= k < m < at.len() ==> #[trigger] at[k] < #[trigger] at[m],
        forall|i: int|
            0 <= i < text::lines(source).len() ==> (#[trigger] at.contains(i) <==> !exists|a: int|
                0 <= a && a + 2 <= text::lines(source)[i].len() && #[trigger] text::lines(
                    source,
                )[i][a] == '%' && text::lines(source)[i][a + 1] == '%' && forall|j: int|
                    0 <= j < text::lines(source)[i].len() && j != a && j != a + 1 ==> text::white(
                        #[trigger] text::lines(source)[i][j],
                    )),
        stripped(source) == text::joined(
            Seq::new(at.len(), |k: int| text::lines(source)[at[k]]),
        ),
{
    let lines = text::lines(source);
    let keep = |line: Seq<char>| !bare_marker(line);
    let at = text::filter_picks(lines, keep);
    assert forall|i: int| 0 <= i < text::lines(source).len() implies (#[trigger] at.contains(i)
        <==> !exists|a: int|
        0 <= a && a + 2 <= text::lines(source)[i].len() && #[trigger] text::lines(source)[i][a]
            == '%' && text::lines(source)[i][a + 1] == '%' && forall|j: int|
            0 <= j < text::lines(source)[i].len() && j != a && j != a + 1 ==> text::white(
                #[trigger] text::lines(source)[i][j],
            )) by {
        lemma_bare_marker(lines[i]);
        assert(at.contains(i) <==> keep(lines[i]));
    }
    assert(without_bare_markers(lines) =~= Seq::new(at.len(), |k: int| lines[at[k]]));
    at
}

/// A line with a character beside two percent signs that is no white space is kept, such as a
/// directive or a comment with a text.
pub proof fn lines_with_more_than_a_marker_are_kept(source: Seq<char>, i: int, x: int, y: int, z: int)
    requires
        0 <= i < text::lines(source).len(),
        0 <= x < y < z < text::lines(source)[i].len(),
        !text::white(text::lines(source)[i][x]),
        !text::white(text::lines(source)[i][y]),
        !text::white(text::lines(source)[i][z]),
    ensures
        without_bare_markers(text::lines(source)).contains(text::lines(source)[i]),
{
    let line = text::lines(source)[i];
    lemma_bare_marker(line);
    assert(!bare_marker(line));
    text::lines(source).lemma_filter_contains(|line: Seq<char>| !bare_marker(line), i);
}

/// A summary is made of the lines of the diagnostics, each without the white space at its ends: the
/// first ones, in order, that are neither empty nor a note on progress, up to six of them and up to
/// the first line of a stack trace. Where there is none, it says that mmdc failed. The result has
/// the places of the lines that are shown.
pub proof fn summary_shows_the_first_useful_lines(stderr: Seq<char>) -> (at: Seq<int>)
    ensures
        at.len() <= 6,
        forall|k: int| 0 <= k < at.len() ==> 0 <= #[trigger] at[k] < text::lines(stderr).len(),
        forall|k: int, m: int| 0 <= k < m < at.len() ==> #[trigger] at[k] < #[trigger] at[m],
        forall|k: int|
            0 <= k < at.len() ==> {
                let line = text::trimmed(text::lines(stderr)[#[trigger] at[k]]);
                line.len() > 0 && !"Generating"@.is_prefix_of(line) && !"at "@.is_prefix_of(line)
            },
        forall|i: int|
            0 <= i < text::lines(stderr).len() && !(#[trigger] at.contains(i)) && text::trimmed(
                text::lines(stderr)[i],
            ).len() > 0 && !"Generating"@.is_prefix_of(text::trimmed(text::lines(stderr)[i])) ==> {
                &&& forall|k: int| 0 <= k < at.len() ==> #[trigger] at[k] < i
                &&& at.len() == 6 || exists|j: int|
                    0 <= j <= i && "at "@.is_prefix_of(
                        text::trimmed(#[trigger] text::lines(stderr)[j]),
                    ) && forall|k: int| 0 <= k < at.len() ==> #[trigger] at[k] < j
            },
        at.len() == 0 ==> summary(stderr) == "mmdc failed"@,
        at.len() > 0 ==> summary(stderr) == text::joined(
            Seq::new(at.len(), |k: int| text::trimmed(text::lines(stderr)[at[k]])),
        ),
{
    let lines = text::lines(stderr);
    let cut = lines.map_values(|line: Seq<char>| text::trimmed(line));
    let keep = |line: Seq<char>| line.len() > 0 && !"Generating"@.is_prefix_of(line);
    let all = text::filter_picks(cut, keep);
    let kept = relevant(lines);
    let n = before_stack(kept) as int;
    lemma_before_stack(kept);
    let shown = useful(stderr);
    let m = shown.len() as int;
    let at = all.take(m);
    assert forall|k: int| 0 <= k < all.len() implies kept[k] == text::trimmed(
        lines[#[trigger] all[k]],
    ) by {}
    assert forall|k: int| 0 <= k < at.len() implies {
        let line = text::trimmed(lines[#[trigger] at[k]]);
        line.len() > 0 && !"Generating"@.is_prefix_of(line) && !"at "@.is_prefix_of(line)
    } by {
        assert(at[k] == all[k]);
        assert(all.contains(all[k]));
        assert(keep(cut[all[k]]));
        assert(!stack_line(kept[k]));
    }
    assert forall|i: int|
        0 <= i < lines.len() && !(#[trigger] at.contains(i)) && text::trimmed(lines[i]).len() > 0
            && !"Generating"@.is_prefix_of(text::trimmed(lines[i])) implies {
        &&& forall|k: int| 0 <= k < at.len() ==> #[trigger] at[k] < i
        &&& at.len() == 6 || exists|j: int|
            0 <= j <= i && "at "@.is_prefix_of(text::trimmed(#[trigger] text::lines(stderr)[j]))
                && forall|k: int| 0 <= k < at.len() ==> #[trigger] at[k] < j
    } by {
        assert(keep(cut[i]));
        assert(all.contains(i));
        let q = choose|q: int| 0 <= q < all.len() && all[q] == i;
        if q < m {
            assert(at[q] == i);
        }
        assert(q >= m);
        if m < 6 {
            assert(m == n);
            let j = all[n];
            assert(stack_line(kept[n]));
            assert("at "@.is_prefix_of(text::trimmed(lines[j])));
            assert(j <= i) by {
                if n < q {
                    assert(all[n] < all[q]);
                }
            }
        }
    }
    assert(shown =~= Seq::new(at.len(), |k: int| text::trimmed(lines[at[k]])));
    at
}

} // verus!
