//! What holds of the arguments of a build option.
use vstd::prelude::*;

use crate::patterns;
use crate::text;

verus! {

proof fn lemma_white_end_shift(a: Seq<char>, b: Seq<char>, i: int)
    requires
        0 <= i <= b.len(),
    ensures
        text::white_end(a + b, a.len() + i) == a.len() + text::white_end(b, i),
    decreases b.len() - i,
{
    if i < b.len() {
        assert((a + b)[a.len() + i] == b[i]);
        if text::is_white(b[i]) {
            lemma_white_end_shift(a, b, i + 1);
        }
    }
}

proof fn lemma_dark_end_shift(a: Seq<char>, b: Seq<char>, i: int)
    requires
        0 <= i <= b.len(),
    ensures
        text::dark_end(a + b, a.len() + i) == a.len() + text::dark_end(b, i),
    decreases b.len() - i,
{
    if i < b.len() {
        assert((a + b)[a.len() + i] == b[i]);
        if !text::is_white(b[i]) {
            lemma_dark_end_shift(a, b, i + 1);
        }
    }
}

proof fn lemma_index_of_shift(a: Seq<char>, b: Seq<char>, c: char, i: int)
    requires
        0 <= i <= b.len(),
    ensures
        text::index_of(a + b, c, a.len() + i) == a.len() + text::index_of(b, c, i),
    decreases b.len() - i,
{
    if i < b.len() {
        assert((a + b)[a.len() + i] == b[i]);
        if b[i] != c {
            lemma_index_of_shift(a, b, c, i + 1);
        }
    }
}

/// Where the argument behind the white space at `i` starts and ends, both the length of the text
/// or more where there is none.
pub open spec fn span_at(s: Seq<char>, i: int) -> (int, int) {
    let k = text::white_end(s, i);
    (k, patterns::argument_end(s, k))
}

pub proof fn lemma_span(s: Seq<char>, i: int)
    requires
        0 <= i <= s.len(),
    ensures
        ({
            let (k, e) = span_at(s, i);
            &&& i <= k <= s.len()
            &&& k < s.len() ==> k < e <= s.len() && !text::is_white(s[k])
        }),
{
    let k = text::white_end(s, i);
    text::lemma_white_end(s, i);
    if k < s.len() {
        text::lemma_dark_end(s, k);
        text::lemma_index_of(s, '"', k + 1);
    }
}

/// The arguments of what stands behind a text are its own.
pub proof fn lemma_arguments_shift(a: Seq<char>, b: Seq<char>, i: int)
    requires
        0 <= i <= b.len(),
    ensures
        patterns::arguments_from(a + b, a.len() + i) == patterns::arguments_from(b, i),
    decreases b.len() - i,
{
    let s = a + b;
    lemma_white_end_shift(a, b, i);
    lemma_span(b, i);
    let (k, e) = span_at(b, i);
    if k < b.len() {
        assert(s[a.len() + k] == b[k]);
        lemma_dark_end_shift(a, b, k);
        lemma_index_of_shift(a, b, '"', k + 1);
        assert(patterns::argument_end(s, a.len() + k) == a.len() + e);
        assert(s.subrange(a.len() + k, a.len() + e) =~= b.subrange(k, e));
        lemma_arguments_shift(a, b, e);
    }
}

/// White space before the arguments does not matter.
pub proof fn lemma_arguments_of_trim_start(s: Seq<char>)
    ensures
        patterns::arguments(text::trim_start(s)) == patterns::arguments(s),
{
    text::lemma_white_end(s, 0);
    let k = text::white_end(s, 0);
    let a = s.take(k);
    let b = s.skip(k);
    assert(a + b =~= s);
    lemma_arguments_shift(a, b, 0);
    text::lemma_white_end(s, k);
    assert(text::white_end(s, k) == k);
    assert(patterns::arguments_from(s, 0) == patterns::arguments_from(s, k));
}

/// One white space character behind the arguments does not matter.
proof fn lemma_arguments_push_white(t: Seq<char>, c: char, i: int)
    requires
        text::is_white(c),
        0 <= i <= t.len(),
    ensures
        patterns::arguments_from(t.push(c), i) == patterns::arguments_from(t, i),
    decreases t.len() - i,
{
    let s = t.push(c);
    lemma_white_end_push(t, c, i);
    lemma_span(t, i);
    let (k, e) = span_at(t, i);
    if k < t.len() {
        assert(s[k] == t[k]);
        lemma_dark_end_push(t, c, k);
        lemma_index_of_push(t, c, '"', k + 1);
        text::lemma_index_of(t, '"', k + 1);
        assert(patterns::argument_end(s, k) == e);
        assert(s.subrange(k, e) =~= t.subrange(k, e));
        lemma_arguments_push_white(t, c, e);
    }
}

proof fn lemma_white_end_push(t: Seq<char>, c: char, i: int)
    requires
        text::is_white(c),
        0 <= i <= t.len(),
    ensures
        text::white_end(t.push(c), i) == (if text::white_end(t, i) < t.len() {
            text::white_end(t, i)
        } else {
            (t.len() + 1) as int
        }),
    decreases t.len() - i,
{
    let s = t.push(c);
    if i < t.len() {
        assert(s[i] == t[i]);
        if text::is_white(t[i]) {
            lemma_white_end_push(t, c, i + 1);
        }
    } else {
        assert(s[i] == c);
        assert(text::white_end(s, i + 1) == i + 1);
    }
}

proof fn lemma_dark_end_push(t: Seq<char>, c: char, i: int)
    requires
        text::is_white(c),
        0 <= i <= t.len(),
    ensures
        text::dark_end(t.push(c), i) == text::dark_end(t, i),
    decreases t.len() - i,
{
    let s = t.push(c);
    if i < t.len() {
        assert(s[i] == t[i]);
        if !text::is_white(t[i]) {
            lemma_dark_end_push(t, c, i + 1);
        }
    } else {
        assert(s[i] == c);
    }
}

proof fn lemma_index_of_push(t: Seq<char>, c: char, x: char, i: int)
    requires
        c != x,
        0 <= i <= t.len(),
    ensures
        text::index_of(t.push(c), x, i) == (if text::index_of(t, x, i) < t.len() {
            text::index_of(t, x, i)
        } else {
            (t.len() + 1) as int
        }),
    decreases t.len() - i,
{
    let s = t.push(c);
    if i < t.len() {
        assert(s[i] == t[i]);
        if t[i] != x {
            lemma_index_of_push(t, c, x, i + 1);
        }
    } else {
        assert(s[i] == c);
        assert(text::index_of(s, x, i + 1) == i + 1);
    }
}

/// White space behind the arguments does not matter.
pub proof fn lemma_arguments_ignore_end(s: Seq<char>, b: Seq<char>)
    requires
        forall|k: int| 0 <= k < b.len() ==> text::is_white(b[k]),
    ensures
        patterns::arguments(s + b) == patterns::arguments(s),
    decreases b.len(),
{
    if b.len() == 0 {
        assert(s + b =~= s);
    } else {
        let c = b.drop_last();
        lemma_arguments_ignore_end(s, c);
        assert(s + b =~= (s + c).push(b.last()));
        lemma_arguments_push_white(s + c, b.last(), 0);
    }
}

/// In a text of one line, a tag is found where the text starts with it.
pub proof fn lemma_option_of_line(line: Seq<char>, tag: Seq<char>)
    requires
        !line.contains('\n'),
        tag.len() > 0,
    ensures
        patterns::tagged_option(line, tag) == (if text::starts_with(line, tag) {
            Some((line, text::trim_start(line.skip(tag.len() as int))))
        } else {
            None::<(Seq<char>, Seq<char>)>
        }),
{
    if text::starts_with(line, tag) {
        let n = tag.len() as int;
        let a = line.take(n);
        let b = line.skip(n);
        assert(a + b =~= line);
        lemma_white_end_shift(a, b, 0);
        let from = text::white_end(line, n);
        text::lemma_white_end(line, n);
        text::lemma_index_of(line, '\n', from);
        let to = text::index_of(line, '\n', from);
        if to < line.len() {
            assert(line.contains(line[to]));
        }
        assert(line.subrange(0, to) =~= line);
        assert(line.subrange(from, to) =~= text::trim_start(b));
    } else {
        lemma_no_tag_behind(line, tag, 1);
    }
}

proof fn lemma_no_tag_behind(line: Seq<char>, tag: Seq<char>, i: int)
    requires
        !line.contains('\n'),
        0 < i,
    ensures
        patterns::tagged_line_from(line, tag, i) is None,
    decreases line.len() + 1 - i,
{
    if i <= line.len() {
        assert(line.contains(line[i - 1]));
        lemma_no_tag_behind(line, tag, i + 1);
    }
}

/// The arguments of a check option that excludes `e`.
pub proof fn lemma_exclusion_arguments(e: Seq<char>)
    requires
        !e.contains('"'),
    ensures
        patterns::arguments("  -e \""@ + e + "\""@) == seq!["-e"@, "\""@ + e + "\""@],
{
    reveal_strlit("  -e \"");
    reveal_strlit("\"");
    reveal_strlit("-e");
    let s = "  -e \""@ + e + "\""@;
    let n = s.len() as int;
    assert(text::white_end(s, 2) == 2);
    assert(text::white_end(s, 1) == 2);
    assert(text::white_end(s, 0) == 2);
    assert(text::dark_end(s, 4) == 4);
    assert(text::dark_end(s, 3) == 4);
    assert(text::dark_end(s, 2) == 4);
    assert(patterns::argument_end(s, 2) == 4);
    assert(text::white_end(s, 5) == 5);
    assert(text::white_end(s, 4) == 5);
    text::lemma_index_of(s, '"', 6);
    let q = text::index_of(s, '"', 6);
    assert(s[n - 1] == '"');
    if q < n - 1 {
        assert(s[q] == e[q - 6]);
        assert(e.contains(e[q - 6]));
    }
    assert(q == n - 1);
    assert(patterns::argument_end(s, 5) == n);
    assert(text::white_end(s, n) == n);
    assert(patterns::arguments_from(s, n) =~= seq![]);
    assert(s.subrange(5, n) =~= "\""@ + e + "\""@);
    assert(s.subrange(2, 4) =~= "-e"@);
    assert(patterns::arguments_from(s, 4) =~= seq!["\""@ + e + "\""@]);
    assert(patterns::arguments_from(s, 0) =~= seq!["-e"@, "\""@ + e + "\""@]);
}

/// Taking the quotes off a quoted text leaves the text.
pub proof fn lemma_unquote(e: Seq<char>)
    requires
        !e.contains('"'),
        e.len() > 0,
    ensures
        text::trim_char("\""@ + e + "\""@, '"') == e,
{
    reveal_strlit("\"");
    let s = "\""@ + e + "\""@;
    assert(e.contains(e[0]));
    assert(e.contains(e[e.len() - 1]));
    assert(s[1] == e[0]);
    assert(text::same_end(s, '"', 1) == 1);
    assert(text::same_end(s, '"', 0) == 1);
    let t = text::trim_start_char(s, '"');
    assert(t =~= e + "\""@);
    let m = t.len() as int;
    assert(t[m - 1] == '"');
    assert(t[m - 2] == e[e.len() - 1]);
    assert(text::same_start(t, '"', m - 1) == m - 1);
    assert(text::same_start(t, '"', m) == m - 1);
    assert(t.take(m - 1) =~= e);
}

} // verus!
