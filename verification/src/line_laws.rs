//! What holds of texts and their lines: trimming, taking a text apart and putting it together.
use vstd::prelude::*;

use crate::pieces;
use crate::specfile;
use crate::text;

verus! {

/// What trimming the end leaves: a prefix that does not end with white space, with nothing but
/// white space behind it.
pub proof fn lemma_trim_end(s: Seq<char>)
    ensures
        text::trim_end(s).len() <= s.len(),
        text::trim_end(s) == s.take(text::trim_end(s).len() as int),
        text::trim_end(s).len() > 0 ==> !text::is_white(text::trim_end(s).last()),
        forall|k: int| text::trim_end(s).len() <= k < s.len() ==> text::is_white(s[k]),
{
    text::lemma_white_start(s, s.len() as int);
}

/// A prefix that does not end with white space, with nothing but white space behind it, is what
/// trimming the end leaves.
pub proof fn lemma_trim_end_is(s: Seq<char>, n: int)
    requires
        0 <= n <= s.len(),
        n > 0 ==> !text::is_white(s[n - 1]),
        forall|k: int| n <= k < s.len() ==> text::is_white(s[k]),
    ensures
        text::trim_end(s) == s.take(n),
{
    lemma_trim_end(s);
    let m = text::trim_end(s).len();
    if m < n {
        assert(text::is_white(s[n - 1]));
    }
    if n < m {
        assert(text::trim_end(s).last() == s[m - 1]);
    }
}

pub proof fn lemma_trim_start(s: Seq<char>)
    ensures
        text::trim_start(s).len() <= s.len(),
        text::trim_start(s) == s.skip(s.len() - text::trim_start(s).len()),
        text::trim_start(s).len() > 0 ==> !text::is_white(text::trim_start(s)[0]),
        forall|k: int|
            0 <= k < s.len() - text::trim_start(s).len() ==> text::is_white(s[k]),
{
    text::lemma_white_end(s, 0);
}

/// What stands behind white space, and does not start with white space, is what trimming the start
/// leaves.
pub proof fn lemma_trim_start_is(s: Seq<char>, n: int)
    requires
        0 <= n <= s.len(),
        n < s.len() ==> !text::is_white(s[n]),
        forall|k: int| 0 <= k < n ==> text::is_white(s[k]),
    ensures
        text::trim_start(s) == s.skip(n),
{
    lemma_trim_start(s);
    let m = s.len() - text::trim_start(s).len();
    if m < n {
        assert(text::trim_start(s)[0] == s[m]);
    }
    if n < m {
        assert(text::is_white(s[n]));
    }
}

/// A text that neither starts nor ends with white space.
pub open spec fn is_trimmed(s: Seq<char>) -> bool {
    s.len() > 0 ==> !text::is_white(s[0]) && !text::is_white(s.last())
}

/// Trimming leaves a trimmed text, and a trimmed text as it is.
pub proof fn lemma_trim(s: Seq<char>)
    ensures
        is_trimmed(text::trim(s)),
        is_trimmed(s) ==> text::trim(s) == s,
        text::trim(text::trim(s)) == text::trim(s),
{
    let a = text::trim_start(s);
    let t = text::trim(s);
    lemma_trim_start(s);
    lemma_trim_end(a);
    if t.len() > 0 {
        assert(t[0] == a[0]);
    }
    if is_trimmed(s) {
        lemma_trim_start_is(s, 0);
        assert(s.skip(0) =~= s);
        lemma_trim_end_is(s, s.len() as int);
        assert(s.take(s.len() as int) =~= s);
    }
    lemma_trim_start_is(t, 0);
    assert(t.skip(0) =~= t);
    lemma_trim_end_is(t, t.len() as int);
    assert(t.take(t.len() as int) =~= t);
}

/// White space around a trimmed text is what trimming takes away.
pub proof fn lemma_trim_around(a: Seq<char>, s: Seq<char>, b: Seq<char>)
    requires
        is_trimmed(s),
        forall|k: int| 0 <= k < a.len() ==> text::is_white(a[k]),
        forall|k: int| 0 <= k < b.len() ==> text::is_white(b[k]),
    ensures
        text::trim(a + s + b) == s,
{
    let all = a + s + b;
    if s.len() > 0 {
        assert(all[a.len() as int] == s[0]);
        lemma_trim_start_is(all, a.len() as int);
        let t = text::trim_start(all);
        assert(t =~= s + b);
        assert(t[s.len() - 1] == s.last());
        lemma_trim_end_is(t, s.len() as int);
        assert(t.take(s.len() as int) =~= s);
    } else {
        assert(forall|k: int| 0 <= k < all.len() ==> text::is_white(all[k]));
        lemma_trim_start_is(all, all.len() as int);
        let t = text::trim_start(all);
        assert(t.len() == 0);
        lemma_trim_end(t);
        assert(text::trim(all) =~= s);
    }
}

/// White space at the end does not matter for trimming.
pub proof fn lemma_trim_ignores_end(s: Seq<char>, b: Seq<char>)
    requires
        forall|k: int| 0 <= k < b.len() ==> text::is_white(b[k]),
    ensures
        text::trim(s + b) == text::trim(s),
{
    let t = text::trim(s);
    lemma_trim(s);
    let a = text::trim_start(s);
    lemma_trim_start(s);
    lemma_trim_end(a);
    let head = s.take(s.len() - a.len());
    let tail = a.skip(t.len() as int) + b;
    assert(forall|k: int| 0 <= k < head.len() ==> text::is_white(head[k]));
    assert forall|k: int| 0 <= k < tail.len() implies text::is_white(#[trigger] tail[k]) by {
        if k < a.len() - t.len() {
            assert(tail[k] == a[t.len() + k]);
        } else {
            assert(tail[k] == b[k - (a.len() - t.len())]);
        }
    }
    assert(s + b =~= head + t + tail);
    lemma_trim_around(head, t, tail);
}

/// Trimming the end first changes nothing for trimming.
pub proof fn lemma_trim_of_trim_end(s: Seq<char>)
    ensures
        text::trim(text::trim_end(s)) == text::trim(s),
{
    let e = text::trim_end(s);
    lemma_trim_end(s);
    assert(s =~= e + s.skip(e.len() as int));
    lemma_trim_ignores_end(e, s.skip(e.len() as int));
}

/// What follows a prefix, trimmed, is the same in a line and in what trimming its end leaves.
pub proof fn lemma_trim_behind_prefix(s: Seq<char>, p: Seq<char>)
    requires
        p.len() > 0,
        !text::is_white(p.last()),
        text::starts_with(s, p),
    ensures
        text::starts_with(text::trim_end(s), p),
        text::trim(text::trim_end(s).skip(p.len() as int)) == text::trim(s.skip(p.len() as int)),
{
    let e = text::trim_end(s);
    lemma_trim_end(s);
    lemma_prefix_of_trim_end(s, p);
    let rest = e.skip(p.len() as int);
    let tail = s.skip(e.len() as int);
    assert(s.skip(p.len() as int) =~= rest + tail);
    lemma_trim_ignores_end(rest, tail);
}

/// Trimming the end twice is trimming it once.
pub proof fn lemma_trim_end_twice(s: Seq<char>)
    ensures
        text::trim_end(text::trim_end(s)) == text::trim_end(s),
{
    let e = text::trim_end(s);
    lemma_trim_end(s);
    lemma_trim_end_is(e, e.len() as int);
    assert(e.take(e.len() as int) =~= e);
}

/// A carriage return at the end is white space.
pub proof fn lemma_trim_end_of_strip_cr(s: Seq<char>)
    ensures
        text::trim_end(pieces::strip_cr(s)) == text::trim_end(s),
{
    let c = pieces::strip_cr(s);
    lemma_trim_end(c);
    let n = text::trim_end(c).len() as int;
    assert forall|k: int| n <= k < s.len() implies text::is_white(s[k]) by {
        if k < c.len() {
            assert(c[k] == s[k]);
        } else {
            assert(s[k] == '\r');
        }
    }
    if n > 0 {
        assert(text::trim_end(c).last() == s[n - 1]);
    }
    lemma_trim_end_is(s, n);
    assert(s.take(n) =~= c.take(n));
}

/// A prefix that does not end with white space starts a text and what trimming the end leaves of
/// it alike.
pub proof fn lemma_prefix_of_trim_end(s: Seq<char>, p: Seq<char>)
    requires
        p.len() > 0 ==> !text::is_white(p.last()),
    ensures
        text::starts_with(text::trim_end(s), p) == text::starts_with(s, p),
{
    let e = text::trim_end(s);
    lemma_trim_end(s);
    if text::starts_with(s, p) {
        if p.len() > e.len() {
            assert(s.subrange(0, p.len() as int)[p.len() - 1] == s[p.len() - 1]);
            assert(text::is_white(s[p.len() - 1]));
        }
        assert(e.subrange(0, p.len() as int) =~= s.subrange(0, p.len() as int));
    }
    if text::starts_with(e, p) {
        assert(s.subrange(0, p.len() as int) =~= e.subrange(0, p.len() as int));
    }
}

/// The first line feed of `a`, a line feed, and anything.
proof fn lemma_first_line_feed(a: Seq<char>, b: Seq<char>, i: int)
    requires
        !a.contains('\n'),
        0 <= i <= a.len(),
    ensures
        text::index_of(a + "\n"@ + b, '\n', i) == a.len(),
    decreases a.len() - i,
{
    reveal_strlit("\n");
    let s = a + "\n"@ + b;
    if i < a.len() {
        assert(s[i] == a[i]);
        assert(a.contains(a[i]));
        lemma_first_line_feed(a, b, i + 1);
    } else {
        assert(s[i] == '\n');
    }
}

proof fn lemma_index_of_shift(a: Seq<char>, b: Seq<char>, c: char, i: int)
    requires
        0 <= i <= b.len(),
    ensures
        text::index_of(a + b, c, a.len() + i) == a.len() + text::index_of(b, c, i),
    decreases b.len() - i,
{
    if i < b.len() {
        assert((a + b)[a.len() + i] == b[i]);
        if b[i] != c {
            lemma_index_of_shift(a, b, c, i + 1);
        }
    }
}

/// The lines behind a text are its own.
proof fn lemma_lines_shift(a: Seq<char>, b: Seq<char>, i: int)
    requires
        0 <= i <= b.len(),
    ensures
        pieces::lines_from(a + b, a.len() + i) == pieces::lines_from(b, i),
    decreases b.len() - i,
{
    let s = a + b;
    if i < b.len() {
        lemma_index_of_shift(a, b, '\n', i);
        text::lemma_index_of(b, '\n', i);
        let k = text::index_of(b, '\n', i);
        if k < b.len() {
            assert(s.subrange(a.len() + i, a.len() + k) =~= b.subrange(i, k));
            lemma_lines_shift(a, b, k + 1);
        } else {
            assert(s.skip(a.len() + i) =~= b.skip(i));
        }
    }
}

/// The first line of a text, and the rest.
pub proof fn lemma_lines_cons(a: Seq<char>, b: Seq<char>)
    requires
        !a.contains('\n'),
    ensures
        pieces::lines(a + "\n"@ + b) == seq![pieces::strip_cr(a)] + pieces::lines(b),
{
    reveal_strlit("\n");
    let s = a + "\n"@ + b;
    lemma_first_line_feed(a, b, 0);
    assert(s.subrange(0, a.len() as int) =~= a);
    lemma_lines_shift(a + "\n"@, b, 0);
}

/// A text without a line feed is one line, unless it is empty.
pub proof fn lemma_lines_single(a: Seq<char>)
    requires
        !a.contains('\n'),
    ensures
        pieces::lines(a) == (if a.len() == 0 {
            Seq::<Seq<char>>::empty()
        } else {
            seq![a]
        }),
{
    text::lemma_index_of(a, '\n', 0);
    let k = text::index_of(a, '\n', 0);
    if k < a.len() {
        assert(a.contains(a[k]));
    }
    assert(a.skip(0) =~= a);
}

/// None of the texts holds a line feed.
pub open spec fn one_line_each(v: Seq<Seq<char>>) -> bool {
    forall|i: int| 0 <= i < v.len() ==> !(#[trigger] v[i]).contains('\n')
}

/// The lines of a text hold no line feed.
pub proof fn lemma_lines_hold_no_line_feed(s: Seq<char>, i: int)
    ensures
        one_line_each(pieces::lines_from(s, i)),
    decreases s.len() - i,
{
    if 0 <= i < s.len() {
        text::lemma_index_of(s, '\n', i);
        let k = text::index_of(s, '\n', i);
        if k < s.len() {
            lemma_lines_hold_no_line_feed(s, k + 1);
            let first = pieces::strip_cr(s.subrange(i, k));
            assert forall|j: int| 0 <= j < first.len() implies first[j] != '\n' by {
                assert(first[j] == s[i + j]);
            }
            let all = pieces::lines_from(s, i);
            assert forall|j: int| 0 <= j < all.len() implies !(#[trigger] all[j]).contains(
                '\n',
            ) by {
                if j > 0 {
                    assert(all[j] == pieces::lines_from(s, k + 1)[j - 1]);
                }
            }
        } else {
            let rest = s.skip(i);
            assert forall|j: int| 0 <= j < rest.len() implies rest[j] != '\n' by {
                assert(rest[j] == s[i + j]);
            }
        }
    }
}

/// Joined texts, taken apart at the front.
pub proof fn lemma_join_cons(v: Seq<Seq<char>>, sep: Seq<char>)
    requires
        v.len() >= 2,
    ensures
        pieces::join(v, sep) == v[0] + sep + pieces::join(v.drop_first(), sep),
    decreases v.len(),
{
    if v.len() == 2 {
        assert(v.drop_last() =~= seq![v[0]]);
        assert(v.drop_first() =~= seq![v[1]]);
        assert(pieces::join(seq![v[0]], sep) == v[0]);
        assert(pieces::join(seq![v[1]], sep) == v[1]);
    } else {
        lemma_join_cons(v.drop_last(), sep);
        assert(v.drop_last().drop_first() =~= v.drop_first().drop_last());
        assert(v.drop_first().last() == v.last());
        assert(pieces::join(v, sep) =~= v[0] + sep + pieces::join(v.drop_first(), sep));
    }
}

pub open spec fn strip_cr_each(v: Seq<Seq<char>>) -> Seq<Seq<char>> {
    Seq::new(v.len(), |i: int| pieces::strip_cr(v[i]))
}

/// The lines of joined lines that end with a line feed.
pub proof fn lemma_lines_of_closed_join(v: Seq<Seq<char>>)
    requires
        v.len() > 0,
        one_line_each(v),
    ensures
        pieces::lines(pieces::join(v, "\n"@) + "\n"@) == strip_cr_each(v),
    decreases v.len(),
{
    let all = pieces::join(v, "\n"@) + "\n"@;
    if v.len() == 1 {
        assert(all =~= v[0] + "\n"@ + Seq::<char>::empty());
        lemma_lines_cons(v[0], Seq::empty());
        assert(pieces::lines(all) =~= strip_cr_each(v));
    } else {
        lemma_join_cons(v, "\n"@);
        let rest = v.drop_first();
        assert forall|i: int| 0 <= i < rest.len() implies !(#[trigger] rest[i]).contains('\n') by {
            assert(rest[i] == v[i + 1]);
        }
        lemma_lines_of_closed_join(rest);
        let tail = pieces::join(rest, "\n"@) + "\n"@;
        assert(all =~= v[0] + "\n"@ + tail);
        lemma_lines_cons(v[0], tail);
        assert(seq![pieces::strip_cr(v[0])] + strip_cr_each(rest) =~= strip_cr_each(v));
    }
}

/// The lines of joined lines.
pub proof fn lemma_lines_of_join(v: Seq<Seq<char>>)
    requires
        v.len() > 0,
        one_line_each(v),
    ensures
        pieces::lines(pieces::join(v, "\n"@)) == strip_cr_each(v.drop_last()) + (if v.last().len()
            == 0 {
            Seq::<Seq<char>>::empty()
        } else {
            seq![v.last()]
        }),
    decreases v.len(),
{
    let end = if v.last().len() == 0 {
        Seq::<Seq<char>>::empty()
    } else {
        seq![v.last()]
    };
    if v.len() == 1 {
        lemma_lines_single(v[0]);
        assert(strip_cr_each(v.drop_last()) + end =~= end);
    } else {
        lemma_join_cons(v, "\n"@);
        let rest = v.drop_first();
        assert forall|i: int| 0 <= i < rest.len() implies !(#[trigger] rest[i]).contains('\n') by {
            assert(rest[i] == v[i + 1]);
        }
        lemma_lines_of_join(rest);
        lemma_lines_cons(v[0], pieces::join(rest, "\n"@));
        assert(rest.last() == v.last());
        assert(seq![pieces::strip_cr(v[0])] + (strip_cr_each(rest.drop_last()) + end)
            =~= strip_cr_each(v.drop_last()) + end);
    }
}

/// Dropping one more empty text at the end changes nothing.
proof fn lemma_drop_empty_end_push(v: Seq<Seq<char>>, e: Seq<char>)
    requires
        e.len() == 0,
    ensures
        specfile::drop_empty_end(v.push(e)) == specfile::drop_empty_end(v),
{
    assert(v.push(e).drop_last() =~= v);
}

/// Putting lines together and taking them apart again leaves the same tidy lines.
pub proof fn lemma_tidy_lines_of_join(v: Seq<Seq<char>>)
    requires
        one_line_each(v),
    ensures
        specfile::tidy(pieces::lines(pieces::join(v, "\n"@))) == specfile::tidy(v),
{
    if v.len() == 0 {
        assert(pieces::lines(pieces::join(v, "\n"@)) =~= v);
    } else {
        lemma_lines_of_join(v);
        let got = pieces::lines(pieces::join(v, "\n"@));
        let front = v.drop_last();
        let t = specfile::trim_end_each(front);
        assert forall|i: int| 0 <= i < front.len() implies text::trim_end(
            strip_cr_each(front)[i],
        ) == #[trigger] text::trim_end(front[i]) by {
            lemma_trim_end_of_strip_cr(front[i]);
        }
        lemma_trim_end(v.last());
        let e = text::trim_end(v.last());
        assert(specfile::trim_end_each(v) =~= t.push(e));
        if v.last().len() == 0 {
            assert(specfile::trim_end_each(got) =~= t);
            lemma_drop_empty_end_push(t, e);
        } else {
            assert(specfile::trim_end_each(got) =~= t.push(e));
        }
    }
}

/// What dropping the empty texts at the end leaves: a prefix that does not end with an empty text,
/// with empty texts behind it.
pub proof fn lemma_drop_empty_end(v: Seq<Seq<char>>)
    ensures
        specfile::drop_empty_end(v).len() <= v.len(),
        specfile::drop_empty_end(v) == v.take(specfile::drop_empty_end(v).len() as int),
        specfile::drop_empty_end(v).len() > 0 ==> specfile::drop_empty_end(v).last().len() > 0,
        forall|k: int|
            specfile::drop_empty_end(v).len() <= k < v.len() ==> (#[trigger] v[k]).len() == 0,
    decreases v.len(),
{
    if v.len() > 0 && v.last().len() == 0 {
        let rest = v.drop_last();
        lemma_drop_empty_end(rest);
        let n = specfile::drop_empty_end(v).len() as int;
        assert(rest.take(n) =~= v.take(n));
        assert forall|k: int| n <= k < v.len() implies (#[trigger] v[k]).len() == 0 by {
            if k < rest.len() {
                assert(rest[k] == v[k]);
            }
        }
    } else {
        assert(v.take(v.len() as int) =~= v);
    }
}

/// Tidy lines: without white space at their ends, the last not empty.
pub open spec fn is_tidy(v: Seq<Seq<char>>) -> bool {
    &&& forall|i: int| 0 <= i < v.len() ==> text::trim_end(#[trigger] v[i]) == v[i]
    &&& v.len() > 0 ==> v.last().len() > 0
}

/// Tidying gives tidy lines, each of them the trimmed line in its place, and leaves tidy lines.
pub proof fn lemma_tidy(v: Seq<Seq<char>>)
    ensures
        is_tidy(specfile::tidy(v)),
        specfile::tidy(v).len() <= v.len(),
        forall|i: int|
            0 <= i < specfile::tidy(v).len() ==> #[trigger] specfile::tidy(v)[i] == text::trim_end(
                v[i],
            ),
        forall|i: int|
            specfile::tidy(v).len() <= i < v.len() ==> text::trim_end(#[trigger] v[i]).len() == 0,
        is_tidy(v) ==> specfile::tidy(v) == v,
        one_line_each(v) ==> one_line_each(specfile::tidy(v)),
{
    let t = specfile::trim_end_each(v);
    let d = specfile::tidy(v);
    lemma_drop_empty_end(t);
    assert forall|i: int| 0 <= i < d.len() implies #[trigger] d[i] == text::trim_end(v[i]) by {
        assert(d[i] == t[i]);
    }
    assert forall|i: int| 0 <= i < d.len() implies text::trim_end(#[trigger] d[i]) == d[i] by {
        lemma_trim_end_twice(v[i]);
    }
    assert forall|i: int| d.len() <= i < v.len() implies text::trim_end(
        #[trigger] v[i],
    ).len() == 0 by {
        assert(t[i].len() == 0);
    }
    if is_tidy(v) {
        assert(t =~= v);
    }
    if one_line_each(v) {
        assert forall|i: int| 0 <= i < d.len() implies !(#[trigger] d[i]).contains('\n') by {
            lemma_trim_end(v[i]);
            if d[i].contains('\n') {
                let k = d[i].index_of('\n');
                assert(v[i][k] == '\n');
                assert(v[i].contains('\n'));
            }
        }
    }
}

/// Tidy lines do not end with a carriage return.
pub proof fn lemma_tidy_has_no_cr(v: Seq<Seq<char>>)
    requires
        is_tidy(v),
    ensures
        strip_cr_each(v) == v,
{
    assert forall|i: int| 0 <= i < v.len() implies pieces::strip_cr(#[trigger] v[i]) == v[i] by {
        lemma_trim_end(v[i]);
        assert(text::trim_end(v[i]) == v[i]);
    }
    assert(strip_cr_each(v) =~= v);
}

/// The lines of the text of a list of lines: the tidy ones, and one empty line where there are
/// none.
pub proof fn lemma_lines_of_text(v: Seq<Seq<char>>)
    requires
        one_line_each(v),
    ensures
        pieces::lines(specfile::text_of(v)) == (if specfile::tidy(v).len() == 0 {
            seq![Seq::<char>::empty()]
        } else {
            specfile::tidy(v)
        }),
{
    lemma_tidy_lines_of_join(v);
    lemma_tidy(v);
    let t = specfile::tidy(v);
    if t.len() == 0 {
        reveal_strlit("\n");
        let empty = Seq::<char>::empty();
        assert(specfile::text_of(v) =~= empty + "\n"@ + empty);
        lemma_lines_cons(empty, empty);
        assert(pieces::lines(specfile::text_of(v)) =~= seq![empty]);
    } else {
        lemma_lines_of_closed_join(t);
        lemma_tidy_has_no_cr(t);
    }
}

/// Normalising a text twice is normalising it once.
pub proof fn law_normalize_twice(s: Seq<char>)
    ensures
        specfile::normalized(specfile::normalized(s)) == specfile::normalized(s),
{
    let v = pieces::lines(s);
    lemma_lines_hold_no_line_feed(s, 0);
    lemma_tidy(v);
    let t = specfile::tidy(v);
    if t.len() == 0 {
        reveal_strlit("\n");
        let empty = Seq::<char>::empty();
        assert(specfile::normalized(s) =~= empty + "\n"@ + empty);
        lemma_lines_cons(empty, empty);
        let w = pieces::lines(specfile::normalized(s));
        assert(w =~= seq![empty]);
        lemma_tidy(w);
        lemma_trim_end(empty);
        assert(specfile::tidy(w).len() == 0) by {
            if specfile::tidy(w).len() > 0 {
                assert(specfile::tidy(w)[0] == text::trim_end(w[0]));
            }
        }
        assert(specfile::tidy(w) =~= t);
    } else {
        lemma_lines_of_closed_join(t);
        lemma_tidy_has_no_cr(t);
        lemma_tidy(t);
    }
}

/// The lines of a normalised text are tidy, but for the text without any.
pub proof fn lemma_normal_lines(s: Seq<char>)
    requires
        specfile::normalized(s) == s,
    ensures
        is_tidy(pieces::lines(s)) || pieces::lines(s) == seq![Seq::<char>::empty()],
        specfile::trim_end_each(pieces::lines(s)) == pieces::lines(s),
{
    let v = pieces::lines(s);
    lemma_lines_hold_no_line_feed(s, 0);
    lemma_tidy(v);
    let t = specfile::tidy(v);
    if t.len() == 0 {
        reveal_strlit("\n");
        let empty = Seq::<char>::empty();
        assert(s =~= empty + "\n"@ + empty);
        lemma_lines_cons(empty, empty);
        assert(v =~= seq![empty]);
        lemma_trim_end(empty);
        assert(text::trim_end(empty) =~= empty);
        assert(specfile::trim_end_each(v) =~= v);
    } else {
        lemma_lines_of_closed_join(t);
        lemma_tidy_has_no_cr(t);
        assert(v == t);
        assert(specfile::trim_end_each(v) =~= v);
    }
}

} // verus!
