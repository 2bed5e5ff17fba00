//! Laws of texts and of lists of texts.
use vstd::prelude::*;

use crate::line_laws;
use crate::pieces;
use crate::target_laws;
use crate::text;

verus! {

/// Spaces, tabs and line ends are white space; the other ASCII characters that can be seen are not.
pub proof fn law_white_space(c: char)
    ensures
        c == ' ' || c == '\t' || c == '\n' || c == '\r' ==> text::is_white(c),
        '!' <= c && c <= '~' ==> !text::is_white(c),
{
}

/// Every text is what trimming leaves of it between white space, and what is left neither starts
/// nor ends with white space.
pub proof fn law_trimmed_text(s: Seq<char>) -> (r: (Seq<char>, Seq<char>))
    ensures
        ({
            let (a, b) = r;
            let t = text::trim(s);
            &&& s == a + t + b
            &&& forall|k: int| 0 <= k < a.len() ==> text::is_white(#[trigger] a[k])
            &&& forall|k: int| 0 <= k < b.len() ==> text::is_white(#[trigger] b[k])
            &&& t.len() > 0 ==> !text::is_white(t[0]) && !text::is_white(t.last())
        }),
{
    text::lemma_white_end(s, 0);
    let i = text::white_end(s, 0);
    let a = s.take(i);
    let u = s.skip(i);
    let n = u.len() as int;
    text::lemma_white_start(u, n);
    let j = text::white_start(u, n);
    let t = u.take(j);
    let b = u.skip(j);
    assert(s =~= a + t + b);
    if t.len() > 0 {
        assert(t[0] == s[i]);
        assert(t.last() == u[j - 1]);
    }
    (a, b)
}

/// A text that starts with a prefix is cut behind it, and no other.
pub proof fn law_prefix_is_cut_off(s: Seq<char>, p: Seq<char>, rest: Seq<char>)
    ensures
        text::strip_prefix(p + rest, p) == Some(rest),
        text::strip_prefix(s, p) == Some(rest) ==> s == p + rest,
{
    let n = p.len() as int;
    assert((p + rest).subrange(0, n) =~= p);
    assert((p + rest).skip(n) =~= rest);
    if text::strip_prefix(s, p) == Some(rest) {
        assert(s =~= s.subrange(0, n) + s.skip(n));
    }
}

/// A text that ends with a suffix is cut before it, and no other.
pub proof fn law_suffix_is_cut_off(s: Seq<char>, p: Seq<char>, rest: Seq<char>)
    ensures
        text::strip_suffix(rest + p, p) == Some(rest),
        text::strip_suffix(s, p) == Some(rest) ==> s == rest + p,
{
    let t = rest + p;
    let n = rest.len() as int;
    assert(t.subrange(n, n + p.len()) =~= p);
    assert(t.take(n) =~= rest);
    if text::strip_suffix(s, p) == Some(rest) {
        let m = s.len() - p.len();
        assert(s =~= s.take(m) + s.subrange(m, m + p.len()));
    }
}

/// A text is in another exactly where the other is something, the text and something more.
pub proof fn law_contained_text(s: Seq<char>, p: Seq<char>)
    ensures
        text::contains(s, p) <==> exists|a: Seq<char>, b: Seq<char>| s == #[trigger] (a + p + b),
{
    text::lemma_find(s, p, 0);
    if text::contains(s, p) {
        let k = text::find(s, p)->0;
        let a = s.take(k);
        let b = s.skip(k + p.len());
        assert(s =~= a + s.subrange(k, k + p.len()) + b);
        assert(s == a + p + b);
    }
    if exists|a: Seq<char>, b: Seq<char>| s == #[trigger] (a + p + b) {
        let (a, b) = choose|a: Seq<char>, b: Seq<char>| s == #[trigger] (a + p + b);
        let n = a.len() as int;
        assert(s.subrange(n, n + p.len()) =~= p);
        assert(text::occurs_at(s, p, n));
    }
}

/// A text is split at the first separator only.
pub proof fn law_text_is_split_at_the_first(a: Seq<char>, p: Seq<char>, b: Seq<char>)
    requires
        forall|j: int| 0 <= j < a.len() ==> !#[trigger] text::occurs_at(a + p + b, p, j),
    ensures
        pieces::split_once(a + p + b, p) == Some((a, b)),
{
    let s = a + p + b;
    let n = a.len() as int;
    assert(s.subrange(n, n + p.len()) =~= p);
    target_laws::lemma_find_is(s, p, n);
    assert(s.take(n) =~= a);
    assert(s.skip(n + p.len()) =~= b);
}

/// A text without the separator is not split.
pub proof fn law_text_without_separator_is_not_split(s: Seq<char>, p: Seq<char>)
    requires
        !text::contains(s, p),
    ensures
        pieces::split_once(s, p) is None,
{
}

/// Fields that do not hold the separator are read back from the text that it joins them to.
pub proof fn law_fields_are_read_back(v: Seq<Seq<char>>, c: char)
    requires
        v.len() > 0,
        forall|k: int| 0 <= k < v.len() ==> !(#[trigger] v[k]).contains(c),
    ensures
        pieces::split(pieces::join(v, seq![c]), c) == v,
{
    target_laws::lemma_split_join(v, c);
}

/// The start of a text is all of a short one, and the given number of characters of a longer one.
pub proof fn law_start_of_a_text(s: Seq<char>, rest: Seq<char>, n: int)
    requires
        s.len() <= n,
    ensures
        pieces::cap(s, n) == s,
        s.len() == n ==> pieces::cap(s + rest, n) == s,
{
    if s.len() == n {
        assert((s + rest).take(n) =~= s);
        if rest.len() == 0 {
            assert(s + rest =~= s);
        }
    }
}

/// A list without repetitions holds what the list holds, each text once.
pub proof fn law_repetitions_are_dropped(v: Seq<Seq<char>>, s: Seq<char>)
    ensures
        pieces::unique(v).contains(s) <==> v.contains(s),
        pieces::unique(v).no_duplicates(),
    decreases v.len(),
{
    if v.len() > 0 {
        let rest = v.drop_last();
        law_repetitions_are_dropped(rest, s);
        law_repetitions_are_dropped(rest, v.last());
        let u = pieces::unique(rest);
        lemma_push_contains(rest, v.last(), s);
        lemma_push_contains(u, v.last(), s);
        assert(rest.push(v.last()) =~= v);
    }
}

proof fn lemma_push_contains(v: Seq<Seq<char>>, x: Seq<char>, s: Seq<char>)
    ensures
        v.push(x).contains(s) <==> v.contains(s) || s == x,
{
    let w = v.push(x);
    assert(w[v.len() as int] == x);
    if v.contains(s) {
        assert(w[v.index_of(s)] == s);
    }
    if w.contains(s) {
        let k = w.index_of(s);
        if k < v.len() {
            assert(v[k] == s);
        }
    }
}

/// A list without repetitions stays as it is, and so does its order.
pub proof fn law_lists_without_repetitions_stay(v: Seq<Seq<char>>)
    requires
        v.no_duplicates(),
    ensures
        pieces::unique(v) == v,
    decreases v.len(),
{
    if v.len() > 0 {
        let rest = v.drop_last();
        law_lists_without_repetitions_stay(rest);
        assert(!rest.contains(v.last())) by {
            if rest.contains(v.last()) {
                let k = rest.index_of(v.last());
                assert(v[k] == v[v.len() - 1]);
            }
        }
        assert(rest.push(v.last()) =~= v);
    }
}

/// A text comes before another where it is a proper start of it, or where the first character in
/// which they differ is the smaller one.
pub proof fn law_order_of_texts(a: Seq<char>, c: char, b: Seq<char>, d: char, e: Seq<char>)
    ensures
        pieces::text_lt(a, a + seq![c] + b),
        !pieces::text_lt(a + seq![c] + b, a),
        c < d ==> pieces::text_lt(a + seq![c] + b, a + seq![d] + e),
        c < d ==> !pieces::text_lt(a + seq![d] + e, a + seq![c] + b),
    decreases a.len(),
{
    let x = a + seq![c] + b;
    let y = a + seq![d] + e;
    if a.len() > 0 {
        let t = a.drop_first();
        law_order_of_texts(t, c, b, d, e);
        assert(x.drop_first() =~= t + seq![c] + b);
        assert(y.drop_first() =~= t + seq![d] + e);
        assert(x[0] == a[0]);
        assert(y[0] == a[0]);
    } else {
        assert(x[0] == c);
        assert(y[0] == d);
    }
}

/// Lines that end with line feeds, or with carriage returns and line feeds, are read back, whether
/// or not the last one ends.
pub proof fn law_lines_are_read_back(s: Seq<char>, rest: Seq<char>)
    requires
        s.len() > 0,
        !s.contains('\n'),
        s.last() != '\r',
    ensures
        pieces::lines(s) == seq![s],
        pieces::lines(s + "\n"@ + rest) == seq![s] + pieces::lines(rest),
        pieces::lines(s + "\r\n"@ + rest) == seq![s] + pieces::lines(rest),
{
    reveal_strlit("\n");
    reveal_strlit("\r\n");
    line_laws::lemma_lines_single(s);
    line_laws::lemma_lines_cons(s, rest);
    let line = s.push('\r');
    assert(!line.contains('\n')) by {
        if line.contains('\n') {
            let k = line.index_of('\n');
            assert(s[k] == '\n');
        }
    }
    line_laws::lemma_lines_cons(line, rest);
    assert(line.drop_last() =~= s);
    assert(line + "\n"@ + rest =~= s + "\r\n"@ + rest);
}

} // verus!
