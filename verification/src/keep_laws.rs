//! Laws of what the edits of a spec leave as it is.
use vstd::prelude::*;

use crate::line_laws;
use crate::pieces;
use crate::section_laws;
use crate::spec_laws;
use crate::specfile;
use crate::text;

verus! {

/// The texts of `a` stand in `b` in the same order, perhaps with others between them.
pub open spec fn in_order(a: Seq<Seq<char>>, b: Seq<Seq<char>>) -> bool
    decreases b.len(),
{
    if a.len() == 0 {
        true
    } else if b.len() == 0 {
        false
    } else if a.last() == b.last() {
        in_order(a.drop_last(), b.drop_last())
    } else {
        in_order(a, b.drop_last())
    }
}

/// The lines that are not blank, without the white space at their ends.
pub open spec fn solid(v: Seq<Seq<char>>) -> Seq<Seq<char>>
    decreases v.len(),
{
    if v.len() == 0 {
        seq![]
    } else if text::trim_end(v.last()).len() > 0 {
        solid(v.drop_last()).push(text::trim_end(v.last()))
    } else {
        solid(v.drop_last())
    }
}

/// The lines of `s` that are not blank are lines of `t` in the same order, white space at the end
/// aside.
pub open spec fn keeps_lines(s: Seq<char>, t: Seq<char>) -> bool {
    in_order(solid(pieces::lines(s)), solid(pieces::lines(t)))
}

/// The lines of `s` in normal form, blank ones too, are lines of `t` in normal form in the same
/// order.
pub open spec fn keeps_every_line(s: Seq<char>, t: Seq<char>) -> bool {
    in_order(specfile::tidy(pieces::lines(s)), specfile::tidy(pieces::lines(t)))
}

/// What stands in order stands in order among more.
proof fn lemma_in_order_more(a: Seq<Seq<char>>, b: Seq<Seq<char>>)
    requires
        in_order(a, b),
    ensures
        a.len() > 0 ==> in_order(a.drop_last(), b),
        forall|x: Seq<char>| in_order(a, #[trigger] b.push(x)),
    decreases b.len(),
{
    if a.len() > 0 {
        if a.last() == b.last() {
            lemma_in_order_more(a.drop_last(), b.drop_last());
            assert(b.drop_last().push(b.last()) =~= b);
        } else {
            lemma_in_order_more(a, b.drop_last());
            lemma_in_order_more(a.drop_last(), b.drop_last());
            assert(b.drop_last().push(b.last()) =~= b);
        }
    }
    assert forall|x: Seq<char>| in_order(a, #[trigger] b.push(x)) by {
        assert(b.push(x).drop_last() =~= b);
    }
}

/// What stands in order in two texts stands in order in both together.
proof fn lemma_in_order_add(
    a: Seq<Seq<char>>,
    b: Seq<Seq<char>>,
    c: Seq<Seq<char>>,
    d: Seq<Seq<char>>,
)
    requires
        in_order(a, b),
        in_order(c, d),
    ensures
        in_order(a + c, b + d),
    decreases d.len(),
{
    if d.len() == 0 {
        assert(a + c =~= a);
        assert(b + d =~= b);
    } else {
        assert((b + d).last() == d.last());
        assert((b + d).drop_last() =~= b + d.drop_last());
        if c.len() == 0 {
            lemma_in_order_add(a, b, c, d.drop_last());
            lemma_in_order_more(a + c, b + d.drop_last());
            assert((b + d.drop_last()).push(d.last()) =~= b + d);
        } else {
            assert((a + c).last() == c.last());
            assert((a + c).drop_last() =~= a + c.drop_last());
            if c.last() == d.last() {
                lemma_in_order_add(a, b, c.drop_last(), d.drop_last());
            } else {
                lemma_in_order_add(a, b, c, d.drop_last());
            }
        }
    }
}

proof fn lemma_in_order_itself(a: Seq<Seq<char>>)
    ensures
        in_order(a, a),
    decreases a.len(),
{
    if a.len() > 0 {
        lemma_in_order_itself(a.drop_last());
    }
}

/// What stands in order stands in places that follow each other.
pub proof fn law_in_order_places(a: Seq<Seq<char>>, b: Seq<Seq<char>>, i: int, j: int)
    requires
        in_order(a, b),
        0 <= i < j < a.len(),
    ensures
        exists|p: int, q: int|
            0 <= p < q < b.len() && #[trigger] b[p] == a[i] && #[trigger] b[q] == a[j],
    decreases b.len(),
{
    let rest = b.drop_last();
    if a.last() == b.last() && j == a.len() - 1 {
        let p = lemma_in_order_place(a.drop_last(), rest, i);
        assert(b[p] == a[i] && b[b.len() - 1] == a[j]);
    } else {
        let c = if a.last() == b.last() {
            a.drop_last()
        } else {
            a
        };
        law_in_order_places(c, rest, i, j);
        let (p, q) = choose|p: int, q: int|
            0 <= p < q < rest.len() && #[trigger] rest[p] == c[i] && #[trigger] rest[q] == c[j];
        assert(b[p] == a[i] && b[q] == a[j]);
    }
}

proof fn lemma_in_order_place(a: Seq<Seq<char>>, b: Seq<Seq<char>>, i: int) -> (p: int)
    requires
        in_order(a, b),
        0 <= i < a.len(),
    ensures
        0 <= p < b.len(),
        b[p] == a[i],
    decreases b.len(),
{
    if a.last() == b.last() {
        if i == a.len() - 1 {
            b.len() - 1
        } else {
            lemma_in_order_place(a.drop_last(), b.drop_last(), i)
        }
    } else {
        lemma_in_order_place(a, b.drop_last(), i)
    }
}

/// What stands in order stands in order without the empty texts at the end.
proof fn lemma_in_order_drop(a: Seq<Seq<char>>, b: Seq<Seq<char>>)
    requires
        in_order(a, b),
    ensures
        in_order(specfile::drop_empty_end(a), specfile::drop_empty_end(b)),
    decreases a.len() + b.len(),
{
    if b.len() > 0 && b.last().len() == 0 {
        if a.len() > 0 && a.last().len() == 0 {
            assert(a.last() =~= b.last());
            lemma_in_order_drop(a.drop_last(), b.drop_last());
        } else {
            lemma_in_order_drop(a, b.drop_last());
        }
    } else if a.len() > 0 && a.last().len() == 0 {
        lemma_in_order_more(a, b);
        lemma_in_order_drop(a.drop_last(), b);
    }
}

proof fn lemma_in_order_solid(a: Seq<Seq<char>>, b: Seq<Seq<char>>)
    requires
        in_order(a, b),
    ensures
        in_order(solid(a), solid(b)),
    decreases b.len(),
{
    if a.len() > 0 {
        if a.last() == b.last() {
            lemma_in_order_solid(a.drop_last(), b.drop_last());
            let x = solid(a.drop_last());
            let y = solid(b.drop_last());
            let e = text::trim_end(a.last());
            assert(x.push(e).drop_last() =~= x);
            assert(y.push(e).drop_last() =~= y);
        } else {
            lemma_in_order_solid(a, b.drop_last());
            lemma_in_order_more(solid(a), solid(b.drop_last()));
        }
    }
}

/// A text that keeps every line keeps those that are not blank.
pub proof fn lemma_every_line_is_more(s: Seq<char>, t: Seq<char>)
    requires
        keeps_every_line(s, t),
    ensures
        keeps_lines(s, t),
{
    lemma_in_order_solid(specfile::tidy(pieces::lines(s)), specfile::tidy(pieces::lines(t)));
    lemma_solid_tidy(pieces::lines(s));
    lemma_solid_tidy(pieces::lines(t));
}

proof fn lemma_solid_add(a: Seq<Seq<char>>, b: Seq<Seq<char>>)
    ensures
        solid(a + b) == solid(a) + solid(b),
    decreases b.len(),
{
    if b.len() == 0 {
        assert(a + b =~= a);
        assert(solid(a) + solid(b) =~= solid(a));
    } else {
        assert((a + b).last() == b.last());
        assert((a + b).drop_last() =~= a + b.drop_last());
        lemma_solid_add(a, b.drop_last());
        assert(solid(a + b) =~= solid(a) + solid(b));
    }
}

proof fn lemma_solid_blank(v: Seq<Seq<char>>)
    requires
        forall|i: int| 0 <= i < v.len() ==> text::trim_end(#[trigger] v[i]).len() == 0,
    ensures
        solid(v) == Seq::<Seq<char>>::empty(),
    decreases v.len(),
{
    if v.len() > 0 {
        let rest = v.drop_last();
        assert forall|i: int| 0 <= i < rest.len() implies text::trim_end(
            #[trigger] rest[i],
        ).len() == 0 by {
            assert(rest[i] == v[i]);
        }
        lemma_solid_blank(rest);
        assert(text::trim_end(v[v.len() - 1]).len() == 0);
    }
}

proof fn lemma_solid_trimmed(v: Seq<Seq<char>>)
    ensures
        solid(specfile::trim_end_each(v)) == solid(v),
    decreases v.len(),
{
    if v.len() > 0 {
        let w = specfile::trim_end_each(v);
        lemma_solid_trimmed(v.drop_last());
        line_laws::lemma_trim_end_twice(v.last());
        assert(w.drop_last() =~= specfile::trim_end_each(v.drop_last()));
        assert(w.last() == text::trim_end(v.last()));
    }
}

proof fn lemma_solid_tidy(v: Seq<Seq<char>>)
    ensures
        solid(specfile::tidy(v)) == solid(v),
{
    let t = specfile::trim_end_each(v);
    let d = specfile::tidy(v);
    lemma_solid_trimmed(v);
    line_laws::lemma_drop_empty_end(t);
    let n = d.len() as int;
    assert(d + t.skip(n) =~= t);
    assert forall|i: int| 0 <= i < t.skip(n).len() implies text::trim_end(
        #[trigger] t.skip(n)[i],
    ).len() == 0 by {
        assert(t.skip(n)[i] == t[n + i]);
        line_laws::lemma_trim_end(t[n + i]);
    }
    lemma_solid_blank(t.skip(n));
    lemma_solid_add(d, t.skip(n));
    assert(solid(d) + solid(t.skip(n)) =~= solid(d));
}

/// The lines of texts that may be several lines each.
spec fn flat(v: Seq<Seq<char>>) -> Seq<Seq<char>>
    decreases v.len(),
{
    if v.len() == 0 {
        seq![]
    } else {
        flat(v.drop_last()) + pieces::split(v.last(), '\n')
    }
}

proof fn lemma_flat(v: Seq<Seq<char>>)
    requires
        v.len() > 0,
    ensures
        flat(v).len() > 0,
        pieces::join(flat(v), "\n"@) == pieces::join(v, "\n"@),
        line_laws::one_line_each(flat(v)),
    decreases v.len(),
{
    reveal_strlit("\n");
    assert("\n"@ =~= seq!['\n']);
    let rest = v.drop_last();
    let parts = pieces::split(v.last(), '\n');
    section_laws::lemma_join_split(v.last(), '\n', 0);
    assert(v.last().skip(0) =~= v.last());
    if rest.len() == 0 {
        assert(flat(rest) =~= seq![]);
        assert(flat(v) =~= parts);
    } else {
        lemma_flat(rest);
        section_laws::lemma_join_add(flat(rest), parts, "\n"@);
        section_laws::lemma_join_add(rest, seq![v.last()], "\n"@);
        assert(rest + seq![v.last()] =~= v);
    }
    assert forall|i: int| 0 <= i < flat(v).len() implies !(#[trigger] flat(v)[i]).contains('\n') by {
        if i < flat(rest).len() {
            assert(flat(v)[i] == flat(rest)[i]);
        } else {
            assert(flat(v)[i] == parts[i - flat(rest).len()]);
        }
    }
}

proof fn lemma_flat_add(a: Seq<Seq<char>>, b: Seq<Seq<char>>)
    ensures
        flat(a + b) == flat(a) + flat(b),
    decreases b.len(),
{
    if b.len() == 0 {
        assert(a + b =~= a);
        assert(flat(a) + flat(b) =~= flat(a));
    } else {
        assert((a + b).last() == b.last());
        assert((a + b).drop_last() =~= a + b.drop_last());
        lemma_flat_add(a, b.drop_last());
        assert(flat(a + b) =~= flat(a) + flat(b));
    }
}

proof fn lemma_flat_is(v: Seq<Seq<char>>)
    requires
        line_laws::one_line_each(v),
    ensures
        flat(v) == v,
    decreases v.len(),
{
    if v.len() > 0 {
        let rest = v.drop_last();
        assert forall|i: int| 0 <= i < rest.len() implies !(#[trigger] rest[i]).contains('\n') by {
            assert(rest[i] == v[i]);
        }
        lemma_flat_is(rest);
        let x = v[v.len() - 1];
        let parts = pieces::split(x, '\n');
        text::lemma_index_of(x, '\n', 0);
        assert(x.skip(0) =~= x);
        assert(x.subrange(0, x.len() as int) =~= x);
        assert(parts =~= seq![x]);
        assert(flat(v) =~= v);
    }
}

/// The lines of a text that is made of texts that may be several lines each.
proof fn lemma_solid_text(all: Seq<Seq<char>>)
    requires
        all.len() > 0,
    ensures
        solid(pieces::lines(specfile::text_of(all))) == solid(flat(all)),
{
    lemma_flat(all);
    line_laws::lemma_lines_of_text(flat(all));
    lemma_solid_tidy(flat(all));
    let t = specfile::tidy(flat(all));
    if t.len() == 0 {
        let empty = seq![Seq::<char>::empty()];
        line_laws::lemma_trim_end(empty[0]);
        lemma_solid_blank(empty);
        assert(solid(t) =~= solid(empty));
    }
}

/// A text that is made of lines, some more, and further lines keeps the first and the last.
proof fn lemma_kept_around(
    a: Seq<Seq<char>>,
    more: Seq<Seq<char>>,
    b: Seq<Seq<char>>,
)
    requires
        line_laws::one_line_each(a),
        line_laws::one_line_each(b),
    ensures
        in_order(solid(a + b), solid(flat(a + more + b))),
{
    let none = Seq::<Seq<char>>::empty();
    lemma_flat_add(a, more);
    lemma_flat_add(a + more, b);
    lemma_flat_is(a);
    lemma_flat_is(b);
    lemma_solid_add(a, flat(more));
    lemma_solid_add(a + flat(more), b);
    lemma_solid_add(a, b);
    lemma_in_order_itself(solid(a));
    lemma_in_order_itself(solid(b));
    lemma_in_order_add(solid(a), solid(a), none, solid(flat(more)));
    assert(solid(a) + none =~= solid(a));
    lemma_in_order_add(solid(a), solid(a) + solid(flat(more)), solid(b), solid(b));
}

/// As [`lemma_solid_text`], blank lines included.
proof fn lemma_tidy_text(all: Seq<Seq<char>>)
    requires
        all.len() > 0,
    ensures
        specfile::tidy(pieces::lines(specfile::text_of(all))) == specfile::tidy(flat(all)),
{
    lemma_flat(all);
    line_laws::lemma_lines_of_text(flat(all));
    let t = specfile::tidy(flat(all));
    line_laws::lemma_tidy(flat(all));
    line_laws::lemma_tidy(t);
    if t.len() == 0 {
        let empty = seq![Seq::<char>::empty()];
        line_laws::lemma_trim_end(empty[0]);
        line_laws::lemma_tidy(empty);
        let e = specfile::tidy(empty);
        if e.len() > 0 {
            assert(e[0] == text::trim_end(empty[0]));
            assert(e.last().len() > 0);
        }
        assert(e =~= t);
    }
}

/// As [`lemma_kept_around`], blank lines included.
proof fn lemma_all_kept_around(
    a: Seq<Seq<char>>,
    more: Seq<Seq<char>>,
    b: Seq<Seq<char>>,
)
    requires
        line_laws::one_line_each(a),
        line_laws::one_line_each(b),
    ensures
        in_order(specfile::tidy(a + b), specfile::tidy(flat(a + more + b))),
{
    let none = Seq::<Seq<char>>::empty();
    let x = specfile::trim_end_each(a);
    let y = specfile::trim_end_each(b);
    let z = specfile::trim_end_each(flat(more));
    lemma_flat_add(a, more);
    lemma_flat_add(a + more, b);
    lemma_flat_is(a);
    lemma_flat_is(b);
    section_laws::lemma_trim_end_each_add(a, flat(more));
    section_laws::lemma_trim_end_each_add(a + flat(more), b);
    section_laws::lemma_trim_end_each_add(a, b);
    lemma_in_order_itself(x);
    lemma_in_order_itself(y);
    lemma_in_order_add(x, x, none, z);
    assert(x + none =~= x);
    lemma_in_order_add(x, x + z, y, y);
    lemma_in_order_drop(x + y, x + z + y);
}

proof fn lemma_one_line_parts(v: Seq<Seq<char>>, i: int, j: int)
    requires
        line_laws::one_line_each(v),
        0 <= i <= j <= v.len(),
    ensures
        line_laws::one_line_each(v.subrange(i, j)),
{
    assert forall|k: int| 0 <= k < v.subrange(i, j).len() implies !(#[trigger] v.subrange(
        i,
        j,
    )[k]).contains('\n') by {
        assert(v.subrange(i, j)[k] == v[i + k]);
    }
}

pub proof fn lemma_keeps_itself(s: Seq<char>)
    ensures
        keeps_lines(s, s),
        keeps_every_line(s, s),
{
    lemma_in_order_itself(solid(pieces::lines(s)));
    lemma_in_order_itself(specfile::tidy(pieces::lines(s)));
}

proof fn lemma_with_lines_kept(s: Seq<char>, at: int, more: Seq<Seq<char>>)
    requires
        0 <= at <= pieces::lines(s).len(),
        more.len() > 0,
    ensures
        keeps_every_line(s, specfile::text_of(specfile::with_lines(pieces::lines(s), at, more))),
{
    let v = pieces::lines(s);
    line_laws::lemma_lines_hold_no_line_feed(s, 0);
    lemma_one_line_parts(v, 0, at);
    lemma_one_line_parts(v, at, v.len() as int);
    assert(v.take(at) =~= v.subrange(0, at));
    assert(v.skip(at) =~= v.subrange(at, v.len() as int));
    assert(v.take(at) + v.skip(at) =~= v);
    lemma_all_kept_around(v.take(at), more, v.skip(at));
    lemma_tidy_text(specfile::with_lines(v, at, more));
}

/// Adding build requirements takes no line away, blank ones included, and the lines stay
/// in order.
pub proof fn law_buildrequires_keep_lines(s: Seq<char>, deps: Seq<Seq<char>>)
    ensures
        keeps_every_line(s, specfile::with_buildrequires(s, deps)),
{
    let v = pieces::lines(s);
    let added = specfile::new_requirements(specfile::known_requirements(v), deps);
    if added.len() == 0 {
        lemma_keeps_itself(s);
    } else {
        spec_laws::lemma_line_from(v, "%"@, 0);
        spec_laws::lemma_line_before(v, "BuildRequires:"@, v.len() as int);
        lemma_with_lines_kept(
            s,
            specfile::requirement_place(v),
            pieces::prefix_each("BuildRequires:  "@, added),
        );
    }
}

/// Excluding modules from the check takes no line away, blank ones included, and the lines stay
/// in order.
pub proof fn law_checks_keep_lines(s: Seq<char>, exclusions: Seq<Seq<char>>)
    ensures
        keeps_every_line(s, specfile::with_checks(s, exclusions)),
{
    let v = pieces::lines(s);
    let added = specfile::check_options(specfile::exclusions_of(v), exclusions);
    if added.len() == 0 {
        lemma_keeps_itself(s);
    } else {
        spec_laws::lemma_check_place(v);
        lemma_with_lines_kept(s, specfile::check_place(v), added);
    }
}

/// Adding an empty check section takes no line away, blank ones included, and the lines stay
/// in order.
pub proof fn law_check_section_keeps_lines(s: Seq<char>, comment: Seq<char>)
    ensures
        keeps_every_line(s, specfile::with_check_section(s, comment)),
{
    let v = pieces::lines(s);
    if specfile::has_check(v) {
        lemma_keeps_itself(s);
    } else {
        spec_laws::lemma_line_from(v, "%files"@, 0);
        spec_laws::lemma_line_from(v, "%changelog"@, 0);
        lemma_with_lines_kept(
            s,
            specfile::check_section_place(v),
            specfile::check_section(comment),
        );
    }
}

/// A line that is not blank has something before the white space at its end.
proof fn lemma_blank_line(line: Seq<char>)
    requires
        specfile::is_blank(line),
    ensures
        text::trim_end(line).len() == 0,
{
    let e = text::trim_end(line);
    line_laws::lemma_trim_of_trim_end(line);
    line_laws::lemma_trim_end(line);
    if e.len() > 0 {
        let a = text::trim_start(e);
        line_laws::lemma_trim_start(e);
        line_laws::lemma_trim_end(a);
        assert(a.len() > 0) by {
            if a.len() == 0 {
                assert(text::is_white(e[e.len() - 1]));
            }
        }
        assert(a.last() == e.last());
        assert(text::trim_end(a).len() > 0) by {
            if text::trim_end(a).len() == 0 {
                assert(text::is_white(a[a.len() - 1]));
            }
        }
    }
}

/// Adding entries to the file list takes no line away that is not blank, and the lines stay in
/// order.
pub proof fn law_files_keep_lines(s: Seq<char>, files: Seq<Seq<char>>)
    ensures
        keeps_lines(s, specfile::with_files(s, files)),
{
    let v = pieces::lines(s);
    let entries = specfile::file_entries(files);
    let at = specfile::line_from(v, "%files"@, 0);
    spec_laws::lemma_line_from(v, "%files"@, 0);
    if entries.len() == 0 {
        lemma_keeps_itself(s);
    } else if at >= v.len() {
        let none = Seq::<Seq<char>>::empty();
        let more = seq!["%files"@] + entries;
        line_laws::lemma_lines_hold_no_line_feed(s, 0);
        assert(v.push("%files"@) + entries =~= v + more + none);
        assert(v + none =~= v);
        lemma_kept_around(v, more, none);
        lemma_solid_text(v + more + none);
    } else {
        let end = specfile::section_end(v, at + 1);
        let added = specfile::unlisted(v.subrange(at + 1, end), entries);
        section_laws::lemma_section_end(v, at + 1);
        section_laws::lemma_blank_end(v, at + 1);
        if added.len() == 0 {
            lemma_keeps_itself(s);
        } else {
            lemma_entries_kept(s, at, added);
        }
    }
}

/// The line that is put before a section is empty.
proof fn lemma_gap_is_empty(v: Seq<Seq<char>>, at: int)
    ensures
        solid(flat(specfile::with_gap(v, at))) == solid(flat(v)),
        specfile::with_gap(v, at).len() >= v.len(),
{
    let all = specfile::with_gap(v, at);
    let gap = seq![Seq::<char>::empty()];
    if at < v.len() && at > 0 && !specfile::is_blank(v[at - 1]) {
        let x = v.take(at);
        let y = v.skip(at);
        assert(all =~= x + gap + y);
        assert(x + y =~= v);
        line_laws::lemma_trim_end(gap[0]);
        lemma_solid_blank(gap);
        lemma_flat_is(gap);
        lemma_flat_add(x, gap);
        lemma_flat_add(x + gap, y);
        lemma_flat_add(x, y);
        lemma_solid_add(flat(x), gap);
        lemma_solid_add(flat(x) + gap, flat(y));
        lemma_solid_add(flat(x), flat(y));
        assert(solid(flat(x)) + Seq::<Seq<char>>::empty() =~= solid(flat(x)));
    }
}

/// Entries that are put into the file list at line `at` leave the other lines in order.
proof fn lemma_entries_kept(s: Seq<char>, at: int, added: Seq<Seq<char>>)
    requires
        0 <= at < pieces::lines(s).len(),
        added.len() > 0,
    ensures
        keeps_lines(s, specfile::text_of(specfile::with_entries(pieces::lines(s), at, added))),
{
    let v = pieces::lines(s);
    let end = specfile::section_end(v, at + 1);
    let gap = specfile::blank_end(v, at + 1);
    section_laws::lemma_section_end(v, at + 1);
    section_laws::lemma_blank_end(v, at + 1);
    line_laws::lemma_lines_hold_no_line_feed(s, 0);
    let (m, n) = if gap >= end {
        (at + 1, gap)
    } else {
        (end, end)
    };
    let a = v.take(m);
    let b = v.skip(n);
    let filled = a + added + b;
    let next = specfile::section_end(filled, at + 1);
    section_laws::lemma_section_end(filled, at + 1);
    let all = specfile::with_entries(v, at, added);
    assert(all == specfile::with_gap(filled, next));
    lemma_one_line_parts(v, 0, m);
    lemma_one_line_parts(v, n, v.len() as int);
    assert(a =~= v.subrange(0, m));
    assert(b =~= v.subrange(n, v.len() as int));
    lemma_kept_around(a, added, b);
    // The lines that are left out are blank.
    let blank = v.subrange(m, n);
    assert forall|i: int| 0 <= i < blank.len() implies text::trim_end(
        #[trigger] blank[i],
    ).len() == 0 by {
        assert(blank[i] == v[m + i]);
        lemma_blank_line(v[m + i]);
    }
    lemma_solid_blank(blank);
    lemma_solid_add(a, blank);
    lemma_solid_add(a + blank, b);
    lemma_solid_add(a, b);
    assert(a + blank + b =~= v);
    assert(solid(a) + Seq::<Seq<char>>::empty() =~= solid(a));
    lemma_gap_is_empty(filled, next);
    lemma_solid_text(all);
}

/// How many blank lines an empty file list at line `at` has before the next section.
pub open spec fn list_gap(v: Seq<Seq<char>>, at: int) -> int {
    let gap = specfile::blank_end(v, at + 1);
    if gap >= specfile::section_end(v, at + 1) && gap < v.len() {
        gap - (at + 1)
    } else {
        0
    }
}

/// Adding entries to the file list takes no line away, blank ones included, and the lines stay in
/// order, as long as no more than one blank line stands between an empty file list that gets entries
/// and the next section.
pub proof fn law_files_keep_every_line(s: Seq<char>, files: Seq<Seq<char>>)
    requires
        specfile::file_entries(files).len() == 0 || list_gap(
            pieces::lines(s),
            specfile::line_from(pieces::lines(s), "%files"@, 0),
        ) <= 1,
    ensures
        keeps_every_line(s, specfile::with_files(s, files)),
{
    let v = pieces::lines(s);
    let entries = specfile::file_entries(files);
    let at = specfile::line_from(v, "%files"@, 0);
    spec_laws::lemma_line_from(v, "%files"@, 0);
    if entries.len() == 0 {
        lemma_keeps_itself(s);
    } else if at >= v.len() {
        let none = Seq::<Seq<char>>::empty();
        let more = seq!["%files"@] + entries;
        line_laws::lemma_lines_hold_no_line_feed(s, 0);
        assert(v.push("%files"@) + entries =~= v + more + none);
        assert(v + none =~= v);
        lemma_all_kept_around(v, more, none);
        lemma_tidy_text(v + more + none);
    } else {
        let end = specfile::section_end(v, at + 1);
        let added = specfile::unlisted(v.subrange(at + 1, end), entries);
        section_laws::lemma_section_end(v, at + 1);
        section_laws::lemma_blank_end(v, at + 1);
        if added.len() == 0 {
            lemma_keeps_itself(s);
        } else {
            assert forall|k: int| 0 <= k < added.len() implies section_laws::is_plain(
                #[trigger] added[k],
            ) by {
                let i = section_laws::lemma_unlisted_from(v.subrange(at + 1, end), entries, k);
                section_laws::lemma_file_entries_plain(files, i);
            }
            lemma_entries_keep_all(s, at, added);
        }
    }
}

proof fn lemma_drop_all_empty(a: Seq<Seq<char>>, b: Seq<Seq<char>>)
    requires
        forall|k: int| 0 <= k < b.len() ==> (#[trigger] b[k]).len() == 0,
    ensures
        specfile::drop_empty_end(a + b) == specfile::drop_empty_end(a),
    decreases b.len(),
{
    if b.len() > 0 {
        let rest = b.drop_last();
        assert forall|k: int| 0 <= k < rest.len() implies (#[trigger] rest[k]).len() == 0 by {
            assert(rest[k] == b[k]);
        }
        lemma_drop_all_empty(a, rest);
        assert((a + b).last() == b[b.len() - 1]);
        assert((a + b).drop_last() =~= a + rest);
    } else {
        assert(a + b =~= a);
    }
}

proof fn lemma_entries_keep_all(s: Seq<char>, at: int, added: Seq<Seq<char>>)
    requires
        0 <= at < pieces::lines(s).len(),
        added.len() > 0,
        forall|k: int| 0 <= k < added.len() ==> section_laws::is_plain(#[trigger] added[k]),
        list_gap(pieces::lines(s), at) <= 1,
    ensures
        keeps_every_line(s, specfile::text_of(specfile::with_entries(pieces::lines(s), at, added))),
{
    let v = pieces::lines(s);
    let end = specfile::section_end(v, at + 1);
    let gap = specfile::blank_end(v, at + 1);
    section_laws::lemma_section_end(v, at + 1);
    section_laws::lemma_blank_end(v, at + 1);
    line_laws::lemma_lines_hold_no_line_feed(s, 0);
    let all = specfile::with_entries(v, at, added);
    let none = Seq::<Seq<char>>::empty();
    let empty = seq![Seq::<char>::empty()];
    if gap >= end && gap > at + 1 {
        // The blank lines go, and one comes back behind the entries.
        let a = v.subrange(0, at + 1);
        let b = v.subrange(gap, v.len() as int);
        let filled = v.take(at + 1) + added + v.skip(gap);
        lemma_one_line_parts(v, 0, at + 1);
        lemma_one_line_parts(v, gap, v.len() as int);
        assert(filled =~= a + added + b);
        lemma_list_end(v, filled, at, added);
        let blank = v.subrange(at + 1, gap);
        assert(v =~= a + blank + b);
        let y = specfile::trim_end_each(blank);
        assert forall|k: int| 0 <= k < y.len() implies (#[trigger] y[k]).len() == 0 by {
            assert(blank[k] == v[at + 1 + k]);
            lemma_blank_line(v[at + 1 + k]);
        }
        section_laws::lemma_trim_end_each_add(a, blank);
        section_laws::lemma_trim_end_each_add(a + blank, b);
        if b.len() > 0 {
            assert(all =~= a + added + (empty + b));
            assert forall|i: int| 0 <= i < (empty + b).len() implies !(#[trigger] (empty
                + b)[i]).contains('\n') by {
                if i > 0 {
                    assert((empty + b)[i] == b[i - 1]);
                }
            }
            lemma_all_kept_around(a, added, empty + b);
            line_laws::lemma_trim_end(empty[0]);
            assert(specfile::trim_end_each(empty) =~= empty) by {
                assert(text::trim_end(empty[0]) =~= empty[0]);
            }
            section_laws::lemma_trim_end_each_add(empty, b);
            section_laws::lemma_trim_end_each_add(a, empty + b);
            assert(y =~= empty) by {
                assert(y[0] =~= empty[0]);
            }
            assert(specfile::trim_end_each(v) =~= specfile::trim_end_each(a + (empty + b)));
        } else {
            assert(all =~= a + added + none);
            lemma_all_kept_around(a, added, none);
            assert(a + none =~= a);
            let x = specfile::trim_end_each(a);
            assert(specfile::trim_end_each(v) =~= x + y);
            lemma_drop_all_empty(x, y);
            assert(specfile::tidy(v) == specfile::tidy(a));
        }
    } else {
        let m = if gap >= end {
            at + 1
        } else {
            end
        };
        let a = v.subrange(0, m);
        let b = v.subrange(m, v.len() as int);
        let filled = a + added + b;
        let next = specfile::section_end(filled, at + 1);
        section_laws::lemma_section_end(filled, at + 1);
        lemma_one_line_parts(v, 0, m);
        lemma_one_line_parts(v, m, v.len() as int);
        if gap >= end {
            assert(v.take(at + 1) + added + v.skip(gap) =~= filled);
        } else {
            assert(specfile::with_lines(v, end, added) =~= filled);
        }
        assert(all == specfile::with_gap(filled, next));
        assert(a + b =~= v);
        lemma_all_kept_around(a, added, b);
        lemma_gap_keeps(filled, next, v);
    }
    lemma_tidy_text(all);
}

/// What stands in order among lines stands in order when an empty one is put before a section.
proof fn lemma_gap_keeps(filled: Seq<Seq<char>>, at: int, v: Seq<Seq<char>>)
    requires
        in_order(specfile::tidy(v), specfile::tidy(flat(filled))),
    ensures
        in_order(specfile::tidy(v), specfile::tidy(flat(specfile::with_gap(filled, at)))),
        specfile::with_gap(filled, at).len() >= filled.len(),
{
    let all = specfile::with_gap(filled, at);
    let empty = seq![Seq::<char>::empty()];
    let none = Seq::<Seq<char>>::empty();
    if at < filled.len() && at > 0 && !specfile::is_blank(filled[at - 1]) {
        let x = filled.take(at);
        let y = filled.skip(at);
        assert(all =~= x + empty + y);
        assert(x + y =~= filled);
        lemma_flat_add(x, empty);
        lemma_flat_add(x + empty, y);
        lemma_flat_add(x, y);
        let p = specfile::trim_end_each(flat(x));
        let q = specfile::trim_end_each(flat(empty));
        let r = specfile::trim_end_each(flat(y));
        section_laws::lemma_trim_end_each_add(flat(x), flat(empty));
        section_laws::lemma_trim_end_each_add(flat(x) + flat(empty), flat(y));
        section_laws::lemma_trim_end_each_add(flat(x), flat(y));
        lemma_in_order_itself(p);
        lemma_in_order_itself(r);
        lemma_in_order_add(p, p, none, q);
        assert(p + none =~= p);
        lemma_in_order_add(p, p + q, r, r);
        lemma_in_order_drop(p + r, p + q + r);
        lemma_in_order_chain(
            specfile::tidy(v),
            specfile::tidy(flat(filled)),
            specfile::tidy(flat(all)),
        );
    }
}

/// What stands in order in what stands in order stands in order.
proof fn lemma_in_order_chain(a: Seq<Seq<char>>, b: Seq<Seq<char>>, c: Seq<Seq<char>>)
    requires
        in_order(a, b),
        in_order(b, c),
    ensures
        in_order(a, c),
    decreases c.len(),
{
    if a.len() > 0 {
        if b.last() == c.last() {
            if a.last() == b.last() {
                lemma_in_order_chain(a.drop_last(), b.drop_last(), c.drop_last());
            } else {
                lemma_in_order_chain(a, b.drop_last(), c.drop_last());
            }
        } else {
            lemma_in_order_chain(a, b, c.drop_last());
            lemma_in_order_more(a, c.drop_last());
            assert(c.drop_last().push(c.last()) =~= c);
        }
    }
}

/// Where an empty file list has got entries, the next section follows them, and an empty line is
/// put between.
proof fn lemma_list_end(v: Seq<Seq<char>>, filled: Seq<Seq<char>>, at: int, added: Seq<Seq<char>>)
    requires
        0 <= at < v.len(),
        added.len() > 0,
        forall|k: int| 0 <= k < added.len() ==> section_laws::is_plain(#[trigger] added[k]),
        specfile::blank_end(v, at + 1) >= specfile::section_end(v, at + 1),
        filled == v.take(at + 1) + added + v.skip(specfile::blank_end(v, at + 1)),
    ensures
        ({
            let gap = specfile::blank_end(v, at + 1);
            let all = specfile::with_entries(v, at, added);
            if gap < v.len() {
                all == v.take(at + 1) + added + seq![Seq::<char>::empty()] + v.skip(gap)
            } else {
                all == filled
            }
        }),
{
    let gap = specfile::blank_end(v, at + 1);
    let end = specfile::section_end(v, at + 1);
    section_laws::lemma_section_end(v, at + 1);
    section_laws::lemma_blank_end(v, at + 1);
    let next = at + 1 + added.len();
    assert forall|k: int| at + 1 <= k < next implies !specfile::starts_section(
        #[trigger] filled[k],
    ) by {
        assert(filled[k] == added[k - at - 1]);
        assert(section_laws::is_plain(added[k - at - 1]));
    }
    if end < gap {
        section_laws::lemma_header_is_not_blank(v[end]);
    }
    if gap < v.len() {
        assert(filled[next] == v[gap]);
    }
    section_laws::lemma_section_end_is(filled, at + 1, next);
    let last = added[added.len() - 1];
    assert(section_laws::is_plain(last));
    assert(filled[next - 1] == last);
    line_laws::lemma_trim(last);
    if gap < v.len() {
        assert(specfile::with_entries(v, at, added) =~= v.take(at + 1) + added
            + seq![Seq::<char>::empty()] + v.skip(gap));
    }
}

proof fn lemma_arch_lines_one_line(v: Seq<Seq<char>>)
    requires
        line_laws::one_line_each(v),
    ensures
        line_laws::one_line_each(specfile::arch_lines(v)),
    decreases v.len(),
{
    if v.len() > 0 {
        let rest = v.drop_last();
        assert forall|i: int| 0 <= i < rest.len() implies !(#[trigger] rest[i]).contains('\n') by {
            assert(rest[i] == v[i]);
        }
        lemma_arch_lines_one_line(rest);
        let last = v[v.len() - 1];
        assert(!last.contains('\n'));
    }
}

/// Making a package depend on the architecture takes only the lines away that say that it does not
/// and what it provides, and the others stay in order.
pub proof fn law_remove_noarch_keeps_lines(s: Seq<char>)
    ensures
        in_order(
            specfile::tidy(specfile::arch_lines(pieces::lines(s))),
            specfile::tidy(pieces::lines(specfile::without_noarch(s))),
        ),
{
    let v = specfile::arch_lines(pieces::lines(s));
    let at = specfile::provides_place(v);
    line_laws::lemma_lines_hold_no_line_feed(s, 0);
    lemma_arch_lines_one_line(pieces::lines(s));
    section_laws::lemma_provides_place(v);
    lemma_one_line_parts(v, 0, at);
    lemma_one_line_parts(v, at, v.len() as int);
    assert(v.take(at) =~= v.subrange(0, at));
    assert(v.skip(at) =~= v.subrange(at, v.len() as int));
    assert(v.take(at) + v.skip(at) =~= v);
    lemma_all_kept_around(v.take(at), specfile::arch_provides(), v.skip(at));
    lemma_tidy_text(specfile::with_lines(v, at, specfile::arch_provides()));
}

/// The lines of a spec without the line that a value of `tag` would replace.
pub open spec fn without_tag(s: Seq<char>, tag: Seq<char>) -> Seq<Seq<char>> {
    let v = pieces::lines(s);
    let at = specfile::line_from(v, tag + ":"@, 0);
    if at < v.len() {
        v.remove(at)
    } else {
        v
    }
}

/// Setting a tag changes no line but that of the tag, and the others stay in order.
pub proof fn law_tag_keeps_lines(s: Seq<char>, tag: Seq<char>, value: Seq<char>)
    ensures
        in_order(
            specfile::tidy(without_tag(s, tag)),
            specfile::tidy(pieces::lines(specfile::with_tag(s, tag, value))),
        ),
{
    let v = pieces::lines(s);
    let key = tag + ":"@;
    let line = seq![specfile::tag_line(tag, value)];
    line_laws::lemma_lines_hold_no_line_feed(s, 0);
    spec_laws::lemma_line_from(v, key, 0);
    spec_laws::lemma_line_from(v, "%"@, 0);
    let known = specfile::line_from(v, key, 0) < v.len();
    let m = if known {
        specfile::line_from(v, key, 0)
    } else {
        specfile::line_from(v, "%"@, 0)
    };
    let n = if known {
        m + 1
    } else {
        m
    };
    let a = v.subrange(0, m);
    let b = v.subrange(n, v.len() as int);
    lemma_one_line_parts(v, 0, m);
    lemma_one_line_parts(v, n, v.len() as int);
    lemma_all_kept_around(a, line, b);
    assert(without_tag(s, tag) =~= a + b);
    if known {
        assert(v.update(m, line[0]) =~= a + line + b);
    } else {
        assert(v.insert(m, line[0]) =~= a + line + b);
    }
    lemma_tidy_text(a + line + b);
}

} // verus!
