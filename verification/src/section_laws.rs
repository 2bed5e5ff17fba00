//! Changing the tags and sections of a spec twice is changing them once.
use vstd::prelude::*;

use crate::line_laws;
use crate::patterns;
use crate::pieces;
use crate::set_laws;
use crate::spec_laws;
use crate::specfile;
use crate::text;

verus! {

/// The text of lines without line feeds is that of the tidy lines.
pub proof fn lemma_text_of(v: Seq<Seq<char>>)
    requires
        line_laws::one_line_each(v),
    ensures
        specfile::text_of(v) == pieces::join(specfile::tidy(v), "\n"@) + "\n"@,
        specfile::text_of(specfile::tidy(v)) == specfile::text_of(v),
{
    line_laws::lemma_tidy_lines_of_join(v);
    line_laws::lemma_tidy(v);
    line_laws::lemma_tidy_lines_of_join(specfile::tidy(v));
    line_laws::lemma_tidy(specfile::tidy(v));
}

pub proof fn lemma_drop_empty_end_add(a: Seq<Seq<char>>, b: Seq<Seq<char>>)
    requires
        a.len() > 0,
        a.last().len() > 0,
    ensures
        specfile::drop_empty_end(a + b) == a + specfile::drop_empty_end(b),
    decreases b.len(),
{
    if b.len() == 0 {
        assert(a + b =~= a);
        assert(a + specfile::drop_empty_end(b) =~= a);
    } else {
        assert((a + b).last() == b.last());
        if b.last().len() == 0 {
            assert((a + b).drop_last() =~= a + b.drop_last());
            lemma_drop_empty_end_add(a, b.drop_last());
        }
    }
}

pub proof fn lemma_trim_end_each_add(a: Seq<Seq<char>>, b: Seq<Seq<char>>)
    ensures
        specfile::trim_end_each(a + b) == specfile::trim_end_each(a) + specfile::trim_end_each(b),
{
    assert(specfile::trim_end_each(a + b) =~= specfile::trim_end_each(a)
        + specfile::trim_end_each(b));
}

proof fn lemma_arch_lines_add(a: Seq<Seq<char>>, b: Seq<Seq<char>>)
    ensures
        specfile::arch_lines(a + b) == specfile::arch_lines(a) + specfile::arch_lines(b),
    decreases b.len(),
{
    if b.len() == 0 {
        assert(a + b =~= a);
        assert(specfile::arch_lines(a) + specfile::arch_lines(b) =~= specfile::arch_lines(a));
    } else {
        assert((a + b).last() == b.last());
        assert((a + b).drop_last() =~= a + b.drop_last());
        lemma_arch_lines_add(a, b.drop_last());
        assert(specfile::arch_lines(a + b) =~= specfile::arch_lines(a) + specfile::arch_lines(b));
    }
}

/// A line that goes when a package comes to depend on the architecture.
spec fn goes(line: Seq<char>) -> bool {
    patterns::is_noarch(line) || specfile::is_python_provide(line)
}

proof fn lemma_arch_lines_none_goes(v: Seq<Seq<char>>)
    ensures
        forall|i: int|
            0 <= i < specfile::arch_lines(v).len() ==> !goes(
                #[trigger] specfile::arch_lines(v)[i],
            ),
        line_laws::one_line_each(v) ==> line_laws::one_line_each(specfile::arch_lines(v)),
    decreases v.len(),
{
    if v.len() > 0 {
        let rest = v.drop_last();
        let before = specfile::arch_lines(rest);
        let all = specfile::arch_lines(v);
        lemma_arch_lines_none_goes(rest);
        assert forall|i: int| 0 <= i < all.len() implies !goes(#[trigger] all[i]) by {
            if i < before.len() {
                assert(all[i] == before[i]);
            }
        }
        if line_laws::one_line_each(v) {
            assert forall|i: int| 0 <= i < rest.len() implies !(#[trigger] rest[i]).contains(
                '\n',
            ) by {
                assert(rest[i] == v[i]);
            }
            assert forall|i: int| 0 <= i < all.len() implies !(#[trigger] all[i]).contains(
                '\n',
            ) by {
                if i < before.len() {
                    assert(all[i] == before[i]);
                } else {
                    assert(all[i] == v[v.len() - 1]);
                }
            }
        }
    }
}

proof fn lemma_arch_lines_keep(v: Seq<Seq<char>>)
    requires
        forall|i: int| 0 <= i < v.len() ==> !goes(#[trigger] v[i]),
    ensures
        specfile::arch_lines(v) == v,
    decreases v.len(),
{
    if v.len() > 0 {
        let rest = v.drop_last();
        assert forall|i: int| 0 <= i < rest.len() implies !goes(#[trigger] rest[i]) by {
            assert(rest[i] == v[i]);
        }
        lemma_arch_lines_keep(rest);
        assert(!goes(v[v.len() - 1]));
        assert(specfile::arch_lines(v) =~= v);
    }
}

proof fn lemma_goes_trimmed(line: Seq<char>)
    ensures
        goes(text::trim_end(line)) == goes(line),
{
    reveal_strlit("BuildArch:");
    reveal_strlit("Provides:       python3-%{srcname}");
    reveal_strlit("%python_provide python3-%{srcname}");
    line_laws::lemma_prefix_of_trim_end(line, "BuildArch:"@);
    line_laws::lemma_prefix_of_trim_end(line, "Provides:       python3-%{srcname}"@);
    line_laws::lemma_prefix_of_trim_end(line, "%python_provide python3-%{srcname}"@);
    if text::starts_with(line, "BuildArch:"@) {
        line_laws::lemma_trim_behind_prefix(line, "BuildArch:"@);
    }
}

proof fn lemma_build_line_trimmed(line: Seq<char>)
    ensures
        specfile::is_build_line(text::trim_end(line)) == specfile::is_build_line(line),
        text::starts_with(text::trim_end(line), "%"@) == text::starts_with(line, "%"@),
{
    reveal_strlit("BuildRequires:");
    reveal_strlit("BuildOption");
    reveal_strlit("BuildSystem:");
    reveal_strlit("%");
    line_laws::lemma_prefix_of_trim_end(line, "BuildRequires:"@);
    line_laws::lemma_prefix_of_trim_end(line, "BuildOption"@);
    line_laws::lemma_prefix_of_trim_end(line, "BuildSystem:"@);
    line_laws::lemma_prefix_of_trim_end(line, "%"@);
}

proof fn lemma_build_line_from(v: Seq<Seq<char>>, i: int)
    requires
        0 <= i <= v.len(),
    ensures
        i <= specfile::build_line_from(v, i) <= v.len(),
        forall|k: int|
            i <= k < specfile::build_line_from(v, i) ==> !specfile::is_build_line(#[trigger] v[k]),
        specfile::build_line_from(v, i) < v.len() ==> specfile::is_build_line(
            v[specfile::build_line_from(v, i)],
        ),
    decreases v.len() - i,
{
    if i < v.len() && !specfile::is_build_line(v[i]) {
        lemma_build_line_from(v, i + 1);
    }
}

pub proof fn lemma_provides_place(v: Seq<Seq<char>>)
    ensures
        0 <= specfile::provides_place(v) <= v.len(),
{
    lemma_build_line_from(v, 0);
    spec_laws::lemma_line_from(v, "%"@, 0);
}

/// Where the first build line is.
proof fn lemma_build_line_is(v: Seq<Seq<char>>, n: int)
    requires
        0 <= n <= v.len(),
        forall|k: int| 0 <= k < n ==> !specfile::is_build_line(#[trigger] v[k]),
        n < v.len() ==> specfile::is_build_line(v[n]),
    ensures
        specfile::build_line_from(v, 0) == n,
{
    lemma_build_line_from(v, 0);
    let m = specfile::build_line_from(v, 0);
    if m < n {
        assert(specfile::is_build_line(v[m]));
    }
    if n < m {
        assert(!specfile::is_build_line(v[n]));
    }
}

/// Where the first line with a prefix is.
pub proof fn lemma_line_is(v: Seq<Seq<char>>, prefix: Seq<char>, n: int)
    requires
        0 <= n <= v.len(),
        forall|k: int| 0 <= k < n ==> !text::starts_with(#[trigger] v[k], prefix),
        n < v.len() ==> text::starts_with(v[n], prefix),
    ensures
        specfile::line_from(v, prefix, 0) == n,
{
    spec_laws::lemma_line_from(v, prefix, 0);
    let m = specfile::line_from(v, prefix, 0);
    if m < n {
        assert(text::starts_with(v[m], prefix));
    }
    if n < m {
        assert(!text::starts_with(v[n], prefix));
    }
}

pub proof fn lemma_arch_provides()
    ensures
        ({
            let p = specfile::arch_provides();
            &&& p.len() == 3
            &&& specfile::arch_lines(p) == Seq::<Seq<char>>::empty()
            &&& specfile::trim_end_each(p) == p
            &&& p.last().len() > 0
            &&& line_laws::one_line_each(p)
        }),
{
    reveal_strlit("Provides:       python3-%{srcname} = %{version}-%{release}");
    reveal_strlit("Provides:       python3-%{srcname}%{?_isa} = %{version}-%{release}");
    reveal_strlit("%python_provide python3-%{srcname}");
    reveal_strlit("Provides:       python3-%{srcname}");
    let p = specfile::arch_provides();
    assert(p[0].subrange(0, "Provides:       python3-%{srcname}"@.len() as int)
        =~= "Provides:       python3-%{srcname}"@);
    assert(p[1].subrange(0, "Provides:       python3-%{srcname}"@.len() as int)
        =~= "Provides:       python3-%{srcname}"@);
    assert(p[2].subrange(0, "%python_provide python3-%{srcname}"@.len() as int)
        =~= "%python_provide python3-%{srcname}"@);
    assert(goes(p[0]) && goes(p[1]) && goes(p[2]));
    let one = p.drop_last().drop_last();
    assert(one.drop_last() =~= seq![]);
    assert(one.last() == p[0]);
    assert(specfile::arch_lines(one.drop_last()) =~= seq![]);
    assert(p.drop_last().last() == p[1]);
    assert(specfile::arch_lines(one) =~= seq![]);
    assert(specfile::arch_lines(p.drop_last()) =~= seq![]);
    assert(specfile::arch_lines(p) =~= seq![]);
    line_laws::lemma_trim_end_is(p[0], p[0].len() as int);
    line_laws::lemma_trim_end_is(p[1], p[1].len() as int);
    line_laws::lemma_trim_end_is(p[2], p[2].len() as int);
    assert(p[0].take(p[0].len() as int) =~= p[0]);
    assert(p[1].take(p[1].len() as int) =~= p[1]);
    assert(p[2].take(p[2].len() as int) =~= p[2]);
    assert(specfile::trim_end_each(p) =~= p);
    assert forall|i: int| 0 <= i < p.len() implies !(#[trigger] p[i]).contains('\n') by {
        if i == 0 {
            assert(!p[0].contains('\n'));
        } else if i == 1 {
            assert(!p[1].contains('\n'));
        } else {
            assert(!p[2].contains('\n'));
        }
    }
}

/// The line before which the names go that a package provides is not empty.
proof fn lemma_place_is_not_empty(w: Seq<Seq<char>>)
    requires
        specfile::provides_place(w) < w.len(),
    ensures
        text::trim_end(w[specfile::provides_place(w)]).len() > 0,
{
    let line = w[specfile::provides_place(w)];
    lemma_build_line_from(w, 0);
    spec_laws::lemma_line_from(w, "%"@, 0);
    lemma_build_line_trimmed(line);
    reveal_strlit("%");
    reveal_strlit("BuildRequires:");
    reveal_strlit("BuildOption");
    reveal_strlit("BuildSystem:");
}

/// White space at the end of lines, and empty lines at the end, do not count for where the names go
/// that a package provides.
proof fn lemma_same_place(w: Seq<Seq<char>>, w2: Seq<Seq<char>>)
    requires
        w2.len() <= w.len(),
        forall|k: int| 0 <= k < w2.len() ==> #[trigger] w2[k] == text::trim_end(w[k]),
        specfile::provides_place(w) < w.len() ==> specfile::provides_place(w) < w2.len(),
        specfile::provides_place(w) == w.len() ==> w2.len() == w.len(),
    ensures
        specfile::provides_place(w2) == specfile::provides_place(w),
{
    let at = specfile::provides_place(w);
    lemma_build_line_from(w, 0);
    spec_laws::lemma_line_from(w, "%"@, 0);
    if at < w.len() {
        lemma_build_line_trimmed(w[at]);
        assert(w2[at] == text::trim_end(w[at]));
    }
    if specfile::build_line_from(w, 0) < w.len() {
        assert forall|k: int| 0 <= k < at implies !specfile::is_build_line(#[trigger] w2[k]) by {
            lemma_build_line_trimmed(w[k]);
        }
        lemma_build_line_is(w2, at);
    } else {
        assert forall|k: int| 0 <= k < w2.len() implies !specfile::is_build_line(
            #[trigger] w2[k],
        ) by {
            lemma_build_line_trimmed(w[k]);
            assert(!specfile::is_build_line(w[k]));
        }
        lemma_build_line_is(w2, w2.len() as int);
        assert forall|k: int| 0 <= k < at implies !text::starts_with(#[trigger] w2[k], "%"@) by {
            lemma_build_line_trimmed(w[k]);
        }
        lemma_line_is(w2, "%"@, at);
    }
}

/// Taking `noarch` out of a spec twice is taking it out once.
pub proof fn law_remove_noarch_twice(s: Seq<char>)
    ensures
        specfile::without_noarch(specfile::without_noarch(s)) == specfile::without_noarch(s),
{
    let v = pieces::lines(s);
    let w = specfile::arch_lines(v);
    let p = specfile::arch_provides();
    let at = specfile::provides_place(w);
    line_laws::lemma_lines_hold_no_line_feed(s, 0);
    lemma_arch_lines_none_goes(v);
    lemma_arch_provides();
    lemma_provides_place(w);
    let all = specfile::with_lines(w, at, p);
    spec_laws::lemma_with_lines(w, at, p);
    let x = w.take(at);
    let y = w.skip(at);
    let a = specfile::trim_end_each(x);
    let b = specfile::drop_empty_end(specfile::trim_end_each(y));
    lemma_trim_end_each_add(x + p, y);
    lemma_trim_end_each_add(x, p);
    assert((a + p).last() == p.last());
    lemma_drop_empty_end_add(a + p, specfile::trim_end_each(y));
    let t = specfile::tidy(all);
    assert(t == a + p + b);
    line_laws::lemma_lines_of_text(all);
    line_laws::lemma_drop_empty_end(specfile::trim_end_each(y));
    // What stays is what stood around the lines that were put in.
    assert forall|i: int| 0 <= i < a.len() implies !goes(#[trigger] a[i]) by {
        assert(!goes(w[i]));
        lemma_goes_trimmed(w[i]);
    }
    assert forall|i: int| 0 <= i < b.len() implies !goes(#[trigger] b[i]) by {
        assert(!goes(w[at + i]));
        lemma_goes_trimmed(w[at + i]);
        assert(b[i] == text::trim_end(y[i]));
    }
    lemma_arch_lines_keep(a);
    lemma_arch_lines_keep(b);
    lemma_arch_lines_add(a + p, b);
    lemma_arch_lines_add(a, p);
    let w2 = specfile::arch_lines(t);
    assert(w2 =~= a + b);
    // The lines go to the same place again.
    assert forall|k: int| 0 <= k < w2.len() implies #[trigger] w2[k] == text::trim_end(w[k]) by {
        if k < at {
            assert(w2[k] == a[k]);
        } else {
            assert(w2[k] == b[k - at]);
            assert(b[k - at] == text::trim_end(y[k - at]));
        }
    }
    if at < w.len() {
        lemma_place_is_not_empty(w);
        assert(specfile::trim_end_each(y)[0].len() > 0);
        assert(b.len() > 0);
    }
    lemma_same_place(w, w2);
    assert(specfile::provides_place(w2) == at);
    assert(specfile::with_lines(w2, at, p) =~= t);
    lemma_text_of(all);
}

/// A package that has come to depend on the architecture is not built for none.
pub proof fn law_noarch_is_gone(s: Seq<char>)
    ensures
        forall|k: int|
            0 <= k < pieces::lines(specfile::without_noarch(s)).len() ==> !patterns::is_noarch(
                #[trigger] pieces::lines(specfile::without_noarch(s))[k],
            ),
{
    let v = pieces::lines(s);
    let w = specfile::arch_lines(v);
    let p = specfile::arch_provides();
    let at = specfile::provides_place(w);
    line_laws::lemma_lines_hold_no_line_feed(s, 0);
    lemma_arch_lines_none_goes(v);
    lemma_arch_provides();
    lemma_provides_place(w);
    let all = specfile::with_lines(w, at, p);
    spec_laws::lemma_with_lines(w, at, p);
    line_laws::lemma_lines_of_text(all);
    line_laws::lemma_tidy(all);
    let t = specfile::tidy(all);
    reveal_strlit("BuildArch:");
    assert forall|k: int| 0 <= k < t.len() implies !patterns::is_noarch(#[trigger] t[k]) by {
        assert(t[k] == text::trim_end(all[k]));
        if at <= k < at + p.len() {
            assert(all[k] == p[k - at]);
            lemma_arch_provide(k - at);
            line_laws::lemma_trim_end(all[k]);
            if patterns::is_noarch(t[k]) {
                assert(t[k].subrange(0, "BuildArch:"@.len() as int)[0] == t[k][0]);
            }
        } else {
            let j = if k < at {
                k
            } else {
                k - p.len()
            };
            assert(all[k] == w[j]);
            assert(!goes(w[j]));
            lemma_goes_trimmed(w[j]);
        }
    }
    if t.len() == 0 {
        let empty = Seq::<char>::empty();
        assert(!text::starts_with(empty, "BuildArch:"@));
    }
}

proof fn lemma_arch_provide(i: int)
    requires
        0 <= i < specfile::arch_provides().len(),
    ensures
        specfile::arch_provides()[i].len() > 0,
        specfile::arch_provides()[i][0] != 'B',
{
    reveal_strlit("Provides:       python3-%{srcname} = %{version}-%{release}");
    reveal_strlit("Provides:       python3-%{srcname}%{?_isa} = %{version}-%{release}");
    reveal_strlit("%python_provide python3-%{srcname}");
}

pub proof fn lemma_join_add(a: Seq<Seq<char>>, b: Seq<Seq<char>>, sep: Seq<char>)
    requires
        a.len() > 0,
        b.len() > 0,
    ensures
        pieces::join(a + b, sep) == pieces::join(a, sep) + sep + pieces::join(b, sep),
    decreases b.len(),
{
    assert((a + b).last() == b.last());
    assert((a + b).drop_last() =~= a + b.drop_last());
    if b.len() == 1 {
        assert(a + b.drop_last() =~= a);
    } else {
        lemma_join_add(a, b.drop_last(), sep);
        assert(pieces::join(a + b, sep) =~= pieces::join(a, sep) + sep + pieces::join(b, sep));
    }
}

/// The fields of a text, joined again.
pub proof fn lemma_join_split(s: Seq<char>, c: char, i: int)
    requires
        0 <= i <= s.len(),
    ensures
        pieces::join(pieces::split_from(s, c, i), seq![c]) == s.skip(i),
        pieces::split_from(s, c, i).len() > 0,
        forall|k: int|
            0 <= k < pieces::split_from(s, c, i).len() ==> !(#[trigger] pieces::split_from(
                s,
                c,
                i,
            )[k]).contains(c),
    decreases s.len() - i,
{
    text::lemma_index_of(s, c, i);
    let k = text::index_of(s, c, i);
    let all = pieces::split_from(s, c, i);
    if k < s.len() {
        lemma_join_split(s, c, k + 1);
        let first = s.subrange(i, k);
        let rest = pieces::split_from(s, c, k + 1);
        assert(all == seq![first] + rest);
        lemma_join_add(seq![first], rest, seq![c]);
        assert(pieces::join(seq![first], seq![c]) == first);
        assert(first + seq![c] + s.skip(k + 1) =~= s.skip(i));
        assert forall|j: int| 0 <= j < all.len() implies !(#[trigger] all[j]).contains(c) by {
            if j > 0 {
                assert(all[j] == rest[j - 1]);
            } else {
                assert forall|q: int| 0 <= q < first.len() implies first[q] != c by {
                    assert(first[q] == s[i + q]);
                }
            }
        }
    } else {
        assert(pieces::join(all, seq![c]) == s.skip(i));
        let last = s.skip(i);
        assert forall|q: int| 0 <= q < last.len() implies last[q] != c by {
            assert(last[q] == s[i + q]);
        }
    }
}

/// Lines in which one holds line feeds have the text of the lines in which it is split.
pub proof fn lemma_split_line(a: Seq<Seq<char>>, x: Seq<char>, b: Seq<Seq<char>>)
    requires
        a.len() > 0,
        b.len() > 0,
    ensures
        pieces::join(a + seq![x] + b, "\n"@) == pieces::join(a + pieces::split(x, '\n') + b, "\n"@),
        forall|k: int|
            0 <= k < pieces::split(x, '\n').len() ==> !(#[trigger] pieces::split(
                x,
                '\n',
            )[k]).contains('\n'),
{
    reveal_strlit("\n");
    assert("\n"@ =~= seq!['\n']);
    let parts = pieces::split(x, '\n');
    lemma_join_split(x, '\n', 0);
    assert(x.skip(0) =~= x);
    lemma_join_add(a + seq![x], b, "\n"@);
    lemma_join_add(a, seq![x], "\n"@);
    assert(pieces::join(seq![x], "\n"@) == x);
    lemma_join_add(a + parts, b, "\n"@);
    lemma_join_add(a, parts, "\n"@);
}

/// The tidy lines of lines that hold a check section hold one.
proof fn lemma_check_settled(all: Seq<Seq<char>>, j: int)
    requires
        line_laws::one_line_each(all),
        0 <= j < all.len(),
        all[j] == "%check"@,
    ensures
        specfile::has_check(pieces::lines(specfile::text_of(all))),
{
    reveal_strlit("%check");
    let line = "%check"@;
    line_laws::lemma_trim_end_is(line, line.len() as int);
    assert(line.take(line.len() as int) =~= line);
    line_laws::lemma_trim(line);
    spec_laws::lemma_tidy_keeps(all, j);
    line_laws::lemma_lines_of_text(all);
    let t = specfile::tidy(all);
    assert(pieces::trim_each(t)[j] == line);
}

/// Adding an empty check section twice is adding it once.
pub proof fn law_check_section_twice(s: Seq<char>, comment: Seq<char>)
    ensures
        specfile::with_check_section(specfile::with_check_section(s, comment), comment)
            == specfile::with_check_section(s, comment),
{
    law_check_section_is_there(s, comment);
}

/// A spec to which a check section has been added has one.
pub proof fn law_check_section_is_there(s: Seq<char>, comment: Seq<char>)
    ensures
        specfile::has_check(pieces::lines(specfile::with_check_section(s, comment))),
{
    let v = pieces::lines(s);
    if !specfile::has_check(v) {
        let at = specfile::check_section_place(v);
        let block = specfile::check_section(comment);
        let all = specfile::with_lines(v, at, block);
        line_laws::lemma_lines_hold_no_line_feed(s, 0);
        spec_laws::lemma_line_from(v, "%files"@, 0);
        spec_laws::lemma_line_from(v, "%changelog"@, 0);
        spec_laws::lemma_with_lines(v, at, block);
        reveal_strlit("%check");
        let empty = Seq::<char>::empty();
        if specfile::is_blank(comment) {
            assert forall|i: int| 0 <= i < block.len() implies !(#[trigger] block[i]).contains(
                '\n',
            ) by {
                if i == 0 {
                    assert(!block[0].contains('\n'));
                }
            }
            assert(all[at + 0] == block[0]);
            lemma_check_settled(all, at);
        } else {
            let x = "# "@ + text::trim(comment);
            let a = v.take(at).push("%check"@);
            let b = seq![empty] + v.skip(at);
            let parts = pieces::split(x, '\n');
            let flat = a + parts + b;
            assert(all =~= a + seq![x] + b);
            lemma_split_line(a, x, b);
            assert forall|i: int| 0 <= i < flat.len() implies !(#[trigger] flat[i]).contains(
                '\n',
            ) by {
                if i < at {
                    assert(flat[i] == v[i]);
                } else if i == at {
                    assert(!flat[at].contains('\n'));
                } else if i < a.len() + parts.len() {
                    assert(flat[i] == parts[i - a.len()]);
                } else if i == a.len() + parts.len() {
                    assert(flat[i] == empty);
                } else {
                    assert(flat[i] == v[at + (i - a.len() - parts.len() - 1)]);
                }
            }
            assert(flat[at] == "%check"@);
            lemma_check_settled(flat, at);
            assert(specfile::text_of(all) == specfile::text_of(flat));
        }
    }
}

proof fn lemma_word_end_push(t: Seq<char>, c: char, i: int)
    requires
        text::is_white(c),
        0 <= i <= t.len(),
    ensures
        patterns::word_end(t.push(c), i) == patterns::word_end(t, i),
        i <= patterns::word_end(t, i) <= t.len(),
    decreases t.len() - i,
{
    let s = t.push(c);
    if i < t.len() {
        assert(s[i] == t[i]);
        if patterns::is_word(t[i]) {
            lemma_word_end_push(t, c, i + 1);
        }
    } else {
        assert(s[i] == c);
    }
}

proof fn lemma_header_ignores_end(t: Seq<char>, b: Seq<char>)
    requires
        forall|k: int| 0 <= k < b.len() ==> text::is_white(b[k]),
    ensures
        patterns::is_header(t + b) == patterns::is_header(t),
    decreases b.len(),
{
    if b.len() == 0 {
        assert(t + b =~= t);
    } else {
        let rest = b.drop_last();
        let s = t + rest;
        let c = b.last();
        lemma_header_ignores_end(t, rest);
        assert(t + b =~= s.push(c));
        if s.len() >= 2 {
            lemma_word_end_push(s, c, 2);
            let k = patterns::word_end(s, 2);
            if k < s.len() {
                assert(s.push(c)[k] == s[k]);
            } else {
                assert(s.push(c)[k] == c);
            }
        }
    }
}

/// A line starts a section whether or not white space stands at its end.
pub proof fn lemma_section_trimmed(line: Seq<char>)
    ensures
        specfile::starts_section(text::trim_end(line)) == specfile::starts_section(line),
{
    let e = text::trim_end(line);
    line_laws::lemma_trim_end(line);
    assert(line =~= e + line.skip(e.len() as int));
    lemma_header_ignores_end(e, line.skip(e.len() as int));
    reveal_strlit("%dir");
    reveal_strlit("%doc");
    reveal_strlit("%license");
    line_laws::lemma_prefix_of_trim_end(line, "%dir"@);
    line_laws::lemma_prefix_of_trim_end(line, "%doc"@);
    line_laws::lemma_prefix_of_trim_end(line, "%license"@);
}

pub proof fn lemma_section_end(v: Seq<Seq<char>>, i: int)
    requires
        0 <= i <= v.len(),
    ensures
        i <= specfile::section_end(v, i) <= v.len(),
        forall|k: int|
            i <= k < specfile::section_end(v, i) ==> !specfile::starts_section(#[trigger] v[k]),
        specfile::section_end(v, i) < v.len() ==> specfile::starts_section(
            v[specfile::section_end(v, i)],
        ),
    decreases v.len() - i,
{
    if i < v.len() && !specfile::starts_section(v[i]) {
        lemma_section_end(v, i + 1);
    }
}

pub proof fn lemma_section_end_is(v: Seq<Seq<char>>, i: int, n: int)
    requires
        0 <= i <= n <= v.len(),
        forall|k: int| i <= k < n ==> !specfile::starts_section(#[trigger] v[k]),
        n < v.len() ==> specfile::starts_section(v[n]),
    ensures
        specfile::section_end(v, i) == n,
{
    lemma_section_end(v, i);
    let m = specfile::section_end(v, i);
    if m < n {
        assert(specfile::starts_section(v[m]));
    }
    if n < m {
        assert(!specfile::starts_section(v[n]));
    }
}

/// The header of a section is not blank.
pub proof fn lemma_header_is_not_blank(line: Seq<char>)
    requires
        specfile::starts_section(line),
    ensures
        !specfile::is_blank(line),
{
    line_laws::lemma_trim_end(text::trim_start(line));
    line_laws::lemma_trim_start(line);
}

/// A trimmed text that starts no section.
pub open spec fn is_plain(e: Seq<char>) -> bool {
    &&& e.len() > 0
    &&& line_laws::is_trimmed(e)
    &&& !specfile::starts_section(e)
}

/// What an entry of a file list is: a trimmed text on one line that starts no section.
pub open spec fn is_entry(e: Seq<char>) -> bool {
    is_plain(e) && !e.contains('\n')
}

proof fn lemma_under(path: Seq<char>, dir: Seq<char>, name: Seq<char>)
    requires
        path.len() > 0,
        line_laws::is_trimmed(path),
        name.len() >= 2,
        name[0] == '%',
        name[1] == '{',
        !text::is_white(name.last()),
        !name.contains('\n'),
    ensures
        specfile::under(path, dir, name) matches Some(e) ==> is_plain(e) && (!path.contains('\n')
            ==> is_entry(e)),
{
    if let Some(e) = specfile::under(path, dir, name) {
        let rest = path.skip(dir.len() as int);
        assert(e =~= name + rest);
        if rest.len() > 0 {
            assert(e.last() == path.last());
        } else {
            assert(e.last() == name.last());
        }
        assert(e[0] == '%');
        assert(e[1] == '{');
        if !path.contains('\n') && e.contains('\n') {
            let j = e.index_of('\n');
            if j < name.len() {
                assert(name[j] == '\n');
            } else {
                assert(path[dir.len() + (j - name.len())] == '\n');
            }
        }
    }
}

proof fn lemma_path_macro(path: Seq<char>)
    requires
        text::starts_with(path, "/"@),
        line_laws::is_trimmed(path),
    ensures
        is_plain(specfile::path_macro(path)),
        !path.contains('\n') ==> is_entry(specfile::path_macro(path)),
{
    reveal_strlit("/");
    assert(path[0] == path.subrange(0, 1)[0]);
    assert(path[0] == '/');
    reveal_strlit("%{_bindir}/");
    reveal_strlit("%{_sbindir}/");
    reveal_strlit("%{_libexecdir}/");
    reveal_strlit("%{_mandir}/");
    reveal_strlit("%{_datadir}/");
    reveal_strlit("%{_sysconfdir}/");
    reveal_strlit("%{_includedir}/");
    reveal_strlit("%{_libdir}/");
    reveal_strlit("%{_prefix}/lib/");
    lemma_under(path, "/usr/bin/"@, "%{_bindir}/"@);
    lemma_under(path, "/usr/sbin/"@, "%{_sbindir}/"@);
    lemma_under(path, "/usr/libexec/"@, "%{_libexecdir}/"@);
    lemma_under(path, "/usr/share/man/"@, "%{_mandir}/"@);
    lemma_under(path, "/usr/share/"@, "%{_datadir}/"@);
    lemma_under(path, "/etc/"@, "%{_sysconfdir}/"@);
    lemma_under(path, "/usr/include/"@, "%{_includedir}/"@);
    lemma_under(path, "/usr/lib64/"@, "%{_libdir}/"@);
    lemma_under(path, "/usr/lib/"@, "%{_prefix}/lib/"@);
}

/// The entries for the files of a list start no section.
pub proof fn lemma_file_entries_plain(files: Seq<Seq<char>>, k: int)
    requires
        0 <= k < specfile::file_entries(files).len(),
    ensures
        is_plain(specfile::file_entries(files)[k]),
    decreases files.len(),
{
    let rest = files.drop_last();
    let before = specfile::file_entries(rest);
    let e = specfile::file_entries(files)[k];
    let file = text::trim(files.last());
    if text::starts_with(file, "/"@) {
        line_laws::lemma_trim(files.last());
        lemma_path_macro(file);
        set_laws::lemma_sorted_insert_texts(before, specfile::path_macro(file));
        assert(specfile::file_entries(files).contains(e));
        if e != specfile::path_macro(file) {
            lemma_file_entries_plain(rest, before.index_of(e));
        }
    } else {
        lemma_file_entries_plain(rest, k);
    }
}

/// The entries for the files of a list.
pub proof fn lemma_file_entries(files: Seq<Seq<char>>, k: int)
    requires
        forall|i: int| 0 <= i < files.len() ==> !text::trim(#[trigger] files[i]).contains('\n'),
        0 <= k < specfile::file_entries(files).len(),
    ensures
        is_entry(specfile::file_entries(files)[k]),
    decreases files.len(),
{
    let rest = files.drop_last();
    let before = specfile::file_entries(rest);
    let e = specfile::file_entries(files)[k];
    assert forall|i: int| 0 <= i < rest.len() implies !text::trim(#[trigger] rest[i]).contains(
        '\n',
    ) by {
        assert(rest[i] == files[i]);
    }
    let file = text::trim(files[files.len() - 1]);
    if text::starts_with(file, "/"@) {
        line_laws::lemma_trim(files[files.len() - 1]);
        lemma_path_macro(file);
        set_laws::lemma_sorted_insert_texts(before, specfile::path_macro(file));
        assert(specfile::file_entries(files).contains(e));
        if e != specfile::path_macro(file) {
            let j = before.index_of(e);
            lemma_file_entries(rest, j);
        }
    } else {
        lemma_file_entries(rest, k);
    }
}

pub proof fn lemma_unlisted_from(v: Seq<Seq<char>>, entries: Seq<Seq<char>>, k: int) -> (i: int)
    requires
        0 <= k < specfile::unlisted(v, entries).len(),
    ensures
        0 <= i < entries.len(),
        specfile::unlisted(v, entries)[k] == entries[i],
    decreases entries.len(),
{
    let before = specfile::unlisted(v, entries.drop_last());
    if k < before.len() {
        lemma_unlisted_from(v, entries.drop_last(), k)
    } else {
        entries.len() - 1
    }
}

proof fn lemma_unlisted_has(v: Seq<Seq<char>>, entries: Seq<Seq<char>>, i: int) -> (k: int)
    requires
        0 <= i < entries.len(),
        !pieces::trim_each(v).contains(entries[i]),
    ensures
        0 <= k < specfile::unlisted(v, entries).len(),
        specfile::unlisted(v, entries)[k] == entries[i],
    decreases entries.len(),
{
    let rest = entries.drop_last();
    if i < rest.len() {
        lemma_unlisted_has(v, rest, i)
    } else {
        specfile::unlisted(v, rest).len() as int
    }
}

proof fn lemma_all_listed(v: Seq<Seq<char>>, entries: Seq<Seq<char>>)
    requires
        forall|i: int|
            0 <= i < entries.len() ==> pieces::trim_each(v).contains(#[trigger] entries[i]),
    ensures
        specfile::unlisted(v, entries).len() == 0,
    decreases entries.len(),
{
    if entries.len() > 0 {
        let rest = entries.drop_last();
        assert forall|i: int| 0 <= i < rest.len() implies pieces::trim_each(v).contains(
            #[trigger] rest[i],
        ) by {
            assert(rest[i] == entries[i]);
        }
        lemma_all_listed(v, rest);
        assert(pieces::trim_each(v).contains(entries[entries.len() - 1]));
    }
}

/// Lines that hold an entry between a place and another.
spec fn listed_between(v: Seq<Seq<char>>, e: Seq<char>, lo: int, hi: int) -> bool {
    exists|j: int| lo <= j < hi && text::trim(#[trigger] v[j]) == e
}

/// The first file list of a spec holds an entry.
pub open spec fn lists(s: Seq<char>, entry: Seq<char>) -> bool {
    let v = pieces::lines(s);
    let f = specfile::line_from(v, "%files"@, 0);
    f < v.len() && pieces::trim_each(
        v.subrange(f + 1, specfile::section_end(v, f + 1)),
    ).contains(entry)
}

/// All entries for some files are listed.
spec fn lists_all(s: Seq<char>, files: Seq<Seq<char>>) -> bool {
    forall|i: int|
        0 <= i < specfile::file_entries(files).len() ==> lists(
            s,
            #[trigger] specfile::file_entries(files)[i],
        )
}

/// Lines whose first file list holds all entries list them.
proof fn lemma_files_settled(all: Seq<Seq<char>>, files: Seq<Seq<char>>, f: int, m: int)
    requires
        line_laws::one_line_each(all),
        0 <= f < m <= all.len(),
        text::starts_with(all[f], "%files"@),
        forall|k: int| 0 <= k < f ==> !text::starts_with(#[trigger] all[k], "%files"@),
        forall|k: int| f < k < m ==> !specfile::starts_section(#[trigger] all[k]),
        forall|i: int|
            0 <= i < specfile::file_entries(files).len() ==> listed_between(
                all,
                #[trigger] specfile::file_entries(files)[i],
                f + 1,
                m,
            ) && specfile::file_entries(files)[i].len() > 0,
    ensures
        lists_all(specfile::text_of(all), files),
{
    reveal_strlit("%files");
    let entries = specfile::file_entries(files);
    let t = specfile::tidy(all);
    line_laws::lemma_tidy(all);
    line_laws::lemma_prefix_of_trim_end(all[f], "%files"@);
    spec_laws::lemma_tidy_keeps(all, f);
    line_laws::lemma_lines_of_text(all);
    assert forall|k: int| 0 <= k < f implies !text::starts_with(#[trigger] t[k], "%files"@) by {
        line_laws::lemma_prefix_of_trim_end(all[k], "%files"@);
    }
    lemma_line_is(t, "%files"@, f);
    lemma_section_end(t, f + 1);
    let end = specfile::section_end(t, f + 1);
    if end < m && end < t.len() {
        lemma_section_trimmed(all[end]);
    }
    let section = t.subrange(f + 1, end);
    assert forall|i: int| 0 <= i < entries.len() implies pieces::trim_each(section).contains(
        #[trigger] entries[i],
    ) by {
        let e = entries[i];
        let j = choose|j: int| f + 1 <= j < m && text::trim(#[trigger] all[j]) == e;
        line_laws::lemma_trim_of_trim_end(all[j]);
        line_laws::lemma_trim_end(all[j]);
        if text::trim_end(all[j]).len() == 0 {
            let none = text::trim_end(all[j]);
            line_laws::lemma_trim(none);
            assert(text::trim(none) == none);
        }
        spec_laws::lemma_tidy_keeps(all, j);
        assert(pieces::trim_each(section)[j - (f + 1)] == e);
    }
}

pub proof fn lemma_blank_end(v: Seq<Seq<char>>, i: int)
    requires
        0 <= i <= v.len(),
    ensures
        i <= specfile::blank_end(v, i) <= v.len(),
        forall|k: int| i <= k < specfile::blank_end(v, i) ==> specfile::is_blank(#[trigger] v[k]),
        specfile::blank_end(v, i) < v.len() ==> !specfile::is_blank(v[specfile::blank_end(v, i)]),
    decreases v.len() - i,
{
    if i < v.len() && specfile::is_blank(v[i]) {
        lemma_blank_end(v, i + 1);
    }
}

proof fn lemma_files_listed(s: Seq<char>, files: Seq<Seq<char>>)
    requires
        forall|i: int| 0 <= i < files.len() ==> !text::trim(#[trigger] files[i]).contains('\n'),
    ensures
        lists_all(specfile::with_files(s, files), files),
{
    let v = pieces::lines(s);
    let entries = specfile::file_entries(files);
    let f = specfile::line_from(v, "%files"@, 0);
    if entries.len() > 0 {
        line_laws::lemma_lines_hold_no_line_feed(s, 0);
        spec_laws::lemma_line_from(v, "%files"@, 0);
        assert forall|i: int| 0 <= i < entries.len() implies is_entry(#[trigger] entries[i]) by {
            lemma_file_entries(files, i);
        }
        if f >= v.len() {
            lemma_new_file_list(v, files);
        } else {
            let end = specfile::section_end(v, f + 1);
            let section = v.subrange(f + 1, end);
            let added = specfile::unlisted(section, entries);
            if added.len() > 0 {
                lemma_grown_file_list(v, files, f);
            } else {
                assert forall|i: int| 0 <= i < entries.len() implies lists(
                    s,
                    #[trigger] entries[i],
                ) by {
                    if !pieces::trim_each(section).contains(entries[i]) {
                        let k = lemma_unlisted_has(section, entries, i);
                    }
                }
            }
        }
    }
}

proof fn lemma_file_entries_have(files: Seq<Seq<char>>, i: int)
    requires
        0 <= i < files.len(),
        text::starts_with(text::trim(files[i]), "/"@),
    ensures
        specfile::file_entries(files).contains(specfile::path_macro(text::trim(files[i]))),
    decreases files.len(),
{
    let rest = files.drop_last();
    let before = specfile::file_entries(rest);
    let last = text::trim(files[files.len() - 1]);
    let e = specfile::path_macro(text::trim(files[i]));
    if i < rest.len() {
        assert(rest[i] == files[i]);
        lemma_file_entries_have(rest, i);
    }
    if text::starts_with(last, "/"@) {
        set_laws::lemma_sorted_insert_texts(before, specfile::path_macro(last));
    }
}

/// A spec to whose file list files have been added lists each that has an absolute path, under the
/// macro for its directory, as long as each path stands on one line.
pub proof fn law_files_are_listed(s: Seq<char>, files: Seq<Seq<char>>)
    requires
        forall|i: int| 0 <= i < files.len() ==> !text::trim(#[trigger] files[i]).contains('\n'),
    ensures
        forall|i: int|
            0 <= i < files.len() && text::starts_with(text::trim(#[trigger] files[i]), "/"@)
                ==> lists(
                specfile::with_files(s, files),
                specfile::path_macro(text::trim(files[i])),
            ),
{
    lemma_files_listed(s, files);
    assert forall|i: int|
        0 <= i < files.len() && text::starts_with(
            text::trim(#[trigger] files[i]),
            "/"@,
        ) implies lists(
        specfile::with_files(s, files),
        specfile::path_macro(text::trim(files[i])),
    ) by {
        lemma_file_entries_have(files, i);
        let k = specfile::file_entries(files).index_of(
            specfile::path_macro(text::trim(files[i])),
        );
        assert(lists(specfile::with_files(s, files), specfile::file_entries(files)[k]));
    }
}

/// Adding entries to the file list twice is adding them once, as long as each path stands on one
/// line.
pub proof fn law_files_twice(s: Seq<char>, files: Seq<Seq<char>>)
    requires
        forall|i: int| 0 <= i < files.len() ==> !text::trim(#[trigger] files[i]).contains('\n'),
    ensures
        specfile::with_files(specfile::with_files(s, files), files) == specfile::with_files(
            s,
            files,
        ),
{
    let once = specfile::with_files(s, files);
    let v = pieces::lines(once);
    let entries = specfile::file_entries(files);
    if entries.len() > 0 {
        lemma_files_listed(s, files);
        assert(lists(once, entries[0]));
        let f = specfile::line_from(v, "%files"@, 0);
        let section = v.subrange(f + 1, specfile::section_end(v, f + 1));
        assert forall|i: int| 0 <= i < entries.len() implies pieces::trim_each(section).contains(
            #[trigger] entries[i],
        ) by {
            assert(lists(once, entries[i]));
        }
        lemma_all_listed(section, entries);
    }
}

proof fn lemma_new_file_list(v: Seq<Seq<char>>, files: Seq<Seq<char>>)
    requires
        line_laws::one_line_each(v),
        forall|k: int| 0 <= k < v.len() ==> !text::starts_with(#[trigger] v[k], "%files"@),
        forall|i: int|
            0 <= i < specfile::file_entries(files).len() ==> is_entry(
                #[trigger] specfile::file_entries(files)[i],
            ),
    ensures
        ({
            let all = v.push("%files"@) + specfile::file_entries(files);
            lists_all(specfile::text_of(all), files)
        }),
{
    reveal_strlit("%files");
    let entries = specfile::file_entries(files);
    let all = v.push("%files"@) + entries;
    let f = v.len() as int;
    assert(all[f] == "%files"@);
    assert("%files"@.subrange(0, "%files"@.len() as int) =~= "%files"@);
    assert forall|i: int| 0 <= i < all.len() implies !(#[trigger] all[i]).contains('\n') by {
        if i < f {
            assert(all[i] == v[i]);
        } else if i > f {
            assert(all[i] == entries[i - f - 1]);
        }
    }
    assert forall|k: int| 0 <= k < f implies !text::starts_with(#[trigger] all[k], "%files"@) by {
        assert(all[k] == v[k]);
    }
    assert forall|k: int| f < k < all.len() implies !specfile::starts_section(
        #[trigger] all[k],
    ) by {
        assert(all[k] == entries[k - f - 1]);
    }
    assert forall|i: int| 0 <= i < entries.len() implies listed_between(
        all,
        #[trigger] entries[i],
        f + 1,
        all.len() as int,
    ) && entries[i].len() > 0 by {
        line_laws::lemma_trim(entries[i]);
        assert(all[f + 1 + i] == entries[i]);
    }
    lemma_files_settled(all, files, f, all.len() as int);
}

proof fn lemma_grown_file_list(v: Seq<Seq<char>>, files: Seq<Seq<char>>, f: int)
    requires
        line_laws::one_line_each(v),
        0 <= f < v.len(),
        text::starts_with(v[f], "%files"@),
        forall|k: int| 0 <= k < f ==> !text::starts_with(#[trigger] v[k], "%files"@),
        forall|i: int|
            0 <= i < specfile::file_entries(files).len() ==> is_entry(
                #[trigger] specfile::file_entries(files)[i],
            ),
    ensures
        ({
            let section = v.subrange(f + 1, specfile::section_end(v, f + 1));
            let added = specfile::unlisted(section, specfile::file_entries(files));
            let all = specfile::with_entries(v, f, added);
            lists_all(specfile::text_of(all), files)
        }),
{
    let entries = specfile::file_entries(files);
    let end = specfile::section_end(v, f + 1);
    let section = v.subrange(f + 1, end);
    let added = specfile::unlisted(section, entries);
    let gap = specfile::blank_end(v, f + 1);
    lemma_section_end(v, f + 1);
    lemma_blank_end(v, f + 1);
    let lo = if gap >= end {
        f + 1
    } else {
        end
    };
    let hi = if gap >= end {
        gap
    } else {
        end
    };
    let filled = v.take(lo) + added + v.skip(hi);
    let m = lo + added.len();
    let next = specfile::section_end(filled, f + 1);
    let all = specfile::with_entries(v, f, added);
    assert(all == specfile::with_gap(filled, next));
    assert forall|k: int| 0 <= k < added.len() implies is_entry(#[trigger] added[k]) by {
        let i = lemma_unlisted_from(section, entries, k);
        assert(is_entry(entries[i]));
    }
    assert forall|k: int| f < k < m implies !specfile::starts_section(#[trigger] filled[k]) by {
        if k < lo {
            assert(filled[k] == v[k]);
        } else {
            assert(filled[k] == added[k - lo]);
        }
    }
    lemma_section_end(filled, f + 1);
    assert(m <= next) by {
        if next < m {
            assert(!specfile::starts_section(filled[next]));
        }
    }
    assert forall|k: int| 0 <= k < m implies #[trigger] all[k] == filled[k] by {}
    let empty = Seq::<char>::empty();
    assert forall|i: int| 0 <= i < filled.len() implies !(#[trigger] filled[i]).contains('\n') by {
        if i < lo {
            assert(filled[i] == v[i]);
        } else if i < m {
            assert(filled[i] == added[i - lo]);
        } else {
            assert(filled[i] == v[hi + (i - m)]);
        }
    }
    assert forall|i: int| 0 <= i < all.len() implies !(#[trigger] all[i]).contains('\n') by {
        if all.len() > filled.len() {
            if i < next {
                assert(all[i] == filled[i]);
            } else if i == next {
                assert(all[i] == empty);
            } else {
                assert(all[i] == filled[i - 1]);
            }
        }
    }
    assert(all[f] == v[f]);
    assert forall|k: int| 0 <= k < f implies !text::starts_with(#[trigger] all[k], "%files"@) by {
        assert(all[k] == v[k]);
    }
    assert forall|k: int| f < k < m implies !specfile::starts_section(#[trigger] all[k]) by {
        assert(all[k] == filled[k]);
    }
    assert forall|i: int| 0 <= i < entries.len() implies listed_between(
        all,
        #[trigger] entries[i],
        f + 1,
        m,
    ) && entries[i].len() > 0 by {
        let e = entries[i];
        assert(is_entry(e));
        line_laws::lemma_trim(e);
        if pieces::trim_each(section).contains(e) {
            let q = pieces::trim_each(section).index_of(e);
            let j = f + 1 + q;
            assert(text::trim(v[j]) == e);
            if gap >= end {
                assert(specfile::is_blank(v[j]));
            }
            assert(all[j] == v[j]);
        } else {
            let k = lemma_unlisted_has(section, entries, i);
            assert(all[lo + k] == filled[lo + k]);
            assert(filled[lo + k] == added[k]);
        }
    }
    lemma_files_settled(all, files, f, m);
}

proof fn lemma_spaces(n: int)
    ensures
        specfile::spaces(n).len() == (if n <= 0 {
            0
        } else {
            n
        }),
        forall|k: int| 0 <= k < specfile::spaces(n).len() ==> specfile::spaces(n)[k] == ' ',
    decreases n,
{
    if n > 0 {
        lemma_spaces(n - 1);
    }
}

/// The line for a tag: it starts with the tag and a colon, and holds no line feed where neither
/// the tag nor the value does.
pub proof fn lemma_tag_line(tag: Seq<char>, value: Seq<char>)
    requires
        !tag.contains('\n'),
        !text::trim(value).contains('\n'),
    ensures
        ({
            let line = specfile::tag_line(tag, value);
            let key = tag + ":"@;
            &&& key.len() > 0
            &&& !text::is_white(key.last())
            &&& text::starts_with(line, key)
            &&& text::trim(line.skip(key.len() as int)) == text::trim(value)
            &&& !line.contains('\n')
        }),
{
    reveal_strlit(":");
    let key = tag + ":"@;
    let pad = specfile::spaces(16 - key.len());
    let val = text::trim(value);
    let line = specfile::tag_line(tag, value);
    lemma_spaces(16 - key.len());
    line_laws::lemma_trim(value);
    assert(line =~= key + pad + val);
    assert(line.subrange(0, key.len() as int) =~= key);
    assert(line.skip(key.len() as int) =~= pad + val + Seq::<char>::empty());
    line_laws::lemma_trim_around(pad, val, Seq::empty());
    if line.contains('\n') {
        let j = line.index_of('\n');
        if j < tag.len() {
            assert(tag[j] == '\n');
        } else if j == tag.len() {
            assert(key[j] == ':');
        } else if j < key.len() + pad.len() {
            assert(pad[j - key.len()] == '\n');
        } else {
            assert(val[j - key.len() - pad.len()] == '\n');
        }
    }
}

proof fn lemma_value_from(v: Seq<Seq<char>>, prefix: Seq<char>, i: int, n: int)
    requires
        0 <= i <= n < v.len(),
        forall|k: int| i <= k < n ==> !text::starts_with(#[trigger] v[k], prefix),
    ensures
        specfile::value_from(v, prefix, i) == specfile::value_from(v, prefix, n),
    decreases n - i,
{
    if i < n {
        lemma_value_from(v, prefix, i + 1, n);
    }
}

/// The lines of a spec in which a tag has been set: where the line of the tag stands.
proof fn lemma_tag_set(s: Seq<char>, tag: Seq<char>, value: Seq<char>) -> (at: int)
    requires
        !tag.contains('\n'),
        !text::trim(value).contains('\n'),
    ensures
        ({
            let t = pieces::lines(specfile::with_tag(s, tag, value));
            let key = tag + ":"@;
            &&& 0 <= at < t.len()
            &&& line_laws::is_tidy(t)
            &&& line_laws::one_line_each(t)
            &&& t[at] == text::trim_end(specfile::tag_line(tag, value))
            &&& text::starts_with(t[at], key)
            &&& specfile::line_from(t, key, 0) == at
            &&& specfile::with_tag(s, tag, value) == pieces::join(t, "\n"@) + "\n"@
        }),
{
    let v = pieces::lines(s);
    let key = tag + ":"@;
    let line = specfile::tag_line(tag, value);
    line_laws::lemma_lines_hold_no_line_feed(s, 0);
    lemma_tag_line(tag, value);
    spec_laws::lemma_line_from(v, key, 0);
    spec_laws::lemma_line_from(v, "%"@, 0);
    let known = specfile::line_from(v, key, 0) < v.len();
    let at = if known {
        specfile::line_from(v, key, 0)
    } else {
        specfile::line_from(v, "%"@, 0)
    };
    let all = if known {
        v.update(at, line)
    } else {
        v.insert(at, line)
    };
    assert forall|i: int| 0 <= i < all.len() implies !(#[trigger] all[i]).contains('\n') by {
        if known {
            if i != at {
                assert(all[i] == v[i]);
            }
        } else if i < at {
            assert(all[i] == v[i]);
        } else if i > at {
            assert(all[i] == v[i - 1]);
        }
    }
    assert(all[at] == line);
    line_laws::lemma_prefix_of_trim_end(line, key);
    spec_laws::lemma_tidy_keeps(all, at);
    line_laws::lemma_lines_of_text(all);
    line_laws::lemma_tidy(all);
    lemma_text_of(all);
    let t = specfile::tidy(all);
    assert forall|k: int| 0 <= k < at implies !text::starts_with(#[trigger] t[k], key) by {
        assert(all[k] == v[k]);
        line_laws::lemma_prefix_of_trim_end(all[k], key);
    }
    lemma_line_is(t, key, at);
    at
}

/// A tag that has been set has the value that it was given, as long as both stand on one line and
/// the value is not blank.
pub proof fn law_tag_is_read_back(s: Seq<char>, tag: Seq<char>, value: Seq<char>)
    requires
        !tag.contains('\n'),
        !text::trim(value).contains('\n'),
        text::trim(value).len() > 0,
    ensures
        specfile::tag_text(specfile::with_tag(s, tag, value), tag) == Some(text::trim(value)),
{
    let at = lemma_tag_set(s, tag, value);
    let t = pieces::lines(specfile::with_tag(s, tag, value));
    let key = tag + ":"@;
    spec_laws::lemma_line_from(t, key, 0);
    lemma_value_from(t, key, 0, at);
    lemma_tag_line(tag, value);
    line_laws::lemma_trim_behind_prefix(specfile::tag_line(tag, value), key);
}

/// Setting a tag twice is setting it once, as long as it and its value stand on one line.
pub proof fn law_tag_twice(s: Seq<char>, tag: Seq<char>, value: Seq<char>)
    requires
        !tag.contains('\n'),
        !text::trim(value).contains('\n'),
    ensures
        specfile::with_tag(specfile::with_tag(s, tag, value), tag, value) == specfile::with_tag(
            s,
            tag,
            value,
        ),
{
    let at = lemma_tag_set(s, tag, value);
    let t = pieces::lines(specfile::with_tag(s, tag, value));
    let line = specfile::tag_line(tag, value);
    let again = t.update(at, line);
    lemma_tag_line(tag, value);
    assert forall|i: int| 0 <= i < again.len() implies !(#[trigger] again[i]).contains('\n') by {
        if i != at {
            assert(again[i] == t[i]);
        }
    }
    lemma_text_of(again);
    assert(specfile::trim_end_each(again) =~= t);
}

} // verus!
