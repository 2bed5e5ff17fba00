//! Laws of the single edits of a spec: what they put where.
use vstd::prelude::*;

use crate::cure_laws;
use crate::file_laws;
use crate::line_laws;
use crate::pieces;
use crate::section_laws;
use crate::spec_laws;
use crate::specfile;
use crate::target_laws;
use crate::text;
use crate::update_laws;

verus! {

/// Replacing a text goes on behind each occurrence, from the first on.
pub proof fn law_every_occurrence_is_replaced(
    a: Seq<char>,
    from: Seq<char>,
    b: Seq<char>,
    to: Seq<char>,
)
    requires
        from.len() > 0,
        forall|j: int| 0 <= j < a.len() ==> !#[trigger] text::occurs_at(a + from + b, from, j),
    ensures
        pieces::replace(a + from + b, from, to) == a + to + pieces::replace(b, from, to),
        pieces::replace_first(a + from + b, from, to) == a + to + b,
{
    let s = a + from + b;
    let n = a.len() as int;
    assert(s.subrange(n, n + from.len()) =~= from);
    target_laws::lemma_find_is(s, from, n);
    assert(s.subrange(0, n) =~= a);
    lemma_replace_behind(a + from, b, from, to, 0);
    assert(s.take(n) =~= a);
    assert(s.skip(n + from.len()) =~= b);
}

proof fn lemma_find_behind(a: Seq<char>, b: Seq<char>, p: Seq<char>, i: int)
    requires
        0 <= i,
    ensures
        text::find_from(a + b, p, a.len() + i) == match text::find_from(b, p, i) {
            Some(k) => Some(a.len() + k),
            None => None,
        },
    decreases b.len() + 1 - i,
{
    let s = a + b;
    if i + p.len() <= b.len() {
        assert(s.subrange(a.len() + i, a.len() + i + p.len()) =~= b.subrange(i, i + p.len()));
        lemma_find_behind(a, b, p, i + 1);
    }
}

proof fn lemma_replace_behind(
    a: Seq<char>,
    b: Seq<char>,
    from: Seq<char>,
    to: Seq<char>,
    i: int,
)
    requires
        0 <= i <= b.len(),
        from.len() > 0,
    ensures
        pieces::replace_from(a + b, from, to, a.len() + i) == pieces::replace_from(b, from, to, i),
    decreases b.len() - i,
{
    lemma_find_behind(a, b, from, i);
    text::lemma_find(b, from, i);
    match text::find_from(b, from, i) {
        Some(k) => {
            lemma_replace_behind(a, b, from, to, k + from.len());
            assert((a + b).subrange(a.len() + i, a.len() + k) =~= b.subrange(i, k));
        },
        None => {
            assert((a + b).skip(a.len() + i) =~= b.skip(i));
        },
    }
}

/// A text that does not hold what is to be replaced stays as it is.
pub proof fn law_nothing_else_is_replaced(s: Seq<char>, from: Seq<char>, to: Seq<char>)
    requires
        !text::contains(s, from),
    ensures
        pieces::replace(s, from, to) == s,
        pieces::replace_first(s, from, to) == s,
{
    assert(s.skip(0) =~= s);
}

/// The file of a spec ends with a line feed, which is only added where there is none.
pub proof fn law_spec_file_ends_with_a_line_feed(s: Seq<char>)
    ensures
        specfile::with_line_feed(s).len() > 0,
        specfile::with_line_feed(s).last() == '\n',
        s.len() > 0 && s.last() == '\n' ==> specfile::with_line_feed(s) == s,
        !(s.len() > 0 && s.last() == '\n') ==> specfile::with_line_feed(s) == s + "\n"@,
{
    reveal_strlit("\n");
    let n = s.len() as int;
    if text::ends_with(s, "\n"@) {
        assert(s.subrange(n - 1, n)[0] == s[n - 1]);
    }
    if n > 0 && s.last() == '\n' {
        assert(s.subrange(n - 1, n) =~= "\n"@);
    }
}

proof fn lemma_spaces(n: int)
    ensures
        specfile::spaces(n).len() == if n > 0 {
            n
        } else {
            0
        },
        forall|k: int| 0 <= k < specfile::spaces(n).len() ==> #[trigger] specfile::spaces(n)[k]
            == ' ',
    decreases n,
{
    if n > 0 {
        lemma_spaces(n - 1);
    }
}

/// The line of a tag has its value, trimmed, behind the tag, a colon and nothing but spaces, from
/// the seventeenth column on where the tag is short enough.
pub proof fn law_tag_line_is_aligned(tag: Seq<char>, value: Seq<char>)
    ensures
        ({
            let line = specfile::tag_line(tag, value);
            let v = text::trim(value);
            let n = line.len() - v.len();
            &&& text::starts_with(line, tag + ":"@)
            &&& line.skip(n) == v
            &&& forall|k: int| tag.len() + 1 <= k < n ==> #[trigger] line[k] == ' '
            &&& tag.len() < 16 ==> n == 16
            &&& tag.len() >= 16 ==> n == tag.len() + 1
        }),
{
    reveal_strlit(":");
    let key = tag + ":"@;
    let line = specfile::tag_line(tag, value);
    let v = text::trim(value);
    lemma_spaces(16 - key.len());
    let gap = specfile::spaces(16 - key.len());
    assert(line.subrange(0, key.len() as int) =~= key);
    let n = line.len() - v.len();
    assert(line.skip(n) =~= v);
    assert forall|k: int| tag.len() + 1 <= k < n implies #[trigger] line[k] == ' ' by {
        assert(line[k] == gap[k - key.len()]);
    }
}

/// A tag is set in the place of its first line, else before the first macro.
pub proof fn law_tag_stands_in_its_place(s: Seq<char>, tag: Seq<char>, value: Seq<char>) -> (r: (
    int,
    int,
))
    ensures
        ({
            let v = pieces::lines(s);
            let (i, j) = r;
            let key = tag + ":"@;
            &&& 0 <= i <= j <= v.len()
            &&& specfile::with_tag(s, tag, value) == specfile::text_of(
                v.take(i) + seq![specfile::tag_line(tag, value)] + v.skip(j),
            )
            &&& if j == i {
                cure_laws::none_starts_with(v, key) && cure_laws::before_first(v, "%"@, i)
            } else {
                j == i + 1 && cure_laws::before_first(v, key, i)
            }
        }),
{
    let v = pieces::lines(s);
    let key = tag + ":"@;
    let line = specfile::tag_line(tag, value);
    spec_laws::lemma_line_from(v, key, 0);
    spec_laws::lemma_line_from(v, "%"@, 0);
    let at = specfile::line_from(v, key, 0);
    let place = specfile::line_from(v, "%"@, 0);
    if at < v.len() {
        assert(v.update(at, line) =~= v.take(at) + seq![line] + v.skip(at + 1));
        (at, at + 1)
    } else {
        assert(v.insert(place, line) =~= v.take(place) + seq![line] + v.skip(place));
        (place, place)
    }
}

/// A line that names a remote asset.
pub open spec fn is_asset_line(line: Seq<char>) -> bool {
    text::starts_with(text::trim_start(line), "#!RemoteAsset"@)
}

/// The remote asset is named in the place of the first line that names one, else before the first
/// source, else before the first macro.
pub proof fn law_asset_stands_in_its_place(s: Seq<char>, asset: Seq<char>) -> (r: (int, int))
    ensures
        ({
            let v = pieces::lines(s);
            let (i, j) = r;
            &&& 0 <= i <= j <= v.len()
            &&& specfile::with_asset(s, asset) == specfile::text_of(
                v.take(i) + seq![text::trim(asset)] + v.skip(j),
            )
            &&& forall|k: int| 0 <= k < i ==> !is_asset_line(#[trigger] v[k])
            &&& if j > i {
                j == i + 1 && is_asset_line(v[i])
            } else {
                &&& forall|k: int| 0 <= k < v.len() ==> !is_asset_line(#[trigger] v[k])
                &&& (i < v.len() && cure_laws::before_first(v, "Source"@, i)) || (
                cure_laws::none_starts_with(v, "Source"@) && cure_laws::before_first(v, "%"@, i))
            }
        }),
{
    let v = pieces::lines(s);
    let line = text::trim(asset);
    update_laws::lemma_asset_line_from(v, 0);
    spec_laws::lemma_line_from(v, "Source"@, 0);
    spec_laws::lemma_line_from(v, "%"@, 0);
    let at = specfile::asset_line_from(v, 0);
    let source = specfile::line_from(v, "Source"@, 0);
    let place = specfile::line_from(v, "%"@, 0);
    assert forall|k: int| 0 <= k < at implies !is_asset_line(#[trigger] v[k]) by {
        assert(!update_laws::is_asset(v[k]));
    }
    if at < v.len() {
        assert(v.update(at, line) =~= v.take(at) + seq![line] + v.skip(at + 1));
        (at, at + 1)
    } else if source < v.len() {
        assert(v.insert(source, line) =~= v.take(source) + seq![line] + v.skip(source));
        (source, source)
    } else {
        assert(v.insert(place, line) =~= v.take(place) + seq![line] + v.skip(place));
        (place, place)
    }
}

/// A line on how a package is built.
pub open spec fn is_on_building(line: Seq<char>) -> bool {
    ||| text::starts_with(line, "BuildRequires:"@)
    ||| text::starts_with(line, "BuildOption"@)
    ||| text::starts_with(line, "BuildSystem:"@)
}

proof fn lemma_build_line_from(v: Seq<Seq<char>>, i: int)
    requires
        0 <= i <= v.len(),
    ensures
        i <= specfile::build_line_from(v, i) <= v.len(),
        forall|k: int|
            i <= k < specfile::build_line_from(v, i) ==> !is_on_building(#[trigger] v[k]),
        specfile::build_line_from(v, i) < v.len() ==> is_on_building(
            v[specfile::build_line_from(v, i)],
        ),
    decreases v.len() - i,
{
    if i < v.len() && !specfile::is_build_line(v[i]) {
        lemma_build_line_from(v, i + 1);
    }
}

/// What a package provides is named before the first line on how it is built, else before the first
/// macro.
pub proof fn law_provides_stand_before_the_build(v: Seq<Seq<char>>)
    ensures
        ({
            let at = specfile::provides_place(v);
            &&& 0 <= at <= v.len()
            &&& (at < v.len() && is_on_building(v[at]) && forall|k: int|
                0 <= k < at ==> !is_on_building(#[trigger] v[k])) || (cure_laws::before_first(
                v,
                "%"@,
                at,
            ) && forall|k: int| 0 <= k < v.len() ==> !is_on_building(#[trigger] v[k]))
        }),
{
    lemma_build_line_from(v, 0);
    spec_laws::lemma_line_from(v, "%"@, 0);
}

/// A line that names what a Python package provides.
pub open spec fn names_python_package(line: Seq<char>, w: Seq<char>, rest: Seq<char>) -> bool {
    ||| line == "Provides:"@ + w + "python3-"@ + rest && forall|k: int|
        0 <= k < w.len() ==> text::is_white(#[trigger] w[k])
    ||| line == "%python_provide python3-"@ + rest
}

/// A spec that names what it provides with its version names it on two lines that follow one
/// another, and on no other.
pub proof fn law_provides_are_named_on_two_lines(s: Seq<char>) -> (at: int)
    ensures
        ({
            let t = pieces::lines(specfile::with_versioned_provides(s));
            &&& 0 <= at
            &&& at + 1 < t.len()
            &&& t[at] == "Provides:       python3-%{srcname} = %{version}-%{release}"@
            &&& t[at + 1] == "%python_provide python3-%{srcname}"@
            &&& forall|k: int, w: Seq<char>, rest: Seq<char>|
                0 <= k < t.len() && #[trigger] names_python_package(t[k], w, rest) ==> k == at || k
                    == at + 1
        }),
{
    update_laws::law_provides_are_named_once(s);
    let t = pieces::lines(specfile::with_versioned_provides(s));
    let others = specfile::other_lines(specfile::trim_end_each(pieces::lines(s)));
    let at = choose|at: int|
        {
            &&& #[trigger] update_laws::provides_at(t, at, others)
            &&& t[at] == "Provides:       python3-%{srcname} = %{version}-%{release}"@
            &&& t[at + 1] == "%python_provide python3-%{srcname}"@
            &&& forall|k: int|
                0 <= k < t.len() && k != at && k != at + 1 ==> !specfile::is_any_provide(
                    #[trigger] t[k],
                )
        };
    assert forall|k: int, w: Seq<char>, rest: Seq<char>|
        0 <= k < t.len() && #[trigger] names_python_package(t[k], w, rest) implies k == at || k
        == at + 1 by {
        lemma_names_package(t[k], w, rest);
    }
    at
}

proof fn lemma_names_package(line: Seq<char>, w: Seq<char>, rest: Seq<char>)
    requires
        names_python_package(line, w, rest),
    ensures
        specfile::is_any_provide(line),
{
    reveal_strlit("python3-");
    if line == "%python_provide python3-"@ + rest {
        file_laws::lemma_prefix("%python_provide python3-"@, rest);
    } else {
        let p = "Provides:"@;
        let tail = w + "python3-"@ + rest;
        assert(line =~= p + tail);
        file_laws::lemma_prefix(p, tail);
        let n = w.len() as int;
        assert forall|k: int| 0 <= k < n implies text::is_white(#[trigger] tail[k]) by {
            assert(tail[k] == w[k]);
        }
        assert(tail[n] == 'p');
        line_laws::lemma_trim_start_is(tail, n);
        assert(tail.skip(n) =~= "python3-"@ + rest);
        file_laws::lemma_prefix("python3-"@, rest);
    }
}

proof fn lemma_extras_line(features: Seq<Seq<char>>, i: int) -> (k: int)
    requires
        0 <= i < features.len(),
        text::trim(features[i]).len() > 0,
    ensures
        0 <= k < specfile::extras_lines(features).len(),
        specfile::extras_lines(features)[k] == "%pyproject_extras_subpkg -n python-%{srcname} "@
            + text::trim(features[i]),
    decreases features.len(),
{
    let rest = features.drop_last();
    if i < rest.len() {
        lemma_extras_line(rest, i)
    } else {
        specfile::extras_lines(rest).len() as int
    }
}

proof fn lemma_extras_line_from(features: Seq<Seq<char>>, k: int) -> (i: int)
    requires
        0 <= k < specfile::extras_lines(features).len(),
    ensures
        0 <= i < features.len(),
        specfile::extras_lines(features)[k] == "%pyproject_extras_subpkg -n python-%{srcname} "@
            + text::trim(features[i]),
    decreases features.len(),
{
    let rest = features.drop_last();
    if k < specfile::extras_lines(rest).len() {
        lemma_extras_line_from(rest, k)
    } else {
        features.len() - 1
    }
}

proof fn lemma_one_line_suffix(a: Seq<char>, b: Seq<char>)
    requires
        !a.contains('\n'),
        !b.contains('\n'),
    ensures
        !(a + b).contains('\n'),
{
    if (a + b).contains('\n') {
        let k = (a + b).index_of('\n');
        if k < a.len() {
            assert(a[k] == '\n');
        } else {
            assert(b[k - a.len()] == '\n');
        }
    }
}

/// The extras of a package are declared in its spec, one line for each that is not blank, as long
/// as the spec has a description and each extra stands on one line.
pub proof fn law_extras_are_declared(s: Seq<char>, features: Seq<Seq<char>>, i: int)
    requires
        pieces::lines(s).contains("%description"@),
        0 <= i < features.len(),
        text::trim(features[i]).len() > 0,
        forall|k: int| 0 <= k < features.len() ==> !text::trim(#[trigger] features[k]).contains('\n'),
    ensures
        pieces::lines(specfile::with_extras(s, features)).contains(
            "%pyproject_extras_subpkg -n python-%{srcname} "@ + text::trim(features[i]),
        ),
{
    reveal_strlit("%pyproject_extras_subpkg -n python-%{srcname} ");
    let decl = "%pyproject_extras_subpkg -n python-%{srcname} "@;
    let v = pieces::lines(s);
    let at = specfile::exact_line_from(v, "%description"@, 0);
    update_laws::lemma_exact_line_from(v, "%description"@, 0);
    assert(at < v.len()) by {
        if at == v.len() {
            let k = v.index_of("%description"@);
            assert(v[k] != "%description"@);
        }
    }
    let end = specfile::section_end(v, at + 1);
    section_laws::lemma_section_end(v, at + 1);
    let empty = Seq::<char>::empty();
    let head = if end > at + 1 && v[end - 1].len() > 0 {
        v.take(end).push(empty)
    } else {
        v.take(end)
    };
    let x = specfile::extras_lines(features);
    let tail = v.skip(specfile::extras_end(v, end));
    let w = specfile::extras_replaced(v, at, features);
    assert(w == (head + x).push(empty) + tail);
    line_laws::lemma_lines_hold_no_line_feed(s, 0);
    lemma_extras_end(v, end);
    assert forall|k: int| 0 <= k < w.len() implies !(#[trigger] w[k]).contains('\n') by {
        if k < head.len() {
            if k < end {
                assert(w[k] == v[k]);
            }
        } else if k < head.len() + x.len() {
            let j = lemma_extras_line_from(features, k - head.len());
            assert(!decl.contains('\n'));
            lemma_one_line_suffix(decl, text::trim(features[j]));
        } else if k > head.len() + x.len() {
            assert(w[k] == tail[k - head.len() - x.len() - 1]);
        }
    }
    let k = lemma_extras_line(features, i);
    let m = head.len() + k;
    let line = decl + text::trim(features[i]);
    assert(w[m] == line);
    line_laws::lemma_trim(features[i]);
    assert(line.last() == text::trim(features[i]).last());
    line_laws::lemma_trim_end_is(line, line.len() as int);
    assert(line.take(line.len() as int) =~= line);
    line_laws::lemma_lines_of_text(w);
    spec_laws::lemma_tidy_keeps(w, m);
    assert(pieces::lines(specfile::text_of(w))[m] == line);
}

proof fn lemma_extras_end(v: Seq<Seq<char>>, i: int)
    requires
        0 <= i <= v.len(),
    ensures
        i <= specfile::extras_end(v, i) <= v.len(),
{
    lemma_blank_end(v, i);
    lemma_extras_lines_end(v, specfile::blank_end(v, i));
    lemma_blank_end(v, specfile::extras_lines_end(v, specfile::blank_end(v, i)));
}

proof fn lemma_blank_end(v: Seq<Seq<char>>, i: int)
    requires
        0 <= i <= v.len(),
    ensures
        i <= specfile::blank_end(v, i) <= v.len(),
    decreases v.len() - i,
{
    if i < v.len() && specfile::is_blank(v[i]) {
        lemma_blank_end(v, i + 1);
    }
}

proof fn lemma_extras_lines_end(v: Seq<Seq<char>>, i: int)
    requires
        0 <= i <= v.len(),
    ensures
        i <= specfile::extras_lines_end(v, i) <= v.len(),
    decreases v.len() - i,
{
    if i < v.len() && specfile::is_extras_line(v[i]) {
        lemma_extras_lines_end(v, i + 1);
    }
}

/// A check option is only put into a spec for what is to be left out and no option leaves out yet.
pub proof fn law_only_missing_exclusions_are_added(
    s: Seq<char>,
    exclusions: Seq<Seq<char>>,
    k: int,
) -> (i: int)
    requires
        0 <= k < specfile::check_options(
            specfile::exclusions_of(pieces::lines(s)),
            exclusions,
        ).len(),
    ensures
        ({
            let v = pieces::lines(s);
            let added = specfile::check_options(specfile::exclusions_of(v), exclusions);
            let e = text::trim(exclusions[i]);
            &&& 0 <= i < exclusions.len()
            &&& e.len() > 0
            &&& added[k] == "BuildOption(check):  -e \""@ + e + "\""@
            &&& forall|j: int|
                0 <= j < v.len() ==> !cure_laws::tells_to_leave_out(#[trigger] v[j], e)
        }),
{
    let v = pieces::lines(s);
    let existing = specfile::exclusions_of(v);
    let i = lemma_option_from(existing, exclusions, k);
    let e = text::trim(exclusions[i]);
    line_laws::lemma_lines_hold_no_line_feed(s, 0);
    assert forall|j: int| 0 <= j < v.len() implies !cure_laws::tells_to_leave_out(
        #[trigger] v[j],
        e,
    ) by {
        if cure_laws::tells_to_leave_out(v[j], e) {
            let (n, x) = choose|n: int, x: Seq<char>| #[trigger]
                spec_laws::excludes(v[j], n, x) && (x == e || exists|p: Seq<char>|
                    x == #[trigger] (p + ".*"@) && text::starts_with(e, p));
            spec_laws::lemma_exclusions_have(v, j, n, x);
            let m = existing.index_of(x);
            if x != e {
                let p = choose|p: Seq<char>|
                    x == #[trigger] (p + ".*"@) && text::starts_with(e, p);
                assert(x.subrange(p.len() as int, x.len() as int) =~= ".*"@);
                assert(x.take(p.len() as int) =~= p);
            }
            assert(specfile::covers(existing[m], e));
        }
    }
    i
}

proof fn lemma_option_from(
    existing: Seq<Seq<char>>,
    exclusions: Seq<Seq<char>>,
    k: int,
) -> (i: int)
    requires
        0 <= k < specfile::check_options(existing, exclusions).len(),
    ensures
        0 <= i < exclusions.len(),
        text::trim(exclusions[i]).len() > 0,
        !specfile::covered(existing, text::trim(exclusions[i])),
        specfile::check_options(existing, exclusions)[k] == "BuildOption(check):  -e \""@
            + text::trim(exclusions[i]) + "\""@,
    decreases exclusions.len(),
{
    let rest = exclusions.drop_last();
    if k < specfile::check_options(existing, rest).len() {
        lemma_option_from(existing, rest, k)
    } else {
        exclusions.len() - 1
    }
}

} // verus!
