//! Laws of updating the spec of a package to a new version.
use vstd::prelude::*;

use crate::line_laws;
use crate::log_laws;
use crate::pieces;
use crate::pipeline;
use crate::section_laws;
use crate::spec_laws;
use crate::specfile;
use crate::text;
use crate::update_laws;
use crate::versions;

verus! {

/// The values that a list of lines gives for `p`, without those that are blank.
spec fn values(v: Seq<Seq<char>>, p: Seq<char>) -> Seq<Seq<char>>
    decreases v.len(),
{
    if v.len() == 0 {
        seq![]
    } else {
        values(v.drop_last(), p) + values_of_line(v.last(), p)
    }
}

spec fn values_of_line(line: Seq<char>, p: Seq<char>) -> Seq<Seq<char>> {
    if text::starts_with(line, p) && text::trim(line.skip(p.len() as int)).len() > 0 {
        seq![text::trim(line.skip(p.len() as int))]
    } else {
        seq![]
    }
}

proof fn lemma_values_add(a: Seq<Seq<char>>, b: Seq<Seq<char>>, p: Seq<char>)
    ensures
        values(a + b, p) == values(a, p) + values(b, p),
    decreases b.len(),
{
    if b.len() == 0 {
        assert(a + b =~= a);
        assert(values(a, p) + values(b, p) =~= values(a, p));
    } else {
        assert((a + b).drop_last() =~= a + b.drop_last());
        assert((a + b).last() == b.last());
        lemma_values_add(a, b.drop_last(), p);
        assert(values(a + b, p) =~= values(a, p) + values(b, p));
    }
}

proof fn lemma_values_of_one(line: Seq<char>, p: Seq<char>)
    ensures
        values(seq![line], p) == values_of_line(line, p),
{
    let one = seq![line];
    assert(one.drop_last() =~= seq![]);
    assert(one.last() == line);
    assert(values(one.drop_last(), p) =~= seq![]);
    assert(values(one, p) =~= values_of_line(line, p));
}

proof fn lemma_first_value(v: Seq<Seq<char>>, p: Seq<char>, i: int)
    requires
        0 <= i <= v.len(),
    ensures
        specfile::value_from(v, p, i) == (if values(v.skip(i), p).len() > 0 {
            Some(values(v.skip(i), p)[0])
        } else {
            None
        }),
    decreases v.len() - i,
{
    if i < v.len() {
        lemma_first_value(v, p, i + 1);
        assert(v.skip(i) =~= seq![v[i]] + v.skip(i + 1));
        lemma_values_add(seq![v[i]], v.skip(i + 1), p);
        lemma_values_of_one(v[i], p);
    } else {
        assert(v.skip(i) =~= seq![]);
    }
}

proof fn lemma_values_trimmed(v: Seq<Seq<char>>, p: Seq<char>)
    requires
        p.len() > 0,
        !text::is_white(p.last()),
    ensures
        values(specfile::trim_end_each(v), p) == values(v, p),
    decreases v.len(),
{
    let w = specfile::trim_end_each(v);
    if v.len() > 0 {
        assert(w.drop_last() =~= specfile::trim_end_each(v.drop_last()));
        lemma_values_trimmed(v.drop_last(), p);
        let line = v.last();
        assert(w.last() == text::trim_end(line));
        line_laws::lemma_prefix_of_trim_end(line, p);
        if text::starts_with(line, p) {
            line_laws::lemma_trim_behind_prefix(line, p);
        }
    }
}

proof fn lemma_values_tidy(v: Seq<Seq<char>>, p: Seq<char>)
    requires
        p.len() > 0,
        !text::is_white(p.last()),
    ensures
        values(specfile::tidy(v), p) == values(v, p),
{
    let w = specfile::trim_end_each(v);
    lemma_values_trimmed(v, p);
    lemma_values_dropped(w, p);
}

proof fn lemma_values_dropped(v: Seq<Seq<char>>, p: Seq<char>)
    requires
        p.len() > 0,
    ensures
        values(specfile::drop_empty_end(v), p) == values(v, p),
    decreases v.len(),
{
    if v.len() > 0 && v.last().len() == 0 {
        lemma_values_dropped(v.drop_last(), p);
        assert(values(v, p) =~= values(v.drop_last(), p));
    }
}

/// The value of a tag goes by the lines that give it.
proof fn lemma_tag_text(v: Seq<Seq<char>>, tag: Seq<char>)
    requires
        line_laws::one_line_each(v),
    ensures
        specfile::tag_text(specfile::text_of(v), tag) == specfile::value_from(v, tag + ":"@, 0),
        specfile::value_from(v, tag + ":"@, 0) == (if values(v, tag + ":"@).len() > 0 {
            Some(values(v, tag + ":"@)[0])
        } else {
            None
        }),
{
    reveal_strlit(":");
    let p = tag + ":"@;
    let t = pieces::lines(specfile::text_of(v));
    line_laws::lemma_lines_of_text(v);
    lemma_values_tidy(v, p);
    assert(t.skip(0) =~= t);
    assert(v.skip(0) =~= v);
    lemma_first_value(t, p, 0);
    lemma_first_value(v, p, 0);
    if specfile::tidy(v).len() == 0 {
        let empty = Seq::<char>::empty();
        lemma_values_of_one(empty, p);
    }
}

/// Lines that give nothing for `p` do not count.
proof fn lemma_values_around(
    a: Seq<Seq<char>>,
    x: Seq<Seq<char>>,
    b: Seq<Seq<char>>,
    p: Seq<char>,
)
    requires
        forall|i: int| 0 <= i < x.len() ==> !text::starts_with(#[trigger] x[i], p),
    ensures
        values(a + x + b, p) == values(a + b, p),
{
    lemma_values_none(x, p);
    lemma_values_add(a + x, b, p);
    lemma_values_add(a, x, p);
    lemma_values_add(a, b, p);
    assert(values(a, p) + values(x, p) =~= values(a, p));
}

proof fn lemma_values_none(x: Seq<Seq<char>>, p: Seq<char>)
    requires
        forall|i: int| 0 <= i < x.len() ==> !text::starts_with(#[trigger] x[i], p),
    ensures
        values(x, p) == Seq::<Seq<char>>::empty(),
    decreases x.len(),
{
    if x.len() > 0 {
        let rest = x.drop_last();
        assert forall|i: int| 0 <= i < rest.len() implies !text::starts_with(
            #[trigger] rest[i],
            p,
        ) by {
            assert(rest[i] == x[i]);
        }
        lemma_values_none(rest, p);
        assert(!text::starts_with(x[x.len() - 1], p));
        assert(values(x, p) =~= seq![]);
    }
}

proof fn lemma_starts(line: Seq<char>, p: Seq<char>)
    requires
        p.len() > 0,
        text::starts_with(line, p),
    ensures
        line.len() > 0,
        line[0] == p[0],
{
    assert(line.subrange(0, p.len() as int)[0] == line[0]);
}

/// An asset is named on one line, which starts with `#`.
pub open spec fn names_asset(asset: Seq<char>) -> bool {
    &&& text::starts_with(text::trim_start(asset), "#!RemoteAsset"@)
    &&& !asset.contains('\n')
}

proof fn lemma_asset_start(line: Seq<char>)
    requires
        text::starts_with(text::trim_start(line), "#!RemoteAsset"@),
    ensures
        !text::starts_with(line, "Version:"@),
        text::trim(line).len() > 0,
        text::trim(line)[0] == '#',
        text::trim(text::trim(line)) == text::trim(line),
        text::trim_end(text::trim(line)) == text::trim(line),
{
    reveal_strlit("#!RemoteAsset");
    reveal_strlit("Version:");
    let a = text::trim_start(line);
    lemma_starts(a, "#!RemoteAsset"@);
    line_laws::lemma_trim_start(line);
    line_laws::lemma_trim_end(a);
    assert(a[0] == '#');
    if text::trim(line).len() == 0 {
        assert(text::is_white(a[0]));
    }
    line_laws::lemma_trim(line);
    let t = text::trim(line);
    line_laws::lemma_trim_end_is(t, t.len() as int);
    assert(t.take(t.len() as int) =~= t);
    if text::starts_with(line, "Version:"@) {
        lemma_starts(line, "Version:"@);
        if a.len() == line.len() {
            assert(line.skip(0) =~= line);
        } else {
            assert(text::is_white(line[0]));
        }
    }
}

proof fn lemma_one_line_parts(v: Seq<Seq<char>>, x: Seq<Seq<char>>, i: int, j: int)
    requires
        line_laws::one_line_each(v),
        line_laws::one_line_each(x),
        0 <= i <= j <= v.len(),
    ensures
        line_laws::one_line_each(v.take(i) + x + v.skip(j)),
{
    let w = v.take(i) + x + v.skip(j);
    assert forall|k: int| 0 <= k < w.len() implies !(#[trigger] w[k]).contains('\n') by {
        if k < i {
            assert(w[k] == v[k]);
        } else if k < i + x.len() {
            assert(w[k] == x[k - i]);
        } else {
            assert(w[k] == v[k - i - x.len() + j]);
        }
    }
}

/// What putting lines in place of others comes to for `Version`.
proof fn lemma_version_kept(s: Seq<char>, i: int, x: Seq<Seq<char>>, j: int)
    requires
        ({
            let v = pieces::lines(s);
            &&& 0 <= i <= j <= v.len()
            &&& forall|k: int| i <= k < j ==> !text::starts_with(#[trigger] v[k], "Version:"@)
        }),
        line_laws::one_line_each(x),
        forall|k: int| 0 <= k < x.len() ==> !text::starts_with(#[trigger] x[k], "Version:"@),
    ensures
        specfile::tag_text(
            specfile::text_of(pieces::lines(s).take(i) + x + pieces::lines(s).skip(j)),
            "Version"@,
        ) == specfile::tag_text(s, "Version"@),
{
    reveal_strlit("Version");
    reveal_strlit("Version:");
    reveal_strlit(":");
    let p = "Version:"@;
    assert("Version"@ + ":"@ =~= p);
    let v = pieces::lines(s);
    line_laws::lemma_lines_hold_no_line_feed(s, 0);
    lemma_one_line_parts(v, x, i, j);
    let w = v.take(i) + x + v.skip(j);
    let cut = v.subrange(i, j);
    assert forall|k: int| 0 <= k < cut.len() implies !text::starts_with(#[trigger] cut[k], p) by {
        assert(cut[k] == v[i + k]);
    }
    lemma_values_around(v.take(i), x, v.skip(j), p);
    lemma_values_around(v.take(i), cut, v.skip(j), p);
    assert(v.take(i) + cut + v.skip(j) =~= v);
    lemma_tag_text(w, "Version"@);
    lemma_first_value(v, p, 0);
    assert(v.skip(0) =~= v);
}

proof fn lemma_asset_keeps_version(s: Seq<char>, asset: Seq<char>)
    requires
        names_asset(asset),
    ensures
        specfile::tag_text(specfile::with_asset(s, asset), "Version"@) == specfile::tag_text(
            s,
            "Version"@,
        ),
        pieces::lines(specfile::with_asset(s, asset)).contains(text::trim(asset)),
{
    reveal_strlit("Version:");
    let v = pieces::lines(s);
    let at = specfile::asset_line_from(v, 0);
    let source = specfile::line_from(v, "Source"@, 0);
    let place = specfile::line_from(v, "%"@, 0);
    update_laws::lemma_asset_line_from(v, 0);
    spec_laws::lemma_line_from(v, "Source"@, 0);
    spec_laws::lemma_line_from(v, "%"@, 0);
    lemma_asset_start(asset);
    let x = seq![text::trim(asset)];
    assert forall|k: int| 0 <= k < x.len() implies !text::starts_with(
        #[trigger] x[k],
        "Version:"@,
    ) && !x[k].contains('\n') by {
        if text::starts_with(x[k], "Version:"@) {
            lemma_starts(x[k], "Version:"@);
        }
        if x[k].contains('\n') {
            lemma_trim_part(asset, '\n');
        }
    }
    let (i, j) = if at < v.len() {
        (at, at + 1)
    } else if source < v.len() {
        (source, source)
    } else {
        (place, place)
    };
    if at < v.len() {
        lemma_asset_start(v[at]);
        assert(v.update(at, text::trim(asset)) =~= v.take(i) + x + v.skip(j));
    } else {
        assert(v.insert(i, text::trim(asset)) =~= v.take(i) + x + v.skip(j));
    }
    lemma_version_kept(s, i, x, j);
    line_laws::lemma_lines_hold_no_line_feed(s, 0);
    lemma_one_line_parts(v, x, i, j);
    let w = v.take(i) + x + v.skip(j);
    assert(w[i] == text::trim(asset));
    lemma_line_stays(w, i);
}

proof fn lemma_trim_part(s: Seq<char>, c: char)
    requires
        text::trim(s).contains(c),
    ensures
        s.contains(c),
{
    let a = text::trim_start(s);
    let t = text::trim(s);
    line_laws::lemma_trim_start(s);
    line_laws::lemma_trim_end(a);
    let k = t.index_of(c);
    assert(a[k] == c);
    assert(s[s.len() - a.len() + k] == c);
}

/// A line that is not blank stays when a text is put in form.
proof fn lemma_line_stays(v: Seq<Seq<char>>, i: int)
    requires
        line_laws::one_line_each(v),
        0 <= i < v.len(),
        text::trim_end(v[i]).len() > 0,
    ensures
        pieces::lines(specfile::text_of(v)).contains(text::trim_end(v[i])),
{
    line_laws::lemma_lines_of_text(v);
    spec_laws::lemma_tidy_keeps(v, i);
    assert(pieces::lines(specfile::text_of(v))[i] == text::trim_end(v[i]));
}

proof fn lemma_provides_keep_version(s: Seq<char>)
    ensures
        specfile::tag_text(specfile::with_versioned_provides(s), "Version"@) == specfile::tag_text(
            s,
            "Version"@,
        ),
{
    reveal_strlit("Version:");
    reveal_strlit("Version");
    reveal_strlit(":");
    reveal_strlit("Provides:       python3-%{srcname} = %{version}-%{release}");
    reveal_strlit("%python_provide python3-%{srcname}");
    let p = "Version:"@;
    assert("Version"@ + ":"@ =~= p);
    let v = pieces::lines(s);
    let at = specfile::provide_from(v, 0);
    let x = specfile::versioned_provides();
    update_laws::lemma_provide_from(v, 0);
    section_laws::lemma_provides_place(v);
    line_laws::lemma_lines_hold_no_line_feed(s, 0);
    update_laws::lemma_versioned_provides();
    assert forall|k: int| 0 <= k < x.len() implies !text::starts_with(#[trigger] x[k], p) by {
        if text::starts_with(x[k], p) {
            lemma_starts(x[k], p);
        }
    }
    if at < v.len() {
        let rest = v.skip(at);
        let others = specfile::other_lines(rest);
        let w = v.take(at) + x + others;
        lemma_values_of_others(rest);
        lemma_values_around(v.take(at), x, others, p);
        lemma_values_add(v.take(at), others, p);
        lemma_values_add(v.take(at), rest, p);
        assert(v.take(at) + rest =~= v);
        assert forall|k: int| 0 <= k < w.len() implies !(#[trigger] w[k]).contains('\n') by {
            if k < at {
                assert(w[k] == v[k]);
            } else if k < at + x.len() {
                assert(w[k] == x[k - at]);
            } else {
                let j = lemma_other_line_from(rest, k - at - x.len());
                assert(w[k] == v[at + j]);
            }
        }
        lemma_tag_text(w, "Version"@);
        lemma_first_value(v, p, 0);
        assert(v.skip(0) =~= v);
    } else {
        let place = specfile::provides_place(v);
        lemma_version_kept(s, place, x, place);
    }
}

proof fn lemma_other_line_from(v: Seq<Seq<char>>, k: int) -> (j: int)
    requires
        0 <= k < specfile::other_lines(v).len(),
    ensures
        0 <= j < v.len(),
        specfile::other_lines(v)[k] == v[j],
    decreases v.len(),
{
    if k < specfile::other_lines(v.drop_last()).len() {
        lemma_other_line_from(v.drop_last(), k)
    } else {
        v.len() - 1
    }
}

proof fn lemma_other_line_stays(v: Seq<Seq<char>>, j: int) -> (k: int)
    requires
        0 <= j < v.len(),
        !specfile::is_any_provide(v[j]),
    ensures
        0 <= k < specfile::other_lines(v).len(),
        specfile::other_lines(v)[k] == v[j],
    decreases v.len(),
{
    if j < v.len() - 1 {
        lemma_other_line_stays(v.drop_last(), j)
    } else {
        specfile::other_lines(v.drop_last()).len() as int
    }
}

proof fn lemma_values_of_others(v: Seq<Seq<char>>)
    ensures
        values(specfile::other_lines(v), "Version:"@) == values(v, "Version:"@),
    decreases v.len(),
{
    if v.len() > 0 {
        reveal_strlit("Version:");
        reveal_strlit("Provides:");
        reveal_strlit("%python_provide python3-");
        let p = "Version:"@;
        let rest = v.drop_last();
        lemma_values_of_others(rest);
        if specfile::is_any_provide(v.last()) {
            if text::starts_with(v.last(), p) {
                lemma_starts(v.last(), p);
                if text::starts_with(v.last(), "Provides:"@) {
                    lemma_starts(v.last(), "Provides:"@);
                }
                if text::starts_with(v.last(), "%python_provide python3-"@) {
                    lemma_starts(v.last(), "%python_provide python3-"@);
                }
            }
            assert(values(v, p) =~= values(rest, p));
        } else {
            let others = specfile::other_lines(rest);
            lemma_values_add(others, seq![v.last()], p);
            lemma_values_add(rest, seq![v.last()], p);
            assert(others + seq![v.last()] =~= others.push(v.last()));
            assert(rest + seq![v.last()] =~= v);
        }
    }
}

/// Where a tag is put, and what stays around it.
proof fn lemma_arch_set(s: Seq<char>) -> (r: (int, int))
    ensures
        ({
            let v = pieces::lines(s);
            let line = specfile::tag_line("BuildArch"@, "noarch"@);
            let (i, j) = r;
            &&& 0 <= i <= j <= v.len()
            &&& specfile::with_tag(s, "BuildArch"@, "noarch"@) == specfile::text_of(
                v.take(i) + seq![line] + v.skip(j),
            )
            &&& forall|k: int| i <= k < j ==> text::starts_with(#[trigger] v[k], "BuildArch:"@)
            &&& text::starts_with(line, "BuildArch:"@)
            &&& !line.contains('\n')
        }),
{
    reveal_strlit("BuildArch");
    reveal_strlit("BuildArch:");
    reveal_strlit(":");
    reveal_strlit("noarch");
    let v = pieces::lines(s);
    let key = "BuildArch"@ + ":"@;
    assert(key =~= "BuildArch:"@);
    let at = specfile::line_from(v, key, 0);
    let place = specfile::line_from(v, "%"@, 0);
    spec_laws::lemma_line_from(v, key, 0);
    spec_laws::lemma_line_from(v, "%"@, 0);
    line_laws::lemma_trim("noarch"@);
    section_laws::lemma_tag_line("BuildArch"@, "noarch"@);
    let line = specfile::tag_line("BuildArch"@, "noarch"@);
    if at < v.len() {
        assert(v.update(at, line) =~= v.take(at) + seq![line] + v.skip(at + 1));
        (at, at + 1)
    } else {
        assert(v.insert(place, line) =~= v.take(place) + seq![line] + v.skip(place));
        (place, place)
    }
}

proof fn lemma_arch_keeps(s: Seq<char>, line: Seq<char>)
    requires
        pieces::lines(s).contains(line),
        line.len() > 0,
        text::trim_end(line) == line,
        line[0] != 'B',
    ensures
        pieces::lines(specfile::with_tag(s, "BuildArch"@, "noarch"@)).contains(line),
{
    reveal_strlit("BuildArch:");
    let v = pieces::lines(s);
    let (i, j) = lemma_arch_set(s);
    let x = seq![specfile::tag_line("BuildArch"@, "noarch"@)];
    line_laws::lemma_lines_hold_no_line_feed(s, 0);
    lemma_one_line_parts(v, x, i, j);
    let w = v.take(i) + x + v.skip(j);
    let k = v.index_of(line);
    if i <= k < j {
        lemma_starts(v[k], "BuildArch:"@);
    }
    let m = if k < i {
        k
    } else {
        k - j + i + 1
    };
    assert(w[m] == line);
    lemma_line_stays(w, m);
}

proof fn lemma_provides_keep(s: Seq<char>, line: Seq<char>)
    requires
        pieces::lines(s).contains(line),
        line.len() > 0,
        text::trim_end(line) == line,
        line[0] == '#',
    ensures
        pieces::lines(specfile::with_versioned_provides(s)).contains(line),
{
    reveal_strlit("Provides:");
    reveal_strlit("%python_provide python3-");
    let v = pieces::lines(s);
    let at = specfile::provide_from(v, 0);
    let x = specfile::versioned_provides();
    update_laws::lemma_provide_from(v, 0);
    section_laws::lemma_provides_place(v);
    line_laws::lemma_lines_hold_no_line_feed(s, 0);
    update_laws::lemma_versioned_provides();
    let k = v.index_of(line);
    if text::starts_with(line, "Provides:"@) {
        lemma_starts(line, "Provides:"@);
    }
    if text::starts_with(line, "%python_provide python3-"@) {
        lemma_starts(line, "%python_provide python3-"@);
    }
    assert(!specfile::is_any_provide(line));
    if at < v.len() {
        let rest = v.skip(at);
        let others = specfile::other_lines(rest);
        let w = v.take(at) + x + others;
        assert forall|n: int| 0 <= n < w.len() implies !(#[trigger] w[n]).contains('\n') by {
            if n < at {
                assert(w[n] == v[n]);
            } else if n < at + x.len() {
                assert(w[n] == x[n - at]);
            } else {
                let j = lemma_other_line_from(rest, n - at - x.len());
                assert(w[n] == v[at + j]);
            }
        }
        if k < at {
            assert(w[k] == line);
            lemma_line_stays(w, k);
        } else {
            assert(rest[k - at] == line);
            let m = lemma_other_line_stays(rest, k - at);
            assert(w[at + x.len() + m] == line);
            lemma_line_stays(w, at + x.len() + m);
        }
    } else {
        let place = specfile::provides_place(v);
        lemma_one_line_parts(v, x, place, place);
        let w = v.take(place) + x + v.skip(place);
        let m = if k < place {
            k
        } else {
            k + 2
        };
        assert(w[m] == line);
        lemma_line_stays(w, m);
    }
}

/// An updated spec is at the latest version where that is newer and else at the version that it
/// was at. It names the asset of the reference, is for every architecture, names what it provides
/// with its version, and has the changelog macro that is never left out.
pub proof fn law_update_brings_the_new_version(
    s: Seq<char>,
    current: Seq<char>,
    latest: Seq<char>,
    asset: Seq<char>,
) -> (mid: Seq<char>)
    requires
        text::trim(latest) == latest,
        latest.len() > 0,
        !latest.contains('\n'),
        names_asset(asset),
    ensures
        pipeline::updated(s, current, latest, asset) == pieces::replace(
            mid,
            "%{?autochangelog}"@,
            "%autochangelog"@,
        ),
        specfile::tag_text(mid, "Version"@) == (if versions::version_order(latest, current) > 0 {
            Some(latest)
        } else {
            specfile::tag_text(s, "Version"@)
        }),
        specfile::tag_text(mid, "BuildArch"@) == Some("noarch"@),
        pieces::lines(mid).contains(text::trim(asset)),
        pieces::lines(mid).contains(
            "Provides:       python3-%{srcname} = %{version}-%{release}"@,
        ),
        pieces::lines(mid).contains("%python_provide python3-%{srcname}"@),
{
    reveal_strlit("Version");
    reveal_strlit("BuildArch");
    reveal_strlit("noarch");
    reveal_strlit("BuildArch:");
    reveal_strlit("Version:");
    let versioned = if versions::version_order(latest, current) > 0 {
        specfile::with_tag(s, "Version"@, latest)
    } else {
        s
    };
    if versions::version_order(latest, current) > 0 {
        section_laws::law_tag_is_read_back(s, "Version"@, latest);
    }
    let named = specfile::with_asset(versioned, asset);
    lemma_asset_keeps_version(versioned, asset);
    let provided = specfile::with_versioned_provides(named);
    lemma_provides_keep_version(named);
    update_laws::law_provides_are_named_once(named);
    lemma_asset_start(asset);
    lemma_provides_keep(named, text::trim(asset));
    let mid = specfile::with_tag(provided, "BuildArch"@, "noarch"@);
    line_laws::lemma_trim("noarch"@);
    section_laws::law_tag_is_read_back(provided, "BuildArch"@, "noarch"@);
    let (i, j) = lemma_arch_set(provided);
    let v = pieces::lines(provided);
    let x = seq![specfile::tag_line("BuildArch"@, "noarch"@)];
    assert forall|k: int| i <= k < j implies !text::starts_with(#[trigger] v[k], "Version:"@) by {
        lemma_starts(v[k], "BuildArch:"@);
        if text::starts_with(v[k], "Version:"@) {
            lemma_starts(v[k], "Version:"@);
        }
    }
    assert(!text::starts_with(x[0], "Version:"@)) by {
        lemma_starts(x[0], "BuildArch:"@);
        if text::starts_with(x[0], "Version:"@) {
            lemma_starts(x[0], "Version:"@);
        }
    }
    lemma_version_kept(provided, i, x, j);
    lemma_arch_keeps(provided, text::trim(asset));
    let t = pieces::lines(provided);
    let others = specfile::other_lines(specfile::trim_end_each(pieces::lines(named)));
    let at = choose|at: int|
        {
            &&& #[trigger] update_laws::provides_at(t, at, others)
            &&& t[at] == "Provides:       python3-%{srcname} = %{version}-%{release}"@
            &&& t[at + 1] == "%python_provide python3-%{srcname}"@
            &&& forall|k: int|
                0 <= k < t.len() && k != at && k != at + 1 ==> !specfile::is_any_provide(
                    #[trigger] t[k],
                )
        };
    reveal_strlit("Provides:       python3-%{srcname} = %{version}-%{release}");
    reveal_strlit("%python_provide python3-%{srcname}");
    update_laws::lemma_versioned_provides();
    let p = specfile::versioned_provides();
    assert(specfile::trim_end_each(p)[0] == text::trim_end(p[0]));
    assert(specfile::trim_end_each(p)[1] == text::trim_end(p[1]));
    assert(t.contains(t[at]));
    assert(t.contains(t[at + 1]));
    lemma_arch_keeps(provided, p[0]);
    lemma_arch_keeps(provided, p[1]);
    mid
}

/// The commit of an update says whether the version is new.
pub proof fn law_commit_tells_of_the_version(package: Seq<char>)
    ensures
        text::starts_with(
            pipeline::update_message(package, true),
            "SPECS: "@ + package + ": Update version"@,
        ),
        text::starts_with(
            pipeline::update_message(package, false),
            "SPECS: "@ + package + ": Format spec"@,
        ),
{
    reveal_strlit(": Update version and format spec.");
    reveal_strlit(": Update version");
    reveal_strlit(": Format spec.");
    reveal_strlit(": Format spec");
    let a = "SPECS: "@ + package + ": Update version"@;
    let b = "SPECS: "@ + package + ": Format spec"@;
    let m = pipeline::update_message(package, true);
    let n = pipeline::update_message(package, false);
    assert(m.subrange(0, a.len() as int) =~= a);
    assert(n.subrange(0, b.len() as int) =~= b);
}

/// A spec has a source on PyPI where a line, behind white space, starts with `Source` and names
/// its host; and only there.
pub proof fn law_hosted_source_is_found(v: Seq<Seq<char>>)
    requires
        log_laws::are_lines(v),
    ensures
        pipeline::has_hosted_source(log_laws::log_of(v)) <==> exists|i: int|
            0 <= i < v.len() && text::starts_with(text::trim_start(#[trigger] v[i]), "Source"@)
                && text::contains(v[i], "files.pythonhosted.org"@),
{
    log_laws::lemma_lines_of_log(v);
    reveal_strlit("files.pythonhosted.org");
    let p = "files.pythonhosted.org"@;
    assert forall|i: int| 0 <= i < v.len() implies text::contains(
        text::trim_start(#[trigger] v[i]),
        p,
    ) == text::contains(v[i], p) by {
        let a = text::trim_start(v[i]);
        line_laws::lemma_trim_start(v[i]);
        let m = v[i].len() - a.len();
        if text::contains(a, p) {
            assert(a =~= v[i].subrange(m, m + a.len()));
            log_laws::lemma_contains_part(v[i], a, m, p);
        }
        if text::contains(v[i], p) {
            log_laws::lemma_contains_trim(v[i], p);
            let t = text::trim(v[i]);
            line_laws::lemma_trim_end(a);
            assert(t =~= a.subrange(0, t.len() as int));
            log_laws::lemma_contains_part(a, t, 0, p);
        }
    }
    if pipeline::has_hosted_source(log_laws::log_of(v)) {
        let i = choose|i: int| 0 <= i < v.len() && pipeline::is_hosted_source(#[trigger] v[i]);
        assert(text::contains(v[i], p));
    }
}

/// A line that defines the global macro `name` as `value`.
pub open spec fn defines_macro(line: Seq<char>, name: Seq<char>, value: Seq<char>) -> bool {
    exists|a: Seq<char>, b: Seq<char>, c: Seq<char>| #[trigger]
        is_macro_line(line, name, value, a, b, c)
}

pub open spec fn is_macro_line(
    line: Seq<char>,
    name: Seq<char>,
    value: Seq<char>,
    a: Seq<char>,
    b: Seq<char>,
    c: Seq<char>,
) -> bool {
    &&& line == a + "%global "@ + name + " "@ + b + value + c
    &&& forall|k: int| 0 <= k < a.len() ==> text::is_white(#[trigger] a[k])
    &&& forall|k: int| 0 <= k < b.len() ==> text::is_white(#[trigger] b[k])
    &&& forall|k: int| 0 <= k < c.len() ==> text::is_white(#[trigger] c[k])
    &&& value.len() > 0
    &&& line_laws::is_trimmed(value)
    &&& !text::contains(value, "%{"@)
}

proof fn lemma_macro_line(
    line: Seq<char>,
    name: Seq<char>,
    value: Seq<char>,
    a: Seq<char>,
    b: Seq<char>,
    c: Seq<char>,
)
    requires
        is_macro_line(line, name, value, a, b, c),
    ensures
        pipeline::macro_value(line, "%global "@ + name + " "@) == Some(value),
{
    reveal_strlit("%global ");
    let p = "%global "@ + name + " "@;
    let n = a.len() as int;
    assert forall|k: int| 0 <= k < n implies text::is_white(#[trigger] line[k]) by {
        assert(line[k] == a[k]);
    }
    assert(line[n] == '%');
    line_laws::lemma_trim_start_is(line, n);
    let rest = p + b + value + c;
    assert(line.skip(n) =~= rest);
    assert(rest.subrange(0, p.len() as int) =~= p);
    assert(rest.skip(p.len() as int) =~= b + value + c);
    line_laws::lemma_trim_around(b, value, c);
}

/// The first line that defines a global macro says what it is.
pub proof fn law_global_macro_is_read(v: Seq<Seq<char>>, name: Seq<char>, value: Seq<char>, n: int)
    requires
        log_laws::are_lines(v),
        0 <= n < v.len(),
        defines_macro(v[n], name, value),
        forall|k: int|
            0 <= k < n ==> !text::starts_with(
                text::trim_start(#[trigger] v[k]),
                "%global "@ + name + " "@,
            ),
    ensures
        pipeline::global_macro(log_laws::log_of(v), name) == Some(value),
{
    log_laws::lemma_lines_of_log(v);
    let (a, b, c) = choose|a: Seq<char>, b: Seq<char>, c: Seq<char>| #[trigger]
        is_macro_line(v[n], name, value, a, b, c);
    lemma_macro_line(v[n], name, value, a, b, c);
    lemma_macro_from(v, "%global "@ + name + " "@, value, n, 0);
}

proof fn lemma_macro_from(v: Seq<Seq<char>>, p: Seq<char>, value: Seq<char>, n: int, i: int)
    requires
        0 <= i <= n < v.len(),
        pipeline::macro_value(v[n], p) == Some(value),
        forall|k: int| 0 <= k < n ==> !text::starts_with(text::trim_start(#[trigger] v[k]), p),
    ensures
        pipeline::macro_from(v, p, i) == Some(value),
    decreases n - i,
{
    if i < n {
        assert(!text::starts_with(text::trim_start(v[i]), p));
        lemma_macro_from(v, p, value, n, i + 1);
    }
}

/// A package is looked up under the name that its spec gives to it on PyPI, else under the name of
/// its source, and else under its own name without `python-`.
pub proof fn law_package_is_looked_up(s: Seq<char>, package: Seq<char>)
    ensures
        match (
            pipeline::global_macro(s, "pypi_name"@),
            pipeline::global_macro(s, "srcname"@),
        ) {
            (Some(name), _) => pipeline::update_name(s, package) == name,
            (None, Some(name)) => pipeline::update_name(s, package) == name,
            (None, None) => pipeline::update_name(s, "python-"@ + package) == package && (
            !text::starts_with(package, "python-"@) ==> pipeline::update_name(s, package)
                == package),
        },
{
    let p = "python-"@;
    assert((p + package).subrange(0, p.len() as int) =~= p);
    assert((p + package).skip(p.len() as int) =~= package);
}

} // verus!
