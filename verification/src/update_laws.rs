//! Laws of what an update makes of a spec: its description, its extras, its remote asset and what
//! it provides.
use vstd::prelude::*;

use crate::line_laws;
use crate::patterns;
use crate::pieces;
use crate::section_laws;
use crate::spec_laws;
use crate::specfile;
use crate::text;

verus! {

pub proof fn lemma_exact_line_from(v: Seq<Seq<char>>, line: Seq<char>, i: int)
    requires
        0 <= i <= v.len(),
    ensures
        i <= specfile::exact_line_from(v, line, i) <= v.len(),
        forall|k: int| i <= k < specfile::exact_line_from(v, line, i) ==> #[trigger] v[k] != line,
        specfile::exact_line_from(v, line, i) < v.len() ==> v[specfile::exact_line_from(v, line, i)]
            == line,
    decreases v.len() - i,
{
    if i < v.len() && v[i] != line {
        lemma_exact_line_from(v, line, i + 1);
    }
}

proof fn lemma_exact_line_is(v: Seq<Seq<char>>, line: Seq<char>, n: int)
    requires
        0 <= n < v.len(),
        v[n] == line,
        forall|k: int| 0 <= k < n ==> #[trigger] v[k] != line,
    ensures
        specfile::exact_line_from(v, line, 0) == n,
{
    lemma_exact_line_from(v, line, 0);
    let m = specfile::exact_line_from(v, line, 0);
    if m < n {
        assert(v[m] == line);
    }
    if n < m {
        assert(v[n] != line);
    }
}

/// The lines of a list that are dropped at the end may be dropped before others come to stand
/// before them.
proof fn lemma_drop_empty_end_inner(a: Seq<Seq<char>>, b: Seq<Seq<char>>)
    ensures
        specfile::drop_empty_end(a + specfile::drop_empty_end(b)) == specfile::drop_empty_end(a + b),
    decreases b.len(),
{
    if b.len() > 0 && b.last().len() == 0 {
        lemma_drop_empty_end_inner(a, b.drop_last());
        assert((a + b).last() == b.last());
        assert((a + b).drop_last() =~= a + b.drop_last());
    }
}

proof fn lemma_trim_end_each_twice(v: Seq<Seq<char>>)
    ensures
        specfile::trim_end_each(specfile::trim_end_each(v)) == specfile::trim_end_each(v),
{
    assert forall|i: int| 0 <= i < v.len() implies text::trim_end(
        text::trim_end(#[trigger] v[i]),
    ) == text::trim_end(v[i]) by {
        line_laws::lemma_trim_end_twice(v[i]);
    }
    assert(specfile::trim_end_each(specfile::trim_end_each(v)) =~= specfile::trim_end_each(v));
}

proof fn lemma_empty_line()
    ensures
        specfile::trim_end_each(seq![Seq::<char>::empty()]) == seq![Seq::<char>::empty()],
{
    let empty = Seq::<char>::empty();
    line_laws::lemma_trim_end(empty);
    assert(text::trim_end(empty) =~= empty);
    assert(specfile::trim_end_each(seq![empty]) =~= seq![empty]);
}

proof fn lemma_one_line_add(a: Seq<Seq<char>>, b: Seq<Seq<char>>)
    requires
        line_laws::one_line_each(a),
        line_laws::one_line_each(b),
    ensures
        line_laws::one_line_each(a + b),
{
    assert forall|i: int| 0 <= i < (a + b).len() implies !(#[trigger] (a + b)[i]).contains('\n') by {
        if i < a.len() {
            assert((a + b)[i] == a[i]);
        } else {
            assert((a + b)[i] == b[i - a.len()]);
        }
    }
}

proof fn lemma_one_line_part(v: Seq<Seq<char>>, n: int)
    requires
        line_laws::one_line_each(v),
        0 <= n <= v.len(),
    ensures
        line_laws::one_line_each(v.take(n)),
        line_laws::one_line_each(v.skip(n)),
{
    assert forall|i: int| 0 <= i < v.take(n).len() implies !(#[trigger] v.take(n)[i]).contains(
        '\n',
    ) by {
        assert(v.take(n)[i] == v[i]);
    }
    assert forall|i: int| 0 <= i < v.skip(n).len() implies !(#[trigger] v.skip(n)[i]).contains(
        '\n',
    ) by {
        assert(v.skip(n)[i] == v[n + i]);
    }
}

/// Tidying what stands before and behind some lines changes nothing in the text.
proof fn lemma_same_text(a: Seq<Seq<char>>, x: Seq<Seq<char>>, b: Seq<Seq<char>>)
    requires
        line_laws::one_line_each(a + x + b),
    ensures
        specfile::text_of(specfile::trim_end_each(a) + x + specfile::tidy(b)) == specfile::text_of(
            a + x + b,
        ),
{
    let c = specfile::trim_end_each(a);
    let y = specfile::trim_end_each(b);
    let rest = specfile::tidy(b);
    lemma_trim_end_each_twice(a);
    lemma_trim_end_each_twice(b);
    line_laws::lemma_drop_empty_end(y);
    assert(specfile::trim_end_each(rest) =~= specfile::trim_end_each(y).take(rest.len() as int));
    assert(specfile::trim_end_each(rest) =~= rest);
    section_laws::lemma_trim_end_each_add(a, x);
    section_laws::lemma_trim_end_each_add(a + x, b);
    section_laws::lemma_trim_end_each_add(c, x);
    section_laws::lemma_trim_end_each_add(c + x, rest);
    lemma_drop_empty_end_inner(c + specfile::trim_end_each(x), y);
    let all = c + x + rest;
    assert forall|i: int| 0 <= i < all.len() implies !(#[trigger] all[i]).contains('\n') by {
        if i < a.len() {
            assert((a + x + b)[i] == a[i]);
            line_laws::lemma_trim_end(a[i]);
            lemma_part_holds_no_line_feed(a[i], c[i].len() as int);
        } else if i < a.len() + x.len() {
            assert((a + x + b)[i] == x[i - a.len()]);
        } else {
            let j = i - a.len() - x.len();
            assert((a + x + b)[i] == b[j]);
            assert(rest[j] == y[j]);
            line_laws::lemma_trim_end(b[j]);
            lemma_part_holds_no_line_feed(b[j], y[j].len() as int);
        }
    }
    section_laws::lemma_text_of(a + x + b);
    section_laws::lemma_text_of(all);
}

proof fn lemma_part_holds_no_line_feed(s: Seq<char>, n: int)
    requires
        !s.contains('\n'),
        0 <= n <= s.len(),
    ensures
        !s.take(n).contains('\n'),
{
    if s.take(n).contains('\n') {
        let j = s.take(n).index_of('\n');
        assert(s[j] == '\n');
    }
}

/// The first line of a description stays the first when white space at the end of lines goes.
pub open spec fn described_once(v: Seq<Seq<char>>) -> bool {
    specfile::exact_line_from(specfile::trim_end_each(v), "%description"@, 0)
        == specfile::exact_line_from(v, "%description"@, 0)
}

/// The lines of a text: no line of a description is the header of a section.
pub open spec fn starts_no_section(description: Seq<char>) -> bool {
    forall|k: int|
        0 <= k < pieces::split(text::trim(description), '\n').len() ==> !specfile::starts_section(
            #[trigger] pieces::split(text::trim(description), '\n')[k],
        )
}

/// A new description is all that changes: before it stands what stood before the old one, and
/// behind it, after an empty line, what followed the old one.
pub proof fn law_description_is_replaced(s: Seq<char>, description: Seq<char>)
    ensures
        ({
            let v = pieces::lines(s);
            let at = specfile::exact_line_from(v, "%description"@, 0);
            let body = pieces::split(text::trim(description), '\n');
            &&& at >= v.len() ==> specfile::with_description(s, description) == s
            &&& at < v.len() ==> pieces::lines(specfile::with_description(s, description))
                == specfile::tidy(
                v.take(at + 1) + body + seq![Seq::<char>::empty()] + v.skip(
                    specfile::section_end(v, at + 1),
                ),
            )
        }),
{
    let v = pieces::lines(s);
    let at = specfile::exact_line_from(v, "%description"@, 0);
    if at < v.len() {
        lemma_described(s, description);
    }
}

/// The lines of a spec with a new description, each by itself.
spec fn described(s: Seq<char>, description: Seq<char>) -> Seq<Seq<char>> {
    let v = pieces::lines(s);
    let at = specfile::exact_line_from(v, "%description"@, 0);
    v.take(at + 1) + pieces::split(text::trim(description), '\n') + seq![Seq::<char>::empty()]
        + v.skip(specfile::section_end(v, at + 1))
}

proof fn lemma_described(s: Seq<char>, description: Seq<char>)
    requires
        specfile::exact_line_from(pieces::lines(s), "%description"@, 0) < pieces::lines(s).len(),
    ensures
        specfile::with_description(s, description) == specfile::text_of(described(s, description)),
        line_laws::one_line_each(described(s, description)),
        pieces::lines(specfile::with_description(s, description)) == specfile::tidy(
            described(s, description),
        ),
{
    let v = pieces::lines(s);
    let at = specfile::exact_line_from(v, "%description"@, 0);
    lemma_exact_line_from(v, "%description"@, 0);
    section_laws::lemma_section_end(v, at + 1);
    line_laws::lemma_lines_hold_no_line_feed(s, 0);
    let end = specfile::section_end(v, at + 1);
    let a = v.take(at + 1);
    let x = text::trim(description);
    let body = pieces::split(x, '\n');
    let empty = seq![Seq::<char>::empty()];
    let b = empty + v.skip(end);
    section_laws::lemma_split_line(a, x, b);
    assert(a.push(x).push(seq![]) + v.skip(end) =~= a + seq![x] + b);
    let all = described(s, description);
    assert(all =~= a + body + b);
    lemma_one_line_part(v, at + 1);
    lemma_one_line_part(v, end);
    lemma_one_line_add(a, body);
    lemma_one_line_add(a + body, empty);
    lemma_one_line_add(a + body + empty, v.skip(end));
    line_laws::lemma_lines_of_text(all);
    reveal_strlit("%description");
    let line = "%description"@;
    assert(all[at] == v[at]);
    line_laws::lemma_trim_end_is(line, line.len() as int);
    assert(line.take(line.len() as int) =~= line);
    spec_laws::lemma_tidy_keeps(all, at);
}

/// In a normalised spec the description starts where white space at the end of lines counts
/// nothing.
pub proof fn law_normalized_is_described_once(s: Seq<char>)
    requires
        specfile::normalized(s) == s,
    ensures
        described_once(pieces::lines(s)),
{
    line_laws::lemma_normal_lines(s);
}

/// In a normalised spec a new description changes nothing before it, and nothing from the next
/// section on. Without a description nothing changes.
pub proof fn law_description_keeps_the_rest(s: Seq<char>, description: Seq<char>)
    requires
        specfile::normalized(s) == s,
    ensures
        ({
            let v = pieces::lines(s);
            let at = specfile::exact_line_from(v, "%description"@, 0);
            let end = specfile::section_end(v, at + 1);
            let t = pieces::lines(specfile::with_description(s, description));
            &&& !v.contains("%description"@) ==> specfile::with_description(s, description) == s
            &&& v.contains("%description"@) ==> {
                &&& at < v.len()
                &&& v[at] == "%description"@
                &&& t.take(at + 1) == v.take(at + 1)
                &&& t.skip(t.len() - (v.len() - end)) == v.skip(end)
            }
        }),
{
    let v = pieces::lines(s);
    let line = "%description"@;
    let at = specfile::exact_line_from(v, line, 0);
    let end = specfile::section_end(v, at + 1);
    let t = pieces::lines(specfile::with_description(s, description));
    line_laws::lemma_normal_lines(s);
    lemma_exact_line_from(v, line, 0);
    if v.contains(line) {
        let k = v.index_of(line);
        assert(v[k] == line);
        assert(at < v.len());
        lemma_described(s, description);
        section_laws::lemma_section_end(v, at + 1);
        let all = described(s, description);
        line_laws::lemma_tidy(all);
        reveal_strlit("%description");
        assert(all[at] == line);
        line_laws::lemma_trim_end_is(line, line.len() as int);
        assert(line.take(line.len() as int) =~= line);
        if at >= t.len() {
            assert(text::trim_end(all[at]).len() == 0);
        }
        assert forall|i: int| 0 <= i <= at implies #[trigger] t[i] == v[i] by {
            assert(all[i] == v[i]);
            assert(specfile::trim_end_each(v)[i] == v[i]);
        }
        assert(t.take(at + 1) =~= v.take(at + 1));
        let behind = v.len() - end;
        if behind > 0 {
            assert(v[v.len() - 1].len() > 0);
            assert(all[all.len() - 1] == v[v.len() - 1]);
            assert(specfile::trim_end_each(v)[v.len() - 1] == v[v.len() - 1]);
            if t.len() < all.len() {
                assert(text::trim_end(all[all.len() - 1]).len() == 0);
            }
            assert forall|i: int| 0 <= i < behind implies #[trigger] t[t.len() - behind + i]
                == v[end + i] by {
                assert(all[all.len() - behind + i] == v[end + i]);
                assert(specfile::trim_end_each(v)[end + i] == v[end + i]);
            }
        }
        assert(t.skip(t.len() - behind) =~= v.skip(end));
    } else if at < v.len() {
        assert(v.contains(v[at]));
    }
}

/// Replacing a description twice by the same is replacing it once, as long as no line of it is the
/// header of a section and no line before the old one is `%description` with white space behind
/// it.
pub proof fn law_description_twice(s: Seq<char>, description: Seq<char>)
    requires
        described_once(pieces::lines(s)),
        starts_no_section(description),
    ensures
        specfile::with_description(specfile::with_description(s, description), description)
            == specfile::with_description(s, description),
{
    law_last_description_counts(s, description, description);
}

/// A second description replaces the first: the spec is as if it had had only the second, as long
/// as no line of the first is the header of a section and no line before the old one is
/// `%description` with white space behind it.
#[verifier::rlimit(40)]
pub proof fn law_last_description_counts(s: Seq<char>, description: Seq<char>, next: Seq<char>)
    requires
        described_once(pieces::lines(s)),
        starts_no_section(description),
    ensures
        specfile::with_description(specfile::with_description(s, description), next)
            == specfile::with_description(s, next),
{
    let v = pieces::lines(s);
    let line = "%description"@;
    let at = specfile::exact_line_from(v, line, 0);
    lemma_exact_line_from(v, line, 0);
    if at < v.len() {
        let once = specfile::with_description(s, description);
        lemma_described(s, description);
        section_laws::lemma_section_end(v, at + 1);
        let end = specfile::section_end(v, at + 1);
        let empty = seq![Seq::<char>::empty()];
        let body = pieces::split(text::trim(description), '\n');
        let a = specfile::trim_end_each(v.take(at + 1));
        let d = specfile::trim_end_each(body);
        let b = specfile::trim_end_each(v.skip(end));
        let all = described(s, description);
        let t = specfile::tidy(all);
        reveal_strlit("%description");
        line_laws::lemma_trim_end_is(line, line.len() as int);
        assert(line.take(line.len() as int) =~= line);
        lemma_empty_line();
        section_laws::lemma_trim_end_each_add(v.take(at + 1), body);
        section_laws::lemma_trim_end_each_add(v.take(at + 1) + body, empty);
        section_laws::lemma_trim_end_each_add(v.take(at + 1) + body + empty, v.skip(end));
        assert(a.last() == line);
        assert(a + d + empty + b =~= a + (d + empty + b));
        section_laws::lemma_drop_empty_end_add(a, d + empty + b);
        let c = specfile::drop_empty_end(d + empty + b);
        assert(t == a + c);
        line_laws::lemma_drop_empty_end(d + empty + b);
        // The description is found where it was.
        lemma_exact_line_from(specfile::trim_end_each(v), line, 0);
        assert forall|k: int| 0 <= k < at implies #[trigger] t[k] != line by {
            assert(t[k] == a[k]);
            assert(specfile::trim_end_each(v)[k] == a[k]);
        }
        assert(t[at] == a[at]);
        lemma_exact_line_is(t, line, at);
        assert(t.take(at + 1) =~= a);
        // It ends where what follows starts.
        let n = if b.len() > 0 {
            at + 1 + d.len() + 1
        } else {
            t.len() as int
        };
        if b.len() > 0 {
            assert(v.skip(end)[0] == v[end]);
            section_laws::lemma_section_trimmed(v[end]);
            assert(b[0].len() > 0);
            let front = d + empty + seq![b[0]];
            assert(d + empty + b =~= front + b.drop_first());
            assert(front.last() == b[0]);
            section_laws::lemma_drop_empty_end_add(front, b.drop_first());
            assert(c =~= front + specfile::drop_empty_end(b.drop_first()));
            assert(t[n] == b[0]);
        } else {
            assert(d + empty + b =~= d + empty);
        }
        assert forall|k: int| at + 1 <= k < n implies !specfile::starts_section(#[trigger] t[k]) by {
            let j = k - (at + 1);
            assert(t[k] == c[j]);
            assert(c[j] == (d + empty + b)[j]);
            if j < d.len() {
                assert(d[j] == text::trim_end(body[j]));
                section_laws::lemma_section_trimmed(body[j]);
            }
        }
        section_laws::lemma_section_end_is(t, at + 1, n);
        // So the same lines come out.
        let rest = t.skip(n);
        if b.len() > 0 {
            assert(seq![b[0]] + b.drop_first() =~= b);
            section_laws::lemma_drop_empty_end_add(seq![b[0]], b.drop_first());
        }
        assert(rest =~= specfile::drop_empty_end(b));
        lemma_described(once, next);
        lemma_described(s, next);
        let told = pieces::split(text::trim(next), '\n');
        let again = described(once, next);
        let only = described(s, next);
        assert(again == a + told + empty + rest);
        assert(again =~= a + (told + empty) + rest);
        assert(only =~= v.take(at + 1) + (told + empty) + v.skip(end));
        lemma_same_text(v.take(at + 1), told + empty, v.skip(end));
    }
}

proof fn lemma_word_end_is(s: Seq<char>, i: int, n: int)
    requires
        0 <= i <= n < s.len(),
        forall|k: int| i <= k < n ==> patterns::is_word(#[trigger] s[k]),
        !patterns::is_word(s[n]),
    ensures
        patterns::word_end(s, i) == n,
    decreases n - i,
{
    if i < n {
        lemma_word_end_is(s, i + 1, n);
    }
}

/// What a line is that declares the subpackage of an extra.
spec fn is_declaration(line: Seq<char>) -> bool {
    &&& specfile::is_extras_line(line)
    &&& specfile::starts_section(line)
    &&& !specfile::is_blank(line)
    &&& line.len() > 0
    &&& text::trim_end(line) == line
    &&& !line.contains('\n')
}

proof fn lemma_declaration(name: Seq<char>)
    requires
        name.len() > 0,
        line_laws::is_trimmed(name),
        !name.contains('\n'),
    ensures
        is_declaration("%pyproject_extras_subpkg -n python-%{srcname} "@ + name),
{
    reveal_strlit("%pyproject_extras_subpkg -n python-%{srcname} ");
    reveal_strlit("%dir");
    reveal_strlit("%doc");
    reveal_strlit("%license");
    let p = "%pyproject_extras_subpkg -n python-%{srcname} "@;
    let line = p + name;
    assert forall|k: int| 2 <= k < 24 implies patterns::is_word(#[trigger] line[k]) by {
        assert(line[k] == p[k]);
    }
    assert(line[24] == ' ');
    lemma_word_end_is(line, 2, 24);
    assert(line[0] == '%' && line[1] == 'p');
    assert(line.subrange(0, 4)[1] == 'p');
    assert(line.subrange(0, 8)[1] == 'p');
    line_laws::lemma_trim_start_is(line, 0);
    assert(line.skip(0) =~= line);
    assert(line.subrange(0, p.len() as int) =~= p);
    assert(line.last() == name.last());
    line_laws::lemma_trim_end_is(line, line.len() as int);
    assert(line.take(line.len() as int) =~= line);
    line_laws::lemma_trim(line);
    if line.contains('\n') {
        let j = line.index_of('\n');
        if j < p.len() {
            assert(p[j] == '\n');
        } else {
            assert(name[j - p.len()] == '\n');
        }
    }
}

proof fn lemma_extras_lines(features: Seq<Seq<char>>)
    requires
        forall|i: int| 0 <= i < features.len() ==> !text::trim(#[trigger] features[i]).contains('\n'),
    ensures
        forall|k: int|
            0 <= k < specfile::extras_lines(features).len() ==> is_declaration(
                #[trigger] specfile::extras_lines(features)[k],
            ),
        (exists|i: int| 0 <= i < features.len() && !specfile::is_blank(#[trigger] features[i]))
            ==> specfile::extras_lines(features).len() > 0,
    decreases features.len(),
{
    if features.len() > 0 {
        let rest = features.drop_last();
        assert forall|i: int| 0 <= i < rest.len() implies !text::trim(
            #[trigger] rest[i],
        ).contains('\n') by {
            assert(rest[i] == features[i]);
        }
        lemma_extras_lines(rest);
        let last = features[features.len() - 1];
        line_laws::lemma_trim(last);
        if text::trim(last).len() > 0 {
            lemma_declaration(text::trim(last));
        }
        if exists|i: int| 0 <= i < features.len() && !specfile::is_blank(#[trigger] features[i]) {
            let i = choose|i: int|
                0 <= i < features.len() && !specfile::is_blank(#[trigger] features[i]);
            if i < rest.len() {
                assert(!specfile::is_blank(rest[i]));
            }
        }
    }
}

proof fn lemma_extras_lines_end(v: Seq<Seq<char>>, i: int, n: int)
    requires
        0 <= i <= n <= v.len(),
        forall|k: int| i <= k < n ==> specfile::is_extras_line(#[trigger] v[k]),
    ensures
        specfile::extras_lines_end(v, i) == specfile::extras_lines_end(v, n),
        n <= specfile::extras_lines_end(v, n) <= v.len(),
    decreases v.len() - i,
{
    if i < n {
        lemma_extras_lines_end(v, i + 1, n);
    } else if n < v.len() && specfile::is_extras_line(v[n]) {
        lemma_extras_lines_end(v, n + 1, n + 1);
    }
}

proof fn lemma_blank_is_no_extra(line: Seq<char>)
    requires
        specfile::is_blank(line),
    ensures
        !specfile::is_extras_line(line),
{
    reveal_strlit("%pyproject_extras_subpkg -n python-%{srcname} ");
    let p = "%pyproject_extras_subpkg -n python-%{srcname} "@;
    if specfile::is_extras_line(line) {
        let s = text::trim_start(line);
        line_laws::lemma_trim_start(line);
        line_laws::lemma_trim_end(s);
        assert(s[0] == s.subrange(0, p.len() as int)[0]);
        assert(s[0] == '%');
    }
}

proof fn lemma_empty_is_blank(line: Seq<char>)
    requires
        line.len() == 0,
    ensures
        specfile::is_blank(line),
{
    line_laws::lemma_trim_start(line);
    line_laws::lemma_trim_end(text::trim_start(line));
}

/// What follows the extras, with an empty line before it.
proof fn lemma_after_extras(r: Seq<Seq<char>>)
    requires
        r.len() > 0 ==> !specfile::is_blank(r[0]),
    ensures
        ({
            let empty = seq![Seq::<char>::empty()];
            let rest = specfile::drop_empty_end(r);
            if r.len() > 0 {
                &&& specfile::drop_empty_end(empty + r) == empty + rest
                &&& rest.len() > 0
                &&& rest[0] == r[0]
            } else {
                &&& specfile::drop_empty_end(empty + r) == Seq::<Seq<char>>::empty()
                &&& rest.len() == 0
            }
        }),
{
    let empty = seq![Seq::<char>::empty()];
    if r.len() > 0 {
        if r[0].len() == 0 {
            lemma_empty_is_blank(r[0]);
        }
        let front = empty + seq![r[0]];
        assert(empty + r =~= front + r.drop_first());
        assert(front.last() == r[0]);
        section_laws::lemma_drop_empty_end_add(front, r.drop_first());
        assert(seq![r[0]] + r.drop_first() =~= r);
        section_laws::lemma_drop_empty_end_add(seq![r[0]], r.drop_first());
        assert(specfile::drop_empty_end(empty + r) =~= empty + specfile::drop_empty_end(r));
    } else {
        assert(empty + r =~= empty);
        assert(empty.last().len() == 0);
        assert(empty.drop_last() =~= Seq::<Seq<char>>::empty());
        assert(specfile::drop_empty_end(empty) == specfile::drop_empty_end(empty.drop_last()));
    }
}

/// Extras that are there are found and replaced.
proof fn lemma_extras_again(
    h: Seq<Seq<char>>,
    r: Seq<Seq<char>>,
    at: int,
    features: Seq<Seq<char>>,
    next: Seq<Seq<char>>,
)
    requires
        0 <= at < h.len(),
        forall|k: int| at + 1 <= k < h.len() ==> !specfile::starts_section(#[trigger] h[k]),
        h.len() > at + 1 ==> h.last().len() == 0,
        r.len() > 0 ==> !specfile::is_blank(r[0]),
        specfile::extras_lines(features).len() > 0,
        forall|k: int|
            0 <= k < specfile::extras_lines(features).len() ==> is_declaration(
                #[trigger] specfile::extras_lines(features)[k],
            ),
    ensures
        ({
            let e = specfile::extras_lines(features);
            let empty = seq![Seq::<char>::empty()];
            specfile::extras_replaced(
                h + e + specfile::drop_empty_end(empty + r),
                at,
                next,
            ) == h + specfile::extras_lines(next) + empty + specfile::drop_empty_end(r)
        }),
{
    let e = specfile::extras_lines(features);
    let empty = seq![Seq::<char>::empty()];
    let c = specfile::drop_empty_end(empty + r);
    let rest = specfile::drop_empty_end(r);
    let t = h + e + c;
    let n = h.len() as int;
    let m = n + e.len();
    lemma_after_extras(r);
    assert forall|k: int| at + 1 <= k < n implies !specfile::starts_section(#[trigger] t[k]) by {
        assert(t[k] == h[k]);
    }
    assert(t[n] == e[0]);
    section_laws::lemma_section_end_is(t, at + 1, n);
    assert(t.take(n) =~= h);
    assert(n > at + 1 ==> t[n - 1] == h.last());
    assert forall|k: int| n <= k < m implies specfile::is_extras_line(#[trigger] t[k]) by {
        assert(t[k] == e[k - n]);
    }
    assert(specfile::blank_end(t, n) == n);
    lemma_extras_lines_end(t, n, m);
    if r.len() > 0 {
        assert(t[m].len() == 0);
        assert(t[m + 1] == r[0]);
        lemma_empty_is_blank(t[m]);
        lemma_blank_is_no_extra(t[m]);
        assert(specfile::extras_lines_end(t, m) == m);
        assert(specfile::blank_end(t, m + 1) == m + 1);
        assert(specfile::blank_end(t, m) == m + 1);
        assert(t.skip(m + 1) =~= rest);
    } else {
        assert(specfile::extras_lines_end(t, m) == m);
        assert(specfile::blank_end(t, m) == m);
        assert(t.skip(m) =~= rest);
    }
    assert(specfile::extras_replaced(t, at, next) =~= h + specfile::extras_lines(next) + empty
        + rest);
}

/// The lines before the extras of a spec whose description starts at line `at`.
spec fn before_extras(v: Seq<Seq<char>>, at: int) -> Seq<Seq<char>> {
    let end = specfile::section_end(v, at + 1);
    if end > at + 1 && v[end - 1].len() > 0 {
        v.take(end) + seq![Seq::<char>::empty()]
    } else {
        v.take(end)
    }
}

/// The lines behind the extras of a spec whose description starts at line `at`.
spec fn behind_extras(v: Seq<Seq<char>>, at: int) -> Seq<Seq<char>> {
    v.skip(specfile::extras_end(v, specfile::section_end(v, at + 1)))
}

/// A spec with extras: its lines before the extras, and those behind them.
proof fn lemma_extras_laid(s: Seq<char>, features: Seq<Seq<char>>) -> (r: (
    Seq<Seq<char>>,
    Seq<Seq<char>>,
))
    requires
        features.len() > 0,
        specfile::exact_line_from(pieces::lines(s), "%description"@, 0) < pieces::lines(s).len(),
        line_laws::one_line_each(specfile::extras_lines(features)),
    ensures
        ({
            let v = pieces::lines(s);
            let at = specfile::exact_line_from(v, "%description"@, 0);
            r == (before_extras(v, at), behind_extras(v, at))
        }),
        ({
            let v = pieces::lines(s);
            let at = specfile::exact_line_from(v, "%description"@, 0);
            let e = specfile::extras_lines(features);
            let empty = seq![Seq::<char>::empty()];
            let all = r.0 + e + empty + r.1;
            &&& specfile::with_extras(s, features) == specfile::text_of(all)
            &&& line_laws::one_line_each(all)
            &&& at < r.0.len()
            &&& forall|k: int| 0 <= k <= at ==> #[trigger] r.0[k] == v[k]
            &&& forall|k: int|
                at + 1 <= k < r.0.len() ==> !specfile::starts_section(#[trigger] r.0[k])
            &&& r.0.len() > at + 1 ==> r.0.last().len() == 0
            &&& r.1.len() > 0 ==> !specfile::is_blank(r.1[0])
        }),
{
    let v = pieces::lines(s);
    let at = specfile::exact_line_from(v, "%description"@, 0);
    lemma_exact_line_from(v, "%description"@, 0);
    line_laws::lemma_lines_hold_no_line_feed(s, 0);
    section_laws::lemma_section_end(v, at + 1);
    let end = specfile::section_end(v, at + 1);
    let from = specfile::blank_end(v, end);
    section_laws::lemma_blank_end(v, end);
    lemma_extras_lines_end(v, from, from);
    section_laws::lemma_blank_end(v, specfile::extras_lines_end(v, from));
    let stop = specfile::extras_end(v, end);
    let empty = seq![Seq::<char>::empty()];
    let head = if end > at + 1 && v[end - 1].len() > 0 {
        v.take(end) + empty
    } else {
        v.take(end)
    };
    let e = specfile::extras_lines(features);
    let tail = v.skip(stop);
    assert(specfile::extras_replaced(v, at, features) =~= head + e + empty + tail);
    lemma_one_line_part(v, end);
    lemma_one_line_part(v, stop);
    if end > at + 1 && v[end - 1].len() > 0 {
        lemma_one_line_add(v.take(end), empty);
    }
    lemma_one_line_add(head, e);
    lemma_one_line_add(head + e, empty);
    lemma_one_line_add(head + e + empty, tail);
    assert forall|k: int| at + 1 <= k < head.len() implies !specfile::starts_section(
        #[trigger] head[k],
    ) by {
        if k < end {
            assert(head[k] == v[k]);
        } else {
            assert(head[k].len() == 0);
        }
    }
    if tail.len() > 0 {
        assert(tail[0] == v[stop]);
    }
    (head, tail)
}

/// Putting extras into a spec twice is putting them there once, as long as one of them is not
/// blank, each stands on one line, and no line before the description is `%description` with white
/// space behind it.
pub proof fn law_extras_twice(s: Seq<char>, features: Seq<Seq<char>>)
    requires
        described_once(pieces::lines(s)),
        forall|i: int| 0 <= i < features.len() ==> !text::trim(#[trigger] features[i]).contains('\n'),
        features.len() == 0 || exists|i: int|
            0 <= i < features.len() && !specfile::is_blank(#[trigger] features[i]),
    ensures
        specfile::with_extras(specfile::with_extras(s, features), features)
            == specfile::with_extras(s, features),
{
    if features.len() > 0 {
        law_last_extras_count(s, features, features);
    }
}

/// Other extras replace those that were put into a spec: it is as if it had had only the others, as
/// long as each extra stands on one line, one of the first is not blank, and no line before the
/// description is `%description` with white space behind it.
pub proof fn law_last_extras_count(s: Seq<char>, features: Seq<Seq<char>>, next: Seq<Seq<char>>)
    requires
        described_once(pieces::lines(s)),
        forall|i: int| 0 <= i < features.len() ==> !text::trim(#[trigger] features[i]).contains('\n'),
        features.len() == 0 || exists|i: int|
            0 <= i < features.len() && !specfile::is_blank(#[trigger] features[i]),
        forall|i: int| 0 <= i < next.len() ==> !text::trim(#[trigger] next[i]).contains('\n'),
        next.len() > 0,
    ensures
        specfile::with_extras(specfile::with_extras(s, features), next) == specfile::with_extras(
            s,
            next,
        ),
{
    let v = pieces::lines(s);
    let line = "%description"@;
    let at = specfile::exact_line_from(v, line, 0);
    lemma_exact_line_from(v, line, 0);
    if features.len() > 0 && at < v.len() {
        let once = specfile::with_extras(s, features);
        let e = specfile::extras_lines(features);
        let empty = seq![Seq::<char>::empty()];
        let f = specfile::extras_lines(next);
        lemma_extras_lines(features);
        lemma_extras_lines(next);
        let (head, tail) = lemma_extras_laid(s, features);
        lemma_extras_laid(s, next);
        let all = head + e + empty + tail;
        let h = specfile::trim_end_each(head);
        let r = specfile::trim_end_each(tail);
        if tail.len() > 0 {
            line_laws::lemma_trim_of_trim_end(tail[0]);
        }
        lemma_empty_line();
        assert(specfile::trim_end_each(e) =~= e);
        section_laws::lemma_trim_end_each_add(head, e);
        section_laws::lemma_trim_end_each_add(head + e, empty);
        section_laws::lemma_trim_end_each_add(head + e + empty, tail);
        assert(h + e + empty + r =~= (h + e) + (empty + r));
        assert((h + e).last() == e.last());
        section_laws::lemma_drop_empty_end_add(h + e, empty + r);
        let t = specfile::tidy(all);
        assert(t == h + e + specfile::drop_empty_end(empty + r));
        line_laws::lemma_lines_of_text(all);
        assert(pieces::lines(once) == t);
        reveal_strlit("%description");
        line_laws::lemma_trim_end_is(line, line.len() as int);
        assert(line.take(line.len() as int) =~= line);
        lemma_exact_line_from(specfile::trim_end_each(v), line, 0);
        assert forall|k: int| 0 <= k < at implies #[trigger] t[k] != line by {
            assert(t[k] == text::trim_end(head[k]));
            assert(specfile::trim_end_each(v)[k] == t[k]);
        }
        assert(t[at] == text::trim_end(head[at]));
        lemma_exact_line_is(t, line, at);
        assert forall|k: int| at + 1 <= k < h.len() implies !specfile::starts_section(
            #[trigger] h[k],
        ) by {
            section_laws::lemma_section_trimmed(head[k]);
        }
        line_laws::lemma_trim_end(head.last());
        lemma_extras_again(h, r, at, features, next);
        assert(head + (f + empty) + tail =~= head + f + empty + tail);
        lemma_same_text(head, f + empty, tail);
        assert(h + (f + empty) + specfile::drop_empty_end(r) =~= h + f + empty
            + specfile::drop_empty_end(r));
    }
}

/// A line that names a remote asset.
pub open spec fn is_asset(line: Seq<char>) -> bool {
    text::starts_with(text::trim_start(line), "#!RemoteAsset"@)
}

pub proof fn lemma_asset_line_from(v: Seq<Seq<char>>, i: int)
    requires
        0 <= i <= v.len(),
    ensures
        i <= specfile::asset_line_from(v, i) <= v.len(),
        forall|k: int| i <= k < specfile::asset_line_from(v, i) ==> !is_asset(#[trigger] v[k]),
        specfile::asset_line_from(v, i) < v.len() ==> is_asset(v[specfile::asset_line_from(v, i)]),
    decreases v.len() - i,
{
    if i < v.len() && !is_asset(v[i]) {
        lemma_asset_line_from(v, i + 1);
    }
}

/// A prefix behind white space, where the text ends in white space or not.
proof fn lemma_inner_prefix_trimmed(s: Seq<char>, p: Seq<char>)
    requires
        p.len() > 0,
        !text::is_white(p[0]),
        !text::is_white(p.last()),
    ensures
        text::starts_with(text::trim_start(text::trim_end(s)), p) == text::starts_with(
            text::trim_start(s),
            p,
        ),
{
    let a = text::trim_start(s);
    line_laws::lemma_trim_start(s);
    line_laws::lemma_trim_end(s);
    let n = s.len() - a.len();
    let e = text::trim_end(s);
    if a.len() == 0 {
        // All of it is white space.
        assert(e.len() == 0) by {
            if e.len() > 0 {
                assert(s[e.len() - 1] == e.last());
                lemma_white_before(s, e.len() - 1);
            }
        }
        line_laws::lemma_trim_start(e);
    } else {
        assert(a[0] == s[n as int]);
        assert(n < e.len()) by {
            if n >= e.len() {
                assert(text::is_white(s[n as int]));
            }
        }
        assert forall|k: int| 0 <= k < n implies text::is_white(e[k]) by {
            lemma_white_before(s, k);
        }
        assert(e[n as int] == s[n as int]);
        line_laws::lemma_trim_start_is(e, n as int);
        assert(text::trim_start(e) == e.skip(n as int));
        line_laws::lemma_trim_end_is(a, e.len() - n);
        assert(text::trim_end(a) =~= e.skip(n as int));
        line_laws::lemma_prefix_of_trim_end(a, p);
    }
}

/// What stands before the first character that is no white space is white space.
proof fn lemma_white_before(s: Seq<char>, k: int)
    requires
        0 <= k < s.len() - text::trim_start(s).len(),
    ensures
        text::is_white(s[k]),
{
    line_laws::lemma_trim_start(s);
}

/// Naming the same remote asset twice is naming it once, as long as it is one and stands on one
/// line.
pub proof fn law_asset_twice(s: Seq<char>, asset: Seq<char>)
    requires
        text::starts_with(text::trim(asset), "#!RemoteAsset"@),
        !text::trim(asset).contains('\n'),
    ensures
        specfile::with_asset(specfile::with_asset(s, asset), asset) == specfile::with_asset(
            s,
            asset,
        ),
{
    let v = pieces::lines(s);
    let line = text::trim(asset);
    line_laws::lemma_lines_hold_no_line_feed(s, 0);
    line_laws::lemma_trim(asset);
    lemma_asset_line_from(v, 0);
    spec_laws::lemma_line_from(v, "Source"@, 0);
    spec_laws::lemma_line_from(v, "%"@, 0);
    reveal_strlit("#!RemoteAsset");
    let p = "#!RemoteAsset"@;
    assert(line[0] == line.subrange(0, p.len() as int)[0]);
    line_laws::lemma_trim_start_is(line, 0);
    assert(line.skip(0) =~= line);
    assert(is_asset(line));
    line_laws::lemma_trim_end_is(line, line.len() as int);
    assert(line.take(line.len() as int) =~= line);
    let known = specfile::asset_line_from(v, 0) < v.len();
    let at = if known {
        specfile::asset_line_from(v, 0)
    } else if specfile::line_from(v, "Source"@, 0) < v.len() {
        specfile::line_from(v, "Source"@, 0)
    } else {
        specfile::line_from(v, "%"@, 0)
    };
    let all = if known {
        v.update(at, line)
    } else {
        v.insert(at, line)
    };
    assert forall|i: int| 0 <= i < all.len() implies !(#[trigger] all[i]).contains('\n') by {
        if known {
            if i != at {
                assert(all[i] == v[i]);
            }
        } else if i < at {
            assert(all[i] == v[i]);
        } else if i > at {
            assert(all[i] == v[i - 1]);
        }
    }
    assert(all[at] == line);
    assert(specfile::with_asset(s, asset) == specfile::text_of(all));
    spec_laws::lemma_tidy_keeps(all, at);
    line_laws::lemma_lines_of_text(all);
    line_laws::lemma_tidy(all);
    let t = specfile::tidy(all);
    assert forall|k: int| 0 <= k < at implies !is_asset(#[trigger] t[k]) by {
        assert(all[k] == v[k]);
        assert(t[k] == text::trim_end(all[k]));
        lemma_inner_prefix_trimmed(v[k], p);
    }
    assert(t[at] == line);
    lemma_asset_line_from(t, 0);
    let again = specfile::asset_line_from(t, 0);
    if again < at {
        assert(is_asset(t[again]));
    }
    if at < again {
        assert(!is_asset(t[at]));
    }
    assert(t.update(at, line) =~= t);
    section_laws::lemma_text_of(all);
}

/// The lines that name what a Python package provides, in either form.
pub proof fn lemma_provide_from(v: Seq<Seq<char>>, i: int)
    requires
        0 <= i <= v.len(),
    ensures
        i <= specfile::provide_from(v, i) <= v.len(),
        forall|k: int|
            i <= k < specfile::provide_from(v, i) ==> !specfile::is_any_provide(#[trigger] v[k]),
        specfile::provide_from(v, i) < v.len() ==> specfile::is_any_provide(
            v[specfile::provide_from(v, i)],
        ),
    decreases v.len() - i,
{
    if i < v.len() && !specfile::is_any_provide(v[i]) {
        lemma_provide_from(v, i + 1);
    }
}

proof fn lemma_provide_is(v: Seq<Seq<char>>, n: int)
    requires
        0 <= n < v.len(),
        specfile::is_any_provide(v[n]),
        forall|k: int| 0 <= k < n ==> !specfile::is_any_provide(#[trigger] v[k]),
    ensures
        specfile::provide_from(v, 0) == n,
{
    lemma_provide_from(v, 0);
    let m = specfile::provide_from(v, 0);
    if m < n {
        assert(specfile::is_any_provide(v[m]));
    }
    if n < m {
        assert(!specfile::is_any_provide(v[n]));
    }
}

proof fn lemma_provide_trimmed(line: Seq<char>)
    ensures
        specfile::is_any_provide(text::trim_end(line)) == specfile::is_any_provide(line),
{
    reveal_strlit("Provides:");
    reveal_strlit("python3-");
    reveal_strlit("%python_provide python3-");
    let key = "Provides:"@;
    line_laws::lemma_prefix_of_trim_end(line, key);
    line_laws::lemma_prefix_of_trim_end(line, "%python_provide python3-"@);
    if text::starts_with(line, key) {
        let rest = line.skip(key.len() as int);
        line_laws::lemma_trim_end(line);
        let n = text::trim_end(line).len() as int;
        assert(n >= key.len());
        line_laws::lemma_trim_end(rest);
        assert(text::trim_end(line).skip(key.len() as int) =~= rest.take(n - key.len()));
        if n > key.len() {
            assert(rest[n - key.len() - 1] == line[n - 1]);
        }
        line_laws::lemma_trim_end_is(rest, n - key.len());
        lemma_inner_prefix_trimmed(rest, "python3-"@);
    }
}

proof fn lemma_other_lines(v: Seq<Seq<char>>)
    ensures
        forall|k: int|
            0 <= k < specfile::other_lines(v).len() ==> !specfile::is_any_provide(
                #[trigger] specfile::other_lines(v)[k],
            ),
        line_laws::one_line_each(v) ==> line_laws::one_line_each(specfile::other_lines(v)),
    decreases v.len(),
{
    if v.len() > 0 {
        let rest = v.drop_last();
        lemma_other_lines(rest);
        if line_laws::one_line_each(v) {
            assert forall|i: int| 0 <= i < rest.len() implies !(#[trigger] rest[i]).contains(
                '\n',
            ) by {
                assert(rest[i] == v[i]);
            }
            let last = v[v.len() - 1];
            let before = specfile::other_lines(rest);
            let all = specfile::other_lines(v);
            assert forall|i: int| 0 <= i < all.len() implies !(#[trigger] all[i]).contains(
                '\n',
            ) by {
                if i < before.len() {
                    assert(all[i] == before[i]);
                } else {
                    assert(all[i] == last);
                }
            }
        }
    }
}

proof fn lemma_other_lines_keep(v: Seq<Seq<char>>)
    requires
        forall|k: int| 0 <= k < v.len() ==> !specfile::is_any_provide(#[trigger] v[k]),
    ensures
        specfile::other_lines(v) == v,
    decreases v.len(),
{
    if v.len() > 0 {
        let rest = v.drop_last();
        assert forall|k: int| 0 <= k < rest.len() implies !specfile::is_any_provide(
            #[trigger] rest[k],
        ) by {
            assert(rest[k] == v[k]);
        }
        lemma_other_lines_keep(rest);
        assert(!specfile::is_any_provide(v[v.len() - 1]));
        assert(specfile::other_lines(v) =~= v);
    }
}

proof fn lemma_other_lines_add(a: Seq<Seq<char>>, b: Seq<Seq<char>>)
    ensures
        specfile::other_lines(a + b) == specfile::other_lines(a) + specfile::other_lines(b),
    decreases b.len(),
{
    if b.len() == 0 {
        assert(a + b =~= a);
        assert(specfile::other_lines(a) + specfile::other_lines(b) =~= specfile::other_lines(a));
    } else {
        assert((a + b).last() == b.last());
        assert((a + b).drop_last() =~= a + b.drop_last());
        lemma_other_lines_add(a, b.drop_last());
        assert(specfile::other_lines(a + b) =~= specfile::other_lines(a) + specfile::other_lines(
            b,
        ));
    }
}

pub proof fn lemma_versioned_provides()
    ensures
        ({
            let p = specfile::versioned_provides();
            &&& p.len() == 2
            &&& specfile::is_any_provide(p[0])
            &&& specfile::other_lines(p) == Seq::<Seq<char>>::empty()
            &&& specfile::trim_end_each(p) == p
            &&& p.last().len() > 0
            &&& line_laws::one_line_each(p)
        }),
{
    reveal_strlit("Provides:       python3-%{srcname} = %{version}-%{release}");
    reveal_strlit("%python_provide python3-%{srcname}");
    reveal_strlit("Provides:");
    reveal_strlit("python3-");
    reveal_strlit("%python_provide python3-");
    let p = specfile::versioned_provides();
    let key = "Provides:"@;
    assert(p[0].subrange(0, key.len() as int) =~= key);
    let rest = p[0].skip(key.len() as int);
    assert forall|k: int| 0 <= k < 7 implies text::is_white(rest[k]) by {
        assert(rest[k] == p[0][9 + k]);
    }
    line_laws::lemma_trim_start_is(rest, 7);
    assert(rest.skip(7).subrange(0, 8) =~= "python3-"@);
    let macro_key = "%python_provide python3-"@;
    assert(p[1].subrange(0, macro_key.len() as int) =~= macro_key);
    assert(p.drop_last().drop_last() =~= Seq::<Seq<char>>::empty());
    assert(p.drop_last().last() == p[0]);
    assert(specfile::other_lines(p.drop_last()) == specfile::other_lines(
        p.drop_last().drop_last(),
    ));
    assert(specfile::other_lines(p) == specfile::other_lines(p.drop_last()));
    assert(specfile::other_lines(p.drop_last().drop_last()) =~= Seq::<Seq<char>>::empty());
    assert forall|i: int| 0 <= i < p.len() implies text::trim_end(#[trigger] p[i]) == p[i]
        && !p[i].contains('\n') by {
        line_laws::lemma_trim_end_is(p[i], p[i].len() as int);
        assert(p[i].take(p[i].len() as int) =~= p[i]);
        if p[i].contains('\n') {
            let j = p[i].index_of('\n');
            assert(p[i][j] == '\n');
        }
    }
    assert(specfile::trim_end_each(p) =~= p);
}

proof fn lemma_other_lines_trimmed(v: Seq<Seq<char>>)
    ensures
        specfile::other_lines(specfile::trim_end_each(v)) == specfile::trim_end_each(
            specfile::other_lines(v),
        ),
    decreases v.len(),
{
    if v.len() > 0 {
        let w = specfile::trim_end_each(v);
        lemma_other_lines_trimmed(v.drop_last());
        lemma_provide_trimmed(v.last());
        assert(w.drop_last() =~= specfile::trim_end_each(v.drop_last()));
        assert(w.last() == text::trim_end(v.last()));
    }
    assert(specfile::other_lines(specfile::trim_end_each(v)) =~= specfile::trim_end_each(
        specfile::other_lines(v),
    ));
}

/// A spec that names what it provides: the lines before that, and those behind it.
proof fn lemma_provides_laid(s: Seq<char>) -> (r: (Seq<Seq<char>>, Seq<Seq<char>>))
    ensures
        ({
            let p = specfile::versioned_provides();
            let (x, y) = r;
            let t = specfile::trim_end_each(x) + p + specfile::drop_empty_end(
                specfile::trim_end_each(y),
            );
            &&& specfile::other_lines(pieces::lines(s)) == x + y
            &&& forall|k: int| 0 <= k < x.len() ==> !specfile::is_any_provide(#[trigger] x[k])
            &&& forall|k: int| 0 <= k < y.len() ==> !specfile::is_any_provide(#[trigger] y[k])
            &&& line_laws::one_line_each(x + p + y)
            &&& specfile::with_versioned_provides(s) == specfile::text_of(x + p + y)
            &&& pieces::lines(specfile::with_versioned_provides(s)) == t
        }),
{
    let v = pieces::lines(s);
    let p = specfile::versioned_provides();
    line_laws::lemma_lines_hold_no_line_feed(s, 0);
    lemma_versioned_provides();
    lemma_provide_from(v, 0);
    section_laws::lemma_provides_place(v);
    let known = specfile::provide_from(v, 0) < v.len();
    let at = if known {
        specfile::provide_from(v, 0)
    } else {
        specfile::provides_place(v)
    };
    let x = v.take(at);
    let y = if known {
        specfile::other_lines(v.skip(at))
    } else {
        v.skip(at)
    };
    let all = x + p + y;
    lemma_one_line_part(v, at);
    lemma_other_lines(v.skip(at));
    lemma_one_line_add(x, p);
    lemma_one_line_add(x + p, y);
    if !known {
        spec_laws::lemma_with_lines(v, at, p);
        assert(specfile::with_lines(v, at, p) =~= all);
        assert forall|k: int| 0 <= k < y.len() implies !specfile::is_any_provide(
            #[trigger] y[k],
        ) by {
            assert(y[k] == v[at + k]);
        }
        lemma_other_lines_keep(y);
    }
    assert forall|k: int| 0 <= k < x.len() implies !specfile::is_any_provide(#[trigger] x[k]) by {
        assert(x[k] == v[k]);
    }
    lemma_other_lines_keep(x);
    lemma_other_lines_add(x, v.skip(at));
    assert(x + v.skip(at) =~= v);
    let a = specfile::trim_end_each(x);
    let b = specfile::trim_end_each(y);
    section_laws::lemma_trim_end_each_add(x, p);
    section_laws::lemma_trim_end_each_add(x + p, y);
    assert((a + p).last() == p.last());
    section_laws::lemma_drop_empty_end_add(a + p, b);
    assert(specfile::tidy(all) == a + p + specfile::drop_empty_end(b));
    line_laws::lemma_lines_of_text(all);
    (x, y)
}

/// The lines `others` with the versioned names that a Python package provides at line `at`, and
/// without empty lines at the end.
pub open spec fn provides_at(
    t: Seq<Seq<char>>,
    at: int,
    others: Seq<Seq<char>>,
) -> bool {
    &&& 0 <= at <= others.len()
    &&& t == others.take(at) + specfile::versioned_provides() + specfile::drop_empty_end(
        others.skip(at),
    )
}

/// What a Python package provides is named once: the versioned line and the line of the macro
/// stand one behind the other, no other line names it, and the lines of the spec that do not name
/// it stay in order around them.
pub proof fn law_provides_are_named_once(s: Seq<char>)
    ensures
        ({
            let t = pieces::lines(specfile::with_versioned_provides(s));
            let others = specfile::other_lines(specfile::trim_end_each(pieces::lines(s)));
            exists|at: int|
                {
                    &&& #[trigger] provides_at(t, at, others)
                    &&& t[at] == "Provides:       python3-%{srcname} = %{version}-%{release}"@
                    &&& t[at + 1] == "%python_provide python3-%{srcname}"@
                    &&& forall|k: int|
                        0 <= k < t.len() && k != at && k != at + 1 ==> !specfile::is_any_provide(
                            #[trigger] t[k],
                        )
                }
        }),
{
    let p = specfile::versioned_provides();
    let (x, y) = lemma_provides_laid(s);
    let t = pieces::lines(specfile::with_versioned_provides(s));
    let others = specfile::other_lines(specfile::trim_end_each(pieces::lines(s)));
    let at = x.len() as int;
    let a = specfile::trim_end_each(x);
    let b = specfile::trim_end_each(y);
    let rest = specfile::drop_empty_end(b);
    lemma_other_lines_trimmed(pieces::lines(s));
    section_laws::lemma_trim_end_each_add(x, y);
    assert(others == a + b);
    assert(others.take(at) =~= a);
    assert(others.skip(at) =~= b);
    line_laws::lemma_drop_empty_end(b);
    assert(provides_at(t, at, others));
    assert(t[at] == p[0]);
    assert(t[at + 1] == p[1]);
    assert forall|k: int|
        0 <= k < t.len() && k != at && k != at + 1 implies !specfile::is_any_provide(
        #[trigger] t[k],
    ) by {
        if k < at {
            assert(t[k] == text::trim_end(x[k]));
            lemma_provide_trimmed(x[k]);
        } else {
            let j = k - at - 2;
            assert(t[k] == rest[j]);
            assert(rest[j] == text::trim_end(y[j]));
            lemma_provide_trimmed(y[j]);
        }
    }
}

/// Naming what a Python package provides twice is naming it once.
pub proof fn law_provides_twice(s: Seq<char>)
    ensures
        specfile::with_versioned_provides(specfile::with_versioned_provides(s))
            == specfile::with_versioned_provides(s),
{
    let p = specfile::versioned_provides();
    lemma_versioned_provides();
    let (x, y) = lemma_provides_laid(s);
    let at = x.len() as int;
    let a = specfile::trim_end_each(x);
    let b = specfile::trim_end_each(y);
    let rest = specfile::drop_empty_end(b);
    let t = a + p + rest;
    line_laws::lemma_drop_empty_end(b);
    assert forall|k: int| 0 <= k < at implies !specfile::is_any_provide(#[trigger] t[k]) by {
        assert(t[k] == text::trim_end(x[k]));
        lemma_provide_trimmed(x[k]);
    }
    assert(t[at] == p[0]);
    lemma_provide_is(t, at);
    assert(t.take(at) =~= a);
    assert(t.skip(at) =~= p + rest);
    lemma_other_lines_add(p, rest);
    assert forall|k: int| 0 <= k < rest.len() implies !specfile::is_any_provide(
        #[trigger] rest[k],
    ) by {
        assert(rest[k] == text::trim_end(y[k]));
        lemma_provide_trimmed(y[k]);
    }
    lemma_other_lines_keep(rest);
    assert(specfile::other_lines(p + rest) =~= rest);
    lemma_same_text(x, p, y);
}

/// A text in which `from` has been replaced does not hold it any more, where both start with the
/// same character, hold it nowhere else, and go on differently.
proof fn lemma_none_left(s: Seq<char>, from: Seq<char>, to: Seq<char>, i: int, j: int)
    requires
        0 <= i <= s.len(),
        from.len() > 1,
        to.len() > 1,
        from[0] == to[0],
        from[1] != to[1],
        forall|k: int| 0 < k < from.len() ==> #[trigger] from[k] != from[0],
        forall|k: int| 0 < k < to.len() ==> #[trigger] to[k] != from[0],
    ensures
        !text::occurs_at(pieces::replace_from(s, from, to, i), from, j),
    decreases s.len() - i,
{
    let r = pieces::replace_from(s, from, to, i);
    text::lemma_find(s, from, i);
    if text::occurs_at(r, from, j) {
        match text::find_from(s, from, i) {
            Some(k) => {
                let a = s.subrange(i, k);
                let q = pieces::replace_from(s, from, to, k + from.len());
                assert(r == a + to + q);
                assert(r.subrange(j, j + from.len())[0] == r[j]);
                assert(r.subrange(j, j + from.len())[1] == r[j + 1]);
                if j + from.len() <= a.len() {
                    assert(s.subrange(i + j, i + j + from.len()) =~= r.subrange(
                        j,
                        j + from.len(),
                    ));
                    assert(text::occurs_at(s, from, i + j));
                } else if j < a.len() {
                    let m = a.len() - j;
                    assert(r.subrange(j, j + from.len())[m] == r[j + m]);
                    assert(r[j + m] == to[0]);
                } else if j < a.len() + to.len() {
                    assert(r[j] == to[j - a.len()]);
                    assert(r[j + 1] == to[1] || j > a.len());
                } else {
                    let m = j - a.len() - to.len();
                    lemma_none_left(s, from, to, k + from.len(), m);
                    assert(q.subrange(m, m + from.len()) =~= r.subrange(j, j + from.len()));
                }
            },
            None => {
                assert(s.subrange(i + j, i + j + from.len()) =~= r.subrange(j, j + from.len()));
                assert(text::occurs_at(s, from, i + j));
            },
        }
    }
}

/// Putting in the macro for the changelog twice is putting it in once.
pub proof fn law_changelog_twice(s: Seq<char>)
    ensures
        ({
            let from = "%{?autochangelog}"@;
            let to = "%autochangelog"@;
            pieces::replace(pieces::replace(s, from, to), from, to) == pieces::replace(s, from, to)
        }),
{
    reveal_strlit("%{?autochangelog}");
    reveal_strlit("%autochangelog");
    let from = "%{?autochangelog}"@;
    let to = "%autochangelog"@;
    let r = pieces::replace(s, from, to);
    text::lemma_find(r, from, 0);
    if let Some(k) = text::find_from(r, from, 0) {
        lemma_none_left(s, from, to, 0, k);
    }
    assert(r.skip(0) =~= r);
}

} // verus!
