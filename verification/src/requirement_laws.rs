//! Laws of build requirements that differ in their versions only.
use vstd::prelude::*;

use crate::keep_laws;
use crate::line_laws;
use crate::patterns;
use crate::pieces;
use crate::spec_laws;
use crate::specfile;
use crate::text;

verus! {

proof fn lemma_operator_from(s: Seq<char>, i: int)
    requires
        0 <= i <= s.len(),
    ensures
        i <= patterns::operator_from(s, i) <= s.len(),
        forall|k: int|
            i <= k < patterns::operator_from(s, i) ==> !#[trigger] patterns::operator_at(s, k),
        patterns::operator_from(s, i) < s.len() ==> patterns::operator_at(
            s,
            patterns::operator_from(s, i),
        ),
    decreases s.len() - i,
{
    if i < s.len() && !patterns::operator_at(s, i) {
        lemma_operator_from(s, i + 1);
    }
}

/// White space that ends within the first `n` characters ends there in the whole text too.
proof fn lemma_white_end_within(s: Seq<char>, n: int, i: int)
    requires
        0 <= i <= n <= s.len(),
        text::white_end(s.take(n), i) < n,
    ensures
        text::white_end(s, i) == text::white_end(s.take(n), i),
    decreases n - i,
{
    if i < n {
        assert(s.take(n)[i] == s[i]);
        if text::is_white(s[i]) {
            lemma_white_end_within(s, n, i + 1);
        }
    }
}

/// The name of a requirement has no version.
pub proof fn lemma_requirement_name_twice(dep: Seq<char>)
    ensures
        specfile::requirement_name(specfile::requirement_name(dep)) == specfile::requirement_name(
            dep,
        ),
        specfile::requirement_name(text::trim(dep)) == specfile::requirement_name(dep),
{
    let t = text::trim(dep);
    let n = patterns::operator_from(t, 0);
    let name = t.take(n);
    line_laws::lemma_trim(dep);
    lemma_operator_from(t, 0);
    if n > 0 {
        assert(name[0] == t[0]);
        assert(name.last() == t[n - 1]);
        if n < t.len() && text::is_white(t[n - 1]) {
            assert(text::white_end(t, n - 1) == text::white_end(t, n));
            assert(patterns::operator_at(t, n - 1));
        }
    }
    assert(line_laws::is_trimmed(name));
    line_laws::lemma_trim(name);
    lemma_operator_from(name, 0);
    let m = patterns::operator_from(name, 0);
    if m < n {
        let w = text::white_end(name, m);
        text::lemma_white_end(name, m);
        lemma_white_end_within(t, n, m);
        assert(t[w] == name[w]);
        assert(t[w + 1] == name[w + 1]);
        let o = if name[w + 1] == '=' {
            w + 2
        } else {
            w + 1
        };
        assert(t[o] == name[o]);
        assert(patterns::operator_at(t, m));
    }
    assert(name.take(n) =~= name);
}

/// A line names the requirement `dep`, whatever the versions.
pub open spec fn same_requirement(line: Seq<char>, dep: Seq<char>) -> bool {
    spec_laws::is_requirement(line) && specfile::requirement_name(spec_laws::required_by(line))
        == specfile::requirement_name(dep)
}

/// A requirement that is known is named by a line.
proof fn lemma_covered_by_line(v: Seq<Seq<char>>, dep: Seq<char>) -> (k: int)
    requires
        text::trim(dep).len() > 0,
        spec_laws::is_covered(specfile::known_requirements(v), dep),
    ensures
        0 <= k < v.len(),
        same_requirement(v[k], dep),
{
    let known = specfile::known_requirements(v);
    let d = text::trim(dep);
    let x = if known.contains(d) {
        d
    } else {
        specfile::requirement_name(d)
    };
    let k = spec_laws::lemma_known_from(v, x);
    lemma_requirement_name_twice(dep);
    lemma_requirement_name_twice(d);
    lemma_requirement_name_twice(spec_laws::required_by(v[k]));
    k
}

/// The names of the requirements that have been added are known.
proof fn lemma_seen_has(known: Seq<Seq<char>>, added: Seq<Seq<char>>, i: int)
    requires
        0 <= i < added.len(),
    ensures
        specfile::with_requirements(known, added).contains(specfile::requirement_name(added[i])),
    decreases added.len(),
{
    let rest = added.drop_last();
    let before = specfile::with_requirements(known, rest);
    let last = added.last();
    let name = specfile::requirement_name(last);
    let x = specfile::requirement_name(added[i]);
    if i < rest.len() {
        assert(rest[i] == added[i]);
        lemma_seen_has(known, rest, i);
    }
    spec_laws::lemma_push_contains(before, x, name);
    spec_laws::lemma_push_contains(before.push(name), x, last);
}

/// What is new has other names than what is known, and no name twice.
proof fn lemma_new_names(known: Seq<Seq<char>>, deps: Seq<Seq<char>>)
    ensures
        ({
            let added = specfile::new_requirements(known, deps);
            &&& forall|i: int|
                0 <= i < added.len() ==> !known.contains(
                    specfile::requirement_name(#[trigger] added[i]),
                )
            &&& forall|i: int, j: int|
                0 <= i < j < added.len() ==> specfile::requirement_name(#[trigger] added[i])
                    != specfile::requirement_name(#[trigger] added[j])
        }),
    decreases deps.len(),
{
    if deps.len() > 0 {
        let before = specfile::new_requirements(known, deps.drop_last());
        let added = specfile::new_requirements(known, deps);
        let seen = specfile::with_requirements(known, before);
        lemma_new_names(known, deps.drop_last());
        if added != before {
            let name = specfile::requirement_name(added[added.len() - 1]);
            assert(added =~= before.push(text::trim(deps.last())));
            if known.contains(name) {
                spec_laws::lemma_seen_keeps(known, before, name);
            }
            assert forall|i: int| 0 <= i < before.len() implies specfile::requirement_name(
                #[trigger] before[i],
            ) != name by {
                lemma_seen_has(known, before, i);
            }
            assert(forall|i: int| 0 <= i < before.len() ==> #[trigger] added[i] == before[i]);
        }
    }
}

/// Adding build requirements adds each that is missing, and none twice, as long as each stands on
/// one line. Two requirements are the same where they differ in their versions only:
/// - each that is asked for and not blank is named by a line in the end;
/// - the lines that are added name what was asked for, no two of them the same, and none what the
///   spec required before;
/// - the lines of the spec stay, in order;
/// - where nothing is to be added, nothing changes, and so a second time.
pub proof fn law_requirements_are_added_once(s: Seq<char>, deps: Seq<Seq<char>>)
    requires
        forall|i: int| 0 <= i < deps.len() ==> !text::trim(#[trigger] deps[i]).contains('\n'),
    ensures
        ({
            let v = pieces::lines(s);
            let added = specfile::new_requirements(specfile::known_requirements(v), deps);
            let out = specfile::with_buildrequires(s, deps);
            let t = pieces::lines(out);
            &&& forall|i: int|
                0 <= i < deps.len() && text::trim(#[trigger] deps[i]).len() > 0 ==> exists|k: int|
                    0 <= k < t.len() && same_requirement(#[trigger] t[k], deps[i])
            &&& added.len() > 0 ==> t == specfile::tidy(
                specfile::with_lines(
                    v,
                    specfile::requirement_place(v),
                    pieces::prefix_each("BuildRequires:  "@, added),
                ),
            )
            &&& forall|k: int|
                0 <= k < added.len() ==> exists|i: int|
                    0 <= i < deps.len() && #[trigger] added[k] == text::trim(#[trigger] deps[i])
            &&& forall|i: int, j: int|
                0 <= i < j < added.len() ==> specfile::requirement_name(#[trigger] added[i])
                    != specfile::requirement_name(#[trigger] added[j])
            &&& forall|i: int, k: int|
                0 <= i < added.len() && 0 <= k < v.len() ==> !same_requirement(
                    #[trigger] v[k],
                    #[trigger] added[i],
                )
            &&& keep_laws::keeps_every_line(s, out)
            &&& added.len() == 0 ==> out == s
            &&& specfile::with_buildrequires(out, deps) == out
        }),
{
    let v = pieces::lines(s);
    let known = specfile::known_requirements(v);
    let added = specfile::new_requirements(known, deps);
    let out = specfile::with_buildrequires(s, deps);
    let t = pieces::lines(out);
    spec_laws::law_requirements_are_met(s, deps);
    spec_laws::law_buildrequires_twice(s, deps);
    keep_laws::law_buildrequires_keep_lines(s, deps);
    lemma_new_names(known, deps);
    assert forall|i: int|
        0 <= i < deps.len() && text::trim(#[trigger] deps[i]).len() > 0 implies exists|k: int|
        0 <= k < t.len() && same_requirement(#[trigger] t[k], deps[i]) by {
        let k = lemma_covered_by_line(t, deps[i]);
        assert(same_requirement(t[k], deps[i]));
    }
    assert forall|i: int, k: int| 0 <= i < added.len() && 0 <= k < v.len() implies !same_requirement(
        #[trigger] v[k],
        #[trigger] added[i],
    ) by {
        if spec_laws::is_requirement(v[k]) {
            spec_laws::lemma_known_has(v, k);
        }
    }
    assert forall|k: int| 0 <= k < added.len() implies exists|i: int|
        0 <= i < deps.len() && #[trigger] added[k] == text::trim(#[trigger] deps[i]) by {
        let i = spec_laws::lemma_new_from(known, deps, k);
        assert(added[k] == text::trim(deps[i]));
    }
    if added.len() > 0 {
        spec_laws::lemma_added_lines(s, deps);
    }
}

} // verus!
