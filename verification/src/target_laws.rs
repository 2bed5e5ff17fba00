//! Laws of the packages that missing requirements ask for.
use vstd::prelude::*;

use crate::file_laws;
use crate::graph;
use crate::graph::{SourceModel, TargetModel};
use crate::line_laws;
use crate::pieces;
use crate::scheduler;
use crate::set_laws;
use crate::text;
use crate::upstream;

verus! {

/// A text that stands at `n` and nowhere before is found there.
pub proof fn lemma_find_is(s: Seq<char>, p: Seq<char>, n: int)
    requires
        text::occurs_at(s, p, n),
        forall|j: int| 0 <= j < n ==> !#[trigger] text::occurs_at(s, p, j),
    ensures
        text::find(s, p) == Some(n),
        text::contains(s, p),
{
    text::lemma_find(s, p, 0);
    match text::find_from(s, p, 0) {
        Some(k) => {
            if k < n {
                assert(text::occurs_at(s, p, k));
            }
            if n < k {
                assert(!text::occurs_at(s, p, n));
            }
        },
        None => {
            assert(!text::occurs_at(s, p, n));
        },
    }
}

pub proof fn lemma_index_is(s: Seq<char>, c: char, i: int, n: int)
    requires
        0 <= i <= n <= s.len(),
        forall|k: int| i <= k < n ==> #[trigger] s[k] != c,
        n < s.len() ==> s[n] == c,
    ensures
        text::index_of(s, c, i) == n,
{
    text::lemma_index_of(s, c, i);
    let m = text::index_of(s, c, i);
    if m < n {
        assert(s[m] == c);
    }
    if n < m {
        assert(s[n] != c);
    }
}

/// Texts without `c`, joined by `c`, are what `c` splits.
pub proof fn lemma_split_join(v: Seq<Seq<char>>, c: char)
    requires
        v.len() > 0,
        forall|k: int| 0 <= k < v.len() ==> !(#[trigger] v[k]).contains(c),
    ensures
        pieces::split(pieces::join(v, seq![c]), c) == v,
    decreases v.len(),
{
    let s = pieces::join(v, seq![c]);
    let first = v[0];
    if v.len() == 1 {
        assert(s == first);
        assert forall|k: int| 0 <= k < s.len() implies #[trigger] s[k] != c by {
            assert(first.contains(first[k]));
        }
        lemma_index_is(s, c, 0, s.len() as int);
        assert(s.skip(0) =~= first);
        assert(pieces::split(s, c) =~= v);
    } else {
        let rest = v.drop_first();
        let tail = pieces::join(rest, seq![c]);
        line_laws::lemma_join_cons(v, seq![c]);
        assert forall|k: int| 0 <= k < rest.len() implies !(#[trigger] rest[k]).contains(c) by {
            assert(rest[k] == v[k + 1]);
        }
        lemma_split_join(rest, c);
        let n = first.len() as int;
        assert forall|k: int| 0 <= k < n implies #[trigger] s[k] != c by {
            assert(s[k] == first[k]);
            assert(first.contains(first[k]));
        }
        assert(s[n] == c);
        lemma_index_is(s, c, 0, n);
        assert(s.subrange(0, n) =~= first);
        lemma_split_behind(first + seq![c], tail, c, 0);
        assert(s =~= (first + seq![c]) + tail);
        assert(pieces::split(s, c) =~= seq![first] + rest);
        assert(seq![first] + rest =~= v);
    }
}

proof fn lemma_index_behind(a: Seq<char>, b: Seq<char>, c: char, i: int)
    requires
        0 <= i <= b.len(),
    ensures
        text::index_of(a + b, c, a.len() + i) == a.len() + text::index_of(b, c, i),
    decreases b.len() - i,
{
    if i < b.len() {
        assert((a + b)[a.len() + i] == b[i]);
        lemma_index_behind(a, b, c, i + 1);
    }
}

proof fn lemma_split_behind(a: Seq<char>, b: Seq<char>, c: char, i: int)
    requires
        0 <= i <= b.len(),
    ensures
        pieces::split_from(a + b, c, a.len() + i) == pieces::split_from(b, c, i),
    decreases b.len() - i,
{
    let k = text::index_of(b, c, i);
    text::lemma_index_of(b, c, i);
    lemma_index_behind(a, b, c, i);
    if k < b.len() {
        lemma_split_behind(a, b, c, k + 1);
        assert((a + b).subrange(a.len() + i, a.len() + k) =~= b.subrange(i, k));
    } else {
        assert((a + b).skip(a.len() + i) =~= b.skip(i));
    }
}

/// A text of digits and dots, as it stands in `python3.13dist`.
pub open spec fn is_version(v: Seq<char>) -> bool {
    forall|i: int| 0 <= i < v.len() ==> text::is_ascii_digit(#[trigger] v[i]) || v[i] == '.'
}

/// The requirement on the Python module that `inner` names.
pub open spec fn python_requirement(v: Seq<char>, inner: Seq<char>) -> Seq<char> {
    "python"@ + v + "dist("@ + inner + ")"@
}

/// What is taken apart of the requirement on a Python module.
proof fn lemma_requirement_parts(v: Seq<char>, inner: Seq<char>)
    requires
        is_version(v),
    ensures
        ({
            let dep = python_requirement(v, inner);
            let rest = v + "dist("@ + inner + ")"@;
            &&& text::trim(dep) == dep
            &&& text::strip_prefix(dep, "python"@) == Some(rest)
            &&& text::find(rest, "dist("@) == Some(v.len() as int)
            &&& rest.skip(v.len() as int + 5) == inner + ")"@
            &&& text::strip_suffix(inner + ")"@, ")"@) == Some(inner)
        }),
{
    reveal_strlit("python");
    reveal_strlit("dist(");
    reveal_strlit(")");
    let dep = python_requirement(v, inner);
    let rest = v + "dist("@ + inner + ")"@;
    assert(dep[0] == 'p');
    assert(dep.last() == ')');
    line_laws::lemma_trim(dep);
    assert(dep =~= "python"@ + rest);
    file_laws::lemma_prefix("python"@, rest);
    let n = v.len() as int;
    assert(rest.subrange(n, n + 5) =~= "dist("@);
    assert forall|j: int| 0 <= j < n implies !#[trigger] text::occurs_at(rest, "dist("@, j) by {
        if text::occurs_at(rest, "dist("@, j) {
            assert(rest.subrange(j, j + 5)[0] == 'd');
            assert(rest[j] == v[j]);
        }
    }
    lemma_find_is(rest, "dist("@, n);
    assert(rest.skip(n + 5) =~= inner + ")"@);
    let tail = inner + ")"@;
    assert(tail.subrange(inner.len() as int, tail.len() as int) =~= ")"@);
    assert(tail.take(inner.len() as int) =~= inner);
}

/// A requirement on a Python module without extras asks for exactly that module and no feature,
/// whatever Python it is for.
pub proof fn law_requirement_names_its_package(v: Seq<char>, name: Seq<char>)
    requires
        is_version(v),
        !name.contains('['),
    ensures
        graph::python_dependency(python_requirement(v, name)) == Some(
            TargetModel { package: name, features: seq![] },
        ),
{
    lemma_requirement_parts(v, name);
    assert forall|k: int| 0 <= k < name.len() implies #[trigger] name[k] != '[' by {
        assert(name.contains(name[k]));
    }
    lemma_index_is(name, '[', 0, name.len() as int);
    reveal_strlit("dist(");
}

/// A requirement on a Python module with extras asks for that module with exactly these features.
pub proof fn law_requirement_names_its_features(
    v: Seq<char>,
    name: Seq<char>,
    features: Seq<Seq<char>>,
)
    requires
        is_version(v),
        !name.contains('['),
        features.len() > 0,
        forall|i: int|
            0 <= i < features.len() ==> line_laws::is_trimmed(#[trigger] features[i])
                && !features[i].contains(',') && !features[i].contains(']'),
    ensures
        graph::python_dependency(
            python_requirement(v, name + "["@ + pieces::join(features, ","@) + "]"@),
        ) == Some(TargetModel { package: name, features }),
{
    reveal_strlit("[");
    reveal_strlit("]");
    reveal_strlit(",");
    reveal_strlit("dist(");
    assert(","@ =~= seq![',']);
    let list = pieces::join(features, ","@);
    let inner = name + "["@ + list + "]"@;
    lemma_requirement_parts(v, inner);
    let n = name.len() as int;
    assert forall|k: int| 0 <= k < n implies #[trigger] inner[k] != '[' by {
        assert(inner[k] == name[k]);
        assert(name.contains(name[k]));
    }
    assert(inner[n] == '[');
    lemma_index_is(inner, '[', 0, n);
    assert(inner.take(n) =~= name);
    assert(inner.skip(n + 1) =~= list + "]"@);
    lemma_no_bracket(features);
    lemma_trim_bracket(list);
    lemma_split_join(features, ',');
    assert(pieces::trim_each(features) =~= features) by {
        assert forall|i: int| 0 <= i < features.len() implies text::trim(#[trigger] features[i])
            == features[i] by {
            line_laws::lemma_trim(features[i]);
        }
    }
}

proof fn lemma_no_bracket(v: Seq<Seq<char>>)
    requires
        forall|i: int| 0 <= i < v.len() ==> !(#[trigger] v[i]).contains(']'),
    ensures
        !pieces::join(v, ","@).contains(']'),
    decreases v.len(),
{
    reveal_strlit(",");
    let s = pieces::join(v, ","@);
    if v.len() == 1 {
        assert(s == v[0]);
    } else if v.len() > 1 {
        let rest = v.drop_last();
        assert forall|i: int| 0 <= i < rest.len() implies !(#[trigger] rest[i]).contains(']') by {
            assert(rest[i] == v[i]);
        }
        lemma_no_bracket(rest);
        let head = pieces::join(rest, ","@);
        let last = v[v.len() - 1];
        assert(s == head + ","@ + last);
        if s.contains(']') {
            let k = s.index_of(']');
            if k < head.len() {
                assert(head[k] == ']');
            } else if k > head.len() {
                assert(last[k - head.len() - 1] == ']');
            }
        }
    }
}

proof fn lemma_trim_bracket(s: Seq<char>)
    requires
        !s.contains(']'),
    ensures
        text::trim_end_char(s + "]"@, ']') == s,
{
    reveal_strlit("]");
    let all = s + "]"@;
    let n = s.len() as int;
    assert(all[n] == ']');
    if n > 0 {
        assert(all[n - 1] == s[n - 1]);
        assert(s.contains(s[n - 1]));
    }
    assert(text::same_start(all, ']', n) == n);
    assert(text::same_start(all, ']', n + 1) == n);
    assert(all.take(n) =~= s);
}

/// White space around a requirement does not count.
pub proof fn law_requirement_is_trimmed(a: Seq<char>, dep: Seq<char>, b: Seq<char>)
    requires
        line_laws::is_trimmed(dep),
        forall|k: int| 0 <= k < a.len() ==> text::is_white(#[trigger] a[k]),
        forall|k: int| 0 <= k < b.len() ==> text::is_white(#[trigger] b[k]),
    ensures
        graph::python_dependency(a + dep + b) == graph::python_dependency(dep),
{
    line_laws::lemma_trim_around(a, dep, b);
    line_laws::lemma_trim(dep);
}

/// What is no requirement on a Python module asks for no package.
pub proof fn law_other_requirements_are_not_built(dep: Seq<char>)
    requires
        !text::starts_with(text::trim(dep), "python"@) || !text::contains(dep, "dist("@)
            || !text::ends_with(text::trim(dep), ")"@),
    ensures
        graph::python_dependency(dep) is None,
{
    let t = text::trim(dep);
    if text::starts_with(t, "python"@) {
        let rest = t.skip("python"@.len() as int);
        text::lemma_find(rest, "dist("@, 0);
        if let Some(at) = text::find(rest, "dist("@) {
            let n = "python"@.len() as int;
            reveal_strlit("dist(");
            reveal_strlit(")");
            assert(t.subrange(n + at, n + at + 5) =~= rest.subrange(at, at + 5));
            let a = text::trim_start(dep);
            line_laws::lemma_trim_start(dep);
            line_laws::lemma_trim_end(a);
            let m = dep.len() - a.len();
            assert(dep.subrange(m + n + at, m + n + at + 5) =~= t.subrange(n + at, n + at + 5));
            text::lemma_find(dep, "dist("@, 0);
            assert(text::occurs_at(dep, "dist("@, m + n + at));
            let tail = rest.skip(at + 5);
            if text::ends_with(tail, ")"@) {
                assert(tail.subrange(tail.len() - 1, tail.len() as int)[0] == ')');
                assert(tail.last() == t.last());
                assert(t.subrange(t.len() - 1, t.len() as int) =~= ")"@);
            }
        }
    }
}

/// A requirement asks for `package`.
pub open spec fn is_asked_for(deps: Seq<Seq<char>>, package: Seq<char>) -> bool {
    exists|i: int|
        0 <= i < deps.len() && (#[trigger] graph::python_dependency(deps[i])) is Some
            && graph::python_dependency(deps[i])->0.package == package
}

/// A requirement asks for `package` with the feature `f`.
pub open spec fn is_feature_asked_for(
    deps: Seq<Seq<char>>,
    package: Seq<char>,
    f: Seq<char>,
) -> bool {
    exists|i: int|
        0 <= i < deps.len() && (#[trigger] graph::python_dependency(deps[i])) is Some
            && graph::python_dependency(deps[i])->0.package == package
            && graph::python_dependency(deps[i])->0.features.contains(f)
}

/// A target is for the package of another, and has all its features.
pub open spec fn covers(target: TargetModel, other: TargetModel) -> bool {
    &&& target.package == other.package
    &&& forall|f: Seq<char>| #[trigger]
        other.features.contains(f) ==> target.features.contains(f)
}

/// Some target covers `target`.
pub open spec fn met(targets: Seq<TargetModel>, target: TargetModel) -> bool {
    exists|k: int| 0 <= k < targets.len() && covers(#[trigger] targets[k], target)
}

/// Requirements ask for each package once, with all the features that any of them asks of it, and
/// for nothing else.
pub proof fn law_targets_are_what_is_asked_for(deps: Seq<Seq<char>>)
    ensures
        forall|j: int, k: int|
            0 <= j < k < graph::targets_of(deps).len() ==> (#[trigger] graph::targets_of(
                deps,
            )[j]).package != (#[trigger] graph::targets_of(deps)[k]).package,
        forall|i: int|
            0 <= i < deps.len() && (#[trigger] graph::python_dependency(deps[i])) is Some ==> met(
                graph::targets_of(deps),
                graph::python_dependency(deps[i])->0,
            ),
        forall|k: int|
            0 <= k < graph::targets_of(deps).len() ==> is_asked_for(
                deps,
                (#[trigger] graph::targets_of(deps)[k]).package,
            ),
        forall|k: int, f: Seq<char>|
            0 <= k < graph::targets_of(deps).len() && #[trigger] graph::targets_of(
                deps,
            )[k].features.contains(f) ==> is_feature_asked_for(
                deps,
                graph::targets_of(deps)[k].package,
                f,
            ),
{
    let asked = Seq::new(deps.len(), |i: int| graph::python_dependency(deps[i]));
    lemma_merged(deps, asked);
    lemma_one_each(asked);
    let targets = merged(asked);
    assert forall|i: int|
        0 <= i < deps.len() && (#[trigger] graph::python_dependency(deps[i])) is Some implies met(
        targets,
        graph::python_dependency(deps[i])->0,
    ) by {
        assert(asked[i] == graph::python_dependency(deps[i]));
        lemma_each_met(asked, i);
    }
    assert forall|k: int| 0 <= k < targets.len() implies is_asked_for(
        deps,
        (#[trigger] targets[k]).package,
    ) by {
        let i = lemma_each_named(asked, k);
        assert(asked[i] == graph::python_dependency(deps[i]));
    }
    assert forall|k: int, f: Seq<char>|
        0 <= k < targets.len() && #[trigger] targets[k].features.contains(
            f,
        ) implies is_feature_asked_for(deps, targets[k].package, f) by {
        let i = lemma_each_feature_named(asked, k, f);
        assert(asked[i] == graph::python_dependency(deps[i]));
    }
}

/// What the requirements ask for, merged.
spec fn merged(asked: Seq<Option<TargetModel>>) -> Seq<TargetModel>
    decreases asked.len(),
{
    if asked.len() == 0 {
        seq![]
    } else {
        match asked.last() {
            Some(target) => graph::merge_target(merged(asked.drop_last()), target),
            None => merged(asked.drop_last()),
        }
    }
}

proof fn lemma_merged(deps: Seq<Seq<char>>, asked: Seq<Option<TargetModel>>)
    requires
        asked == Seq::new(deps.len(), |i: int| graph::python_dependency(deps[i])),
    ensures
        graph::targets_of(deps) == merged(asked),
    decreases deps.len(),
{
    if deps.len() > 0 {
        let rest = deps.drop_last();
        let asked_rest = Seq::new(rest.len(), |i: int| graph::python_dependency(rest[i]));
        assert(asked_rest =~= asked.drop_last());
        lemma_merged(rest, asked_rest);
    }
}

spec fn names(asked: Seq<Option<TargetModel>>, i: int, package: Seq<char>) -> bool {
    0 <= i < asked.len() && asked[i] is Some && asked[i]->0.package == package
}

spec fn names_feature(
    asked: Seq<Option<TargetModel>>,
    i: int,
    package: Seq<char>,
    f: Seq<char>,
) -> bool {
    names(asked, i, package) && asked[i]->0.features.contains(f)
}

spec fn one_per_package(targets: Seq<TargetModel>) -> bool {
    forall|j: int, k: int|
        0 <= j < k < targets.len() ==> (#[trigger] targets[j]).package != (
        #[trigger] targets[k]).package
}

proof fn lemma_one_each(asked: Seq<Option<TargetModel>>)
    ensures
        one_per_package(merged(asked)),
    decreases asked.len(),
{
    if asked.len() > 0 {
        lemma_one_each(asked.drop_last());
        if let Some(target) = asked.last() {
            lemma_merge(merged(asked.drop_last()), target);
        }
    }
}

proof fn lemma_each_met(asked: Seq<Option<TargetModel>>, i: int)
    requires
        0 <= i < asked.len(),
        asked[i] is Some,
    ensures
        met(merged(asked), asked[i]->0),
    decreases asked.len(),
{
    let rest = asked.drop_last();
    lemma_one_each(rest);
    if i < rest.len() {
        lemma_each_met(rest, i);
        assert(met(merged(rest), asked[i]->0));
    }
    if let Some(target) = asked.last() {
        lemma_merge(merged(rest), target);
    }
}

proof fn lemma_each_named(asked: Seq<Option<TargetModel>>, k: int) -> (i: int)
    requires
        0 <= k < merged(asked).len(),
    ensures
        names(asked, i, merged(asked)[k].package),
    decreases asked.len(),
{
    let rest = asked.drop_last();
    lemma_one_each(rest);
    if let Some(target) = asked.last() {
        lemma_merge(merged(rest), target);
    }
    if k < merged(rest).len() {
        lemma_each_named(rest, k)
    } else {
        asked.len() - 1
    }
}

proof fn lemma_each_feature_named(
    asked: Seq<Option<TargetModel>>,
    k: int,
    f: Seq<char>,
) -> (i: int)
    requires
        0 <= k < merged(asked).len(),
        merged(asked)[k].features.contains(f),
    ensures
        names_feature(asked, i, merged(asked)[k].package, f),
    decreases asked.len(),
{
    let rest = asked.drop_last();
    let before = merged(rest);
    lemma_one_each(rest);
    if let Some(target) = asked.last() {
        lemma_merge(before, target);
    }
    if k < before.len() && before[k].features.contains(f) {
        lemma_each_feature_named(rest, k, f)
    } else {
        asked.len() - 1
    }
}

proof fn lemma_merge(before: Seq<TargetModel>, target: TargetModel)
    requires
        one_per_package(before),
    ensures
        ({
            let after = graph::merge_target(before, target);
            &&& one_per_package(after)
            &&& met(after, target)
            &&& forall|t: TargetModel| #[trigger] met(before, t) ==> met(after, t)
            &&& forall|k: int|
                0 <= k < after.len() ==> if k < before.len() {
                    (#[trigger] after[k]).package == before[k].package
                } else {
                    after[k].package == target.package
                }
            &&& forall|k: int, f: Seq<char>|
                0 <= k < after.len() && #[trigger] after[k].features.contains(f) ==> k
                    < before.len() && before[k].features.contains(f) || after[k].package
                    == target.package && target.features.contains(f)
        }),
{
    let after = graph::merge_target(before, target);
    let m = graph::target_place(before, target.package, 0);
    lemma_target_place(before, target.package, 0);
    if m < before.len() {
        lemma_all_unique(before[m].features, target.features);
    }
    assert(covers(after[m], target));
    assert forall|t: TargetModel| #[trigger] met(before, t) implies met(after, t) by {
        let k = choose|k: int| 0 <= k < before.len() && covers(#[trigger] before[k], t);
        assert(covers(after[k], before[k]));
        assert(covers(after[k], t));
    }
}

proof fn lemma_target_place(targets: Seq<TargetModel>, package: Seq<char>, i: int)
    requires
        0 <= i <= targets.len(),
    ensures
        i <= graph::target_place(targets, package, i) <= targets.len(),
        forall|k: int|
            i <= k < graph::target_place(targets, package, i) ==> (#[trigger] targets[k]).package
                != package,
        graph::target_place(targets, package, i) < targets.len() ==> targets[graph::target_place(
            targets,
            package,
            i,
        )].package == package,
    decreases targets.len() - i,
{
    if i < targets.len() && targets[i].package != package {
        lemma_target_place(targets, package, i + 1);
    }
}

pub proof fn lemma_all_unique(v: Seq<Seq<char>>, items: Seq<Seq<char>>)
    ensures
        forall|x: Seq<char>| #[trigger]
            pieces::add_all_unique(v, items).contains(x) <==> v.contains(x) || items.contains(x),
    decreases items.len(),
{
    if items.len() > 0 {
        let rest = items.drop_last();
        lemma_all_unique(v, rest);
        let before = pieces::add_all_unique(v, rest);
        set_laws::lemma_push_texts(before, items.last());
        set_laws::lemma_push_texts(rest, items.last());
        assert(rest.push(items.last()) =~= items);
    }
}

/// What is built for a target is the project that it names, from PyPI in its newest version, with
/// its features, as a package whose name starts with `python-` and ends with that of the project.
pub proof fn law_target_is_built_from_its_project(target: TargetModel)
    ensures
        ({
            let request = scheduler::target_request(target);
            &&& request.source == SourceModel::Pypi { name: target.package, version: None }
            &&& request.features == target.features
            &&& text::starts_with(request.package, "python-"@)
            &&& text::ends_with(request.package, target.package)
            &&& request.package == target.package || request.package.len() == target.package.len()
                + 7
        }),
{
    reveal_strlit("python-");
    let name = target.package;
    let package = upstream::package_name(name);
    if !text::starts_with(name, "python-"@) {
        file_laws::lemma_prefix("python-"@, name);
    }
    assert(package.subrange(package.len() - name.len(), package.len() as int) =~= name);
}

} // verus!
