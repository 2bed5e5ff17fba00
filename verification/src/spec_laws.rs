//! Fixing a spec twice is fixing it once.
use vstd::prelude::*;

use crate::argument_laws;
use crate::line_laws;
use crate::patterns;
use crate::pieces;
use crate::specfile;
use crate::text;

verus! {

pub proof fn lemma_line_from(v: Seq<Seq<char>>, prefix: Seq<char>, i: int)
    requires
        0 <= i <= v.len(),
    ensures
        i <= specfile::line_from(v, prefix, i) <= v.len(),
        forall|k: int|
            i <= k < specfile::line_from(v, prefix, i) ==> !text::starts_with(
                #[trigger] v[k],
                prefix,
            ),
        specfile::line_from(v, prefix, i) < v.len() ==> text::starts_with(
            v[specfile::line_from(v, prefix, i)],
            prefix,
        ),
    decreases v.len() - i,
{
    if i < v.len() && !text::starts_with(v[i], prefix) {
        lemma_line_from(v, prefix, i + 1);
    }
}

pub proof fn lemma_line_before(v: Seq<Seq<char>>, prefix: Seq<char>, j: int)
    requires
        0 <= j <= v.len(),
    ensures
        -1 <= specfile::line_before(v, prefix, j) < j || (j == 0 && specfile::line_before(
            v,
            prefix,
            j,
        ) == -1),
    decreases j,
{
    if j > 0 && !text::starts_with(v[j - 1], prefix) {
        lemma_line_before(v, prefix, j - 1);
    }
}

/// Where the line in place `i` stands when lines are put in.
pub open spec fn moved(i: int, at: int, n: nat) -> int {
    if i < at {
        i
    } else {
        i + n
    }
}

pub proof fn lemma_with_lines(v: Seq<Seq<char>>, at: int, more: Seq<Seq<char>>)
    requires
        0 <= at <= v.len(),
    ensures
        specfile::with_lines(v, at, more).len() == v.len() + more.len(),
        forall|i: int|
            0 <= i < v.len() ==> specfile::with_lines(v, at, more)[#[trigger] moved(
                i,
                at,
                more.len(),
            )] == v[i],
        forall|k: int|
            0 <= k < more.len() ==> specfile::with_lines(v, at, more)[at + k] == #[trigger] more[k],
        line_laws::one_line_each(v) && line_laws::one_line_each(more)
            ==> line_laws::one_line_each(specfile::with_lines(v, at, more)),
{
    let all = specfile::with_lines(v, at, more);
    if line_laws::one_line_each(v) && line_laws::one_line_each(more) {
        assert forall|i: int| 0 <= i < all.len() implies !(#[trigger] all[i]).contains('\n') by {
            if i < at {
                assert(all[i] == v[i]);
            } else if i < at + more.len() {
                assert(all[i] == more[i - at]);
            } else {
                assert(all[i] == v[i - more.len()]);
            }
        }
    }
}

/// A line that is not blank stays, trimmed, when lines are tidied.
pub proof fn lemma_tidy_keeps(v: Seq<Seq<char>>, i: int)
    requires
        0 <= i < v.len(),
        text::trim_end(v[i]).len() > 0,
    ensures
        i < specfile::tidy(v).len(),
        specfile::tidy(v)[i] == text::trim_end(v[i]),
{
    line_laws::lemma_tidy(v);
}

proof fn lemma_build_requires()
    ensures
        "BuildRequires:"@.len() == 14,
        !text::is_white("BuildRequires:"@.last()),
        "BuildRequires:  "@ =~= "BuildRequires:"@ + "  "@,
        "  "@.len() == 2,
        "  "@[0] == ' ',
        "  "@[1] == ' ',
        !"BuildRequires:  "@.contains('\n'),
{
    reveal_strlit("BuildRequires:");
    reveal_strlit("BuildRequires:  ");
    reveal_strlit("  ");
}

/// The requirement that a line names.
pub open spec fn required_by(line: Seq<char>) -> Seq<char> {
    text::trim(line.skip("BuildRequires:"@.len() as int))
}

/// A line that names a build requirement.
pub open spec fn is_requirement(line: Seq<char>) -> bool {
    text::starts_with(line, "BuildRequires:"@)
}

pub proof fn lemma_push_contains(v: Seq<Seq<char>>, x: Seq<char>, y: Seq<char>)
    ensures
        v.contains(x) ==> v.push(y).contains(x),
        v.push(y).contains(y),
        v.push(y).contains(x) ==> v.contains(x) || x == y,
{
    let w = v.push(y);
    if v.contains(x) {
        let k = v.index_of(x);
        assert(w[k] == x);
    }
    assert(w[v.len() as int] == y);
    if w.contains(x) {
        let k = w.index_of(x);
        if k < v.len() {
            assert(v[k] == x);
        }
    }
}

/// What a line of a spec requires is known, with and without its version.
pub proof fn lemma_known_has(v: Seq<Seq<char>>, i: int)
    requires
        0 <= i < v.len(),
        is_requirement(v[i]),
    ensures
        specfile::known_requirements(v).contains(required_by(v[i])),
        specfile::known_requirements(v).contains(specfile::requirement_name(required_by(v[i]))),
    decreases v.len(),
{
    let rest = v.drop_last();
    let before = specfile::known_requirements(rest);
    let dep = required_by(v[i]);
    let name = specfile::requirement_name(dep);
    if i < rest.len() {
        assert(rest[i] == v[i]);
        lemma_known_has(rest, i);
        if is_requirement(v.last()) {
            let x = required_by(v.last());
            let y = specfile::requirement_name(x);
            lemma_push_contains(before, dep, y);
            lemma_push_contains(before, name, y);
            lemma_push_contains(before.push(y), dep, x);
            lemma_push_contains(before.push(y), name, x);
        }
    } else {
        lemma_push_contains(before, name, name);
        lemma_push_contains(before.push(name), name, dep);
    }
}

/// What is known is required by some line, with or without its version.
pub proof fn lemma_known_from(v: Seq<Seq<char>>, x: Seq<char>) -> (i: int)
    requires
        specfile::known_requirements(v).contains(x),
    ensures
        0 <= i < v.len(),
        is_requirement(v[i]),
        x == required_by(v[i]) || x == specfile::requirement_name(required_by(v[i])),
    decreases v.len(),
{
    let rest = v.drop_last();
    let before = specfile::known_requirements(rest);
    if before.contains(x) {
        lemma_known_from(rest, x)
    } else {
        let dep = required_by(v.last());
        let name = specfile::requirement_name(dep);
        lemma_push_contains(before, x, name);
        lemma_push_contains(before.push(name), x, dep);
        v.len() - 1
    }
}

/// What was known stays known with more requirements.
pub proof fn lemma_seen_keeps(known: Seq<Seq<char>>, added: Seq<Seq<char>>, x: Seq<char>)
    requires
        known.contains(x),
    ensures
        specfile::with_requirements(known, added).contains(x),
    decreases added.len(),
{
    if added.len() > 0 {
        let before = specfile::with_requirements(known, added.drop_last());
        lemma_seen_keeps(known, added.drop_last(), x);
        let name = specfile::requirement_name(added.last());
        lemma_push_contains(before, x, name);
        lemma_push_contains(before.push(name), x, added.last());
    }
}

/// What is known with more requirements was known, or is one of them with or without its version.
proof fn lemma_seen_from(known: Seq<Seq<char>>, added: Seq<Seq<char>>, x: Seq<char>) -> (i: int)
    requires
        specfile::with_requirements(known, added).contains(x),
    ensures
        known.contains(x) || (0 <= i < added.len() && (x == added[i] || x
            == specfile::requirement_name(added[i]))),
    decreases added.len(),
{
    if added.len() == 0 {
        0
    } else {
        let rest = added.drop_last();
        let before = specfile::with_requirements(known, rest);
        if before.contains(x) {
            lemma_seen_from(known, rest, x)
        } else {
            let name = specfile::requirement_name(added.last());
            lemma_push_contains(before, x, name);
            lemma_push_contains(before.push(name), x, added.last());
            added.len() - 1
        }
    }
}

/// Every requirement that is asked for is known in the end.
proof fn lemma_new_covers(known: Seq<Seq<char>>, deps: Seq<Seq<char>>, i: int)
    requires
        0 <= i < deps.len(),
        text::trim(deps[i]).len() > 0,
    ensures
        ({
            let seen = specfile::with_requirements(known, specfile::new_requirements(known, deps));
            seen.contains(text::trim(deps[i])) || seen.contains(
                specfile::requirement_name(text::trim(deps[i])),
            )
        }),
    decreases deps.len(),
{
    let rest = deps.drop_last();
    let before = specfile::new_requirements(known, rest);
    let added = specfile::new_requirements(known, deps);
    let seen0 = specfile::with_requirements(known, before);
    let d = text::trim(deps[i]);
    let name = specfile::requirement_name(d);
    if i < rest.len() {
        assert(rest[i] == deps[i]);
        lemma_new_covers(known, rest, i);
    }
    if added != before {
        let last = text::trim(deps.last());
        assert(added == before.push(last));
        assert(added.drop_last() =~= before);
        let last_name = specfile::requirement_name(last);
        lemma_push_contains(seen0, d, last_name);
        lemma_push_contains(seen0.push(last_name), d, last);
        lemma_push_contains(seen0, name, last_name);
        lemma_push_contains(seen0.push(last_name), name, last);
    }
}

/// What is new is one of the requirements asked for, trimmed and not empty.
pub proof fn lemma_new_from(known: Seq<Seq<char>>, deps: Seq<Seq<char>>, k: int) -> (i: int)
    requires
        0 <= k < specfile::new_requirements(known, deps).len(),
    ensures
        0 <= i < deps.len(),
        specfile::new_requirements(known, deps)[k] == text::trim(deps[i]),
        text::trim(deps[i]).len() > 0,
    decreases deps.len(),
{
    let rest = deps.drop_last();
    let before = specfile::new_requirements(known, rest);
    if k < before.len() {
        lemma_new_from(known, rest, k)
    } else {
        deps.len() - 1
    }
}

/// The requirement is known, with or without its version.
pub open spec fn is_covered(known: Seq<Seq<char>>, dep: Seq<char>) -> bool {
    let d = text::trim(dep);
    d.len() == 0 || known.contains(d) || known.contains(specfile::requirement_name(d))
}

/// Where every requirement is known, none is new.
proof fn lemma_none_new(known: Seq<Seq<char>>, deps: Seq<Seq<char>>)
    requires
        forall|i: int| 0 <= i < deps.len() ==> is_covered(known, #[trigger] deps[i]),
    ensures
        specfile::new_requirements(known, deps).len() == 0,
    decreases deps.len(),
{
    if deps.len() > 0 {
        let rest = deps.drop_last();
        assert forall|i: int| 0 <= i < rest.len() implies is_covered(known, #[trigger] rest[i]) by {
            assert(rest[i] == deps[i]);
        }
        lemma_none_new(known, rest);
        assert(is_covered(known, deps[deps.len() - 1]));
        assert(specfile::new_requirements(known, rest) =~= seq![]);
    }
}

/// The lines that name new requirements.
proof fn lemma_requirement_line(p: Seq<char>)
    requires
        line_laws::is_trimmed(p),
        p.len() > 0,
    ensures
        ({
            let line = "BuildRequires:  "@ + p;
            &&& is_requirement(line)
            &&& required_by(line) == p
            &&& !p.contains('\n') ==> !line.contains('\n')
        }),
{
    lemma_build_requires();
    let head = "BuildRequires:"@;
    let line = "BuildRequires:  "@ + p;
    assert(line.subrange(0, head.len() as int) =~= head);
    assert(line.skip(head.len() as int) =~= "  "@ + p + Seq::<char>::empty());
    line_laws::lemma_trim_around("  "@, p, Seq::empty());
    if line.contains('\n') {
        let j = line.index_of('\n');
        if j < "BuildRequires:  "@.len() {
            assert("BuildRequires:  "@[j] == '\n');
        } else {
            assert(p[j - "BuildRequires:  "@.len()] == '\n');
        }
    }
}

/// A requirement that a line names stays known when the lines are tidied.
proof fn lemma_tidy_keeps_requirement(all: Seq<Seq<char>>, j: int)
    requires
        0 <= j < all.len(),
        is_requirement(all[j]),
    ensures
        specfile::tidy(all).len() > 0,
        specfile::known_requirements(specfile::tidy(all)).contains(required_by(all[j])),
        specfile::known_requirements(specfile::tidy(all)).contains(
            specfile::requirement_name(required_by(all[j])),
        ),
{
    lemma_build_requires();
    line_laws::lemma_trim_behind_prefix(all[j], "BuildRequires:"@);
    lemma_tidy_keeps(all, j);
    lemma_known_has(specfile::tidy(all), j);
}

/// The lines of a spec to which build requirements have been added.
pub proof fn lemma_added_lines(s: Seq<char>, deps: Seq<Seq<char>>)
    requires
        forall|i: int| 0 <= i < deps.len() ==> !text::trim(#[trigger] deps[i]).contains('\n'),
        specfile::new_requirements(
            specfile::known_requirements(pieces::lines(s)),
            deps,
        ).len() > 0,
    ensures
        ({
            let v = pieces::lines(s);
            let added = specfile::new_requirements(specfile::known_requirements(v), deps);
            let at = specfile::requirement_place(v);
            let more = pieces::prefix_each("BuildRequires:  "@, added);
            &&& 0 <= at <= v.len()
            &&& pieces::lines(specfile::with_buildrequires(s, deps)) == specfile::tidy(
                specfile::with_lines(v, at, more),
            )
        }),
{
    let v = pieces::lines(s);
    let known = specfile::known_requirements(v);
    let added = specfile::new_requirements(known, deps);
    let more = pieces::prefix_each("BuildRequires:  "@, added);
    let at = specfile::requirement_place(v);
    let all = specfile::with_lines(v, at, more);
    lemma_line_from(v, "%"@, 0);
    lemma_line_before(v, "BuildRequires:"@, v.len() as int);
    line_laws::lemma_lines_hold_no_line_feed(s, 0);
    assert forall|k: int| 0 <= k < more.len() implies !(#[trigger] more[k]).contains('\n') by {
        let i = lemma_new_from(known, deps, k);
        line_laws::lemma_trim(deps[i]);
        lemma_requirement_line(added[k]);
    }
    lemma_with_lines(v, at, more);
    line_laws::lemma_lines_of_text(all);
    let i = lemma_new_from(known, deps, 0);
    line_laws::lemma_trim(deps[i]);
    lemma_requirement_line(added[0]);
    assert(all[at + 0] == more[0]);
    lemma_tidy_keeps_requirement(all, at);
}

/// A spec to which build requirements have been added has them, as long as each stands on one
/// line.
pub proof fn law_requirements_are_met(s: Seq<char>, deps: Seq<Seq<char>>)
    requires
        forall|i: int| 0 <= i < deps.len() ==> !text::trim(#[trigger] deps[i]).contains('\n'),
    ensures
        forall|i: int|
            0 <= i < deps.len() ==> is_covered(
                specfile::known_requirements(pieces::lines(specfile::with_buildrequires(s, deps))),
                #[trigger] deps[i],
            ),
{
    let v = pieces::lines(s);
    let known = specfile::known_requirements(v);
    let added = specfile::new_requirements(known, deps);
    if added.len() == 0 {
        assert forall|i: int| 0 <= i < deps.len() implies is_covered(known, #[trigger] deps[i]) by {
            if text::trim(deps[i]).len() > 0 {
                lemma_new_covers(known, deps, i);
            }
        }
    } else {
        let more = pieces::prefix_each("BuildRequires:  "@, added);
        let at = specfile::requirement_place(v);
        let all = specfile::with_lines(v, at, more);
        lemma_added_lines(s, deps);
        let known2 = specfile::known_requirements(specfile::tidy(all));
        assert forall|i: int| 0 <= i < deps.len() implies is_covered(known2, #[trigger] deps[i]) by {
            let d = text::trim(deps[i]);
            if d.len() > 0 {
                lemma_new_covers(known, deps, i);
                let seen = specfile::with_requirements(known, added);
                let x = if seen.contains(d) {
                    d
                } else {
                    specfile::requirement_name(d)
                };
                lemma_still_known(v, known, added, deps, at, more, x);
            }
        }
    }
}

/// Adding build requirements twice is adding them once, as long as each stands on one line.
pub proof fn law_buildrequires_twice(s: Seq<char>, deps: Seq<Seq<char>>)
    requires
        forall|i: int| 0 <= i < deps.len() ==> !text::trim(#[trigger] deps[i]).contains('\n'),
    ensures
        specfile::with_buildrequires(specfile::with_buildrequires(s, deps), deps)
            == specfile::with_buildrequires(s, deps),
{
    law_requirements_are_met(s, deps);
    lemma_none_new(
        specfile::known_requirements(pieces::lines(specfile::with_buildrequires(s, deps))),
        deps,
    );
}

/// What is known with the new requirements is known of the lines that hold them.
proof fn lemma_still_known(
    v: Seq<Seq<char>>,
    known: Seq<Seq<char>>,
    added: Seq<Seq<char>>,
    deps: Seq<Seq<char>>,
    at: int,
    more: Seq<Seq<char>>,
    x: Seq<char>,
)
    requires
        0 <= at <= v.len(),
        known == specfile::known_requirements(v),
        added == specfile::new_requirements(known, deps),
        more == pieces::prefix_each("BuildRequires:  "@, added),
        specfile::with_requirements(known, added).contains(x),
    ensures
        specfile::known_requirements(
            specfile::tidy(specfile::with_lines(v, at, more)),
        ).contains(x),
{
    let all = specfile::with_lines(v, at, more);
    lemma_with_lines(v, at, more);
    let k = lemma_seen_from(known, added, x);
    if known.contains(x) {
        let i = lemma_known_from(v, x);
        let j = moved(i, at, more.len());
        assert(all[j] == v[i]);
        lemma_tidy_keeps_requirement(all, j);
    } else {
        let i = lemma_new_from(known, deps, k);
        line_laws::lemma_trim(deps[i]);
        lemma_requirement_line(added[k]);
        assert(all[at + k] == more[k]);
        lemma_tidy_keeps_requirement(all, at + k);
    }
}

/// The tag of a check option.
pub open spec fn check_tag() -> Seq<char> {
    "BuildOption(check):"@
}

proof fn lemma_check_tag()
    ensures
        check_tag().len() == 19,
        !text::is_white(check_tag().last()),
        "BuildOption(check):  -e \""@ =~= check_tag() + "  -e \""@,
        !"BuildOption(check):  -e \""@.contains('\n'),
        !"\""@.contains('\n'),
        "\""@.len() == 1,
        "\""@[0] == '"',
{
    reveal_strlit("BuildOption(check):");
    reveal_strlit("BuildOption(check):  -e \"");
    reveal_strlit("  -e \"");
    reveal_strlit("\"");
}

/// The arguments of the check option in a line.
pub open spec fn check_args(line: Seq<char>) -> Seq<Seq<char>> {
    patterns::arguments(line.skip(check_tag().len() as int))
}

/// The argument in place `k` of a check option excludes `x`.
pub open spec fn excludes(line: Seq<char>, k: int, x: Seq<char>) -> bool {
    &&& text::starts_with(line, check_tag())
    &&& 0 <= k
    &&& k + 1 < check_args(line).len()
    &&& check_args(line)[k] == "-e"@
    &&& text::trim_char(check_args(line)[k + 1], '"') == x
}

proof fn lemma_check_option(line: Seq<char>)
    requires
        !line.contains('\n'),
    ensures
        match patterns::tagged_option(line, check_tag()) {
            Some((_, args)) => text::starts_with(line, check_tag()) && patterns::arguments(args)
                == check_args(line),
            None => !text::starts_with(line, check_tag()),
        },
{
    lemma_check_tag();
    argument_laws::lemma_option_of_line(line, check_tag());
    if text::starts_with(line, check_tag()) {
        argument_laws::lemma_arguments_of_trim_start(line.skip(check_tag().len() as int));
    }
}

proof fn lemma_excluded_keeps(found: Seq<Seq<char>>, args: Seq<Seq<char>>, n: int, x: Seq<char>)
    requires
        found.contains(x),
    ensures
        specfile::excluded_by(found, args, n).contains(x),
    decreases n,
{
    if n > 1 {
        lemma_excluded_keeps(found, args, n - 1, x);
        lemma_push_contains(
            specfile::excluded_by(found, args, n - 1),
            x,
            text::trim_char(args[n - 1], '"'),
        );
    }
}

proof fn lemma_excluded_has(found: Seq<Seq<char>>, args: Seq<Seq<char>>, n: int, k: int)
    requires
        0 <= k,
        k + 1 < n,
        args[k] == "-e"@,
    ensures
        specfile::excluded_by(found, args, n).contains(text::trim_char(args[k + 1], '"')),
    decreases n,
{
    let x = text::trim_char(args[k + 1], '"');
    let before = specfile::excluded_by(found, args, n - 1);
    if k + 2 < n {
        lemma_excluded_has(found, args, n - 1, k);
        lemma_push_contains(before, x, text::trim_char(args[n - 1], '"'));
    } else {
        lemma_push_contains(before, x, x);
    }
}

/// What the arguments exclude was excluded before, or stands behind a `-e`.
proof fn lemma_excluded_from(
    found: Seq<Seq<char>>,
    args: Seq<Seq<char>>,
    n: int,
    x: Seq<char>,
) -> (k: int)
    requires
        specfile::excluded_by(found, args, n).contains(x),
    ensures
        found.contains(x) || (0 <= k && k + 1 < n && args[k] == "-e"@ && text::trim_char(
            args[k + 1],
            '"',
        ) == x),
    decreases n,
{
    if n <= 1 {
        0
    } else {
        let before = specfile::excluded_by(found, args, n - 1);
        if before.contains(x) {
            lemma_excluded_from(found, args, n - 1, x)
        } else {
            lemma_push_contains(before, x, text::trim_char(args[n - 1], '"'));
            n - 2
        }
    }
}

/// What an option of a line excludes is excluded.
pub proof fn lemma_exclusions_have(v: Seq<Seq<char>>, i: int, k: int, x: Seq<char>)
    requires
        line_laws::one_line_each(v),
        0 <= i < v.len(),
        excludes(v[i], k, x),
    ensures
        specfile::exclusions_of(v).contains(x),
    decreases v.len(),
{
    let rest = v.drop_last();
    let before = specfile::exclusions_of(rest);
    lemma_check_option(v[v.len() - 1]);
    let args = check_args(v.last());
    if i < rest.len() {
        assert forall|j: int| 0 <= j < rest.len() implies !(#[trigger] rest[j]).contains('\n') by {
            assert(rest[j] == v[j]);
        }
        assert(rest[i] == v[i]);
        lemma_exclusions_have(rest, i, k, x);
        lemma_excluded_keeps(before, args, args.len() as int, x);
    } else {
        lemma_excluded_has(before, args, args.len() as int, k);
    }
}

/// What is excluded is excluded by an option of some line.
pub proof fn lemma_exclusions_from(v: Seq<Seq<char>>, x: Seq<char>) -> (r: (int, int))
    requires
        line_laws::one_line_each(v),
        specfile::exclusions_of(v).contains(x),
    ensures
        0 <= r.0 < v.len(),
        excludes(v[r.0], r.1, x),
    decreases v.len(),
{
    let rest = v.drop_last();
    let before = specfile::exclusions_of(rest);
    if before.contains(x) {
        assert forall|j: int| 0 <= j < rest.len() implies !(#[trigger] rest[j]).contains('\n') by {
            assert(rest[j] == v[j]);
        }
        lemma_exclusions_from(rest, x)
    } else {
        lemma_check_option(v[v.len() - 1]);
        let args = check_args(v.last());
        let k = lemma_excluded_from(before, args, args.len() as int, x);
        (v.len() - 1, k)
    }
}

/// An option excludes the same when white space is taken off its end.
proof fn lemma_excludes_trimmed(line: Seq<char>, k: int, x: Seq<char>)
    requires
        excludes(line, k, x),
    ensures
        excludes(text::trim_end(line), k, x),
        text::trim_end(line).len() > 0,
{
    lemma_check_tag();
    let n = check_tag().len() as int;
    let e = text::trim_end(line);
    line_laws::lemma_trim_end(line);
    line_laws::lemma_prefix_of_trim_end(line, check_tag());
    let tail = line.skip(e.len() as int);
    assert(line.skip(n) =~= e.skip(n) + tail);
    argument_laws::lemma_arguments_ignore_end(e.skip(n), tail);
}

/// The line of the option that excludes `e`.
proof fn lemma_check_line(e: Seq<char>)
    requires
        !e.contains('"'),
        !e.contains('\n'),
        e.len() > 0,
    ensures
        ({
            let line = "BuildOption(check):  -e \""@ + e + "\""@;
            &&& excludes(line, 0, e)
            &&& !line.contains('\n')
        }),
{
    lemma_check_tag();
    let line = "BuildOption(check):  -e \""@ + e + "\""@;
    let tag = check_tag();
    assert(line.subrange(0, tag.len() as int) =~= tag);
    assert(line.skip(tag.len() as int) =~= "  -e \""@ + e + "\""@);
    argument_laws::lemma_exclusion_arguments(e);
    argument_laws::lemma_unquote(e);
    if line.contains('\n') {
        let j = line.index_of('\n');
        let m = "BuildOption(check):  -e \""@.len() as int;
        if j < m {
            assert("BuildOption(check):  -e \""@[j] == '\n');
        } else if j < m + e.len() {
            assert(e[j - m] == '\n');
        } else {
            assert("\""@[j - m - e.len()] == '\n');
        }
    }
}

/// An option that is added excludes one of the patterns that are asked for.
pub proof fn lemma_check_options_from(existing: Seq<Seq<char>>, exclusions: Seq<Seq<char>>, k: int) -> (i:
    int)
    requires
        0 <= k < specfile::check_options(existing, exclusions).len(),
    ensures
        0 <= i < exclusions.len(),
        text::trim(exclusions[i]).len() > 0,
        specfile::check_options(existing, exclusions)[k] == "BuildOption(check):  -e \""@
            + text::trim(exclusions[i]) + "\""@,
    decreases exclusions.len(),
{
    let rest = exclusions.drop_last();
    let before = specfile::check_options(existing, rest);
    if k < before.len() {
        lemma_check_options_from(existing, rest, k)
    } else {
        exclusions.len() - 1
    }
}

/// A pattern that is asked for is covered, or an option for it is added.
proof fn lemma_check_options_have(existing: Seq<Seq<char>>, exclusions: Seq<Seq<char>>, i: int) -> (k:
    int)
    requires
        0 <= i < exclusions.len(),
        text::trim(exclusions[i]).len() > 0,
        !specfile::covered(existing, text::trim(exclusions[i])),
    ensures
        0 <= k < specfile::check_options(existing, exclusions).len(),
        specfile::check_options(existing, exclusions)[k] == "BuildOption(check):  -e \""@
            + text::trim(exclusions[i]) + "\""@,
    decreases exclusions.len(),
{
    let rest = exclusions.drop_last();
    let before = specfile::check_options(existing, rest);
    if i < rest.len() {
        lemma_check_options_have(existing, rest, i)
    } else {
        before.len() as int
    }
}

/// The pattern is blank, or one of those that are there covers it.
pub open spec fn is_excluded(existing: Seq<Seq<char>>, e: Seq<char>) -> bool {
    text::trim(e).len() == 0 || specfile::covered(existing, text::trim(e))
}

proof fn lemma_no_check_options(existing: Seq<Seq<char>>, exclusions: Seq<Seq<char>>)
    requires
        forall|i: int| 0 <= i < exclusions.len() ==> is_excluded(existing, #[trigger] exclusions[i]),
    ensures
        specfile::check_options(existing, exclusions).len() == 0,
    decreases exclusions.len(),
{
    if exclusions.len() > 0 {
        let rest = exclusions.drop_last();
        assert forall|i: int| 0 <= i < rest.len() implies is_excluded(
            existing,
            #[trigger] rest[i],
        ) by {
            assert(rest[i] == exclusions[i]);
        }
        lemma_no_check_options(existing, rest);
        assert(is_excluded(existing, exclusions[exclusions.len() - 1]));
    }
}

/// What a line excludes is excluded by the tidy lines.
proof fn lemma_tidy_keeps_exclusion(all: Seq<Seq<char>>, j: int, k: int, x: Seq<char>)
    requires
        line_laws::one_line_each(all),
        0 <= j < all.len(),
        excludes(all[j], k, x),
    ensures
        specfile::tidy(all).len() > 0,
        specfile::exclusions_of(specfile::tidy(all)).contains(x),
{
    lemma_excludes_trimmed(all[j], k, x);
    lemma_tidy_keeps(all, j);
    line_laws::lemma_tidy(all);
    lemma_exclusions_have(specfile::tidy(all), j, k, x);
}

pub proof fn lemma_check_place(v: Seq<Seq<char>>)
    ensures
        0 <= specfile::check_place(v) <= v.len(),
{
    lemma_line_before(v, check_tag(), v.len() as int);
    lemma_line_from(v, "BuildOption(install):"@, 0);
    lemma_line_from(v, "BuildSystem:"@, 0);
    lemma_line_from(v, "%"@, 0);
}

/// A spec from whose check modules have been excluded excludes them, as long as each pattern
/// stands on one line and holds no double quote.
pub proof fn law_exclusions_are_met(s: Seq<char>, exclusions: Seq<Seq<char>>)
    requires
        forall|i: int|
            0 <= i < exclusions.len() ==> !text::trim(#[trigger] exclusions[i]).contains('\n')
                && !text::trim(exclusions[i]).contains('"'),
    ensures
        forall|i: int|
            0 <= i < exclusions.len() ==> is_excluded(
                specfile::exclusions_of(pieces::lines(specfile::with_checks(s, exclusions))),
                #[trigger] exclusions[i],
            ),
{
    let v = pieces::lines(s);
    let existing = specfile::exclusions_of(v);
    let added = specfile::check_options(existing, exclusions);
    if added.len() == 0 {
        assert forall|i: int| 0 <= i < exclusions.len() implies is_excluded(
            existing,
            #[trigger] exclusions[i],
        ) by {
            let e = text::trim(exclusions[i]);
            if e.len() > 0 && !specfile::covered(existing, e) {
                let k = lemma_check_options_have(existing, exclusions, i);
            }
        }
    } else {
        let at = specfile::check_place(v);
        let all = specfile::with_lines(v, at, added);
        lemma_check_place(v);
        line_laws::lemma_lines_hold_no_line_feed(s, 0);
        assert forall|k: int| 0 <= k < added.len() implies !(#[trigger] added[k]).contains('\n') by {
            let i = lemma_check_options_from(existing, exclusions, k);
            assert(!text::trim(exclusions[i]).contains('"'));
            lemma_check_line(text::trim(exclusions[i]));
        }
        lemma_with_lines(v, at, added);
        line_laws::lemma_lines_of_text(all);
        let i = lemma_check_options_from(existing, exclusions, 0);
        assert(!text::trim(exclusions[i]).contains('"'));
        lemma_check_line(text::trim(exclusions[i]));
        assert(all[at + 0] == added[0]);
        lemma_tidy_keeps_exclusion(all, at, 0, text::trim(exclusions[i]));
        let existing2 = specfile::exclusions_of(specfile::tidy(all));
        assert forall|i: int| 0 <= i < exclusions.len() implies is_excluded(
            existing2,
            #[trigger] exclusions[i],
        ) by {
            let e = text::trim(exclusions[i]);
            if e.len() > 0 {
                if specfile::covered(existing, e) {
                    let q = choose|q: int|
                        0 <= q < existing.len() && specfile::covers(#[trigger] existing[q], e);
                    let x = existing[q];
                    let (a, k) = lemma_exclusions_from(v, x);
                    let j = moved(a, at, added.len());
                    assert(all[j] == v[a]);
                    lemma_tidy_keeps_exclusion(all, j, k, x);
                    let w = existing2.index_of(x);
                    assert(specfile::covers(existing2[w], e));
                } else {
                    let k = lemma_check_options_have(existing, exclusions, i);
                    lemma_check_line(e);
                    assert(all[at + k] == added[k]);
                    lemma_tidy_keeps_exclusion(all, at + k, 0, e);
                    let w = existing2.index_of(e);
                    assert(specfile::covers(existing2[w], e));
                }
            }
        }
    }
}

/// Excluding modules from the check twice is excluding them once, as long as each pattern stands
/// on one line and holds no double quote.
pub proof fn law_checks_twice(s: Seq<char>, exclusions: Seq<Seq<char>>)
    requires
        forall|i: int|
            0 <= i < exclusions.len() ==> !text::trim(#[trigger] exclusions[i]).contains('\n')
                && !text::trim(exclusions[i]).contains('"'),
    ensures
        specfile::with_checks(specfile::with_checks(s, exclusions), exclusions)
            == specfile::with_checks(s, exclusions),
{
    law_exclusions_are_met(s, exclusions);
    lemma_no_check_options(
        specfile::exclusions_of(pieces::lines(specfile::with_checks(s, exclusions))),
        exclusions,
    );
}

} // verus!
