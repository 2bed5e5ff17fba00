//! Laws of what the messages in a build log name.
use vstd::prelude::*;

use crate::analyzer;
use crate::issue::IssueModel;
use crate::line_laws;
use crate::log_laws;
use crate::module_laws;
use crate::patterns;
use crate::pieces;
use crate::set_laws;
use crate::specfile;
use crate::target_laws;
use crate::text;

verus! {

/// Nothing but white space.
pub open spec fn is_space(s: Seq<char>) -> bool {
    forall|k: int| 0 <= k < s.len() ==> text::is_white(#[trigger] s[k])
}

/// A word: something, and no white space in it.
pub open spec fn is_word(s: Seq<char>) -> bool {
    s.len() > 0 && forall|k: int| 0 <= k < s.len() ==> !text::is_white(#[trigger] s[k])
}

proof fn lemma_white_end_is(s: Seq<char>, i: int, n: int)
    requires
        0 <= i <= n <= s.len(),
        forall|k: int| i <= k < n ==> text::is_white(#[trigger] s[k]),
        n < s.len() ==> !text::is_white(s[n]),
    ensures
        text::white_end(s, i) == n,
    decreases n - i,
{
    if i < n {
        assert(text::is_white(s[i]));
        lemma_white_end_is(s, i + 1, n);
    }
}

proof fn lemma_dark_end_is(s: Seq<char>, i: int, n: int)
    requires
        0 <= i <= n <= s.len(),
        forall|k: int| i <= k < n ==> !text::is_white(#[trigger] s[k]),
        n < s.len() ==> text::is_white(s[n]),
    ensures
        text::dark_end(s, i) == n,
    decreases n - i,
{
    if i < n {
        assert(!text::is_white(s[i]));
        lemma_dark_end_is(s, i + 1, n);
    }
}

/// What an install step says before the module that it did not find: nothing, a text in square
/// brackets, `ValueError:`, or both.
pub open spec fn is_glob_prefix(tag: Seq<char>, error: Seq<char>) -> bool {
    &&& tag.len() == 0 || exists|t: Seq<char>, w: Seq<char>|
        t.len() > 0 && !t.contains(']') && is_space(w) && tag == #[trigger] ("["@ + t + "]"@ + w)
    &&& error.len() == 0 || exists|w: Seq<char>|
        w.len() > 0 && is_space(w) && error == #[trigger] ("ValueError:"@ + w)
}

proof fn lemma_glob_at(
    a: Seq<char>,
    tag: Seq<char>,
    error: Seq<char>,
    w: Seq<char>,
    module: Seq<char>,
    b: Seq<char>,
)
    requires
        is_glob_prefix(tag, error),
        is_space(w),
        is_word(module),
        b.len() == 0 || b[0] == '\n',
    ensures
        ({
            let p = "Globs did not match any module:"@;
            let s = a + tag + error + p + w + module + b;
            let from = a.len() + tag.len() + error.len() + p.len() + w.len();
            &&& patterns::unmatched_glob_at(s, a.len() as int) == Some(
                (from as int, from + module.len() as int),
            )
            &&& s.subrange(from as int, from + module.len() as int) == module
        }),
{
    reveal_strlit("Globs did not match any module:");
    reveal_strlit("ValueError:");
    reveal_strlit("[");
    reveal_strlit("]");
    let p = "Globs did not match any module:"@;
    let s = a + tag + error + p + w + module + b;
    let i = a.len() as int;
    let x = i + tag.len();
    let y = x + error.len();
    let from = y + p.len() + w.len();
    let to = from + module.len();
    assert(s[y] == 'G');
    if tag.len() == 0 {
        if error.len() == 0 {
            assert(s[i] == 'G');
        } else {
            assert(error[0] == 'V');
            assert(s[i] == error[0]);
        }
    } else {
        let (t, u) = choose|t: Seq<char>, u: Seq<char>|
            t.len() > 0 && !t.contains(']') && is_space(u) && tag == #[trigger] ("["@ + t + "]"@
                + u);
        let bracket = i + 1 + t.len();
        assert(s[i] == tag[0]);
        assert forall|k: int| i + 1 <= k < bracket implies #[trigger] s[k] != ']' by {
            assert(s[k] == tag[k - i]);
            assert(tag[k - i] == t[k - i - 1]);
            assert(t.contains(t[k - i - 1]));
        }
        assert(s[bracket] == tag[bracket - i]);
        target_laws::lemma_index_is(s, ']', i + 1, bracket);
        assert forall|k: int| bracket + 1 <= k < x implies text::is_white(#[trigger] s[k]) by {
            assert(s[k] == tag[k - i]);
            assert(tag[k - i] == u[k - bracket - 1]);
        }
        if error.len() > 0 {
            assert(error[0] == 'V');
            assert(s[x] == error[0]);
        }
        lemma_white_end_is(s, bracket + 1, x);
    }
    if error.len() > 0 {
        let u = choose|u: Seq<char>|
            u.len() > 0 && is_space(u) && error == #[trigger] ("ValueError:"@ + u);
        let e = "ValueError:"@;
        assert(s.subrange(x, x + e.len()) =~= e);
        assert forall|k: int| x + e.len() <= k < y implies text::is_white(#[trigger] s[k]) by {
            assert(s[k] == error[k - x]);
            assert(error[k - x] == u[k - x - e.len()]);
        }
        lemma_white_end_is(s, x + e.len(), y);
    } else {
        assert(!text::occurs_at(s, "ValueError:"@, x)) by {
            if text::occurs_at(s, "ValueError:"@, x) {
                assert(s.subrange(x, x + 11)[0] == s[x]);
            }
        }
    }
    assert(s.subrange(y, y + p.len()) =~= p);
    assert forall|k: int| y + p.len() <= k < from implies text::is_white(#[trigger] s[k]) by {
        assert(s[k] == w[k - y - p.len()]);
    }
    assert(s[from] == module[0]);
    lemma_white_end_is(s, y + p.len(), from);
    assert forall|k: int| from <= k < to implies !text::is_white(#[trigger] s[k]) by {
        assert(s[k] == module[k - from]);
    }
    if to < s.len() {
        assert(s[to] == b[0]);
    }
    lemma_dark_end_is(s, from, to);
    target_laws::lemma_index_is(s, '\n', to, to);
    if to < s.len() {
        text::lemma_white_end(s, to);
    }
    assert(s.subrange(from, to) =~= module);
}

/// Any match speaks of the module behind the only message.
proof fn lemma_only_glob(s: Seq<char>, at: int, from: int, to: int, i: int)
    requires
        text::occurs_at(s, "Globs did not match any module:"@, at),
        forall|j: int|
            j != at ==> !#[trigger] text::occurs_at(s, "Globs did not match any module:"@, j),
        from == text::white_end(s, at + "Globs did not match any module:"@.len()),
        to == text::dark_end(s, from),
    ensures
        patterns::unmatched_glob_at(s, i) is Some ==> patterns::unmatched_glob_at(s, i) == Some(
            (from, to),
        ),
{
}

proof fn lemma_glob_from(s: Seq<char>, n: int, module: Seq<char>, i: int)
    requires
        0 <= i <= n < s.len(),
        patterns::at_line_start(s, n),
        match patterns::unmatched_glob_at(s, n) {
            Some((from, to)) => s.subrange(from, to) == module,
            None => false,
        },
        forall|j: int|
            #![trigger patterns::unmatched_glob_at(s, j)]
            patterns::unmatched_glob_at(s, j) is Some ==> patterns::unmatched_glob_at(s, j)
                == patterns::unmatched_glob_at(s, n),
    ensures
        patterns::unmatched_glob_from(s, i) == Some(module),
    decreases n - i,
{
    if i < n && !(patterns::at_line_start(s, i) && patterns::unmatched_glob_at(s, i) is Some) {
        lemma_glob_from(s, n, module, i + 1);
    }
}

/// The module that an install step did not find is reported before anything else, as the module
/// to look for in its place too.
pub proof fn law_unmatched_module_is_reported(
    a: Seq<char>,
    tag: Seq<char>,
    error: Seq<char>,
    w: Seq<char>,
    module: Seq<char>,
    b: Seq<char>,
)
    requires
        a.len() == 0 || a.last() == '\n',
        is_glob_prefix(tag, error),
        is_space(w),
        is_word(module),
        b.len() == 0 || b[0] == '\n',
        forall|j: int|
            j != a.len() + tag.len() + error.len() ==> !#[trigger] text::occurs_at(
                a + tag + error + "Globs did not match any module:"@ + w + module + b,
                "Globs did not match any module:"@,
                j,
            ),
    ensures
        analyzer::issue_of(a + tag + error + "Globs did not match any module:"@ + w + module + b)
            == (IssueModel::InstallModuleMismatch {
            wrong_module: module,
            suggested_module: module,
        }),
{
    let p = "Globs did not match any module:"@;
    let s = a + tag + error + p + w + module + b;
    let at = (a.len() + tag.len() + error.len()) as int;
    let n = a.len() as int;
    lemma_glob_at(a, tag, error, w, module, b);
    assert(s.subrange(at, at + p.len()) =~= p);
    let (from, to) = patterns::unmatched_glob_at(s, n)->0;
    let f = text::white_end(s, at + p.len());
    assert forall|j: int|
        #![trigger patterns::unmatched_glob_at(s, j)]
        patterns::unmatched_glob_at(s, j) is Some implies patterns::unmatched_glob_at(s, j)
        == patterns::unmatched_glob_at(s, n) by {
        lemma_only_glob(s, at, f, text::dark_end(s, f), j);
        lemma_only_glob(s, at, f, text::dark_end(s, f), n);
    }
    if n > 0 {
        assert(s[n - 1] == a.last());
    }
    lemma_glob_from(s, n, module, 0);
}

/// An import check that had nothing to import is reported.
pub proof fn law_empty_import_check_is_reported(log: Seq<char>)
    requires
        !text::contains(log, "Globs did not match any module:"@),
        text::contains(log, "import_all_modules.py"@),
        text::contains(log, "ValueError: No modules to check were left"@),
    ensures
        analyzer::issue_of(log) == IssueModel::EmptyImportCheck,
{
    log_laws::lemma_no_glob(log, 0);
}

/// A name in a list that commas separate.
pub open spec fn is_list_name(s: Seq<char>) -> bool {
    s.len() > 0 && line_laws::is_trimmed(s) && !s.contains(',')
}

proof fn lemma_line_with(v: Seq<Seq<char>>, part: Seq<char>, n: int, i: int)
    requires
        0 <= i <= n < v.len(),
        forall|k: int| i <= k < n ==> !text::contains(#[trigger] v[k], part),
        text::contains(v[n], part),
    ensures
        analyzer::line_with(v, part, i) == n,
    decreases n - i,
{
    if i < n {
        assert(!text::contains(v[i], part));
        lemma_line_with(v, part, n, i + 1);
    }
}

/// The list behind a comma and a blank is split into its names.
proof fn lemma_split_list(names: Seq<Seq<char>>)
    requires
        names.len() > 0,
        forall|i: int| 0 <= i < names.len() ==> is_list_name(#[trigger] names[i]),
    ensures
        pieces::trim_each(pieces::split(" "@ + pieces::join(names, ", "@), ',')) == names,
{
    reveal_strlit(" ");
    reveal_strlit(", ");
    let spaced = Seq::new(names.len(), |i: int| " "@ + names[i]);
    lemma_join_spaced(names, spaced);
    assert forall|k: int| 0 <= k < spaced.len() implies !(#[trigger] spaced[k]).contains(',') by {
        if spaced[k].contains(',') {
            let j = spaced[k].index_of(',');
            assert(is_list_name(names[k]));
            assert(names[k][j - 1] == ',');
        }
    }
    target_laws::lemma_split_join(spaced, ',');
    let got = pieces::trim_each(spaced);
    assert forall|i: int| 0 <= i < names.len() implies got[i] == names[i] by {
        assert(is_list_name(names[i]));
        assert(spaced[i] =~= " "@ + names[i] + Seq::<char>::empty());
        line_laws::lemma_trim_around(" "@, names[i], Seq::empty());
    }
    assert(got =~= names);
}

proof fn lemma_join_spaced(names: Seq<Seq<char>>, spaced: Seq<Seq<char>>)
    requires
        names.len() > 0,
        spaced == Seq::new(names.len(), |i: int| " "@ + names[i]),
    ensures
        pieces::join(spaced, seq![',']) == " "@ + pieces::join(names, ", "@),
    decreases names.len(),
{
    reveal_strlit(" ");
    reveal_strlit(", ");
    if names.len() > 1 {
        let rest = names.drop_last();
        let spaced_rest = Seq::new(rest.len(), |i: int| " "@ + rest[i]);
        assert(spaced_rest =~= spaced.drop_last());
        lemma_join_spaced(rest, spaced_rest);
        assert(pieces::join(spaced, seq![',']) =~= pieces::join(spaced_rest, seq![',']) + seq![',']
            + spaced.last());
        assert(", "@ =~= seq![','] + " "@);
        assert(pieces::join(spaced, seq![',']) =~= " "@ + pieces::join(names, ", "@));
    }
}

proof fn lemma_nonempty_all(v: Seq<Seq<char>>)
    requires
        forall|i: int| 0 <= i < v.len() ==> (#[trigger] v[i]).len() > 0,
    ensures
        analyzer::nonempty(v) == v,
    decreases v.len(),
{
    if v.len() > 0 {
        lemma_nonempty_all(v.drop_last());
        assert(v.drop_last().push(v.last()) =~= v);
    }
}

pub proof fn lemma_unique_is_add_all(v: Seq<Seq<char>>)
    ensures
        pieces::unique(v) == pieces::add_all_unique(seq![], v),
    decreases v.len(),
{
    if v.len() > 0 {
        lemma_unique_is_add_all(v.drop_last());
    }
}

/// The modules that an import check says it failed to import are reported and left out of the
/// check, by their own names and each once.
pub proof fn law_failed_imports_are_excluded(
    before: Seq<Seq<char>>,
    head: Seq<char>,
    names: Seq<Seq<char>>,
    after: Seq<Seq<char>>,
)
    requires
        ({
            let line = head + "Failed to import:"@ + " "@ + pieces::join(names, ", "@);
            let v = before + seq![line] + after;
            let log = log_laws::log_of(v);
            &&& log_laws::are_lines(v)
            &&& !text::contains(log, "Globs did not match any module:"@)
            &&& text::contains(log, "import_all_modules.py"@)
            &&& !text::contains(log, "ValueError: No modules to check were left"@)
            &&& text::contains(log, "ModuleNotFoundError"@) || text::contains(log, "ImportError"@)
                || text::contains(log, "is not installed"@) || text::contains(
                log,
                "Please install it with"@,
            ) || text::contains(log, "pip install"@)
            &&& forall|j: int|
                0 <= j < head.len() ==> !#[trigger] text::occurs_at(line, "Failed to import:"@, j)
        }),
        forall|i: int|
            0 <= i < before.len() ==> !text::contains(#[trigger] before[i], "Failed to import:"@),
        names.len() > 0,
        forall|i: int| 0 <= i < names.len() ==> is_list_name(#[trigger] names[i]),
    ensures
        ({
            let line = head + "Failed to import:"@ + " "@ + pieces::join(names, ", "@);
            let issue = analyzer::issue_of(log_laws::log_of(before + seq![line] + after));
            let exclusions = issue->ImportCheckExclusions_exclusions;
            &&& issue is ImportCheckExclusions
            &&& issue->ImportCheckExclusions_modules == names
            &&& exclusions.no_duplicates()
            &&& forall|m: Seq<char>| #[trigger] exclusions.contains(m) <==> names.contains(m)
            &&& names.no_duplicates() ==> exclusions == names
        }),
{
    let p = "Failed to import:"@;
    let list = " "@ + pieces::join(names, ", "@);
    let line = head + p + " "@ + pieces::join(names, ", "@);
    let v = before + seq![line] + after;
    let log = log_laws::log_of(v);
    log_laws::lemma_no_glob(log, 0);
    log_laws::lemma_lines_of_log(v);
    let n = before.len() as int;
    assert(v[n] == line);
    assert(line =~= head + p + list);
    log_laws::lemma_contains(head, p, list);
    assert forall|k: int| 0 <= k < n implies !text::contains(#[trigger] v[k], p) by {
        assert(v[k] == before[k]);
    }
    lemma_line_with(v, p, n, 0);
    target_laws::lemma_find_is(line, p, head.len() as int);
    assert(line.skip(head.len() as int + p.len()) =~= list);
    lemma_split_list(names);
    assert forall|i: int| 0 <= i < names.len() implies (#[trigger] names[i]).len() > 0 by {
        assert(is_list_name(names[i]));
    }
    lemma_nonempty_all(names);
    let again = pieces::trim_each(names);
    assert forall|i: int| 0 <= i < names.len() implies again[i] == names[i] by {
        assert(is_list_name(names[i]));
        line_laws::lemma_trim(names[i]);
    }
    assert(again =~= names);
    lemma_unique_is_add_all(names);
    log_laws::lemma_all_unique_of_empty(names);
}

/// A line that names a missing requirement: white space, the requirement, and what follows.
pub open spec fn names_requirement(line: Seq<char>, dep: Seq<char>) -> bool {
    &&& exists|w: Seq<char>, kind: Seq<char>, name: Seq<char>, rest: Seq<char>| #[trigger]
        is_requirement_line(line, dep, w, kind, name, rest)
    &&& !text::contains(line, "Failed build dependencies:"@)
}

pub open spec fn is_requirement_line(
    line: Seq<char>,
    dep: Seq<char>,
    w: Seq<char>,
    kind: Seq<char>,
    name: Seq<char>,
    rest: Seq<char>,
) -> bool {
    &&& is_space(w)
    &&& kind == "python3dist("@ || kind == "pkgconfig("@
    &&& name.len() > 0
    &&& !name.contains(')')
    &&& dep == kind + name + ")"@
    &&& line == w + dep + rest
}

proof fn lemma_requirement_of_line(
    line: Seq<char>,
    dep: Seq<char>,
    w: Seq<char>,
    kind: Seq<char>,
    name: Seq<char>,
    rest: Seq<char>,
    i: int,
)
    requires
        is_requirement_line(line, dep, w, kind, name, rest),
        0 <= i <= w.len(),
    ensures
        patterns::dependency_from(line, i) == Some(dep),
    decreases w.len() - i,
{
    reveal_strlit("python3dist(");
    reveal_strlit("pkgconfig(");
    reveal_strlit(")");
    let n = w.len() as int;
    if i < n {
        assert(line[i] == w[i]);
        assert(text::is_white(line[i]));
        assert(!text::occurs_at(line, "python3dist("@, i)) by {
            if text::occurs_at(line, "python3dist("@, i) {
                assert(line.subrange(i, i + 12)[0] == line[i]);
            }
        }
        assert(!text::occurs_at(line, "pkgconfig("@, i)) by {
            if text::occurs_at(line, "pkgconfig("@, i) {
                assert(line.subrange(i, i + 10)[0] == line[i]);
            }
        }
        lemma_requirement_of_line(line, dep, w, kind, name, rest, i + 1);
    } else {
        assert(line.subrange(n, n + kind.len()) =~= kind);
        assert(!(kind == "pkgconfig("@ && text::occurs_at(line, "python3dist("@, n))) by {
            if text::occurs_at(line, "python3dist("@, n) {
                assert(line.subrange(n, n + 12)[1] == line[n + 1]);
                assert(line.subrange(n, n + kind.len())[1] == line[n + 1]);
            }
        }
        let from = n + kind.len();
        let to = from + name.len();
        assert forall|k: int| from <= k < to implies #[trigger] line[k] != ')' by {
            assert(line[k] == name[k - from]);
            assert(name.contains(name[k - from]));
        }
        assert(line[to] == ')');
        target_laws::lemma_index_is(line, ')', from, to);
        assert(line.subrange(n, to + 1) =~= dep);
    }
}

proof fn lemma_block(lines: Seq<Seq<char>>, deps: Seq<Seq<char>>)
    requires
        lines.len() == deps.len(),
        forall|i: int| 0 <= i < lines.len() ==> names_requirement(#[trigger] lines[i], deps[i]),
    ensures
        analyzer::block_requirements(lines) == pieces::add_all_unique(seq![], deps),
    decreases lines.len(),
{
    if lines.len() > 0 {
        let rest = lines.drop_last();
        let rest_deps = deps.drop_last();
        assert forall|i: int| 0 <= i < rest.len() implies names_requirement(
            #[trigger] rest[i],
            rest_deps[i],
        ) by {
            assert(names_requirement(lines[i], deps[i]));
        }
        lemma_block(rest, rest_deps);
        let n = lines.len() - 1;
        assert(names_requirement(lines[n], deps[n]));
        let (w, kind, name, end) = choose|
            w: Seq<char>,
            kind: Seq<char>,
            name: Seq<char>,
            end: Seq<char>,
        | #[trigger]
            is_requirement_line(lines[n], deps[n], w, kind, name, end);
        lemma_requirement_of_line(lines[n], deps[n], w, kind, name, end, 0);
    }
}

proof fn lemma_blank_from(v: Seq<Seq<char>>, n: int, i: int)
    requires
        0 <= i <= n <= v.len(),
        forall|k: int| i <= k < n ==> !specfile::is_blank(#[trigger] v[k]),
        n < v.len() ==> specfile::is_blank(v[n]),
    ensures
        analyzer::blank_from(v, i) == n,
    decreases n - i,
{
    if i < n {
        assert(!specfile::is_blank(v[i]));
        lemma_blank_from(v, n, i + 1);
    }
}

proof fn lemma_dark_is_not_blank(line: Seq<char>, k: int)
    requires
        0 <= k < line.len(),
        !text::is_white(line[k]),
    ensures
        !specfile::is_blank(line),
{
    line_laws::lemma_trim_start(line);
    let a = text::trim_start(line);
    line_laws::lemma_trim_end(a);
    let m = line.len() - a.len();
    assert(k >= m);
    assert(a[k - m] == line[k]);
}

/// The requirements that `rpmbuild` missed are reported: those that it lists under its message up
/// to a blank line, all of them, each once and in order, and nothing else.
pub proof fn law_missing_requirements_are_reported(
    before: Seq<Seq<char>>,
    head: (Seq<char>, Seq<char>),
    listed: Seq<Seq<char>>,
    deps: Seq<Seq<char>>,
    after: Seq<Seq<char>>,
)
    requires
        ({
            let line = head.0 + "Failed build dependencies:"@ + head.1;
            let v = before + seq![line] + listed + after;
            let log = log_laws::log_of(v);
            &&& log_laws::are_lines(v)
            &&& !text::contains(log, "Globs did not match any module:"@)
            &&& !text::contains(log, "import_all_modules.py"@)
        }),
        forall|i: int|
            0 <= i < before.len() ==> !text::contains(
                #[trigger] before[i],
                "Failed build dependencies:"@,
            ),
        listed.len() > 0,
        listed.len() == deps.len(),
        forall|i: int| 0 <= i < listed.len() ==> names_requirement(#[trigger] listed[i], deps[i]),
        after.len() > 0 ==> specfile::is_blank(after[0]),
    ensures
        ({
            let line = head.0 + "Failed build dependencies:"@ + head.1;
            let issue = analyzer::issue_of(
                log_laws::log_of(before + seq![line] + listed + after),
            );
            let found = issue->MissingBuildDependencies_deps;
            &&& issue is MissingBuildDependencies
            &&& found.no_duplicates()
            &&& forall|d: Seq<char>| #[trigger] found.contains(d) <==> deps.contains(d)
            &&& deps.no_duplicates() ==> found == deps
        }),
{
    let p = "Failed build dependencies:"@;
    let line = head.0 + p + head.1;
    let v = before + seq![line] + listed + after;
    let log = log_laws::log_of(v);
    log_laws::lemma_no_glob(log, 0);
    log_laws::lemma_lines_of_log(v);
    let n = before.len() as int;
    assert(v[n] == line);
    log_laws::lemma_contains(head.0, p, head.1);
    assert forall|k: int| 0 <= k < n implies !text::contains(#[trigger] v[k], p) by {
        assert(v[k] == before[k]);
    }
    lemma_line_with(v, p, n, 0);
    log_laws::lemma_join_holds(v, "\n"@, n, p);
    let end = n + 1 + listed.len();
    assert forall|k: int| n + 1 <= k < end implies !specfile::is_blank(#[trigger] v[k]) by {
        let j = k - n - 1;
        assert(v[k] == listed[j]);
        assert(names_requirement(listed[j], deps[j]));
        let (w, kind, name, rest) = choose|
            w: Seq<char>,
            kind: Seq<char>,
            name: Seq<char>,
            rest: Seq<char>,
        | #[trigger]
            is_requirement_line(listed[j], deps[j], w, kind, name, rest);
        reveal_strlit("python3dist(");
        reveal_strlit("pkgconfig(");
        assert(listed[j][w.len() as int] == 'p');
        lemma_dark_is_not_blank(listed[j], w.len() as int);
    }
    if end < v.len() {
        assert(v[end] == after[0]);
    }
    lemma_blank_from(v, end, n + 1);
    assert(v.subrange(n + 1, end) =~= listed);
    lemma_block(listed, deps);
    log_laws::lemma_all_unique_of_empty(deps);
}

/// A message in a log: what it names behind the white space `w`, and what follows up to the next
/// one.
pub struct Message {
    pub w: Seq<char>,
    pub name: Seq<char>,
    pub rest: Seq<char>,
}

/// The text of messages that start with `p`.
pub open spec fn messages(p: Seq<char>, items: Seq<Message>) -> Seq<char>
    decreases items.len(),
{
    if items.len() == 0 {
        seq![]
    } else {
        p + items[0].w + items[0].name + items[0].rest + messages(p, items.drop_first())
    }
}

pub open spec fn names_of(items: Seq<Message>) -> Seq<Seq<char>> {
    Seq::new(items.len(), |i: int| items[i].name)
}

/// A requirement on a Python module or on a library.
pub open spec fn is_requirement(dep: Seq<char>) -> bool {
    ||| exists|v: Seq<char>, name: Seq<char>|
        target_laws::is_version(v) && name.len() > 0 && !name.contains(')') && dep
            == #[trigger] target_laws::python_requirement(v, name)
    ||| exists|name: Seq<char>|
        name.len() > 0 && !name.contains(')') && dep == #[trigger] ("pkgconfig("@ + name + ")"@)
}

pub open spec fn is_unprovided(m: Message) -> bool {
    &&& m.w.len() > 0
    &&& is_space(m.w)
    &&& is_requirement(m.name)
    &&& !text::contains(m.rest, "nothing provides"@)
}

proof fn lemma_version_end(s: Seq<char>, i: int, n: int)
    requires
        0 <= i <= n < s.len(),
        forall|k: int| i <= k < n ==> text::is_ascii_digit(#[trigger] s[k]) || s[k] == '.',
        s[n] == 'd',
    ensures
        patterns::version_end(s, i) == n,
    decreases n - i,
{
    if i < n {
        assert(text::is_ascii_digit(s[i]) || s[i] == '.');
        lemma_version_end(s, i + 1, n);
    }
}

proof fn lemma_closing(s: Seq<char>, i: int, name: Seq<char>)
    requires
        0 <= i,
        i + name.len() < s.len(),
        s.subrange(i, i + name.len()) == name,
        s[i + name.len()] == ')',
        name.len() > 0,
        !name.contains(')'),
    ensures
        patterns::closing(s, i) == Some(i + name.len() + 1),
{
    let to = i + name.len();
    assert forall|k: int| i <= k < to implies #[trigger] s[k] != ')' by {
        assert(s.subrange(i, to)[k - i] == s[k]);
        assert(name.contains(name[k - i]));
    }
    target_laws::lemma_index_is(s, ')', i, to);
}

proof fn lemma_requirement_end(s: Seq<char>, i: int, dep: Seq<char>)
    requires
        text::occurs_at(s, dep, i),
        is_requirement(dep),
    ensures
        patterns::requirement_end(s, i) == Some(i + dep.len()),
{
    reveal_strlit("python");
    reveal_strlit("dist(");
    reveal_strlit("pkgconfig(");
    reveal_strlit(")");
    assert forall|k: int| 0 <= k < dep.len() implies #[trigger] dep[k] == s[i + k] by {
        assert(s.subrange(i, i + dep.len())[k] == s[i + k]);
    }
    if exists|v: Seq<char>, name: Seq<char>|
        target_laws::is_version(v) && name.len() > 0 && !name.contains(')') && dep
            == #[trigger] target_laws::python_requirement(v, name) {
        let (v, name) = choose|v: Seq<char>, name: Seq<char>|
            target_laws::is_version(v) && name.len() > 0 && !name.contains(')') && dep
                == #[trigger] target_laws::python_requirement(v, name);
        assert(s.subrange(i, i + 6) =~= "python"@) by {
            assert forall|k: int| 0 <= k < 6 implies s[i + k] == "python"@[k] by {
                assert(dep[k] == "python"@[k]);
            }
        }
        let n = i + 6 + v.len();
        assert forall|k: int| i + 6 <= k < n implies text::is_ascii_digit(#[trigger] s[k]) || s[k]
            == '.' by {
            assert(dep[k - i] == v[k - i - 6]);
            assert(dep[k - i] == s[i + (k - i)]);
        }
        assert(dep[6 + v.len() as int] == 'd');
        assert(s[n] == 'd');
        lemma_version_end(s, i + 6, n);
        assert(s.subrange(n, n + 5) =~= "dist("@) by {
            assert forall|k: int| 0 <= k < 5 implies s[n + k] == "dist("@[k] by {
                assert(dep[6 + v.len() + k] == "dist("@[k]);
                assert(dep[6 + v.len() + k] == s[i + (6 + v.len() + k)]);
            }
        }
        let from = n + 5;
        assert(s.subrange(from, from + name.len()) =~= name) by {
            assert forall|k: int| 0 <= k < name.len() implies s[from + k] == name[k] by {
                assert(dep[11 + v.len() + k] == name[k]);
                assert(dep[11 + v.len() + k] == s[i + (11 + v.len() + k)]);
            }
        }
        assert(dep.last() == ')');
        assert(dep[dep.len() - 1] == s[i + (dep.len() - 1)]);
        lemma_closing(s, from, name);
    } else {
        let name = choose|name: Seq<char>|
            name.len() > 0 && !name.contains(')') && dep == #[trigger] ("pkgconfig("@ + name
                + ")"@);
        assert(!text::occurs_at(s, "python"@, i)) by {
            if text::occurs_at(s, "python"@, i) {
                assert(s.subrange(i, i + 6)[1] == s[i + 1]);
                assert(dep[1] == 'k');
            }
        }
        assert(s.subrange(i, i + 10) =~= "pkgconfig("@) by {
            assert forall|k: int| 0 <= k < 10 implies s[i + k] == "pkgconfig("@[k] by {
                assert(dep[k] == "pkgconfig("@[k]);
            }
        }
        let from = i + 10;
        assert(s.subrange(from, from + name.len()) =~= name) by {
            assert forall|k: int| 0 <= k < name.len() implies s[from + k] == name[k] by {
                assert(dep[10 + k] == name[k]);
                assert(dep[10 + k] == s[i + (10 + k)]);
            }
        }
        assert(dep.last() == ')');
        assert(dep[dep.len() - 1] == s[i + (dep.len() - 1)]);
        lemma_closing(s, from, name);
    }
}

/// Between two messages stands no other.
proof fn lemma_none_between(a: Seq<char>, g: Seq<char>, items: Seq<Message>, i: int)
    requires
        !text::contains(g, "nothing provides"@),
        a.len() <= i < a.len() + g.len(),
    ensures
        !text::occurs_at(a + g + messages("nothing provides"@, items), "nothing provides"@, i),
{
    reveal_strlit("nothing provides");
    let p = "nothing provides"@;
    let t = messages(p, items);
    let s = a + g + t;
    if text::occurs_at(s, p, i) {
        let sub = s.subrange(i, i + 16);
        let end = a.len() + g.len();
        if i + 16 <= end {
            assert(g.subrange(i - a.len(), i - a.len() + 16) =~= sub);
            log_laws::lemma_contains_at(g, p, i - a.len());
        } else {
            assert(items.len() > 0);
            let d = end - i;
            assert(t.subrange(0, 16) =~= p);
            assert(sub[d] == s[end as int]);
            assert(s[end as int] == t[0]);
            assert(t[0] == t.subrange(0, 16)[0]);
            assert(p[d] == 'n');
            assert(d == 5);
            assert(sub[6] == s[end as int + 1]);
            assert(s[end as int + 1] == t[1]);
            assert(t[1] == t.subrange(0, 16)[1]);
        }
    }
}

proof fn lemma_skip_between(a: Seq<char>, g: Seq<char>, items: Seq<Message>, i: int)
    requires
        !text::contains(g, "nothing provides"@),
        a.len() <= i <= a.len() + g.len(),
    ensures
        ({
            let s = a + g + messages("nothing provides"@, items);
            patterns::unprovided_from(s, i) == patterns::unprovided_from(
                s,
                (a.len() + g.len()) as int,
            )
        }),
    decreases a.len() + g.len() - i,
{
    if i < a.len() + g.len() {
        lemma_none_between(a, g, items, i);
        lemma_skip_between(a, g, items, i + 1);
    }
}

proof fn lemma_unprovided(a: Seq<char>, items: Seq<Message>)
    requires
        forall|i: int| 0 <= i < items.len() ==> is_unprovided(#[trigger] items[i]),
    ensures
        patterns::unprovided_from(a + messages("nothing provides"@, items), a.len() as int)
            == names_of(items),
    decreases items.len(),
{
    let p = "nothing provides"@;
    let s = a + messages(p, items);
    if items.len() == 0 {
        assert(names_of(items) =~= seq![]);
    } else {
        reveal_strlit("nothing provides");
        let m = items[0];
        let more = items.drop_first();
        assert(is_unprovided(m));
        assert forall|i: int| 0 <= i < more.len() implies is_unprovided(#[trigger] more[i]) by {
            assert(is_unprovided(items[i + 1]));
        }
        let b = a + p + m.w + m.name;
        assert(s =~= b + m.rest + messages(p, more));
        let n = a.len() as int;
        assert(s.subrange(n, n + 16) =~= p);
        let w = n + 16 + m.w.len();
        assert forall|k: int| n + 16 <= k < w implies text::is_white(#[trigger] s[k]) by {
            assert(s[k] == m.w[k - n - 16]);
        }
        assert(s.subrange(w, w + m.name.len()) =~= m.name);
        lemma_requirement_starts(m.name);
        assert(s[w] == m.name[0]);
        lemma_white_end_is(s, n + 16, w);
        lemma_requirement_end(s, w, m.name);
        assert(b.len() == w + m.name.len());
        lemma_skip_between(b, m.rest, more, b.len() as int);
        let c = b + m.rest;
        assert(s =~= c + messages(p, more));
        lemma_unprovided(c, more);
        assert(seq![m.name] + names_of(more) =~= names_of(items));
    }
}

proof fn lemma_requirement_starts(dep: Seq<char>)
    requires
        is_requirement(dep),
    ensures
        dep.len() > 0,
        dep[0] == 'p',
{
    reveal_strlit("python");
    reveal_strlit("pkgconfig(");
}

/// The requirements that no package provides are reported: all that the log names, each once and
/// in order, and nothing else.
pub proof fn law_unprovided_requirements_are_reported(start: Seq<char>, items: Seq<Message>)
    requires
        ({
            let log = start + messages("nothing provides"@, items);
            &&& !text::contains(log, "Globs did not match any module:"@)
            &&& !text::contains(log, "import_all_modules.py"@)
            &&& !text::contains(log, "Failed build dependencies:"@)
        }),
        !text::contains(start, "nothing provides"@),
        items.len() > 0,
        forall|i: int| 0 <= i < items.len() ==> is_unprovided(#[trigger] items[i]),
    ensures
        ({
            let issue = analyzer::issue_of(start + messages("nothing provides"@, items));
            let deps = issue->DependencyUnresolvable_deps;
            let names = names_of(items);
            &&& issue is DependencyUnresolvable
            &&& deps.no_duplicates()
            &&& forall|d: Seq<char>| #[trigger] deps.contains(d) <==> names.contains(d)
            &&& names.no_duplicates() ==> deps == names
        }),
{
    let log = start + messages("nothing provides"@, items);
    let names = names_of(items);
    log_laws::lemma_no_glob(log, 0);
    lemma_skip_between(seq![], start, items, 0);
    assert(Seq::<char>::empty() + start + messages("nothing provides"@, items) =~= log);
    lemma_unprovided(start, items);
    lemma_unique_is_add_all(names);
    log_laws::lemma_all_unique_of_empty(names);
}

/// The announcement of an import: the module behind white space, and what follows it.
pub open spec fn is_import(m: Message) -> bool {
    &&& is_space(m.w)
    &&& is_word(m.name)
    &&& m.rest.len() > 0 ==> text::is_white(m.rest[0])
    &&& !text::contains(m.rest, "Check import:"@)
}

proof fn lemma_no_import_between(a: Seq<char>, g: Seq<char>, items: Seq<Message>, i: int)
    requires
        !text::contains(g, "Check import:"@),
        a.len() <= i < a.len() + g.len(),
    ensures
        !text::occurs_at(a + g + messages("Check import:"@, items), "Check import:"@, i),
{
    reveal_strlit("Check import:");
    let p = "Check import:"@;
    let t = messages(p, items);
    let s = a + g + t;
    if text::occurs_at(s, p, i) {
        let sub = s.subrange(i, i + 13);
        let end = a.len() + g.len();
        if i + 13 <= end {
            assert(g.subrange(i - a.len(), i - a.len() + 13) =~= sub);
            log_laws::lemma_contains_at(g, p, i - a.len());
        } else {
            assert(items.len() > 0);
            assert(t.subrange(0, 13) =~= p);
            assert(sub[end - i] == s[end as int]);
            assert(s[end as int] == t[0]);
            assert(t[0] == t.subrange(0, 13)[0]);
        }
    }
}

proof fn lemma_skip_to_import(a: Seq<char>, g: Seq<char>, items: Seq<Message>, i: int)
    requires
        !text::contains(g, "Check import:"@),
        a.len() <= i <= a.len() + g.len(),
    ensures
        ({
            let s = a + g + messages("Check import:"@, items);
            patterns::checked_imports_from(s, i) == patterns::checked_imports_from(
                s,
                (a.len() + g.len()) as int,
            )
        }),
    decreases a.len() + g.len() - i,
{
    if i < a.len() + g.len() {
        lemma_no_import_between(a, g, items, i);
        lemma_skip_to_import(a, g, items, i + 1);
    }
}

proof fn lemma_imports(a: Seq<char>, items: Seq<Message>)
    requires
        forall|i: int| 0 <= i < items.len() ==> is_import(#[trigger] items[i]),
        forall|i: int| 0 <= i < items.len() - 1 ==> (#[trigger] items[i]).rest.len() > 0,
    ensures
        patterns::checked_imports_from(a + messages("Check import:"@, items), a.len() as int)
            == names_of(items),
    decreases items.len(),
{
    let p = "Check import:"@;
    let s = a + messages(p, items);
    if items.len() == 0 {
        assert(names_of(items) =~= seq![]);
    } else {
        reveal_strlit("Check import:");
        let m = items[0];
        let more = items.drop_first();
        assert(is_import(m));
        assert forall|i: int| 0 <= i < more.len() implies is_import(#[trigger] more[i]) by {
            assert(is_import(items[i + 1]));
        }
        assert forall|i: int| 0 <= i < more.len() - 1 implies (#[trigger] more[i]).rest.len()
            > 0 by {
            assert(items[i + 1].rest.len() > 0);
        }
        let b = a + p + m.w + m.name;
        assert(s =~= b + m.rest + messages(p, more));
        let n = a.len() as int;
        assert(s.subrange(n, n + 13) =~= p);
        let w = n + 13 + m.w.len();
        let e = w + m.name.len();
        assert forall|k: int| n + 13 <= k < w implies text::is_white(#[trigger] s[k]) by {
            assert(s[k] == m.w[k - n - 13]);
        }
        assert(s[w] == m.name[0]);
        lemma_white_end_is(s, n + 13, w);
        assert forall|k: int| w <= k < e implies !text::is_white(#[trigger] s[k]) by {
            assert(s[k] == m.name[k - w]);
        }
        if e < s.len() {
            if m.rest.len() == 0 {
                assert(messages(p, more).len() == 0);
            }
            assert(s[e] == m.rest[0]);
        }
        lemma_dark_end_is(s, w, e);
        assert(s.subrange(w, e) =~= m.name);
        assert(b.len() == e);
        lemma_skip_to_import(b, m.rest, more, b.len() as int);
        let c = b + m.rest;
        assert(s =~= c + messages(p, more));
        lemma_imports(c, more);
        assert(seq![m.name] + names_of(more) =~= names_of(items));
    }
}

proof fn lemma_safe_modules(v: Seq<Seq<char>>)
    ensures
        forall|m: Seq<char>| #[trigger]
            analyzer::safe_modules(v).contains(m) <==> v.contains(m) && analyzer::safe_exclusion(
                m,
            ) is Some,
    decreases v.len(),
{
    if v.len() > 0 {
        let rest = v.drop_last();
        lemma_safe_modules(rest);
        set_laws::lemma_push_texts(rest, v.last());
        assert(rest.push(v.last()) =~= v);
        set_laws::lemma_push_texts(analyzer::safe_modules(rest), v.last());
    }
}

/// Where an import check that failed does not list the modules at fault, those that it tried and
/// that may be left out are reported and left out, and no others.
pub proof fn law_safe_imports_are_excluded(start: Seq<char>, items: Seq<Message>)
    requires
        ({
            let log = start + messages("Check import:"@, items);
            &&& !text::contains(log, "Globs did not match any module:"@)
            &&& text::contains(log, "import_all_modules.py"@)
            &&& !text::contains(log, "ValueError: No modules to check were left"@)
            &&& text::contains(log, "ModuleNotFoundError"@) || text::contains(log, "ImportError"@)
                || text::contains(log, "is not installed"@) || text::contains(
                log,
                "Please install it with"@,
            ) || text::contains(log, "pip install"@)
            &&& analyzer::failed_imports(log) is None
        }),
        !text::contains(start, "Check import:"@),
        forall|i: int| 0 <= i < items.len() ==> is_import(#[trigger] items[i]),
        forall|i: int| 0 <= i < items.len() - 1 ==> (#[trigger] items[i]).rest.len() > 0,
        exists|i: int|
            0 <= i < items.len() && analyzer::safe_exclusion((#[trigger] items[i]).name) is Some,
    ensures
        ({
            let issue = analyzer::issue_of(start + messages("Check import:"@, items));
            let modules = issue->ImportCheckExclusions_modules;
            &&& issue is ImportCheckExclusions
            &&& forall|m: Seq<char>| #[trigger]
                modules.contains(m) <==> names_of(items).contains(m) && analyzer::safe_exclusion(
                    m,
                ) is Some
            &&& issue->ImportCheckExclusions_exclusions == analyzer::grouped_exclusions(modules)
        }),
{
    let log = start + messages("Check import:"@, items);
    let names = names_of(items);
    log_laws::lemma_no_glob(log, 0);
    lemma_skip_to_import(seq![], start, items, 0);
    assert(Seq::<char>::empty() + start + messages("Check import:"@, items) =~= log);
    lemma_imports(start, items);
    lemma_safe_modules(names);
    let modules = analyzer::safe_modules(names);
    let i = choose|i: int|
        0 <= i < items.len() && analyzer::safe_exclusion((#[trigger] items[i]).name) is Some;
    assert(names[i] == items[i].name);
    assert(names.contains(names[i]));
    assert(modules.contains(names[i]));
    module_laws::law_every_module_is_left_out(modules, 0);
}

} // verus!
