//! Laws of what a build log is taken to show.
use vstd::prelude::*;

use crate::analyzer;
use crate::issue::IssueModel;
use crate::line_laws;
use crate::outside;
use crate::patterns;
use crate::pieces;
use crate::set_laws;
use crate::specfile;
use crate::target_laws;
use crate::text;

verus! {

/// A text is held by every text that it stands in.
pub proof fn lemma_contains(a: Seq<char>, p: Seq<char>, b: Seq<char>)
    ensures
        text::contains(a + p + b, p),
        text::occurs_at(a + p + b, p, a.len() as int),
{
    let s = a + p + b;
    assert(s.subrange(a.len() as int, a.len() as int + p.len()) =~= p);
    text::lemma_find(s, p, 0);
    assert(text::occurs_at(s, p, a.len() as int));
}

pub proof fn lemma_contains_at(s: Seq<char>, p: Seq<char>, i: int)
    requires
        text::occurs_at(s, p, i),
    ensures
        text::contains(s, p),
{
    text::lemma_find(s, p, 0);
}

pub proof fn lemma_not_at(s: Seq<char>, p: Seq<char>, i: int)
    requires
        !text::contains(s, p),
    ensures
        !text::occurs_at(s, p, i),
{
    text::lemma_find(s, p, 0);
}

/// What a part of a text holds, the text holds.
pub proof fn lemma_contains_part(s: Seq<char>, part: Seq<char>, at: int, p: Seq<char>)
    requires
        0 <= at,
        at + part.len() <= s.len(),
        part == s.subrange(at, at + part.len()),
        text::contains(part, p),
    ensures
        text::contains(s, p),
{
    text::lemma_find(part, p, 0);
    let k = text::find(part, p)->0;
    assert(s.subrange(at + k, at + k + p.len()) =~= part.subrange(k, k + p.len()));
    lemma_contains_at(s, p, at + k);
}

/// Trimming a line does not hide a text that neither starts nor ends with white space.
pub proof fn lemma_contains_trim(s: Seq<char>, p: Seq<char>)
    requires
        p.len() > 0,
        line_laws::is_trimmed(p),
    ensures
        text::contains(text::trim(s), p) == text::contains(s, p),
{
    let a = text::trim_start(s);
    let t = text::trim(s);
    line_laws::lemma_trim_start(s);
    line_laws::lemma_trim_end(a);
    let m = s.len() - a.len();
    assert(t =~= s.subrange(m, m + t.len()));
    if text::contains(t, p) {
        lemma_contains_part(s, t, m, p);
    }
    if text::contains(s, p) {
        text::lemma_find(s, p, 0);
        let k = text::find(s, p)->0;
        assert(s.subrange(k, k + p.len())[0] == s[k]);
        assert(s.subrange(k, k + p.len()).last() == s[k + p.len() - 1]);
        if k < m {
            assert(text::is_white(s[k]));
        }
        if k + p.len() > m + t.len() {
            assert(a[k + p.len() - 1 - m] == s[k + p.len() - 1]);
        }
        assert(t.subrange(k - m, k - m + p.len()) =~= s.subrange(k, k + p.len()));
        lemma_contains_at(t, p, k - m);
    }
}

/// What a line holds, the text of the lines holds.
pub proof fn lemma_join_holds(v: Seq<Seq<char>>, sep: Seq<char>, k: int, p: Seq<char>)
    requires
        0 <= k < v.len(),
        text::contains(v[k], p),
    ensures
        text::contains(pieces::join(v, sep), p),
    decreases v.len(),
{
    let s = pieces::join(v, sep);
    if v.len() > 1 {
        let rest = v.drop_last();
        let head = pieces::join(rest, sep);
        if k < rest.len() {
            lemma_join_holds(rest, sep, k, p);
            assert(s.subrange(0, head.len() as int) =~= head);
            lemma_contains_part(s, head, 0, p);
        } else {
            let at = (head + sep).len() as int;
            assert(s.subrange(at, at + v[k].len()) =~= v[k]);
            lemma_contains_part(s, v[k], at, p);
        }
    }
}

/// A line of a log: no line feed in it, and no carriage return at its end.
pub open spec fn is_line(l: Seq<char>) -> bool {
    !l.contains('\n') && (l.len() > 0 ==> l.last() != '\r')
}

/// The log that has these lines.
pub open spec fn log_of(v: Seq<Seq<char>>) -> Seq<char> {
    pieces::join(v, "\n"@)
}

pub open spec fn are_lines(v: Seq<Seq<char>>) -> bool {
    &&& v.len() > 0
    &&& v.last().len() > 0
    &&& forall|i: int| 0 <= i < v.len() ==> is_line(#[trigger] v[i])
}

pub proof fn lemma_lines_of_log(v: Seq<Seq<char>>)
    requires
        are_lines(v),
    ensures
        pieces::lines(log_of(v)) == v,
{
    assert forall|i: int| 0 <= i < v.len() implies !(#[trigger] v[i]).contains('\n') by {
        assert(is_line(v[i]));
    }
    line_laws::lemma_lines_of_join(v);
    let front = line_laws::strip_cr_each(v.drop_last());
    assert forall|i: int| 0 <= i < front.len() implies front[i] == v[i] by {
        assert(is_line(v[i]));
    }
    assert(front + seq![v.last()] =~= v);
}

/// A log without the messages of the failures that are looked for first.
pub open spec fn is_quiet(log: Seq<char>) -> bool {
    &&& !text::contains(log, "Globs did not match any module:"@)
    &&& !text::contains(log, "import_all_modules.py"@)
    &&& !text::contains(log, "Failed build dependencies:"@)
    &&& !text::contains(log, "nothing provides"@)
}

pub proof fn lemma_no_glob(log: Seq<char>, i: int)
    requires
        !text::contains(log, "Globs did not match any module:"@),
    ensures
        patterns::unmatched_glob_from(log, i) is None,
    decreases log.len() - i,
{
    if 0 <= i < log.len() {
        lemma_no_glob(log, i + 1);
        text::lemma_find(log, "Globs did not match any module:"@, 0);
        let bracket = text::index_of(log, ']', i + 1);
        let a = if log[i] == '[' && i + 1 < bracket < log.len() {
            text::white_end(log, bracket + 1)
        } else {
            i
        };
        let error = a + "ValueError:"@.len();
        let b = if text::occurs_at(log, "ValueError:"@, a) && text::white_end(log, error) > error {
            text::white_end(log, error)
        } else {
            a
        };
        lemma_not_at(log, "Globs did not match any module:"@, b);
    }
}

proof fn lemma_all_provided(log: Seq<char>, i: int)
    requires
        !text::contains(log, "nothing provides"@),
    ensures
        patterns::unprovided_from(log, i) == Seq::<Seq<char>>::empty(),
    decreases log.len() - i,
{
    if 0 <= i < log.len() {
        lemma_all_provided(log, i + 1);
        lemma_not_at(log, "nothing provides"@, i);
    }
}

proof fn lemma_quiet(log: Seq<char>)
    requires
        is_quiet(log),
    ensures
        analyzer::module_mismatch(log) is None,
        !analyzer::nothing_to_check(log),
        analyzer::import_exclusions(log) is None,
        analyzer::missing_requirements(log) is None,
        analyzer::unprovided(log) is None,
{
    lemma_no_glob(log, 0);
    lemma_all_provided(log, 0);
}

/// A line that lists an installed file: white space, and then an absolute path.
pub open spec fn lists_path(line: Seq<char>, path: Seq<char>) -> bool {
    &&& path.len() >= 2
    &&& path[0] == '/'
    &&& forall|k: int| 0 <= k < path.len() ==> !text::is_white(#[trigger] path[k])
    &&& line.len() >= path.len()
    &&& line.skip(line.len() - path.len()) == path
    &&& forall|k: int| 0 <= k < line.len() - path.len() ==> text::is_white(#[trigger] line[k])
}

/// Each line lists the path in its place.
pub open spec fn list_paths(lines: Seq<Seq<char>>, paths: Seq<Seq<char>>) -> bool {
    &&& lines.len() == paths.len()
    &&& forall|i: int| 0 <= i < lines.len() ==> lists_path(#[trigger] lines[i], paths[i])
}

proof fn lemma_path_of_line(line: Seq<char>, path: Seq<char>, i: int)
    requires
        lists_path(line, path),
        0 <= i <= line.len() - path.len(),
    ensures
        patterns::path_from(line, i) == Some(path),
    decreases line.len() - i,
{
    let n = line.len() - path.len();
    assert(line[n] == line.skip(n)[0]);
    assert(line[n + 1] == line.skip(n)[1]);
    if i < n {
        assert(text::is_white(line[i]));
        lemma_path_of_line(line, path, i + 1);
    } else {
        assert(!text::is_white(path[1]));
        text::lemma_dark_end(line, n);
        let e = text::dark_end(line, n);
        if e < line.len() {
            assert(line[e] == line.skip(n)[e - n]);
            assert(!text::is_white(path[e - n]));
        }
        assert(line.subrange(n, line.len() as int) =~= path);
    }
}

proof fn lemma_no_path_of_blank(line: Seq<char>, i: int)
    requires
        specfile::is_blank(line),
    ensures
        patterns::path_from(line, i) is None,
    decreases line.len() - i,
{
    if 0 <= i < line.len() {
        line_laws::lemma_trim_start(line);
        line_laws::lemma_trim_end(text::trim_start(line));
        if text::trim_start(line).len() > 0 {
            assert(text::is_white(text::trim_start(line)[0]));
        }
        assert(text::is_white(line[i]));
        lemma_no_path_of_blank(line, i + 1);
    }
}

/// The paths of a list that ends with the log or with a blank line.
proof fn lemma_paths(
    v: Seq<Seq<char>>,
    i: int,
    listed: Seq<Seq<char>>,
    paths: Seq<Seq<char>>,
    found: Seq<Seq<char>>,
)
    requires
        0 <= i,
        i + listed.len() <= v.len(),
        list_paths(listed, paths),
        listed == v.subrange(i, i + listed.len()),
        i + listed.len() < v.len() ==> specfile::is_blank(v[i + listed.len()]),
        found.len() > 0 || listed.len() > 0,
    ensures
        analyzer::paths_from(v, i, found) == pieces::add_all_unique(found, paths),
    decreases listed.len(),
{
    if listed.len() == 0 {
        if i < v.len() {
            lemma_no_path_of_blank(v[i], 0);
        }
    } else {
        assert(v[i] == listed[0]);
        assert(lists_path(listed[0], paths[0]));
        lemma_path_of_line(v[i], paths[0], 0);
        let rest = listed.drop_first();
        let rest_paths = paths.drop_first();
        assert(rest =~= v.subrange(i + 1, i + 1 + rest.len()));
        assert forall|k: int| 0 <= k < rest.len() implies lists_path(
            #[trigger] rest[k],
            rest_paths[k],
        ) by {
            assert(lists_path(listed[k + 1], paths[k + 1]));
        }
        let more = pieces::add_unique(found, paths[0]);
        assert(more.len() > 0) by {
            if found.contains(paths[0]) {
                assert(found.len() > 0);
            }
        }
        lemma_paths(v, i + 1, rest, rest_paths, more);
        lemma_add_first(found, paths);
    }
}

/// Adding a list adds its first text and then the others.
proof fn lemma_add_first(found: Seq<Seq<char>>, items: Seq<Seq<char>>)
    requires
        items.len() > 0,
    ensures
        pieces::add_all_unique(found, items) == pieces::add_all_unique(
            pieces::add_unique(found, items[0]),
            items.drop_first(),
        ),
    decreases items.len(),
{
    let rest = items.drop_last();
    if rest.len() == 0 {
        assert(pieces::add_all_unique(found, rest) == found);
        assert(items.drop_first() =~= seq![]);
    } else {
        lemma_add_first(found, rest);
        assert(items.drop_first().drop_last() =~= rest.drop_first());
    }
}

/// Adding texts to an empty list leaves each of them once, and a list without repeats as it is.
pub proof fn lemma_all_unique_of_empty(items: Seq<Seq<char>>)
    ensures
        ({
            let r = pieces::add_all_unique(seq![], items);
            &&& r.no_duplicates()
            &&& forall|x: Seq<char>| #[trigger] r.contains(x) <==> items.contains(x)
            &&& items.no_duplicates() ==> r == items
            &&& r.len() <= items.len()
            &&& items.len() > 0 ==> r.len() > 0
        }),
    decreases items.len(),
{
    let r = pieces::add_all_unique(seq![], items);
    target_laws::lemma_all_unique(seq![], items);
    assert forall|x: Seq<char>| #[trigger] r.contains(x) implies items.contains(x) by {
        assert(!Seq::<Seq<char>>::empty().contains(x));
    }
    if items.len() > 0 {
        let rest = items.drop_last();
        lemma_all_unique_of_empty(rest);
        let before = pieces::add_all_unique(seq![], rest);
        let last = items.last();
        assert(items.contains(items[items.len() - 1]));
        assert(r.contains(last));
        if items.no_duplicates() {
            assert forall|i: int, j: int|
                0 <= i < rest.len() && 0 <= j < rest.len() && i != j implies rest[i] != rest[j] by {
                assert(items[i] != items[j]);
            }
            if rest.contains(last) {
                let k = rest.index_of(last);
                assert(items[k] == items[items.len() - 1]);
            }
            assert(!before.contains(last));
            assert(rest.push(last) =~= items);
        }
    }
}

proof fn lemma_first_start(v: Seq<Seq<char>>, k: int, i: int)
    requires
        0 <= i <= k < v.len(),
        forall|j: int| i <= j < k ==> !analyzer::is_unpackaged_start(#[trigger] v[j]),
        analyzer::is_unpackaged_start(v[k]),
    ensures
        analyzer::unpackaged_start(v, i) == k,
    decreases k - i,
{
    reveal_strlit("Installed (but unpackaged) file(s) found");
    reveal_strlit("Installed but unpackaged files found");
    lemma_contains_trim(v[i], "Installed (but unpackaged) file(s) found"@);
    lemma_contains_trim(v[i], "Installed but unpackaged files found"@);
    if i < k {
        assert(!analyzer::is_unpackaged_start(v[i]));
        lemma_first_start(v, k, i + 1);
    }
}

/// Files that were installed and that no package holds are reported, whichever of its two messages
/// `rpmbuild` lists them under: all of them, each once and in order, and nothing else.
pub proof fn law_unpackaged_files_are_reported(
    before: Seq<Seq<char>>,
    head: (Seq<char>, Seq<char>, Seq<char>),
    listed: Seq<Seq<char>>,
    paths: Seq<Seq<char>>,
    after: Seq<Seq<char>>,
)
    requires
        ({
            let v = before + seq![head.0 + head.1 + head.2] + listed + after;
            &&& are_lines(v)
            &&& is_quiet(log_of(v))
        }),
        head.1 == "Installed (but unpackaged) file(s) found"@ || head.1
            == "Installed but unpackaged files found"@,
        forall|i: int|
            0 <= i < before.len() ==> !text::contains(
                #[trigger] before[i],
                "Installed (but unpackaged) file(s) found"@,
            ) && !text::contains(before[i], "Installed but unpackaged files found"@),
        list_paths(listed, paths),
        listed.len() > 0,
        after.len() > 0 ==> specfile::is_blank(after[0]),
    ensures
        ({
            let log = log_of(before + seq![head.0 + head.1 + head.2] + listed + after);
            let files = analyzer::issue_of(log)->InstalledButUnpackagedFiles_files;
            &&& analyzer::issue_of(log) is InstalledButUnpackagedFiles
            &&& files.no_duplicates()
            &&& forall|f: Seq<char>| #[trigger] files.contains(f) <==> paths.contains(f)
            &&& paths.no_duplicates() ==> files == paths
        }),
{
    let line = head.0 + head.1 + head.2;
    let v = before + seq![line] + listed + after;
    let log = log_of(v);
    lemma_quiet(log);
    lemma_lines_of_log(v);
    let k = before.len() as int;
    lemma_contains(head.0, head.1, head.2);
    assert(v[k] == line);
    assert forall|j: int| 0 <= j < k implies !analyzer::is_unpackaged_start(#[trigger] v[j]) by {
        assert(v[j] == before[j]);
    }
    lemma_first_start(v, k, 0);
    lemma_join_holds(v, "\n"@, k, head.1);
    assert(listed =~= v.subrange(k + 1, k + 1 + listed.len()));
    if k + 1 + listed.len() < v.len() {
        assert(v[k + 1 + listed.len()] == after[0]);
    }
    lemma_paths(v, k + 1, listed, paths, seq![]);
    lemma_all_unique_of_empty(paths);
}

/// A log without a list of installed files.
pub open spec fn lists_no_files(log: Seq<char>) -> bool {
    &&& !text::contains(log, "Installed (but unpackaged) file(s) found"@)
    &&& !text::contains(log, "Installed but unpackaged files found"@)
}

/// Binaries in a package that is to be independent of the architecture are reported.
pub proof fn law_arch_dependence_is_reported(log: Seq<char>)
    requires
        is_quiet(log),
        lists_no_files(log),
        text::contains(log, "Arch dependent binaries in noarch package"@),
    ensures
        analyzer::issue_of(log) == IssueModel::ArchDependentInNoarch,
{
    lemma_quiet(log);
}

/// Metadata without a license file is reported.
pub proof fn law_missing_license_file_is_reported(log: Seq<char>)
    requires
        is_quiet(log),
        lists_no_files(log),
        !text::contains(log, "Arch dependent binaries in noarch package"@),
        text::contains(log, "No License-File (PEP 639)"@),
    ensures
        analyzer::issue_of(log) == IssueModel::MissingPep639LicenseMetadata,
{
    lemma_quiet(log);
}

/// A log that only shows why compiling, patching, testing or importing failed, if anything.
pub open spec fn is_plain(log: Seq<char>) -> bool {
    &&& is_quiet(log)
    &&& lists_no_files(log)
    &&& !text::contains(log, "Arch dependent binaries in noarch package"@)
    &&& !text::contains(log, "No License-File (PEP 639)"@)
}

/// A compiler that failed is reported before anything that follows from it.
pub proof fn law_compiler_failure_is_reported(log: Seq<char>)
    requires
        is_plain(log),
        text::contains(log, "fatal error:"@) || text::contains(log, "gcc failed"@)
            || text::contains(log, "pkg-config"@),
    ensures
        analyzer::issue_of(log) is CExtensionCompileError,
        analyzer::issue_of(log)->CExtensionCompileError_important_lines == analyzer::important(
            log,
        ),
{
    lemma_quiet(log);
}

/// A log without a message of a compiler that failed.
pub open spec fn compiles(log: Seq<char>) -> bool {
    &&& !text::contains(log, "fatal error:"@)
    &&& !text::contains(log, "gcc failed"@)
    &&& !text::contains(log, "pkg-config"@)
}

/// A patch that does not apply is reported.
pub proof fn law_patch_failure_is_reported(log: Seq<char>)
    requires
        is_plain(log),
        compiles(log),
        text::contains(log, "hunk FAILED"@) || (text::contains(log, "patch"@) && text::contains(
            log,
            "FAILED"@,
        )),
    ensures
        analyzer::issue_of(log) is PatchApplyError,
        analyzer::issue_of(log)->PatchApplyError_important_lines == analyzer::important(log),
{
    lemma_quiet(log);
}

/// Tests that fail are reported, unless a patch is at fault.
pub proof fn law_test_failure_is_reported(log: Seq<char>)
    requires
        is_plain(log),
        compiles(log),
        text::contains(log, "pytest"@),
        text::contains(log, "FAILED"@) || text::contains(log, "failed"@),
        !text::contains(log, "hunk FAILED"@),
        !text::contains(log, "patch"@) || !text::contains(log, "FAILED"@),
    ensures
        analyzer::issue_of(log) is TestFailure,
        analyzer::issue_of(log)->TestFailure_important_lines == analyzer::important(log),
{
    lemma_quiet(log);
}

proof fn lemma_first_module(a: Seq<char>, module: Seq<char>, b: Seq<char>, i: int)
    requires
        module.len() > 0,
        !module.contains('\''),
        forall|j: int|
            0 <= j < a.len() ==> !#[trigger] text::occurs_at(
                a + "No module named '"@ + module + "'"@ + b,
                "No module named '"@,
                j,
            ),
        0 <= i <= a.len(),
    ensures
        ({
            let found = patterns::missing_modules_from(
                a + "No module named '"@ + module + "'"@ + b,
                i,
            );
            found.len() > 0 && found[0] == module
        }),
    decreases a.len() - i,
{
    reveal_strlit("No module named '");
    reveal_strlit("'");
    let p = "No module named '"@;
    let s = a + p + module + "'"@ + b;
    if i < a.len() {
        assert(!text::occurs_at(s, p, i));
        lemma_first_module(a, module, b, i + 1);
    } else {
        assert(s.subrange(i, i + p.len()) =~= p);
        let from = i + p.len();
        let to = from + module.len();
        assert forall|k: int| from <= k < to implies #[trigger] s[k] != '\'' by {
            assert(s[k] == module[k - from]);
            assert(module.contains(module[k - from]));
        }
        assert(s[to] == '\'');
        target_laws::lemma_index_is(s, '\'', from, to);
        assert(s.subrange(from, to) =~= module);
        assert(patterns::missing_module_at(s, i) == Some((from, to)));
    }
}

/// A Python module that an import did not find is reported where nothing else failed: the first
/// one that the log names.
pub proof fn law_missing_module_is_reported(a: Seq<char>, module: Seq<char>, b: Seq<char>)
    requires
        ({
            let log = a + "No module named '"@ + module + "'"@ + b;
            &&& is_plain(log)
            &&& compiles(log)
            &&& !analyzer::is_patch_failure(log)
            &&& !analyzer::is_failed_test(log)
            &&& forall|j: int|
                0 <= j < a.len() ==> !#[trigger] text::occurs_at(log, "No module named '"@, j)
        }),
        module.len() > 0,
        !module.contains('\''),
    ensures
        analyzer::issue_of(a + "No module named '"@ + module + "'"@ + b)
            == (IssueModel::MissingPythonModule { module, import_context: None }),
{
    let log = a + "No module named '"@ + module + "'"@ + b;
    lemma_quiet(log);
    lemma_first_module(a, module, b, 0);
}

proof fn lemma_no_module(s: Seq<char>, i: int)
    requires
        !text::contains(s, "No module named '"@),
    ensures
        patterns::missing_modules_from(s, i) == Seq::<Seq<char>>::empty(),
    decreases s.len() - i,
{
    if 0 <= i < s.len() {
        lemma_not_at(s, "No module named '"@, i);
        lemma_no_module(s, i + 1);
    }
}

/// A log that shows none of the known failures is left to a person, with the lines to read.
pub proof fn law_other_failures_are_unknown(log: Seq<char>)
    requires
        is_plain(log),
        compiles(log),
        !text::contains(log, "FAILED"@),
        !text::contains(log, "pytest"@) || !text::contains(log, "failed"@),
        !text::contains(log, "No module named '"@),
    ensures
        analyzer::issue_of(log) is Unknown,
        analyzer::issue_of(log)->Unknown_important_lines == analyzer::important(log),
{
    lemma_quiet(log);
    lemma_no_module(log, 0);
    if text::contains(log, "hunk FAILED"@) {
        reveal_strlit("hunk FAILED");
        reveal_strlit("FAILED");
        text::lemma_find(log, "hunk FAILED"@, 0);
        let k = text::find(log, "hunk FAILED"@)->0;
        assert(log.subrange(k + 5, k + 11) =~= log.subrange(k, k + 11).subrange(5, 11));
        assert("hunk FAILED"@.subrange(5, 11) =~= "FAILED"@);
        lemma_contains_at(log, "FAILED"@, k + 5);
    }
}

/// A line that a person should read.
pub open spec fn is_worth_reading(line: Seq<char>) -> bool {
    let lower = outside::lowercase(line);
    ||| text::contains(lower, "error"@)
    ||| text::contains(lower, "failed"@)
    ||| text::contains(lower, "nothing provides"@)
    ||| text::contains(lower, "unresolvable"@)
    ||| text::contains(lower, "not an obs scm working copy"@)
}

/// `shown` is one of the lines `v` that are worth reading, trimmed.
pub open spec fn comes_from(shown: Seq<char>, v: Seq<Seq<char>>) -> bool {
    exists|j: int|
        0 <= j < v.len() && is_worth_reading(#[trigger] v[j]) && text::trim(v[j]) == shown
}

proof fn lemma_important_of(v: Seq<Seq<char>>)
    ensures
        forall|k: int|
            0 <= k < analyzer::important_of(v).len() ==> comes_from(
                #[trigger] analyzer::important_of(v)[k],
                v,
            ),
        forall|j: int|
            0 <= j < v.len() && is_worth_reading(#[trigger] v[j])
                ==> analyzer::important_of(v).contains(text::trim(v[j])),
    decreases v.len(),
{
    if v.len() > 0 {
        let rest = v.drop_last();
        let n = v.len() - 1;
        lemma_important_of(rest);
        let before = analyzer::important_of(rest);
        let all = analyzer::important_of(v);
        assert forall|k: int| 0 <= k < all.len() implies comes_from(#[trigger] all[k], v) by {
            if k < before.len() {
                assert(all[k] == before[k]);
                let j = choose|j: int|
                    0 <= j < rest.len() && is_worth_reading(#[trigger] rest[j]) && text::trim(
                        rest[j],
                    ) == before[k];
                assert(v[j] == rest[j]);
            } else {
                assert(v[n] == v.last());
            }
        }
        assert forall|j: int| 0 <= j < v.len() && is_worth_reading(#[trigger] v[j]) implies
            all.contains(text::trim(v[j])) by {
            set_laws::lemma_push_texts(before, text::trim(v.last()));
            if j < n {
                assert(rest[j] == v[j]);
            }
        }
    }
}

/// The lines that are shown of a log are its lines that are worth reading, trimmed: no more than
/// twenty, and all of them where they are fewer.
pub proof fn law_important_lines_are_shown(v: Seq<Seq<char>>)
    requires
        are_lines(v),
    ensures
        ({
            let shown = analyzer::important(log_of(v));
            &&& shown.len() <= 20
            &&& forall|k: int| 0 <= k < shown.len() ==> comes_from(#[trigger] shown[k], v)
            &&& shown.len() < 20 ==> forall|j: int|
                0 <= j < v.len() && is_worth_reading(#[trigger] v[j]) ==> shown.contains(
                    text::trim(v[j]),
                )
        }),
{
    lemma_lines_of_log(v);
    lemma_important_of(v);
    let all = analyzer::important_of(v);
    let shown = analyzer::important(log_of(v));
    assert forall|k: int| 0 <= k < shown.len() implies comes_from(#[trigger] shown[k], v) by {
        assert(shown[k] == all[k]);
    }
}

/// Lines that a log goes on with are shown behind those that were shown before.
pub proof fn law_important_lines_keep_their_order(v: Seq<Seq<char>>, more: Seq<Seq<char>>)
    requires
        are_lines(v),
        are_lines(v + more),
    ensures
        ({
            let shown = analyzer::important(log_of(v));
            let later = analyzer::important(log_of(v + more));
            shown.len() <= later.len() && later.take(shown.len() as int) == shown
        }),
{
    lemma_lines_of_log(v);
    lemma_lines_of_log(v + more);
    lemma_important_prefix(v, more);
    let a = analyzer::important_of(v);
    let b = analyzer::important_of(v + more);
    let shown = analyzer::important(log_of(v));
    let later = analyzer::important(log_of(v + more));
    assert forall|k: int| 0 <= k < shown.len() implies later[k] == shown[k] by {
        assert(b.take(a.len() as int)[k] == a[k]);
    }
    assert(later.take(shown.len() as int) =~= shown);
}

proof fn lemma_important_prefix(v: Seq<Seq<char>>, more: Seq<Seq<char>>)
    ensures
        analyzer::important_of(v).len() <= analyzer::important_of(v + more).len(),
        analyzer::important_of(v + more).take(analyzer::important_of(v).len() as int)
            == analyzer::important_of(v),
    decreases more.len(),
{
    let a = analyzer::important_of(v);
    let b = analyzer::important_of(v + more);
    if more.len() == 0 {
        assert(v + more =~= v);
        assert(b.take(a.len() as int) =~= a);
    } else {
        lemma_important_prefix(v, more.drop_last());
        assert((v + more).drop_last() =~= v + more.drop_last());
        assert(b.take(a.len() as int) =~= analyzer::important_of(v + more.drop_last()).take(
            a.len() as int,
        ));
    }
}

} // verus!
