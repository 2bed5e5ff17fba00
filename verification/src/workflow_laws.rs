//! Laws of the single steps of a local repair run.
use vstd::prelude::*;

use crate::fixer;
use crate::issue::{ActionModel, IssueModel};
use crate::line_laws;
use crate::llm::SuggestionModel;
use crate::log_laws;
use crate::patterns;
use crate::pieces;
use crate::report::Status;
use crate::section_laws;
use crate::specfile;
use crate::target_laws;
use crate::text;
use crate::upstream;
use crate::workflow;
use crate::workflow::{BuildRun, WorkModel};

verus! {

/// A spec in form has the lines that it had without the white space at their ends and without the
/// blank lines at its end, and ends with one line feed.
pub proof fn law_normalized_lines(s: Seq<char>)
    ensures
        ({
            let v = pieces::lines(s);
            let out = specfile::normalized(s);
            let t = pieces::lines(out);
            &&& out.len() > 0
            &&& out.last() == '\n'
            &&& out.len() > 1 ==> out[out.len() - 2] != '\n'
            &&& forall|i: int|
                0 <= i < t.len() && i < v.len() ==> #[trigger] t[i] == text::trim_end(v[i])
            &&& forall|i: int|
                t.len() <= i < v.len() ==> text::trim_end(#[trigger] v[i]).len() == 0
            &&& t.len() <= v.len() || (v.len() == 0 && out.len() == 1)
        }),
{
    let v = pieces::lines(s);
    let t = specfile::tidy(v);
    let out = specfile::normalized(s);
    line_laws::lemma_lines_hold_no_line_feed(s, 0);
    line_laws::lemma_tidy(v);
    reveal_strlit("\n");
    if t.len() == 0 {
        let empty = Seq::<char>::empty();
        assert(out =~= empty + "\n"@ + empty);
        line_laws::lemma_lines_cons(empty, empty);
        assert(pieces::lines(out) =~= seq![empty]);
        assert forall|i: int| 0 <= i < 1 && i < v.len() implies empty == text::trim_end(v[i]) by {
            assert(text::trim_end(v[i]).len() == 0);
        }
    } else {
        line_laws::lemma_lines_of_closed_join(t);
        line_laws::lemma_tidy_has_no_cr(t);
        let joined = pieces::join(t, "\n"@);
        lemma_join_end(t);
        assert(out[out.len() - 2] == joined.last());
        assert(t.last().contains(t.last().last()));
        assert(!t[t.len() - 1].contains('\n'));
    }
}

proof fn lemma_join_end(v: Seq<Seq<char>>)
    requires
        v.len() > 0,
        v.last().len() > 0,
    ensures
        pieces::join(v, "\n"@).len() > 0,
        pieces::join(v, "\n"@).last() == v.last().last(),
{
}

/// A run that is no dry run writes the spec in form where it was not, and only then; a dry run
/// writes nothing.
pub proof fn law_spec_is_put_in_form(state: WorkModel, spec_text: Seq<char>)
    ensures
        ({
            let write = workflow::first_move(state, spec_text).write;
            &&& state.dry_run ==> write is None
            &&& !state.dry_run && write is None ==> specfile::normalized(spec_text) == spec_text
            &&& write is Some ==> write->0 == specfile::normalized(spec_text) && write->0
                != spec_text
        }),
{
}

/// What a run does first: a dry run is done, a run with a description asks for it, and any other
/// builds.
pub proof fn law_first_step(state: WorkModel, spec_text: Seq<char>)
    ensures
        ({
            let step = workflow::first_move(state, spec_text).step;
            let after = workflow::after_first_spec(state, spec_text);
            &&& step is Done <==> state.dry_run
            &&& step is Describe <==> !state.dry_run && state.llm_description
            &&& step is Build <==> !state.dry_run && !state.llm_description
            &&& state.dry_run ==> after.report.status == Status::DryRunComplete
            &&& !state.dry_run ==> after.report.status == state.report.status
            &&& step is Build && state.report.build_attempts < usize::MAX
                ==> after.report.build_attempts == state.report.build_attempts + 1
            &&& !(step is Build) ==> after.report.build_attempts == state.report.build_attempts
        }),
{
}

/// The notes of a report stay, in order, and more may follow.
pub open spec fn notes_stay(before: WorkModel, after: WorkModel) -> bool {
    &&& before.report.notes.len() <= after.report.notes.len()
    &&& after.report.notes.take(before.report.notes.len() as int) == before.report.notes
}

/// A build is recorded with its log. One that went through is a success, and texts are asked for;
/// one that failed is noted with its code, and its log is read.
pub proof fn law_build_is_recorded(state: WorkModel, run: BuildRun)
    ensures
        ({
            let after = workflow::after_build(state, run);
            let step = workflow::build_move(state, run).step;
            &&& after.report.last_log_path == Some(run.log_path@)
            &&& after.report.build_attempts == state.report.build_attempts
            &&& notes_stay(state, after)
            &&& workflow::build_move(state, run).write is None
            &&& run.success ==> after.report.status == Status::BuildSuccess && step is Suggest
                && after.report.notes == state.report.notes
            &&& !run.success ==> after.report.status == state.report.status && step is ReadLog
                && after.report.notes.len() == state.report.notes.len() + 1
                && text::starts_with(
                after.report.notes.last(),
                "osc build failed with rc="@ + pieces::signed_decimal(run.returncode as int),
            )
        }),
{
    let after = workflow::after_build(state, run);
    assert(after.report.notes.take(state.report.notes.len() as int) =~= state.report.notes);
    if !run.success {
        let head = "osc build failed with rc="@ + pieces::signed_decimal(run.returncode as int);
        let note = after.report.notes.last();
        assert(note.subrange(0, head.len() as int) =~= head);
    }
}

/// An issue is recorded with the action that is decided for it, and what was noted stays.
pub proof fn law_issue_is_recorded(state: WorkModel, issue: IssueModel, log: Seq<char>)
    ensures
        ({
            let after = workflow::after_issue(state, issue, log);
            &&& after.report.final_issue == Some(issue)
            &&& after.report.final_action == Some(fixer::action_for(issue))
            &&& after.report.build_attempts == state.report.build_attempts
            &&& after.report.applied_fixes == state.report.applied_fixes
            &&& notes_stay(state, after)
            &&& workflow::issue_move(state, issue, log).write is None
        }),
{
    let after = workflow::after_issue(state, issue, log);
    assert(after.report.notes.take(state.report.notes.len() as int) =~= state.report.notes);
}

/// A fix that changes the spec is written and recorded with the action; one that changes nothing
/// is neither, and a person is asked.
pub proof fn law_fix_is_recorded(state: WorkModel, action: ActionModel, before: Seq<char>)
    ensures
        ({
            let done = fixer::applied(before, action);
            let after = workflow::after_fix(state, action, before);
            let fixes = state.report.applied_fixes;
            &&& done != before ==> {
                &&& workflow::fix_move(state, action, before).write == Some(done)
                &&& after.report.applied_fixes.len() == fixes.len() + 1
                &&& after.report.applied_fixes.take(fixes.len() as int) == fixes
                &&& after.report.applied_fixes.last().action == action
            }
            &&& done == before ==> {
                &&& workflow::fix_move(state, action, before).write is None
                &&& workflow::fix_move(state, action, before).step is Done
                &&& after.report.applied_fixes == fixes
                &&& after.report.status == Status::NeedHuman
                &&& after.report.build_attempts == state.report.build_attempts
            }
            &&& notes_stay(state, after)
        }),
{
    let after = workflow::after_fix(state, action, before);
    assert(after.report.notes.take(state.report.notes.len() as int) =~= state.report.notes);
    let fixes = state.report.applied_fixes;
    if fixer::applied(before, action) != before {
        assert(after.report.applied_fixes.take(fixes.len() as int) =~= fixes);
    }
}

/// A summary that is suggested is the summary of the spec afterwards, and a suggestion without
/// texts changes nothing.
pub proof fn law_suggested_summary_is_set(s: Seq<char>, suggestion: SuggestionModel)
    requires
        suggestion.description is None,
        suggestion.summary matches Some(summary) ==> text::trim(summary).len() > 0
            && !text::trim(summary).contains('\n'),
    ensures
        match suggestion.summary {
            Some(summary) => specfile::tag_text(
                workflow::with_suggestion(s, suggestion),
                "Summary"@,
            ) == Some(text::trim(summary)),
            None => workflow::with_suggestion(s, suggestion) == s,
        },
{
    reveal_strlit("Summary");
    if let Some(summary) = suggestion.summary {
        section_laws::law_tag_is_read_back(s, "Summary"@, summary);
    }
}

/// The texts of a suggestion are set one after the other.
pub proof fn law_suggested_texts_are_set_apart(s: Seq<char>, suggestion: SuggestionModel)
    requires
        suggestion.description is Some,
    ensures
        workflow::with_suggestion(s, suggestion) == specfile::with_description(
            workflow::with_suggestion(s, (SuggestionModel { description: None, ..suggestion })),
            suggestion.description->0,
        ),
{
}

/// A line that starts with `%` and a word starts a section, unless the word is one of the macros
/// that stand in a file list; and no other line does.
pub proof fn law_sections_start_with_their_names(name: Seq<char>, rest: Seq<char>)
    requires
        name.len() > 0,
        forall|k: int| 0 <= k < name.len() ==> text::is_ascii_letter(#[trigger] name[k]),
        rest.len() > 0 ==> text::is_white(rest[0]),
    ensures
        ({
            let line = "%"@ + name + rest;
            specfile::starts_section(line) <==> !(text::starts_with(name, "dir"@)
                || text::starts_with(name, "doc"@) || text::starts_with(name, "license"@))
        }),
{
    reveal_strlit("%");
    let line = "%"@ + name + rest;
    lemma_word_end(line, 1 + name.len() as int, 2, name, rest);
    assert(line[1] == name[0]);
    if rest.len() > 0 {
        assert(line[1 + name.len() as int] == rest[0]);
    }
    assert(patterns::is_header(line));
    lemma_macro_starts(name, rest, "dir"@, "%dir"@);
    lemma_macro_starts(name, rest, "doc"@, "%doc"@);
    lemma_macro_starts(name, rest, "license"@, "%license"@);
}

proof fn lemma_word_end(line: Seq<char>, n: int, i: int, name: Seq<char>, rest: Seq<char>)
    requires
        line == "%"@ + name + rest,
        n == 1 + name.len(),
        2 <= i <= n,
        forall|k: int| 0 <= k < name.len() ==> text::is_ascii_letter(#[trigger] name[k]),
        rest.len() > 0 ==> text::is_white(rest[0]),
    ensures
        patterns::word_end(line, i) == n,
    decreases n - i,
{
    reveal_strlit("%");
    if i < n {
        assert(line[i] == name[i - 1]);
        lemma_word_end(line, n, i + 1, name, rest);
    } else if rest.len() > 0 {
        assert(line[n] == rest[0]);
    }
}

proof fn lemma_macro_starts(name: Seq<char>, rest: Seq<char>, word: Seq<char>, call: Seq<char>)
    requires
        rest.len() > 0 ==> text::is_white(rest[0]),
        word == "dir"@ && call == "%dir"@ || word == "doc"@ && call == "%doc"@ || word
            == "license"@ && call == "%license"@,
    ensures
        text::starts_with("%"@ + name + rest, call) <==> text::starts_with(name, word),
{
    reveal_strlit("%");
    reveal_strlit("dir");
    reveal_strlit("%dir");
    reveal_strlit("doc");
    reveal_strlit("%doc");
    reveal_strlit("license");
    reveal_strlit("%license");
    let line = "%"@ + name + rest;
    let n = word.len() as int;
    assert(call =~= "%"@ + word);
    if text::starts_with(name, word) {
        assert(line.subrange(0, n + 1) =~= "%"@ + name.subrange(0, n));
    }
    if text::starts_with(line, call) {
        assert forall|k: int| 0 <= k < n implies #[trigger] word[k] == line[k + 1] by {
            assert(line.subrange(0, n + 1)[k + 1] == call[k + 1]);
        }
        if name.len() < n {
            assert(word[name.len() as int] == line[name.len() as int + 1]);
            assert(line[name.len() as int + 1] == rest[0]);
        }
        assert(name.subrange(0, n) =~= word);
    }
}

/// A line that does not start with `%` starts no section.
pub proof fn law_other_lines_start_no_section(line: Seq<char>)
    requires
        !text::starts_with(line, "%"@),
    ensures
        !specfile::starts_section(line),
{
    reveal_strlit("%");
    if line.len() > 0 && line[0] == '%' {
        assert(line.subrange(0, 1) =~= "%"@);
    }
}

proof fn lemma_value_from(v: Seq<Seq<char>>, prefix: Seq<char>, n: int, i: int)
    requires
        0 <= i <= n < v.len(),
        forall|k: int|
            i <= k < n ==> !text::starts_with(#[trigger] v[k], prefix) || text::trim(
                v[k].skip(prefix.len() as int),
            ).len() == 0,
        text::starts_with(v[n], prefix),
        text::trim(v[n].skip(prefix.len() as int)).len() > 0,
    ensures
        specfile::value_from(v, prefix, i) == Some(text::trim(v[n].skip(prefix.len() as int))),
    decreases n - i,
{
    if i < n {
        assert(!text::starts_with(v[i], prefix) || text::trim(v[i].skip(prefix.len() as int)).len()
            == 0);
        lemma_value_from(v, prefix, n, i + 1);
    }
}

/// The value of a tag is what its first line gives, without the white space around it.
pub proof fn law_tag_value_is_read(
    before: Seq<Seq<char>>,
    tag: Seq<char>,
    a: Seq<char>,
    value: Seq<char>,
    b: Seq<char>,
    after: Seq<Seq<char>>,
)
    requires
        log_laws::are_lines(before + seq![tag + ":"@ + a + value + b] + after),
        forall|k: int|
            0 <= k < before.len() ==> !text::starts_with(#[trigger] before[k], tag + ":"@),
        forall|k: int| 0 <= k < a.len() ==> text::is_white(#[trigger] a[k]),
        forall|k: int| 0 <= k < b.len() ==> text::is_white(#[trigger] b[k]),
        value.len() > 0,
        line_laws::is_trimmed(value),
    ensures
        specfile::tag_text(
            log_laws::log_of(before + seq![tag + ":"@ + a + value + b] + after),
            tag,
        ) == Some(value),
{
    let line = tag + ":"@ + a + value + b;
    let v = before + seq![line] + after;
    let key = tag + ":"@;
    log_laws::lemma_lines_of_log(v);
    let n = before.len() as int;
    assert(v[n] == line);
    assert(line.subrange(0, key.len() as int) =~= key);
    assert(line.skip(key.len() as int) =~= a + value + b);
    line_laws::lemma_trim_around(a, value, b);
    assert forall|k: int| 0 <= k < n implies !text::starts_with(#[trigger] v[k], key) by {
        assert(v[k] == before[k]);
    }
    lemma_value_from(v, key, n, 0);
}

/// A tag that no line has has no value.
pub proof fn law_missing_tag_has_no_value(v: Seq<Seq<char>>, tag: Seq<char>)
    requires
        log_laws::are_lines(v),
        forall|k: int| 0 <= k < v.len() ==> !text::starts_with(#[trigger] v[k], tag + ":"@),
    ensures
        specfile::tag_text(log_laws::log_of(v), tag) is None,
{
    log_laws::lemma_lines_of_log(v);
    lemma_no_value_from(v, tag + ":"@, 0);
}

proof fn lemma_no_value_from(v: Seq<Seq<char>>, prefix: Seq<char>, i: int)
    requires
        forall|k: int| 0 <= k < v.len() ==> !text::starts_with(#[trigger] v[k], prefix),
    ensures
        specfile::value_from(v, prefix, i) is None,
    decreases v.len() - i,
{
    if 0 <= i < v.len() {
        assert(!text::starts_with(v[i], prefix));
        lemma_no_value_from(v, prefix, i + 1);
    }
}

/// A line that gives a tag other than `Name`.
pub open spec fn is_other_tag(line: Seq<char>, key: Seq<char>, value: Seq<char>) -> bool {
    &&& line == key + ":"@ + value
    &&& !key.contains(':')
    &&& text::trim(key) != "Name"@
}

proof fn lemma_colon(key: Seq<char>, value: Seq<char>)
    requires
        !key.contains(':'),
    ensures
        pieces::split_once(key + ":"@ + value, ":"@) == Some((key, value)),
{
    reveal_strlit(":");
    let line = key + ":"@ + value;
    let n = key.len() as int;
    assert(line.subrange(n, n + 1) =~= ":"@);
    assert forall|j: int| 0 <= j < n implies !#[trigger] text::occurs_at(line, ":"@, j) by {
        if text::occurs_at(line, ":"@, j) {
            assert(line.subrange(j, j + 1)[0] == line[j]);
            assert(line[j] == key[j]);
            assert(key.contains(key[j]));
        }
    }
    target_laws::lemma_find_is(line, ":"@, n);
    assert(line.take(n) =~= key);
    assert(line.skip(n + 1) =~= value);
}

proof fn lemma_name_from(
    v: Seq<Seq<char>>,
    keys: Seq<Seq<char>>,
    values: Seq<Seq<char>>,
    n: int,
    i: int,
)
    requires
        0 <= i <= n <= v.len(),
        keys.len() == n,
        values.len() == n,
        forall|k: int| 0 <= k < n ==> is_other_tag(#[trigger] v[k], keys[k], values[k]),
    ensures
        specfile::name_from(v, i) == specfile::name_from(v, n),
    decreases n - i,
{
    if i < n {
        assert(is_other_tag(v[i], keys[i], values[i]));
        lemma_colon(keys[i], values[i]);
        lemma_name_from(v, keys, values, n, i + 1);
    }
}

/// A package is named by the `Name` that its spec declares behind other tags, if that is no
/// macro; and its name starts with `python-`.
pub proof fn law_package_is_named_by_its_spec(
    before: Seq<Seq<char>>,
    keys: Seq<Seq<char>>,
    values: Seq<Seq<char>>,
    w: Seq<char>,
    name: Seq<char>,
    after: Seq<Seq<char>>,
    file_name: Seq<char>,
)
    requires
        log_laws::are_lines(before + seq!["Name:"@ + w + name] + after),
        keys.len() == before.len(),
        values.len() == before.len(),
        forall|k: int|
            0 <= k < before.len() ==> is_other_tag(#[trigger] before[k], keys[k], values[k]),
        forall|k: int| 0 <= k < w.len() ==> text::is_white(#[trigger] w[k]),
        name.len() > 0,
        line_laws::is_trimmed(name),
    ensures
        ({
            let s = log_laws::log_of(before + seq!["Name:"@ + w + name] + after);
            &&& !text::contains(name, "%{"@) ==> specfile::declared_name(s) == Some(name)
                && workflow::spec_package(Some(s), file_name) == Some(upstream::package_name(name))
            &&& text::contains(name, "%{"@) ==> specfile::declared_name(s) is None
                && workflow::spec_package(Some(s), file_name) == workflow::spec_package(
                None,
                file_name,
            )
        }),
{
    reveal_strlit("Name:");
    reveal_strlit("Name");
    reveal_strlit(":");
    let line = "Name:"@ + w + name;
    let v = before + seq![line] + after;
    log_laws::lemma_lines_of_log(v);
    let n = before.len() as int;
    assert forall|k: int| 0 <= k < n implies is_other_tag(#[trigger] v[k], keys[k], values[k]) by {
        assert(is_other_tag(before[k], keys[k], values[k]));
    }
    lemma_name_from(v, keys, values, n, 0);
    assert(v[n] == line);
    let value = w + name;
    assert(line =~= "Name"@ + ":"@ + value);
    assert(!"Name"@.contains(':'));
    lemma_colon("Name"@, value);
    line_laws::lemma_trim("Name"@);
    assert(value =~= w + name + Seq::<char>::empty());
    line_laws::lemma_trim_around(w, name, Seq::empty());
}

/// A package whose spec declares no name is named by the file of the spec, without its ending and
/// without what a source service puts before it.
pub proof fn law_package_is_named_by_its_file(base: Seq<char>)
    requires
        base.len() > 0,
        !text::starts_with(base, "_service:obs_scm:"@),
    ensures
        specfile::spec_base_name(base + ".spec"@) == Some(base),
        specfile::spec_base_name("_service:obs_scm:"@ + base + ".spec"@) == Some(base),
        workflow::spec_package(None, base + ".spec"@) == Some(upstream::package_name(base)),
{
    reveal_strlit(".spec");
    let name = base + ".spec"@;
    assert(name.subrange(base.len() as int, name.len() as int) =~= ".spec"@);
    assert(name.take(base.len() as int) =~= base);
    let p = "_service:obs_scm:"@;
    let stem = p + base;
    let long = p + base + ".spec"@;
    assert(long.subrange(stem.len() as int, long.len() as int) =~= ".spec"@);
    assert(long.take(stem.len() as int) =~= stem);
    assert(stem.subrange(0, p.len() as int) =~= p);
    assert(stem.skip(p.len() as int) =~= base);
}

/// A file that is no spec names no package.
pub proof fn law_other_files_name_nothing(file_name: Seq<char>)
    requires
        !text::ends_with(file_name, ".spec"@),
    ensures
        specfile::spec_base_name(file_name) is None,
        workflow::spec_package(None, file_name) is None,
{
}

} // verus!
