//! Laws of what is sent to the build service, and of the evidence that logs give.
use vstd::prelude::*;

use crate::evidence;
use crate::issue::IssueModel;
use crate::line_laws;
use crate::log_laws;
use crate::log_message_laws;
use crate::obs_api;
use crate::obs_api::{EbfStep, SubmissionModel};
use crate::set_laws;
use crate::text;

verus! {

/// What a reader of an XML document makes of a text in it: the five names of characters stand for
/// these, and everything else for itself.
pub open spec fn xml_read(s: Seq<char>) -> Seq<char>
    decreases s.len(),
{
    if s.len() == 0 {
        seq![]
    } else if text::starts_with(s, "&amp;"@) && s.len() >= 5 {
        seq!['&'] + xml_read(s.skip(5))
    } else if text::starts_with(s, "&lt;"@) && s.len() >= 4 {
        seq!['<'] + xml_read(s.skip(4))
    } else if text::starts_with(s, "&gt;"@) && s.len() >= 4 {
        seq!['>'] + xml_read(s.skip(4))
    } else if text::starts_with(s, "&quot;"@) && s.len() >= 6 {
        seq!['"'] + xml_read(s.skip(6))
    } else if text::starts_with(s, "&apos;"@) && s.len() >= 6 {
        seq!['\''] + xml_read(s.skip(6))
    } else {
        seq![s[0]] + xml_read(s.skip(1))
    }
}

proof fn lemma_xml_first(s: Seq<char>)
    requires
        s.len() > 0,
    ensures
        obs_api::xml_text(s) == obs_api::xml_char(s[0]) + obs_api::xml_text(s.drop_first()),
    decreases s.len(),
{
    let rest = s.drop_last();
    if rest.len() == 0 {
        assert(s.drop_first() =~= seq![]);
        assert(obs_api::xml_text(rest) =~= seq![]);
        assert(obs_api::xml_text(s) =~= obs_api::xml_char(s[0]) + obs_api::xml_text(
            s.drop_first(),
        ));
    } else {
        lemma_xml_first(rest);
        assert(s.drop_first().drop_last() =~= rest.drop_first());
        assert(s.drop_first().last() == s.last());
        assert(obs_api::xml_text(s) =~= obs_api::xml_char(s[0]) + obs_api::xml_text(
            s.drop_first(),
        ));
    }
}

proof fn lemma_xml_read_char(c: char, rest: Seq<char>)
    ensures
        xml_read(obs_api::xml_char(c) + rest) == seq![c] + xml_read(rest),
{
    reveal_strlit("&amp;");
    reveal_strlit("&lt;");
    reveal_strlit("&gt;");
    reveal_strlit("&quot;");
    reveal_strlit("&apos;");
    let x = obs_api::xml_char(c);
    let s = x + rest;
    assert(s.subrange(0, x.len() as int) =~= x);
    assert(s.skip(x.len() as int) =~= rest);
    lemma_other_start(s, x, "&amp;"@);
    lemma_other_start(s, x, "&lt;"@);
    lemma_other_start(s, x, "&gt;"@);
    lemma_other_start(s, x, "&quot;"@);
    lemma_other_start(s, x, "&apos;"@);
}

/// A text that starts with one name does not start with another that differs from it.
proof fn lemma_other_start(s: Seq<char>, x: Seq<char>, name: Seq<char>)
    requires
        x.len() > 0,
        text::starts_with(s, x),
        name.len() > 0,
    ensures
        text::starts_with(s, name) ==> name[0] == x[0],
        text::starts_with(s, name) && name.len() > 1 && x.len() > 1 ==> name[1] == x[1],
        text::starts_with(s, name) && name.len() > 2 && x.len() > 2 ==> name[2] == x[2],
{
    if text::starts_with(s, name) {
        let a = s.subrange(0, x.len() as int);
        let b = s.subrange(0, name.len() as int);
        assert(a[0] == b[0]);
        if name.len() > 1 && x.len() > 1 {
            assert(a[1] == b[1]);
        }
        if name.len() > 2 && x.len() > 2 {
            assert(a[2] == b[2]);
        }
    }
}

/// A text that is put into an XML document is read as it was.
pub proof fn law_escaped_text_is_read_back(s: Seq<char>)
    ensures
        xml_read(obs_api::xml_text(s)) == s,
    decreases s.len(),
{
    if s.len() > 0 {
        lemma_xml_first(s);
        law_escaped_text_is_read_back(s.drop_first());
        lemma_xml_read_char(s[0], obs_api::xml_text(s.drop_first()));
        assert(seq![s[0]] + s.drop_first() =~= s);
    }
}

/// A text without characters that mean something in XML is put into a document as it is.
pub proof fn law_plain_text_is_not_escaped(s: Seq<char>)
    requires
        forall|i: int|
            0 <= i < s.len() ==> #[trigger] s[i] != '&' && s[i] != '<' && s[i] != '>' && s[i]
                != '"' && s[i] != '\'',
    ensures
        obs_api::xml_text(s) == s,
    decreases s.len(),
{
    if s.len() > 0 {
        let rest = s.drop_last();
        assert forall|i: int|
            0 <= i < rest.len() implies #[trigger] rest[i] != '&' && rest[i] != '<' && rest[i]
            != '>' && rest[i] != '"' && rest[i] != '\'' by {
            assert(rest[i] == s[i]);
        }
        law_plain_text_is_not_escaped(rest);
        assert(s[s.len() - 1] == s.last());
        assert(rest + seq![s.last()] =~= s);
    }
}

/// The document that describes a package names the package and the project in its attributes, and
/// the package in its title.
pub proof fn law_description_names_the_package(project: Seq<char>, package: Seq<char>)
    ensures
        ({
            let doc = obs_api::meta_document(project, package);
            let p = obs_api::xml_text(package);
            &&& text::contains(doc, "name=\""@ + p + "\" project=\""@ + obs_api::xml_text(project) + "\""@)
            &&& text::contains(doc, "<title>"@ + p + "</title>"@)
        }),
{
    reveal_strlit("<package name=\"");
    reveal_strlit("name=\"");
    reveal_strlit("\" project=\"");
    reveal_strlit("\">\n  <title>");
    reveal_strlit("\"");
    reveal_strlit("<title>");
    reveal_strlit("</title>");
    reveal_strlit("</title>\n  <description>Auto-generated package for ");
    let doc = obs_api::meta_document(project, package);
    let p = obs_api::xml_text(package);
    let q = obs_api::xml_text(project);
    let a = "name=\""@ + p + "\" project=\""@ + q + "\""@;
    assert(doc.subrange(9, 9int + a.len()) =~= a);
    log_laws::lemma_contains_at(doc, a, 9);
    let b = "<title>"@ + p + "</title>"@;
    let n = 31int + p.len() + q.len();
    assert(doc.subrange(n, n + b.len()) =~= b);
    log_laws::lemma_contains_at(doc, b, n);
}

/// The document that says where the sources come from names the repository, the revision and the
/// directory of the package.
pub proof fn law_service_names_the_sources(
    package: Seq<char>,
    revision: Seq<char>,
    repo_url: Seq<char>,
)
    ensures
        ({
            let doc = obs_api::service_document(package, revision, repo_url);
            &&& text::contains(doc, "\"url\">"@ + obs_api::xml_text(repo_url) + "</param>"@)
            &&& text::contains(doc, "\"revision\">"@ + obs_api::xml_text(revision) + "</param>"@)
            &&& text::contains(doc, "\"extract\">SPECS/"@ + obs_api::xml_text(package) + "/*</param>"@)
        }),
{
    let one =
        "<services>\n  <service name=\"obs_scm\">\n    <param name=\"scm\">git</param>\n    <param name=\"url\">"@;
    let two = "</param>\n    <param name=\"revision\">"@;
    let three = "</param>\n    <param name=\"extract\">SPECS/"@;
    let four = "/*</param>\n  </service>\n  <service name=\"download_files\"/>\n</services>"@;
    reveal_strlit(
        "<services>\n  <service name=\"obs_scm\">\n    <param name=\"scm\">git</param>\n    <param name=\"url\">",
    );
    reveal_strlit("</param>\n    <param name=\"revision\">");
    reveal_strlit("</param>\n    <param name=\"extract\">SPECS/");
    reveal_strlit("/*</param>\n  </service>\n  <service name=\"download_files\"/>\n</services>");
    reveal_strlit("\"url\">");
    reveal_strlit("\"revision\">");
    reveal_strlit("\"extract\">SPECS/");
    reveal_strlit("</param>");
    reveal_strlit("/*</param>");
    let doc = obs_api::service_document(package, revision, repo_url);
    let u = obs_api::xml_text(repo_url);
    let r = obs_api::xml_text(revision);
    let p = obs_api::xml_text(package);
    let a = "\"url\">"@ + u + "</param>"@;
    let i = one.len() - 6;
    assert(doc.subrange(i, i + a.len()) =~= a);
    log_laws::lemma_contains_at(doc, a, i);
    let b = "\"revision\">"@ + r + "</param>"@;
    let j = one.len() + u.len() + two.len() - 11;
    assert(doc.subrange(j, j + b.len()) =~= b);
    log_laws::lemma_contains_at(doc, b, j);
    let c = "\"extract\">SPECS/"@ + p + "/*</param>"@;
    let k = one.len() + u.len() + two.len() + r.len() + three.len() - 16;
    assert(doc.subrange(k, k + c.len()) =~= c);
    log_laws::lemma_contains_at(doc, c, k);
}

/// A setting is what the first line gives that starts with its key, without the white space around
/// the line and the value.
pub proof fn law_setting_is_read(
    v: Seq<Seq<char>>,
    key: Seq<char>,
    value: Seq<char>,
    a: Seq<char>,
    b: Seq<char>,
    c: Seq<char>,
    n: int,
)
    requires
        0 <= n < v.len(),
        v[n] == a + key + b + value + c,
        forall|k: int| 0 <= k < a.len() ==> text::is_white(#[trigger] a[k]),
        forall|k: int| 0 <= k < b.len() ==> text::is_white(#[trigger] b[k]),
        forall|k: int| 0 <= k < c.len() ==> text::is_white(#[trigger] c[k]),
        key.len() > 0,
        line_laws::is_trimmed(key),
        value.len() > 0,
        line_laws::is_trimmed(value),
        forall|k: int| 0 <= k < n ==> !text::starts_with(text::trim(#[trigger] v[k]), key),
    ensures
        obs_api::setting_from(v, key, 0) == Some(value),
{
    let inner = key + b + value;
    assert(v[n] =~= a + inner + c);
    assert(inner[0] == key[0]);
    assert(inner.last() == value.last());
    line_laws::lemma_trim_around(a, inner, c);
    assert(inner.subrange(0, key.len() as int) =~= key);
    assert(inner.skip(key.len() as int) =~= b + value + Seq::<char>::empty());
    line_laws::lemma_trim_around(b, value, Seq::empty());
    lemma_setting_from(v, key, value, n, 0);
}

proof fn lemma_setting_from(v: Seq<Seq<char>>, key: Seq<char>, value: Seq<char>, n: int, i: int)
    requires
        0 <= i <= n < v.len(),
        text::strip_prefix(text::trim(v[n]), key) is Some,
        text::trim(text::strip_prefix(text::trim(v[n]), key)->0) == value,
        forall|k: int| 0 <= k < n ==> !text::starts_with(text::trim(#[trigger] v[k]), key),
    ensures
        obs_api::setting_from(v, key, i) == Some(value),
    decreases n - i,
{
    if i < n {
        assert(!text::starts_with(text::trim(v[i]), key));
        lemma_setting_from(v, key, value, n, i + 1);
    }
}

/// A submission after `n` steps for a component that all have been done, from `step` on.
pub open spec fn after_steps(
    state: SubmissionModel,
    component: Seq<char>,
    step: EbfStep,
    n: nat,
) -> (SubmissionModel, EbfStep)
    decreases n,
{
    if n == 0 {
        (state, step)
    } else {
        let (before, at) = after_steps(state, component, step, (n - 1) as nat);
        (obs_api::after_step(before, component, at, None), obs_api::next_step(at))
    }
}

/// A component whose steps all are done is described, given its sources, committed and built, in
/// this order, and then counts as done. One that exists is not described again.
pub proof fn law_component_goes_through_its_steps(state: SubmissionModel, component: Seq<char>)
    requires
        state.success_count < usize::MAX,
    ensures
        obs_api::next_step(EbfStep::CreateMeta) == EbfStep::UploadService,
        obs_api::next_step(EbfStep::UploadService) == EbfStep::Commit,
        obs_api::next_step(EbfStep::Commit) == EbfStep::TriggerRebuild,
        after_steps(state, component, EbfStep::CreateMeta, 4).1 == EbfStep::Finished,
        after_steps(state, component, EbfStep::CreateMeta, 4).0.success_count
            == state.success_count + 1,
        after_steps(state, component, EbfStep::CreateMeta, 4).0.failed == state.failed,
        after_steps(state, component, EbfStep::CreateMeta, 3).0.success_count
            == state.success_count,
        after_steps(state, component, EbfStep::UploadService, 3).1 == EbfStep::Finished,
        after_steps(state, component, EbfStep::UploadService, 3).0.success_count
            == state.success_count + 1,
        after_steps(state, component, EbfStep::UploadService, 3).0.failed == state.failed,
{
    reveal_with_fuel(after_steps, 5);
}

/// A step that fails puts its component among those that failed, except the last: that a rebuild
/// was not taken does not undo the commit.
pub proof fn law_failed_step_fails_its_component(
    state: SubmissionModel,
    component: Seq<char>,
    step: EbfStep,
    error: Seq<char>,
)
    requires
        step != EbfStep::Finished,
        state.success_count < usize::MAX,
    ensures
        ({
            let after = obs_api::after_step(state, component, step, Some(error));
            &&& step != EbfStep::TriggerRebuild ==> after.failed == state.failed.push(component)
                && after.success_count == state.success_count && text::ends_with(
                after.messages,
                error + "\n"@,
            )
            &&& step == EbfStep::TriggerRebuild ==> after.failed == state.failed
                && after.success_count == state.success_count + 1
            &&& text::starts_with(after.messages, state.messages)
        }),
{
    let after = obs_api::after_step(state, component, step, Some(error));
    let m = state.messages;
    assert(after.messages.subrange(0, m.len() as int) =~= m);
    if step != EbfStep::TriggerRebuild {
        let tail = error + "\n"@;
        let n = after.messages.len();
        assert(after.messages.subrange(n - tail.len(), n as int) =~= tail);
    }
}

proof fn lemma_speaking(lines: Seq<Seq<char>>, words: Seq<Seq<char>>, j: int)
    requires
        0 <= j < lines.len(),
        evidence::speaks(text::trim(lines[j]), words),
    ensures
        evidence::speaking(lines, words).contains(text::trim(lines[j])),
    decreases lines.len(),
{
    let rest = lines.drop_last();
    let before = evidence::speaking(rest, words);
    let last = text::trim(lines.last());
    set_laws::lemma_push_texts(before, last);
    if j < rest.len() {
        assert(rest[j] == lines[j]);
        lemma_speaking(rest, words, j);
    } else {
        assert(lines[j] == lines.last());
    }
}

/// As long as there is room, every line of a log that holds a word that is looked for is evidence.
pub proof fn law_evidence_is_complete(
    issue: IssueModel,
    words: Seq<Seq<char>>,
    v: Seq<Seq<char>>,
    j: int,
    i: int,
)
    requires
        log_laws::are_lines(v),
        0 <= j < v.len(),
        0 <= i < words.len(),
        words[i].len() > 0,
        line_laws::is_trimmed(words[i]),
        text::contains(v[j], words[i]),
        evidence::evidence(issue, Some(words), log_laws::log_of(v)).len() < 20,
    ensures
        evidence::evidence(issue, Some(words), log_laws::log_of(v)).contains(text::trim(v[j])),
{
    log_laws::lemma_lines_of_log(v);
    log_laws::lemma_contains_trim(v[j], words[i]);
    assert(evidence::speaks(text::trim(v[j]), words));
    lemma_speaking(v, words, j);
}

/// Each of `names` is one of the words that are looked for.
pub open spec fn looks_for(words: Option<Seq<Seq<char>>>, names: Seq<Seq<char>>) -> bool {
    &&& words is Some
    &&& forall|i: int| 0 <= i < names.len() ==> words->0.contains(#[trigger] names[i])
}

proof fn lemma_add_contains(a: Seq<Seq<char>>, b: Seq<Seq<char>>)
    ensures
        forall|i: int| 0 <= i < a.len() ==> (a + b).contains(#[trigger] a[i]),
        forall|i: int| 0 <= i < b.len() ==> (a + b).contains(#[trigger] b[i]),
{
    assert forall|i: int| 0 <= i < a.len() implies (a + b).contains(#[trigger] a[i]) by {
        assert((a + b)[i] == a[i]);
    }
    assert forall|i: int| 0 <= i < b.len() implies (a + b).contains(#[trigger] b[i]) by {
        assert((a + b)[a.len() + i] == b[i]);
    }
}

/// The evidence for an issue is looked for by what the issue names, in both kinds of logs.
pub proof fn law_evidence_names_the_issue(issue: IssueModel)
    ensures
        match issue {
            IssueModel::MissingBuildDependencies { deps } => looks_for(
                evidence::local_words(issue),
                deps,
            ) && looks_for(evidence::remote_words(issue), deps),
            IssueModel::DependencyUnresolvable { deps } => looks_for(
                evidence::local_words(issue),
                deps,
            ) && looks_for(evidence::remote_words(issue), deps) && looks_for(
                evidence::local_words(issue),
                seq!["nothing provides"@],
            ) && looks_for(evidence::remote_words(issue), seq!["nothing provides"@]),
            IssueModel::MissingPythonModule { module, .. } => looks_for(
                evidence::local_words(issue),
                seq![module],
            ) && looks_for(evidence::remote_words(issue), seq![module]),
            IssueModel::ImportCheckExclusions { modules, missing_modules, .. } => looks_for(
                evidence::local_words(issue),
                modules,
            ) && looks_for(evidence::local_words(issue), missing_modules) && looks_for(
                evidence::remote_words(issue),
                modules,
            ) && looks_for(evidence::remote_words(issue), missing_modules),
            IssueModel::InstalledButUnpackagedFiles { files } => looks_for(
                evidence::local_words(issue),
                files,
            ) && looks_for(evidence::remote_words(issue), files),
            IssueModel::ArchDependentInNoarch => looks_for(
                evidence::local_words(issue),
                seq!["Arch dependent binaries in noarch package"@],
            ) && looks_for(
                evidence::remote_words(issue),
                seq!["Arch dependent binaries in noarch package"@],
            ),
            IssueModel::MissingPep639LicenseMetadata => looks_for(
                evidence::local_words(issue),
                seq!["No License-File (PEP 639)"@],
            ) && looks_for(evidence::remote_words(issue), seq!["No License-File (PEP 639)"@]),
            IssueModel::InstallModuleMismatch { wrong_module, suggested_module } => looks_for(
                evidence::local_words(issue),
                seq![wrong_module, suggested_module],
            ) && looks_for(evidence::remote_words(issue), seq![wrong_module, suggested_module]),
            IssueModel::EmptyImportCheck => looks_for(
                evidence::local_words(issue),
                seq!["No modules to check were left"@],
            ) && looks_for(
                evidence::remote_words(issue),
                seq!["No modules to check were left"@],
            ),
            _ => true,
        },
{
    match issue {
        IssueModel::MissingBuildDependencies { deps } => {
            assert forall|i: int| 0 <= i < deps.len() implies deps.contains(#[trigger] deps[i]) by {
            }
            lemma_add_contains(deps, seq!["nothing provides"@, "Failed build dependencies:"@]);
        },
        IssueModel::DependencyUnresolvable { deps } => {
            let a = seq!["nothing provides"@, "unresolvable"@];
            let b = seq!["nothing provides"@, "Failed build dependencies:"@];
            lemma_add_contains(deps, a);
            lemma_add_contains(deps, b);
            assert(a[0] == "nothing provides"@);
            assert(b[0] == "nothing provides"@);
        },
        IssueModel::MissingPythonModule { module, import_context } => {
            let a = seq![module, "No module named"@];
            lemma_add_contains(a, evidence::opt_word(import_context));
            assert(a[0] == module);
            assert(a.contains(a[0]));
        },
        IssueModel::ImportCheckExclusions { modules, missing_modules, .. } => {
            let end = seq!["ModuleNotFoundError"@, "ImportError"@];
            lemma_add_contains(modules, missing_modules);
            lemma_add_contains(modules + missing_modules, end);
            let all = modules + missing_modules + end;
            assert forall|i: int| 0 <= i < modules.len() implies all.contains(
                #[trigger] modules[i],
            ) by {
                assert(all[i] == modules[i]);
            }
            assert forall|i: int| 0 <= i < missing_modules.len() implies all.contains(
                #[trigger] missing_modules[i],
            ) by {
                assert(all[modules.len() + i] == missing_modules[i]);
            }
        },
        IssueModel::InstalledButUnpackagedFiles { files } => {
            lemma_add_contains(files, seq!["Installed but unpackaged files found"@]);
        },
        IssueModel::InstallModuleMismatch { wrong_module, suggested_module } => {
            let a = seq!["Globs did not match any module"@, wrong_module, suggested_module];
            assert(a[1] == wrong_module && a[2] == suggested_module);
            assert(a.contains(a[1]) && a.contains(a[2]));
        },
        IssueModel::EmptyImportCheck => {
            let a = seq!["import_all_modules.py"@, "No modules to check were left"@];
            assert(a[1] == "No modules to check were left"@);
            assert(a.contains(a[1]));
        },
        IssueModel::ArchDependentInNoarch => {
            let a = seq!["Arch dependent binaries in noarch package"@];
            assert(a.contains(a[0]));
        },
        IssueModel::MissingPep639LicenseMetadata => {
            let a = seq!["No License-File (PEP 639)"@];
            assert(a.contains(a[0]));
        },
        _ => {},
    }
}

/// An issue that was found by nothing but its important lines gives these as evidence.
pub proof fn law_important_lines_are_evidence(
    issue: IssueModel,
    lines: Seq<Seq<char>>,
    log: Seq<char>,
)
    requires
        issue == (IssueModel::CExtensionCompileError { important_lines: lines }) || issue == (
        IssueModel::TestFailure { important_lines: lines }) || issue == (
        IssueModel::PatchApplyError { important_lines: lines }) || issue == (
        IssueModel::Unknown { important_lines: lines }),
        lines.no_duplicates(),
        lines.len() <= 20,
    ensures
        evidence::evidence(issue, evidence::local_words(issue), log) == lines,
        evidence::evidence(issue, evidence::remote_words(issue), log) == lines,
{
    log_message_laws::lemma_unique_is_add_all(lines);
    log_laws::lemma_all_unique_of_empty(lines);
}

} // verus!
