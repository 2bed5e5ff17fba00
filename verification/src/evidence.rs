//! The lines of a build log that speak for an issue.
use vstd::prelude::*;

use crate::analyzer;
use crate::issue::{BuildIssue, IssueModel};
use crate::pieces;
use crate::pieces::{copy_texts, lines_of, push_unique, unique_texts};
use crate::report::push_line;
use crate::text;
use crate::text::{holds, trimmed};

verus! {

/// How many lines are kept.
pub const MAX_EVIDENCE: usize = 20;

pub open spec fn opt_word(o: Option<Seq<char>>) -> Seq<Seq<char>> {
    match o {
        Some(s) => seq![s],
        None => seq![],
    }
}

/// The words of which a line of a local build log holds one where it speaks for `issue`; none for
/// an issue that brings its own lines.
pub open spec fn local_words(issue: IssueModel) -> Option<Seq<Seq<char>>> {
    match issue {
        IssueModel::MissingBuildDependencies { deps } => Some(deps),
        IssueModel::DependencyUnresolvable { deps } => Some(
            deps + seq!["nothing provides"@, "unresolvable"@],
        ),
        IssueModel::PyprojectBackendMissing { deps } => Some(deps),
        IssueModel::MissingPythonModule { module, import_context } => Some(
            seq![module, "No module named"@] + opt_word(import_context),
        ),
        _ => shared_words(issue),
    }
}

/// The same for the log of a build on the service.
pub open spec fn remote_words(issue: IssueModel) -> Option<Seq<Seq<char>>> {
    match issue {
        IssueModel::MissingBuildDependencies { deps } => Some(
            deps + seq!["nothing provides"@, "Failed build dependencies:"@],
        ),
        IssueModel::DependencyUnresolvable { deps } => Some(
            deps + seq!["nothing provides"@, "Failed build dependencies:"@],
        ),
        IssueModel::PyprojectBackendMissing { deps } => Some(
            deps + seq!["nothing provides"@, "Failed build dependencies:"@],
        ),
        IssueModel::MissingPythonModule { module, .. } => Some(seq![module, "No module named"@]),
        _ => shared_words(issue),
    }
}

/// The words of the issues for which both logs are read alike.
pub open spec fn shared_words(issue: IssueModel) -> Option<Seq<Seq<char>>> {
    match issue {
        IssueModel::ImportCheckExclusions { modules, missing_modules, .. } => Some(
            modules + missing_modules + seq!["ModuleNotFoundError"@, "ImportError"@],
        ),
        IssueModel::InstalledButUnpackagedFiles { files } => Some(
            files + seq!["Installed but unpackaged files found"@],
        ),
        IssueModel::ArchDependentInNoarch => Some(
            seq!["Arch dependent binaries in noarch package"@],
        ),
        IssueModel::MissingPep639LicenseMetadata => Some(seq!["No License-File (PEP 639)"@]),
        IssueModel::InstallModuleMismatch { wrong_module, suggested_module } => Some(
            seq!["Globs did not match any module"@, wrong_module, suggested_module],
        ),
        IssueModel::EmptyImportCheck => Some(
            seq!["import_all_modules.py"@, "No modules to check were left"@],
        ),
        _ => None,
    }
}

/// The lines that an issue brings itself.
pub open spec fn own_lines(issue: IssueModel) -> Seq<Seq<char>> {
    match issue {
        IssueModel::CExtensionCompileError { important_lines } => important_lines,
        IssueModel::TestFailure { important_lines } => important_lines,
        IssueModel::PatchApplyError { important_lines } => important_lines,
        IssueModel::Unknown { important_lines } => important_lines,
        _ => seq![],
    }
}

/// A line holds one of `words`.
pub open spec fn speaks(line: Seq<char>, words: Seq<Seq<char>>) -> bool {
    exists|i: int| 0 <= i < words.len() && text::contains(line, #[trigger] words[i])
}

/// The trimmed lines that hold one of `words`, each once, in the order of their first occurrence.
pub open spec fn speaking(lines: Seq<Seq<char>>, words: Seq<Seq<char>>) -> Seq<Seq<char>>
    decreases lines.len(),
{
    if lines.len() == 0 {
        seq![]
    } else {
        let before = speaking(lines.drop_last(), words);
        let line = text::trim(lines.last());
        if speaks(line, words) {
            pieces::add_unique(before, line)
        } else {
            before
        }
    }
}

/// The evidence that a log gives by `words`, or else what the issue brings itself.
pub open spec fn evidence(issue: IssueModel, words: Option<Seq<Seq<char>>>, log: Seq<char>) -> Seq<
    Seq<char>,
> {
    analyzer::at_most(
        match words {
            Some(words) => speaking(pieces::lines(log), words),
            None => pieces::unique(own_lines(issue)),
        },
        MAX_EVIDENCE as int,
    )
}

fn speaks_of(line: &str, words: &[String]) -> (r: bool)
    ensures
        r == speaks(line@, text::texts(words@)),
{
    let mut i: usize = 0;
    while i < words.len()
        invariant
            i <= words@.len(),
            forall|k: int|
                0 <= k < i ==> !text::contains(line@, #[trigger] text::texts(words@)[k]),
        decreases words@.len() - i,
    {
        assert(text::texts(words@)[i as int] == words@[i as int]@);
        if holds(line, words[i].as_str()) {
            return true;
        }
        i += 1;
    }
    false
}

fn speaking_lines(log: &str, words: &[String]) -> (r: Vec<String>)
    ensures
        text::texts(r@) == speaking(pieces::lines(log@), text::texts(words@)),
{
    let lines = lines_of(log);
    let ghost all = text::texts(lines@);
    let ghost w = text::texts(words@);
    let mut out: Vec<String> = Vec::new();
    let mut i: usize = 0;
    assert(text::texts(out@) =~= speaking(all.take(0), w));
    while i < lines.len()
        invariant
            i <= lines@.len(),
            all == text::texts(lines@),
            w == text::texts(words@),
            text::texts(out@) == speaking(all.take(i as int), w),
        decreases lines@.len() - i,
    {
        let line = trimmed(lines[i].as_str());
        assert(all[i as int] == lines@[i as int]@);
        if speaks_of(line.as_str(), words) {
            push_unique(&mut out, line.as_str());
        }
        i += 1;
        assert(all.take(i as int).drop_last() =~= all.take(i - 1));
    }
    assert(all.take(all.len() as int) =~= all);
    out
}

fn first_lines(v: Vec<String>) -> (r: Vec<String>)
    ensures
        text::texts(r@) == analyzer::at_most(text::texts(v@), MAX_EVIDENCE as int),
{
    let mut out = v;
    if out.len() > MAX_EVIDENCE {
        out.truncate(MAX_EVIDENCE);
        assert(text::texts(out@) =~= analyzer::at_most(text::texts(v@), MAX_EVIDENCE as int));
    }
    out
}

fn with_words(v: &[String], a: &str, b: &str) -> (r: Vec<String>)
    ensures
        text::texts(r@) == text::texts(v@) + seq![a@, b@],
{
    let mut out = copy_texts(v);
    push_line(&mut out, a.to_owned());
    push_line(&mut out, b.to_owned());
    assert(text::texts(out@) =~= text::texts(v@) + seq![a@, b@]);
    out
}

fn with_word(v: &[String], a: &str) -> (r: Vec<String>)
    ensures
        text::texts(r@) == text::texts(v@) + seq![a@],
{
    let mut out = copy_texts(v);
    push_line(&mut out, a.to_owned());
    assert(text::texts(out@) =~= text::texts(v@) + seq![a@]);
    out
}

fn two_words(a: &str, b: &str) -> (r: Vec<String>)
    ensures
        text::texts(r@) == seq![a@, b@],
{
    let mut out: Vec<String> = Vec::new();
    push_line(&mut out, a.to_owned());
    push_line(&mut out, b.to_owned());
    assert(text::texts(out@) =~= seq![a@, b@]);
    out
}

fn one_word(a: &str) -> (r: Vec<String>)
    ensures
        text::texts(r@) == seq![a@],
{
    let mut out: Vec<String> = Vec::new();
    push_line(&mut out, a.to_owned());
    assert(text::texts(out@) =~= seq![a@]);
    out
}

fn shared_words_of(issue: &BuildIssue) -> (r: Option<Vec<String>>)
    ensures
        text::opt_texts(r) == shared_words(issue@),
{
    match issue {
        BuildIssue::ImportCheckExclusions { modules, missing_modules, exclusions: _ } => {
            let mut words = copy_texts(modules);
            let ghost first = text::texts(words@);
            let mut i: usize = 0;
            assert(first =~= first + text::texts(missing_modules@).take(0));
            while i < missing_modules.len()
                invariant
                    i <= missing_modules@.len(),
                    text::texts(words@) == first + text::texts(missing_modules@).take(i as int),
                decreases missing_modules@.len() - i,
            {
                push_line(&mut words, missing_modules[i].clone());
                i += 1;
                assert(text::texts(words@) =~= first + text::texts(missing_modules@).take(
                    i as int,
                ));
            }
            assert(text::texts(missing_modules@).take(i as int) =~= text::texts(missing_modules@));
            Some(with_words(&words, "ModuleNotFoundError", "ImportError"))
        },
        BuildIssue::InstalledButUnpackagedFiles { files } => Some(
            with_word(files, "Installed but unpackaged files found"),
        ),
        BuildIssue::ArchDependentInNoarch => Some(
            one_word("Arch dependent binaries in noarch package"),
        ),
        BuildIssue::MissingPep639LicenseMetadata => Some(one_word("No License-File (PEP 639)")),
        BuildIssue::InstallModuleMismatch { wrong_module, suggested_module } => {
            let mut words = two_words("Globs did not match any module", wrong_module.as_str());
            push_line(&mut words, suggested_module.clone());
            assert(text::texts(words@) =~= seq![
                "Globs did not match any module"@,
                wrong_module@,
                suggested_module@,
            ]);
            Some(words)
        },
        BuildIssue::EmptyImportCheck => Some(
            two_words("import_all_modules.py", "No modules to check were left"),
        ),
        _ => None,
    }
}

fn own_lines_of(issue: &BuildIssue) -> (r: Vec<String>)
    ensures
        text::texts(r@) == own_lines(issue@),
{
    match issue {
        BuildIssue::CExtensionCompileError { important_lines } => copy_texts(important_lines),
        BuildIssue::TestFailure { important_lines } => copy_texts(important_lines),
        BuildIssue::PatchApplyError { important_lines } => copy_texts(important_lines),
        BuildIssue::Unknown { important_lines } => copy_texts(important_lines),
        _ => {
            let v: Vec<String> = Vec::new();
            assert(text::texts(v@) =~= seq![]);
            v
        },
    }
}

fn evidence_of(issue: &BuildIssue, words: Option<Vec<String>>, log: &str) -> (r: Vec<String>)
    ensures
        text::texts(r@) == evidence(issue@, text::opt_texts(words), log@),
{
    match words {
        Some(words) => first_lines(speaking_lines(log, &words)),
        None => first_lines(unique_texts(&own_lines_of(issue))),
    }
}

/// The lines of a local build log that speak for an issue.
pub fn issue_evidence_lines(issue: &BuildIssue, log: &str) -> (r: Vec<String>)
    ensures
        text::texts(r@) == evidence(issue@, local_words(issue@), log@),
{
    let words: Option<Vec<String>> = match issue {
        BuildIssue::MissingBuildDependencies { deps } => Some(copy_texts(deps)),
        BuildIssue::DependencyUnresolvable { deps } => Some(
            with_words(deps, "nothing provides", "unresolvable"),
        ),
        BuildIssue::PyprojectBackendMissing { deps } => Some(copy_texts(deps)),
        BuildIssue::MissingPythonModule { module, import_context } => {
            let mut words = two_words(module.as_str(), "No module named");
            if let Some(context) = import_context {
                push_line(&mut words, context.clone());
            }
            assert(text::texts(words@) =~= seq![module@, "No module named"@] + opt_word(
                text::opt_text(*import_context),
            ));
            Some(words)
        },
        _ => shared_words_of(issue),
    };
    evidence_of(issue, words, log)
}

/// The lines of the log of a build on the service that speak for an issue.
pub fn remote_issue_evidence_lines(issue: &BuildIssue, log: &str) -> (r: Vec<String>)
    ensures
        text::texts(r@) == evidence(issue@, remote_words(issue@), log@),
{
    let words: Option<Vec<String>> = match issue {
        BuildIssue::MissingBuildDependencies { deps }
        | BuildIssue::DependencyUnresolvable { deps }
        | BuildIssue::PyprojectBackendMissing { deps } => Some(
            with_words(deps, "nothing provides", "Failed build dependencies:"),
        ),
        BuildIssue::MissingPythonModule { module, import_context: _ } => Some(
            two_words(module.as_str(), "No module named"),
        ),
        _ => shared_words_of(issue),
    };
    evidence_of(issue, words, log)
}

proof fn lemma_add_unique(v: Seq<Seq<char>>, s: Seq<char>)
    requires
        v.no_duplicates(),
    ensures
        pieces::add_unique(v, s).no_duplicates(),
{
}

proof fn lemma_speaking(lines: Seq<Seq<char>>, words: Seq<Seq<char>>, k: int)
    ensures
        speaking(lines, words).no_duplicates(),
        0 <= k < speaking(lines, words).len() ==> speaks(speaking(lines, words)[k], words),
    decreases lines.len(),
{
    if lines.len() > 0 {
        lemma_speaking(lines.drop_last(), words, k);
        lemma_add_unique(speaking(lines.drop_last(), words), text::trim(lines.last()));
    }
}

proof fn lemma_unique(items: Seq<Seq<char>>)
    ensures
        pieces::unique(items).no_duplicates(),
    decreases items.len(),
{
    if items.len() > 0 {
        lemma_unique(items.drop_last());
        lemma_add_unique(pieces::unique(items.drop_last()), items.last());
    }
}

/// Evidence is short and says nothing twice.
pub proof fn law_evidence_is_short(
    issue: IssueModel,
    words: Option<Seq<Seq<char>>>,
    log: Seq<char>,
)
    ensures
        evidence(issue, words, log).len() <= MAX_EVIDENCE,
        evidence(issue, words, log).no_duplicates(),
{
    match words {
        Some(words) => {
            lemma_speaking(pieces::lines(log), words, 0);
        },
        None => {
            lemma_unique(own_lines(issue));
        },
    }
}

/// Every line that is taken from a log holds one of the words that were looked for.
pub proof fn law_evidence_speaks(
    issue: IssueModel,
    words: Seq<Seq<char>>,
    log: Seq<char>,
    k: int,
)
    requires
        0 <= k < evidence(issue, Some(words), log).len(),
    ensures
        speaks(evidence(issue, Some(words), log)[k], words),
{
    lemma_speaking(pieces::lines(log), words, k);
}

} // verus!
