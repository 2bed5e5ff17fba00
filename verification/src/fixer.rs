//! Deciding on a fix and applying it to the spec.
use vstd::prelude::*;

use crate::install_laws;
use crate::issue::{ActionModel, BuildAction, BuildIssue, IssueModel};
use crate::keep_laws;
use crate::patterns;
use crate::pieces::copy_texts;
use crate::section_laws;
use crate::spec_laws;
use crate::specfile;
use crate::specfile::{
    add_buildoption_checks, add_buildrequires, add_empty_check_section, append_files_entries,
    fix_buildarch_remove_noarch, fix_buildoption_install,
};
use crate::text;
use crate::upstream;
use crate::upstream::{infer_install_module, SourceTree};

verus! {

/// What is done about an issue.
pub open spec fn action_for(issue: IssueModel) -> ActionModel {
    match issue {
        IssueModel::MissingBuildDependencies { deps } => ActionModel::AddBuildRequires {
            deps,
            reason: "Build log listed missing build dependencies."@,
        },
        IssueModel::DependencyUnresolvable { .. } => ActionModel::NeedHuman {
            reason:
                "Dependency is already in solver resolution but unavailable in the repository; package the dependency or adjust repositories first."@,
            issue,
        },
        IssueModel::ImportCheckExclusions { exclusions, .. } =>
            ActionModel::AddBuildOptionCheckExcludes {
            patterns: exclusions,
            reason:
                "Grouped import_all_modules failures should be excluded from BuildOption(check) instead of being treated as ordinary missing modules."@,
        },
        IssueModel::EmptyImportCheck => ActionModel::AddEmptyCheckSection {
            comment: "No importable runtime modules for default import check."@,
            reason: "Default import_all_modules check had no modules left to verify."@,
        },
        IssueModel::InstalledButUnpackagedFiles { files } => ActionModel::AppendFilesEntries {
            files,
            reason: "Build log listed installed but unpackaged files."@,
        },
        IssueModel::ArchDependentInNoarch => ActionModel::RemoveNoarch {
            reason: "Build produced arch-dependent binaries in a noarch package."@,
        },
        IssueModel::MissingPep639LicenseMetadata => ActionModel::FixBuildOptionInstall {
            arg: "-L"@,
            reason: "PEP 639 license metadata is missing; add -L to BuildOption(install)."@,
        },
        IssueModel::InstallModuleMismatch { suggested_module, .. } =>
            ActionModel::FixBuildOptionInstall {
            arg: suggested_module,
            reason: "BuildOption(install) module glob does not match installed module."@,
        },
        _ => ActionModel::NeedHuman { reason: "No safe deterministic fix is available."@, issue },
    }
}

pub fn decide_action(issue: &BuildIssue) -> (r: BuildAction)
    ensures
        r@ == action_for(issue@),
{
    match issue {
        BuildIssue::MissingBuildDependencies { deps } => BuildAction::AddBuildRequires {
            deps: copy_texts(deps),
            reason: "Build log listed missing build dependencies.".to_owned(),
        },
        BuildIssue::DependencyUnresolvable { .. } => BuildAction::NeedHuman {
            reason:
                "Dependency is already in solver resolution but unavailable in the repository; package the dependency or adjust repositories first.".to_owned(),
            issue: issue.duplicate(),
        },
        BuildIssue::ImportCheckExclusions { exclusions, .. } =>
            BuildAction::AddBuildOptionCheckExcludes {
            patterns: copy_texts(exclusions),
            reason:
                "Grouped import_all_modules failures should be excluded from BuildOption(check) instead of being treated as ordinary missing modules.".to_owned(),
        },
        BuildIssue::EmptyImportCheck => BuildAction::AddEmptyCheckSection {
            comment: "No importable runtime modules for default import check.".to_owned(),
            reason: "Default import_all_modules check had no modules left to verify.".to_owned(),
        },
        BuildIssue::InstalledButUnpackagedFiles { files } => BuildAction::AppendFilesEntries {
            files: copy_texts(files),
            reason: "Build log listed installed but unpackaged files.".to_owned(),
        },
        BuildIssue::ArchDependentInNoarch => BuildAction::RemoveNoarch {
            reason: "Build produced arch-dependent binaries in a noarch package.".to_owned(),
        },
        BuildIssue::MissingPep639LicenseMetadata => BuildAction::FixBuildOptionInstall {
            arg: "-L".to_owned(),
            reason: "PEP 639 license metadata is missing; add -L to BuildOption(install).".to_owned(),
        },
        BuildIssue::InstallModuleMismatch { suggested_module, .. } =>
            BuildAction::FixBuildOptionInstall {
            arg: suggested_module.clone(),
            reason: "BuildOption(install) module glob does not match installed module.".to_owned(),
        },
        BuildIssue::MissingPythonModule { .. }
        | BuildIssue::PyprojectBackendMissing { .. }
        | BuildIssue::CExtensionCompileError { .. }
        | BuildIssue::TestFailure { .. }
        | BuildIssue::PatchApplyError { .. }
        | BuildIssue::Unknown { .. } => BuildAction::NeedHuman {
            reason: "No safe deterministic fix is available.".to_owned(),
            issue: issue.duplicate(),
        },
    }
}

/// Whether the source tree tells more about an issue than the log does.
pub fn needs_source_tree(issue: &BuildIssue) -> (r: bool)
    ensures
        r == (issue@ is InstallModuleMismatch),
{
    matches!(issue, BuildIssue::InstallModuleMismatch { .. })
}

/// `issue` with the module that a search has found in place of the one that it suggests.
pub open spec fn refined(issue: IssueModel, module: Option<Seq<char>>) -> IssueModel {
    match (issue, module) {
        (
            IssueModel::InstallModuleMismatch { wrong_module, .. },
            Some(suggested_module),
        ) => IssueModel::InstallModuleMismatch { wrong_module, suggested_module },
        _ => issue,
    }
}

/// Refines an issue by the source tree, where that is searched for the module of a mismatch.
pub fn contextualize_issue(tree: &SourceTree, issue: BuildIssue) -> (r: Result<BuildIssue, String>)
    ensures
        match issue@ {
            IssueModel::InstallModuleMismatch { wrong_module, .. } => match upstream::search_tree(
                *tree,
                wrong_module,
            ) {
                Ok(module) => r is Ok && r->Ok_0@ == refined(issue@, module),
                Err(message) => r is Err && r->Err_0@ == message,
            },
            _ => r is Ok && r->Ok_0@ == issue@,
        },
{
    if let BuildIssue::InstallModuleMismatch { wrong_module, suggested_module } = issue {
        let suggested_module = match infer_install_module(tree, wrong_module.as_str()) {
            Ok(Some(module)) => module,
            Ok(None) => suggested_module,
            Err(message) => return Err(message),
        };
        Ok(BuildIssue::InstallModuleMismatch { wrong_module, suggested_module })
    } else {
        Ok(issue)
    }
}

/// What an action makes of the text of a spec.
pub open spec fn applied(spec_text: Seq<char>, action: ActionModel) -> Seq<char> {
    match action {
        ActionModel::AddBuildRequires { deps, .. } => specfile::with_buildrequires(spec_text, deps),
        ActionModel::AddBuildOptionCheckExcludes { patterns, .. } => specfile::with_checks(
            spec_text,
            patterns,
        ),
        ActionModel::AddEmptyCheckSection { comment, .. } => specfile::with_check_section(
            spec_text,
            comment,
        ),
        ActionModel::FixBuildOptionInstall { arg, .. } => specfile::with_install_arg(
            spec_text,
            arg,
        ),
        ActionModel::AppendFilesEntries { files, .. } => specfile::with_files(spec_text, files),
        ActionModel::RemoveNoarch { .. } => specfile::without_noarch(spec_text),
        ActionModel::NoOp { .. } => spec_text,
        ActionModel::NeedHuman { .. } => spec_text,
    }
}

/// Applies an action. Every action can be applied to every text.
pub fn apply_action(spec_text: &str, action: &BuildAction) -> (r: Result<String, String>)
    ensures
        match r {
            Ok(after) => after@ == applied(spec_text@, action@),
            Err(_) => false,
        },
{
    let after = match action {
        BuildAction::AddBuildRequires { deps, .. } => add_buildrequires(spec_text, deps),
        BuildAction::AddBuildOptionCheckExcludes { patterns, .. } => add_buildoption_checks(
            spec_text,
            patterns,
        ),
        BuildAction::AddEmptyCheckSection { comment, .. } => add_empty_check_section(
            spec_text,
            comment.as_str(),
        ),
        BuildAction::FixBuildOptionInstall { arg, .. } => fix_buildoption_install(
            spec_text,
            arg.as_str(),
        ),
        BuildAction::AppendFilesEntries { files, .. } => append_files_entries(spec_text, files),
        BuildAction::RemoveNoarch { .. } => fix_buildarch_remove_noarch(spec_text),
        BuildAction::NoOp { .. } => spec_text.to_owned(),
        BuildAction::NeedHuman { .. } => spec_text.to_owned(),
    };
    Ok(after)
}

/// What is decided for a person to look at never changes a spec.
pub proof fn law_need_human_changes_nothing(spec_text: Seq<char>, issue: IssueModel)
    ensures
        action_for(issue) is NeedHuman ==> applied(spec_text, action_for(issue)) == spec_text,
{
}

/// The texts stand on one line each.
pub open spec fn on_one_line(v: Seq<Seq<char>>) -> bool {
    forall|i: int| 0 <= i < v.len() ==> !text::trim(#[trigger] v[i]).contains('\n')
}

/// An action that settles a spec: what it adds stands on one line each, holds no double quote where
/// it is put in quotes, and is a word where it is an argument; and the install option is the one
/// that its text is found at, with no `-l` at its end that a module would follow.
pub open spec fn settles(spec_text: Seq<char>, action: ActionModel) -> bool {
    match action {
        ActionModel::AddBuildRequires { deps, .. } => on_one_line(deps),
        ActionModel::AddBuildOptionCheckExcludes { patterns, .. } => on_one_line(patterns)
            && forall|i: int|
            0 <= i < patterns.len() ==> !text::trim(#[trigger] patterns[i]).contains('"'),
        ActionModel::FixBuildOptionInstall { arg, .. } => {
            &&& install_laws::is_plain_word(arg)
            &&& install_laws::option_stands_first(spec_text)
            &&& patterns::tagged_option(spec_text, "BuildOption(install):"@) matches Some(
                (_, args),
            ) ==> arg == "-L"@ || !install_laws::ends_with_flag(patterns::arguments(args))
        },
        ActionModel::AppendFilesEntries { files, .. } => on_one_line(files),
        _ => true,
    }
}

/// Applying an action twice is applying it once, so that a fix that has been tried changes nothing
/// when it is tried again.
pub proof fn law_apply_twice(spec_text: Seq<char>, action: ActionModel)
    requires
        settles(spec_text, action),
    ensures
        applied(applied(spec_text, action), action) == applied(spec_text, action),
{
    match action {
        ActionModel::AddBuildRequires { deps, .. } => {
            spec_laws::law_buildrequires_twice(spec_text, deps);
        },
        ActionModel::AddBuildOptionCheckExcludes { patterns, .. } => {
            spec_laws::law_checks_twice(spec_text, patterns);
        },
        ActionModel::AddEmptyCheckSection { comment, .. } => {
            section_laws::law_check_section_twice(spec_text, comment);
        },
        ActionModel::FixBuildOptionInstall { arg, .. } => {
            install_laws::law_install_arg_twice(spec_text, arg);
        },
        ActionModel::AppendFilesEntries { files, .. } => {
            section_laws::law_files_twice(spec_text, files);
        },
        ActionModel::RemoveNoarch { .. } => {
            section_laws::law_remove_noarch_twice(spec_text);
        },
        ActionModel::NoOp { .. } => {},
        ActionModel::NeedHuman { .. } => {},
    }
}

/// A fix takes no line of a spec away that is not blank, and the lines stay in order, except those
/// that make it independent of the architecture and the install option that it changes. A fix that
/// does not fill the file list keeps the blank lines too.
pub proof fn law_fix_keeps_lines(spec_text: Seq<char>, action: ActionModel)
    requires
        !(action is RemoveNoarch),
        !(action is FixBuildOptionInstall),
    ensures
        keep_laws::keeps_lines(spec_text, applied(spec_text, action)),
        !(action is AppendFilesEntries) ==> keep_laws::keeps_every_line(
            spec_text,
            applied(spec_text, action),
        ),
{
    match action {
        ActionModel::AddBuildRequires { deps, .. } => {
            keep_laws::law_buildrequires_keep_lines(spec_text, deps);
        },
        ActionModel::AddBuildOptionCheckExcludes { patterns, .. } => {
            keep_laws::law_checks_keep_lines(spec_text, patterns);
        },
        ActionModel::AddEmptyCheckSection { comment, .. } => {
            keep_laws::law_check_section_keeps_lines(spec_text, comment);
        },
        ActionModel::AppendFilesEntries { files, .. } => {
            keep_laws::law_files_keep_lines(spec_text, files);
        },
        _ => {
            keep_laws::lemma_keeps_itself(spec_text);
        },
    }
    if !(action is AppendFilesEntries) {
        keep_laws::lemma_every_line_is_more(spec_text, applied(spec_text, action));
    }
}

} // verus!
