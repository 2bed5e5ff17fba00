//! What can be wrong with a build, and what is done about it.
use vstd::prelude::*;

use crate::pieces::copy_texts;
use crate::text;

verus! {

/// A classified build failure.
#[derive(Debug, Clone, PartialEq, Eq)]
pub enum BuildIssue {
    MissingBuildDependencies { deps: Vec<String> },
    DependencyUnresolvable { deps: Vec<String> },
    MissingPythonModule { module: String, import_context: Option<String> },
    ImportCheckExclusions {
        modules: Vec<String>,
        missing_modules: Vec<String>,
        exclusions: Vec<String>,
    },
    EmptyImportCheck,
    InstalledButUnpackagedFiles { files: Vec<String> },
    ArchDependentInNoarch,
    MissingPep639LicenseMetadata,
    InstallModuleMismatch { wrong_module: String, suggested_module: String },
    PyprojectBackendMissing { deps: Vec<String> },
    CExtensionCompileError { important_lines: Vec<String> },
    TestFailure { important_lines: Vec<String> },
    PatchApplyError { important_lines: Vec<String> },
    Unknown { important_lines: Vec<String> },
}

/// The model of a [`BuildIssue`].
#[verifier::ext_equal]
pub enum IssueModel {
    MissingBuildDependencies { deps: Seq<Seq<char>> },
    DependencyUnresolvable { deps: Seq<Seq<char>> },
    MissingPythonModule { module: Seq<char>, import_context: Option<Seq<char>> },
    ImportCheckExclusions {
        modules: Seq<Seq<char>>,
        missing_modules: Seq<Seq<char>>,
        exclusions: Seq<Seq<char>>,
    },
    EmptyImportCheck,
    InstalledButUnpackagedFiles { files: Seq<Seq<char>> },
    ArchDependentInNoarch,
    MissingPep639LicenseMetadata,
    InstallModuleMismatch { wrong_module: Seq<char>, suggested_module: Seq<char> },
    PyprojectBackendMissing { deps: Seq<Seq<char>> },
    CExtensionCompileError { important_lines: Seq<Seq<char>> },
    TestFailure { important_lines: Seq<Seq<char>> },
    PatchApplyError { important_lines: Seq<Seq<char>> },
    Unknown { important_lines: Seq<Seq<char>> },
}

impl View for BuildIssue {
    type V = IssueModel;

    open spec fn view(&self) -> IssueModel {
        match *self {
            BuildIssue::MissingBuildDependencies { deps } => IssueModel::MissingBuildDependencies {
                deps: text::texts(deps@),
            },
            BuildIssue::DependencyUnresolvable { deps } => IssueModel::DependencyUnresolvable {
                deps: text::texts(deps@),
            },
            BuildIssue::MissingPythonModule { module, import_context } =>
                IssueModel::MissingPythonModule {
                module: module@,
                import_context: text::opt_text(import_context),
            },
            BuildIssue::ImportCheckExclusions { modules, missing_modules, exclusions } =>
                IssueModel::ImportCheckExclusions {
                modules: text::texts(modules@),
                missing_modules: text::texts(missing_modules@),
                exclusions: text::texts(exclusions@),
            },
            BuildIssue::EmptyImportCheck => IssueModel::EmptyImportCheck,
            BuildIssue::InstalledButUnpackagedFiles { files } =>
                IssueModel::InstalledButUnpackagedFiles { files: text::texts(files@) },
            BuildIssue::ArchDependentInNoarch => IssueModel::ArchDependentInNoarch,
            BuildIssue::MissingPep639LicenseMetadata => IssueModel::MissingPep639LicenseMetadata,
            BuildIssue::InstallModuleMismatch { wrong_module, suggested_module } =>
                IssueModel::InstallModuleMismatch {
                wrong_module: wrong_module@,
                suggested_module: suggested_module@,
            },
            BuildIssue::PyprojectBackendMissing { deps } => IssueModel::PyprojectBackendMissing {
                deps: text::texts(deps@),
            },
            BuildIssue::CExtensionCompileError { important_lines } =>
                IssueModel::CExtensionCompileError {
                important_lines: text::texts(important_lines@),
            },
            BuildIssue::TestFailure { important_lines } => IssueModel::TestFailure {
                important_lines: text::texts(important_lines@),
            },
            BuildIssue::PatchApplyError { important_lines } => IssueModel::PatchApplyError {
                important_lines: text::texts(important_lines@),
            },
            BuildIssue::Unknown { important_lines } => IssueModel::Unknown {
                important_lines: text::texts(important_lines@),
            },
        }
    }
}

impl BuildIssue {
    /// A second issue like this one.
    pub fn duplicate(&self) -> (r: Self)
        ensures
            r@ == self@,
    {
        match self {
            BuildIssue::MissingBuildDependencies { deps } => BuildIssue::MissingBuildDependencies {
                deps: copy_texts(deps),
            },
            BuildIssue::DependencyUnresolvable { deps } => BuildIssue::DependencyUnresolvable {
                deps: copy_texts(deps),
            },
            BuildIssue::MissingPythonModule { module, import_context } =>
                BuildIssue::MissingPythonModule {
                module: module.clone(),
                import_context: copy_opt(import_context),
            },
            BuildIssue::ImportCheckExclusions { modules, missing_modules, exclusions } =>
                BuildIssue::ImportCheckExclusions {
                modules: copy_texts(modules),
                missing_modules: copy_texts(missing_modules),
                exclusions: copy_texts(exclusions),
            },
            BuildIssue::EmptyImportCheck => BuildIssue::EmptyImportCheck,
            BuildIssue::InstalledButUnpackagedFiles { files } =>
                BuildIssue::InstalledButUnpackagedFiles { files: copy_texts(files) },
            BuildIssue::ArchDependentInNoarch => BuildIssue::ArchDependentInNoarch,
            BuildIssue::MissingPep639LicenseMetadata => BuildIssue::MissingPep639LicenseMetadata,
            BuildIssue::InstallModuleMismatch { wrong_module, suggested_module } =>
                BuildIssue::InstallModuleMismatch {
                wrong_module: wrong_module.clone(),
                suggested_module: suggested_module.clone(),
            },
            BuildIssue::PyprojectBackendMissing { deps } => BuildIssue::PyprojectBackendMissing {
                deps: copy_texts(deps),
            },
            BuildIssue::CExtensionCompileError { important_lines } =>
                BuildIssue::CExtensionCompileError { important_lines: copy_texts(important_lines) },
            BuildIssue::TestFailure { important_lines } => BuildIssue::TestFailure {
                important_lines: copy_texts(important_lines),
            },
            BuildIssue::PatchApplyError { important_lines } => BuildIssue::PatchApplyError {
                important_lines: copy_texts(important_lines),
            },
            BuildIssue::Unknown { important_lines } => BuildIssue::Unknown {
                important_lines: copy_texts(important_lines),
            },
        }
    }
}

/// A second optional string like `o`.
pub fn copy_opt(o: &Option<String>) -> (r: Option<String>)
    ensures
        text::opt_text(r) == text::opt_text(*o),
{
    match o {
        Some(s) => Some(s.clone()),
        None => None,
    }
}

/// What is done about a build failure.
#[derive(Debug, Clone, PartialEq, Eq)]
pub enum BuildAction {
    AddBuildRequires { deps: Vec<String>, reason: String },
    AddBuildOptionCheckExcludes { patterns: Vec<String>, reason: String },
    AddEmptyCheckSection { comment: String, reason: String },
    FixBuildOptionInstall { arg: String, reason: String },
    AppendFilesEntries { files: Vec<String>, reason: String },
    RemoveNoarch { reason: String },
    NeedHuman { reason: String, issue: BuildIssue },
    NoOp { reason: String },
}

/// The model of a [`BuildAction`].
#[verifier::ext_equal]
pub enum ActionModel {
    AddBuildRequires { deps: Seq<Seq<char>>, reason: Seq<char> },
    AddBuildOptionCheckExcludes { patterns: Seq<Seq<char>>, reason: Seq<char> },
    AddEmptyCheckSection { comment: Seq<char>, reason: Seq<char> },
    FixBuildOptionInstall { arg: Seq<char>, reason: Seq<char> },
    AppendFilesEntries { files: Seq<Seq<char>>, reason: Seq<char> },
    RemoveNoarch { reason: Seq<char> },
    NeedHuman { reason: Seq<char>, issue: IssueModel },
    NoOp { reason: Seq<char> },
}

impl View for BuildAction {
    type V = ActionModel;

    open spec fn view(&self) -> ActionModel {
        match *self {
            BuildAction::AddBuildRequires { deps, reason } => ActionModel::AddBuildRequires {
                deps: text::texts(deps@),
                reason: reason@,
            },
            BuildAction::AddBuildOptionCheckExcludes { patterns, reason } =>
                ActionModel::AddBuildOptionCheckExcludes {
                patterns: text::texts(patterns@),
                reason: reason@,
            },
            BuildAction::AddEmptyCheckSection { comment, reason } =>
                ActionModel::AddEmptyCheckSection { comment: comment@, reason: reason@ },
            BuildAction::FixBuildOptionInstall { arg, reason } =>
                ActionModel::FixBuildOptionInstall { arg: arg@, reason: reason@ },
            BuildAction::AppendFilesEntries { files, reason } => ActionModel::AppendFilesEntries {
                files: text::texts(files@),
                reason: reason@,
            },
            BuildAction::RemoveNoarch { reason } => ActionModel::RemoveNoarch { reason: reason@ },
            BuildAction::NeedHuman { reason, issue } => ActionModel::NeedHuman {
                reason: reason@,
                issue: issue@,
            },
            BuildAction::NoOp { reason } => ActionModel::NoOp { reason: reason@ },
        }
    }
}

impl BuildAction {
    pub fn is_need_human(&self) -> (r: bool)
        ensures
            r == (self@ is NeedHuman),
    {
        matches!(self, BuildAction::NeedHuman { .. })
    }

    /// A second action like this one.
    pub fn duplicate(&self) -> (r: Self)
        ensures
            r@ == self@,
    {
        match self {
            BuildAction::AddBuildRequires { deps, reason } => BuildAction::AddBuildRequires {
                deps: copy_texts(deps),
                reason: reason.clone(),
            },
            BuildAction::AddBuildOptionCheckExcludes { patterns, reason } =>
                BuildAction::AddBuildOptionCheckExcludes {
                patterns: copy_texts(patterns),
                reason: reason.clone(),
            },
            BuildAction::AddEmptyCheckSection { comment, reason } =>
                BuildAction::AddEmptyCheckSection {
                comment: comment.clone(),
                reason: reason.clone(),
            },
            BuildAction::FixBuildOptionInstall { arg, reason } =>
                BuildAction::FixBuildOptionInstall { arg: arg.clone(), reason: reason.clone() },
            BuildAction::AppendFilesEntries { files, reason } => BuildAction::AppendFilesEntries {
                files: copy_texts(files),
                reason: reason.clone(),
            },
            BuildAction::RemoveNoarch { reason } => BuildAction::RemoveNoarch {
                reason: reason.clone(),
            },
            BuildAction::NeedHuman { reason, issue } => BuildAction::NeedHuman {
                reason: reason.clone(),
                issue: issue.duplicate(),
            },
            BuildAction::NoOp { reason } => BuildAction::NoOp { reason: reason.clone() },
        }
    }
}

/// An issue with the action that it calls for.
#[derive(Debug, Clone)]
pub struct AnalysisOutput {
    pub issue: BuildIssue,
    pub action: BuildAction,
}

pub open spec fn opt_issue(o: Option<BuildIssue>) -> Option<IssueModel> {
    match o {
        Some(issue) => Some(issue@),
        None => None,
    }
}

} // verus!
