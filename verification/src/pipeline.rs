//! What is built, where, and what comes of it: the plan of a batch and its reports.
use vstd::prelude::*;

use crate::config;
use crate::config::{resolve_default_obs_project, PackfixConfig};
use crate::engine::{BuildOutcome, OutcomeModel};
use crate::graph;
use crate::graph::{PackageSource, SourceModel, TargetModel};
use crate::issue::copy_opt;
use crate::obs_api::EbfSubmitResult;
use crate::ops_log::operation_log_path;
use crate::ops_log;
use crate::pieces;
use crate::pieces::{
    copy_texts, decimal_of, has_text, joined, lines_of, path_of, signed_decimal_of,
};
use crate::report;
use crate::report::{push_line, Report, ReportModel, Status};
use crate::scheduler;
use crate::scheduler::{BuildRequest, NodeResult, RequestModel, ResultModel};
use crate::specfile;
use crate::specfile::{
    declared_package_name, ensure_autochangelog_macro, ensure_buildarch_noarch,
    ensure_remote_asset, ensure_versioned_python_provides, tag_value, update_version,
};
use crate::text;
use crate::text::{
    cat2, cat3, cat4, cat5, has_prefix, holds, is_empty, same, trimmed, trimmed_start,
    without_prefix,
};
use crate::upstream;
use crate::upstream::{python_dist_name, python_package_name};
use crate::versions;
use crate::versions::is_newer_python_version;

verus! {

/// A Python package to be built from PyPI.
#[derive(Debug, Clone)]
pub struct BuildPythonPackageRequest {
    pub pypi_name: String,
    pub version: Option<String>,
    pub obs_project: Option<String>,
    pub revision: Option<String>,
    pub feature_declarations: Vec<String>,
}

/// The model of a [`BuildPythonPackageRequest`].
#[verifier::ext_equal]
pub struct PypiModel {
    pub pypi_name: Seq<char>,
    pub version: Option<Seq<char>>,
    pub obs_project: Option<Seq<char>>,
    pub revision: Option<Seq<char>>,
    pub feature_declarations: Seq<Seq<char>>,
}

impl View for BuildPythonPackageRequest {
    type V = PypiModel;

    open spec fn view(&self) -> PypiModel {
        PypiModel {
            pypi_name: self.pypi_name@,
            version: text::opt_text(self.version),
            obs_project: text::opt_text(self.obs_project),
            revision: text::opt_text(self.revision),
            feature_declarations: text::texts(self.feature_declarations@),
        }
    }
}

pub open spec fn pypi_models(v: Seq<BuildPythonPackageRequest>) -> Seq<PypiModel> {
    Seq::new(v.len(), |i: int| v[i]@)
}

/// The requests of one command: the same version, project and revision for each name.
pub open spec fn pypi_request(
    name: Seq<char>,
    version: Option<Seq<char>>,
    obs_project: Option<Seq<char>>,
    revision: Option<Seq<char>>,
) -> PypiModel {
    PypiModel {
        pypi_name: name,
        version,
        obs_project,
        revision,
        feature_declarations: seq![],
    }
}

/// The requests that the command to build packages makes.
pub fn build_requests(
    pypi_names: &[String],
    version: &Option<String>,
    obs_project: &Option<String>,
    revision: &Option<String>,
) -> (r: Result<Vec<BuildPythonPackageRequest>, String>)
    ensures
        match r {
            Ok(v) => pypi_names@.len() > 0 && (pypi_names@.len() == 1 || version is None)
                && pypi_models(v@) == Seq::new(
                pypi_names@.len(),
                |i: int|
                    pypi_request(
                        pypi_names@[i]@,
                        text::opt_text(*version),
                        text::opt_text(*obs_project),
                        text::opt_text(*revision),
                    ),
            ),
            Err(message) => (pypi_names@.len() == 0 && message@
                == "at least one package name is required"@) || (pypi_names@.len() > 1
                && version is Some && message@
                == "--version only supports a single package build"@),
        },
{
    if pypi_names.len() == 0 {
        return Err("at least one package name is required".to_owned());
    }
    if pypi_names.len() > 1 && version.is_some() {
        return Err("--version only supports a single package build".to_owned());
    }
    let mut v: Vec<BuildPythonPackageRequest> = Vec::new();
    let mut i: usize = 0;
    while i < pypi_names.len()
        invariant
            i <= pypi_names@.len(),
            v@.len() == i,
            forall|k: int|
                0 <= k < i ==> (#[trigger] v@[k])@ == pypi_request(
                    pypi_names@[k]@,
                    text::opt_text(*version),
                    text::opt_text(*obs_project),
                    text::opt_text(*revision),
                ),
        decreases pypi_names@.len() - i,
    {
        let request = BuildPythonPackageRequest {
            pypi_name: pypi_names[i].clone(),
            version: copy_opt(version),
            obs_project: copy_opt(obs_project),
            revision: copy_opt(revision),
            feature_declarations: Vec::new(),
        };
        assert(request@.feature_declarations =~= seq![]);
        v.push(request);
        i += 1;
    }
    assert(pypi_models(v@) =~= Seq::new(
        pypi_names@.len(),
        |i: int|
            pypi_request(
                pypi_names@[i]@,
                text::opt_text(*version),
                text::opt_text(*obs_project),
                text::opt_text(*revision),
            ),
    ));
    Ok(v)
}

/// The package of a request, under its RPM name, with its source under its own.
pub open spec fn pypi_root(request: PypiModel) -> RequestModel {
    RequestModel {
        package: upstream::package_name(request.pypi_name),
        features: request.feature_declarations,
        source: SourceModel::Pypi { name: request.pypi_name, version: request.version },
    }
}

pub fn build_scheduler_request(request: &BuildPythonPackageRequest) -> (r: BuildRequest)
    ensures
        r@ == pypi_root(request@),
{
    BuildRequest {
        package: python_package_name(request.pypi_name.as_str()),
        features: copy_texts(&request.feature_declarations),
        source: PackageSource::Pypi {
            name: request.pypi_name.clone(),
            version: copy_opt(&request.version),
        },
    }
}

/// A package of the repository.
pub open spec fn existing_root(package: Seq<char>) -> RequestModel {
    RequestModel {
        package: upstream::package_name(package),
        features: seq![],
        source: SourceModel::ExistingRepo { package: upstream::package_name(package) },
    }
}

pub fn build_existing_scheduler_request(package: &str) -> (r: BuildRequest)
    ensures
        r@ == existing_root(package@),
{
    let name = normalize_existing_repo_package(package);
    let r = BuildRequest {
        package: name.clone(),
        features: Vec::new(),
        source: PackageSource::ExistingRepo { package: name },
    };
    assert(r@.features =~= seq![]);
    r
}

/// The package that the spec of a working directory is for: the name that it declares, or else
/// that of its file.
pub open spec fn workdir_package(spec_text: Seq<char>, stem: Seq<char>) -> Seq<char> {
    match specfile::declared_name(spec_text) {
        Some(name) => upstream::package_name(name),
        None => upstream::package_name(stem),
    }
}

pub fn infer_local_workdir_package_name(spec_text: &str, stem: &str) -> (r: String)
    ensures
        r@ == workdir_package(spec_text@, stem@),
{
    match declared_package_name(spec_text) {
        Some(name) => python_package_name(name.as_str()),
        None => python_package_name(stem),
    }
}

pub fn build_fix_scheduler_request(workdir: &str, spec_text: &str, stem: &str) -> (r: BuildRequest)
    ensures
        r@ == (RequestModel {
            package: workdir_package(spec_text@, stem@),
            features: seq![],
            source: SourceModel::LocalWorkdir { path: workdir@ },
        }),
{
    let r = BuildRequest {
        package: infer_local_workdir_package_name(spec_text, stem),
        features: Vec::new(),
        source: PackageSource::LocalWorkdir { path: workdir.to_owned() },
    };
    assert(r@.features =~= seq![]);
    r
}

pub fn normalize_existing_repo_package(package: &str) -> (r: String)
    ensures
        r@ == upstream::package_name(package@),
{
    python_package_name(package)
}

/// The revision of a rebuild at `stamp`, in seconds.
pub fn default_existing_revision(package_name: &str, stamp: u64) -> (r: String)
    ensures
        r@ == "rebuild-"@ + package_name@ + "-"@ + pieces::decimal(stamp as nat),
{
    cat4("rebuild-", package_name, "-", decimal_of(stamp).as_str())
}

/// The revision of a batch at `stamp`, in seconds.
pub fn default_multi_build_revision(stamp: u64) -> (r: String)
    ensures
        r@ == "build-batch-"@ + pieces::decimal(stamp as nat),
{
    cat2("build-batch-", decimal_of(stamp).as_str())
}

/// The project to build in: that of the command, else that of the command line, else the
/// configured one.
pub open spec fn project_of(
    obs_project: Option<Seq<char>>,
    cli_project: Option<Seq<char>>,
    cfg: Option<&PackfixConfig>,
) -> Seq<char> {
    config::first_given(
        obs_project,
        cli_project,
        config::first_given(None, config::obs_default_project(cfg), config::OBS_PROJECT@),
    )
}

pub fn resolve_project(
    obs_project: &Option<String>,
    cli_project: &Option<String>,
    cfg: Option<&PackfixConfig>,
) -> (r: String)
    ensures
        r@ == project_of(text::opt_text(*obs_project), text::opt_text(*cli_project), cfg),
{
    match obs_project {
        Some(s) => s.clone(),
        None => match cli_project {
            Some(s) => s.clone(),
            None => resolve_default_obs_project(None, cfg),
        },
    }
}

/// The plan of a batch.
#[derive(Debug, Clone)]
pub struct BuildPlan {
    pub roots: Vec<BuildRequest>,
    pub root_inputs: Vec<String>,
    pub project: String,
    pub revision: String,
}

/// The model of a [`BuildPlan`].
#[verifier::ext_equal]
pub struct PlanModel {
    pub roots: Seq<RequestModel>,
    pub root_inputs: Seq<Seq<char>>,
    pub project: Seq<char>,
    pub revision: Seq<char>,
}

impl View for BuildPlan {
    type V = PlanModel;

    open spec fn view(&self) -> PlanModel {
        PlanModel {
            roots: scheduler::request_models(self.roots@),
            root_inputs: text::texts(self.root_inputs@),
            project: self.project@,
            revision: self.revision@,
        }
    }
}

/// The plan for packages from PyPI: the first request says which project and revision, and a
/// single package without a revision goes under its own name.
pub open spec fn pypi_plan(
    requests: Seq<PypiModel>,
    cli_project: Option<Seq<char>>,
    cfg: Option<&PackfixConfig>,
    stamp: u64,
) -> PlanModel {
    PlanModel {
        roots: Seq::new(requests.len(), |i: int| pypi_root(requests[i])),
        root_inputs: Seq::new(requests.len(), |i: int| requests[i].pypi_name),
        project: project_of(requests[0].obs_project, cli_project, cfg),
        revision: match requests[0].revision {
            Some(revision) => revision,
            None => if requests.len() == 1 {
                requests[0].pypi_name
            } else {
                "build-batch-"@ + pieces::decimal(stamp as nat)
            },
        },
    }
}

/// Plans the build of packages from PyPI.
pub fn build_python_packages(
    requests: &[BuildPythonPackageRequest],
    cli_project: &Option<String>,
    cfg: Option<&PackfixConfig>,
    stamp: u64,
) -> (r: Result<BuildPlan, String>)
    ensures
        match r {
            Ok(plan) => requests@.len() > 0 && plan@ == pypi_plan(
                pypi_models(requests@),
                text::opt_text(*cli_project),
                cfg,
                stamp,
            ),
            Err(message) => requests@.len() == 0 && message@
                == "at least one build request is required"@,
        },
{
    if requests.len() == 0 {
        return Err("at least one build request is required".to_owned());
    }
    let first = &requests[0];
    let project = resolve_project(&first.obs_project, cli_project, cfg);
    let revision = match &first.revision {
        Some(revision) => revision.clone(),
        None => if requests.len() == 1 {
            first.pypi_name.clone()
        } else {
            default_multi_build_revision(stamp)
        },
    };
    let mut roots: Vec<BuildRequest> = Vec::new();
    let mut root_inputs: Vec<String> = Vec::new();
    let mut i: usize = 0;
    while i < requests.len()
        invariant
            i <= requests@.len(),
            roots@.len() == i,
            root_inputs@.len() == i,
            forall|k: int| 0 <= k < i ==> (#[trigger] roots@[k])@ == pypi_root(requests@[k]@),
            forall|k: int|
                0 <= k < i ==> (#[trigger] root_inputs@[k])@ == requests@[k].pypi_name@,
        decreases requests@.len() - i,
    {
        roots.push(build_scheduler_request(&requests[i]));
        root_inputs.push(requests[i].pypi_name.clone());
        i += 1;
    }
    let plan = BuildPlan { roots, root_inputs, project, revision };
    proof {
        let goal = pypi_plan(
            pypi_models(requests@),
            text::opt_text(*cli_project),
            cfg,
            stamp,
        );
        assert(plan@.roots =~= goal.roots);
        assert(plan@.root_inputs =~= goal.root_inputs);
        assert(pypi_models(requests@)[0] == requests@[0]@);
    }
    Ok(plan)
}

/// The revision of a batch where none is given.
pub open spec fn batch_revision(
    given: Option<Seq<char>>,
    packages: Seq<Seq<char>>,
    stamp: u64,
) -> Seq<char> {
    match given {
        Some(revision) => revision,
        None => if packages.len() == 1 {
            "rebuild-"@ + packages[0] + "-"@ + pieces::decimal(stamp as nat)
        } else {
            "build-batch-"@ + pieces::decimal(stamp as nat)
        },
    }
}

pub open spec fn package_names(v: Seq<Seq<char>>) -> Seq<Seq<char>> {
    Seq::new(v.len(), |i: int| upstream::package_name(v[i]))
}

/// The plan for packages of the repository.
pub open spec fn existing_plan(
    packages: Seq<Seq<char>>,
    obs_project: Option<Seq<char>>,
    revision: Option<Seq<char>>,
    cli_project: Option<Seq<char>>,
    cfg: Option<&PackfixConfig>,
    stamp: u64,
) -> PlanModel {
    PlanModel {
        roots: Seq::new(packages.len(), |i: int| existing_root(packages[i])),
        root_inputs: packages,
        project: project_of(obs_project, cli_project, cfg),
        revision: batch_revision(revision, package_names(packages), stamp),
    }
}

/// Plans the build of packages that are in the repository.
pub fn build_existing_python_packages(
    packages: &[String],
    obs_project: &Option<String>,
    revision: &Option<String>,
    cli_project: &Option<String>,
    cfg: Option<&PackfixConfig>,
    stamp: u64,
) -> (r: BuildPlan)
    ensures
        r@ == existing_plan(
            text::texts(packages@),
            text::opt_text(*obs_project),
            text::opt_text(*revision),
            text::opt_text(*cli_project),
            cfg,
            stamp,
        ),
{
    let project = resolve_project(obs_project, cli_project, cfg);
    let rev = match revision {
        Some(revision) => revision.clone(),
        None => if packages.len() == 1 {
            let name = normalize_existing_repo_package(packages[0].as_str());
            assert(package_names(text::texts(packages@))[0] == name@);
            default_existing_revision(name.as_str(), stamp)
        } else {
            default_multi_build_revision(stamp)
        },
    };
    let mut roots: Vec<BuildRequest> = Vec::new();
    let mut i: usize = 0;
    while i < packages.len()
        invariant
            i <= packages@.len(),
            roots@.len() == i,
            forall|k: int| 0 <= k < i ==> (#[trigger] roots@[k])@ == existing_root(packages@[k]@),
        decreases packages@.len() - i,
    {
        roots.push(build_existing_scheduler_request(packages[i].as_str()));
        i += 1;
    }
    let r = BuildPlan { roots, root_inputs: copy_texts(packages), project, revision: rev };
    proof {
        let goal = existing_plan(
            text::texts(packages@),
            text::opt_text(*obs_project),
            text::opt_text(*revision),
            text::opt_text(*cli_project),
            cfg,
            stamp,
        );
        assert(r@.roots =~= goal.roots);
    }
    r
}

pub open spec fn root_names(v: Seq<RequestModel>) -> Seq<Seq<char>> {
    Seq::new(v.len(), |i: int| v[i].package)
}

/// Plans the repair of working directories, one request for each.
pub fn fix_local_workdirs_with_dependencies(
    roots: Vec<BuildRequest>,
    cli_project: &Option<String>,
    cfg: Option<&PackfixConfig>,
    stamp: u64,
) -> (r: BuildPlan)
    ensures
        r@ == (PlanModel {
            roots: scheduler::request_models(roots@),
            root_inputs: root_names(scheduler::request_models(roots@)),
            project: project_of(None, text::opt_text(*cli_project), cfg),
            revision: batch_revision(
                None,
                root_names(scheduler::request_models(roots@)),
                stamp,
            ),
        }),
{
    let mut root_inputs: Vec<String> = Vec::new();
    let mut i: usize = 0;
    while i < roots.len()
        invariant
            i <= roots@.len(),
            root_inputs@.len() == i,
            forall|k: int| 0 <= k < i ==> (#[trigger] root_inputs@[k])@ == roots@[k].package@,
        decreases roots@.len() - i,
    {
        root_inputs.push(roots[i].package.clone());
        i += 1;
    }
    assert(text::texts(root_inputs@) =~= root_names(scheduler::request_models(roots@)));
    let revision = if roots.len() == 1 {
        default_existing_revision(root_inputs[0].as_str(), stamp)
    } else {
        default_multi_build_revision(stamp)
    };
    let project = resolve_project(&None, cli_project, cfg);
    BuildPlan { roots, root_inputs, project, revision }
}

pub fn update_branch_name(package: &str) -> (r: String)
    ensures
        r@ == "update_"@ + package@,
{
    cat2("update_", package)
}

pub open spec fn update_message(package: Seq<char>, version_updated: bool) -> Seq<char> {
    if version_updated {
        "SPECS: "@ + package + ": Update version and format spec."@
    } else {
        "SPECS: "@ + package + ": Format spec."@
    }
}

pub fn update_commit_message(package: &str, version_updated: bool) -> (r: String)
    ensures
        r@ == update_message(package@, version_updated),
{
    if version_updated {
        cat3("SPECS: ", package, ": Update version and format spec.")
    } else {
        cat3("SPECS: ", package, ": Format spec.")
    }
}

/// A line that names a source on PyPI.
pub open spec fn is_hosted_source(line: Seq<char>) -> bool {
    text::starts_with(text::trim_start(line), "Source"@) && text::contains(
        text::trim_start(line),
        "files.pythonhosted.org"@,
    )
}

/// Some line of a spec names a source on PyPI.
pub open spec fn has_hosted_source(spec_text: Seq<char>) -> bool {
    exists|i: int|
        0 <= i < pieces::lines(spec_text).len() && is_hosted_source(
            #[trigger] pieces::lines(spec_text)[i],
        )
}

pub open spec fn not_hosted(package_name: Seq<char>) -> Seq<char> {
    "package "@ + package_name
        + " is not sourced from files.pythonhosted.org; update only supports PyPI source packages"@
}

pub fn ensure_pythonhosted_source(spec_text: &str, package_name: &str) -> (r: Result<(), String>)
    ensures
        match r {
            Ok(_) => has_hosted_source(spec_text@),
            Err(message) => !has_hosted_source(spec_text@) && message@ == not_hosted(package_name@),
        },
{
    let lines = lines_of(spec_text);
    let ghost v = text::texts(lines@);
    let mut i: usize = 0;
    while i < lines.len()
        invariant
            i <= lines@.len(),
            v == text::texts(lines@),
            v == pieces::lines(spec_text@),
            forall|k: int| 0 <= k < i ==> !is_hosted_source(#[trigger] v[k]),
        decreases lines@.len() - i,
    {
        let line = trimmed_start(lines[i].as_str());
        assert(v[i as int] == lines@[i as int]@);
        if has_prefix(line.as_str(), "Source") && holds(line.as_str(), "files.pythonhosted.org") {
            return Ok(());
        }
        i += 1;
    }
    Err(
        cat3(
            "package ",
            package_name,
            " is not sourced from files.pythonhosted.org; update only supports PyPI source packages",
        ),
    )
}

/// What a line defines a macro as, unless that is empty or uses a macro itself.
pub open spec fn macro_value(line: Seq<char>, prefix: Seq<char>) -> Option<Seq<char>> {
    match text::strip_prefix(text::trim_start(line), prefix) {
        Some(rest) => {
            let value = text::trim(rest);
            if value.len() == 0 || text::contains(value, "%{"@) {
                None
            } else {
                Some(value)
            }
        },
        None => None,
    }
}

pub open spec fn macro_from(v: Seq<Seq<char>>, prefix: Seq<char>, i: int) -> Option<Seq<char>>
    decreases v.len() - i,
{
    if i < 0 || i >= v.len() {
        None
    } else if macro_value(v[i], prefix) is Some {
        macro_value(v[i], prefix)
    } else {
        macro_from(v, prefix, i + 1)
    }
}

/// What a spec defines the global macro `name` as.
pub open spec fn global_macro(spec_text: Seq<char>, name: Seq<char>) -> Option<Seq<char>> {
    macro_from(pieces::lines(spec_text), "%global "@ + name + " "@, 0)
}

pub fn global_macro_value(spec_text: &str, name: &str) -> (r: Option<String>)
    ensures
        text::opt_text(r) == global_macro(spec_text@, name@),
{
    let prefix = cat3("%global ", name, " ");
    let lines = lines_of(spec_text);
    let ghost v = text::texts(lines@);
    let mut i: usize = 0;
    while i < lines.len()
        invariant
            i <= lines@.len(),
            v == text::texts(lines@),
            v == pieces::lines(spec_text@),
            prefix@ == "%global "@ + name@ + " "@,
            macro_from(v, prefix@, 0) == macro_from(v, prefix@, i as int),
        decreases lines@.len() - i,
    {
        let line = trimmed_start(lines[i].as_str());
        if let Some(rest) = without_prefix(line.as_str(), prefix.as_str()) {
            let value = trimmed(rest.as_str());
            if !is_empty(value.as_str()) && !holds(value.as_str(), "%{") {
                return Some(value);
            }
        }
        i += 1;
    }
    None
}

/// The name on PyPI of a package of the repository.
pub open spec fn update_name(spec_text: Seq<char>, package_name: Seq<char>) -> Seq<char> {
    config::first_given(
        global_macro(spec_text, "pypi_name"@),
        global_macro(spec_text, "srcname"@),
        upstream::dist_name(package_name),
    )
}

pub fn infer_update_pypi_name(spec_text: &str, package_name: &str) -> (r: String)
    ensures
        r@ == update_name(spec_text@, package_name@),
{
    if let Some(name) = global_macro_value(spec_text, "pypi_name") {
        return name;
    }
    if let Some(name) = global_macro_value(spec_text, "srcname") {
        return name;
    }
    python_dist_name(package_name)
}

/// The first line of a spec that names its remote asset.
pub open spec fn asset_line(spec_text: Seq<char>) -> Option<Seq<char>> {
    let v = pieces::lines(spec_text);
    let at = specfile::asset_line_from(v, 0);
    if at < v.len() {
        Some(v[at])
    } else {
        None
    }
}

pub fn extract_remote_asset_line(spec_text: &str) -> (r: Option<String>)
    ensures
        text::opt_text(r) == asset_line(spec_text@),
{
    let lines = lines_of(spec_text);
    let ghost v = text::texts(lines@);
    let mut i: usize = 0;
    while i < lines.len()
        invariant
            i <= lines@.len(),
            v == text::texts(lines@),
            v == pieces::lines(spec_text@),
            specfile::asset_line_from(v, 0) == specfile::asset_line_from(v, i as int),
        decreases lines@.len() - i,
    {
        if has_prefix(trimmed_start(lines[i].as_str()).as_str(), "#!RemoteAsset") {
            assert(v[i as int] == lines@[i as int]@);
            return Some(lines[i].clone());
        }
        i += 1;
    }
    None
}

/// What the update of a package starts from.
#[derive(Debug, Clone)]
pub struct UpdateStart {
    pub pypi_name: String,
    pub current_version: String,
}

/// Looks at the spec of a package that is to be updated.
pub fn start_update(original_spec: &str, package_name: &str) -> (r: Result<UpdateStart, String>)
    ensures
        match r {
            Ok(start) => has_hosted_source(original_spec@) && start.pypi_name@ == update_name(
                original_spec@,
                package_name@,
            ) && specfile::tag_text(original_spec@, "Version"@) == Some(start.current_version@),
            Err(message) => if has_hosted_source(original_spec@) {
                specfile::tag_text(original_spec@, "Version"@) is None && message@
                    == "existing spec is missing Version tag"@
            } else {
                message@ == not_hosted(package_name@)
            },
        },
{
    match ensure_pythonhosted_source(original_spec, package_name) {
        Ok(_) => {},
        Err(message) => return Err(message),
    }
    let pypi_name = infer_update_pypi_name(original_spec, package_name);
    match tag_value(original_spec, "Version") {
        Some(current_version) => Ok(UpdateStart { pypi_name, current_version }),
        None => Err("existing spec is missing Version tag".to_owned()),
    }
}

/// `spec_text`, at `current`, brought to the version `latest` of a reference with the asset
/// `asset`, and put in form.
pub open spec fn updated(
    spec_text: Seq<char>,
    current: Seq<char>,
    latest: Seq<char>,
    asset: Seq<char>,
) -> Seq<char> {
    let versioned = if versions::version_order(latest, current) > 0 {
        specfile::with_tag(spec_text, "Version"@, latest)
    } else {
        spec_text
    };
    let provided = specfile::with_versioned_provides(specfile::with_asset(versioned, asset));
    pieces::replace(
        specfile::with_tag(provided, "BuildArch"@, "noarch"@),
        "%{?autochangelog}"@,
        "%autochangelog"@,
    )
}

/// An updated spec.
#[derive(Debug, Clone)]
pub struct UpdatedSpec {
    pub text: String,
    pub changed: bool,
    pub commit_message: String,
}

/// Updates the spec of a package by that of a reference.
pub fn update_spec(
    original_spec: &str,
    current_version: &str,
    reference_spec: &str,
    package_name: &str,
) -> (r: Result<UpdatedSpec, String>)
    ensures
        match r {
            Ok(result) => match (
                specfile::tag_text(reference_spec@, "Version"@),
                asset_line(reference_spec@),
            ) {
                (Some(latest), Some(asset)) => result.text@ == updated(
                    original_spec@,
                    current_version@,
                    latest,
                    asset,
                ) && result.changed == (result.text@ != original_spec@) && result.commit_message@
                    == update_message(
                    package_name@,
                    versions::version_order(latest, current_version@) > 0,
                ),
                _ => false,
            },
            Err(message) => if specfile::tag_text(reference_spec@, "Version"@) is None {
                message@ == "generated reference spec is missing Version tag"@
            } else {
                asset_line(reference_spec@) is None && message@
                    == "generated reference spec is missing #!RemoteAsset line"@
            },
        },
{
    let latest = match tag_value(reference_spec, "Version") {
        Some(latest) => latest,
        None => return Err("generated reference spec is missing Version tag".to_owned()),
    };
    let asset = match extract_remote_asset_line(reference_spec) {
        Some(asset) => asset,
        None => return Err("generated reference spec is missing #!RemoteAsset line".to_owned()),
    };
    let version_updated = is_newer_python_version(latest.as_str(), current_version);
    let versioned = if version_updated {
        update_version(original_spec, latest.as_str())
    } else {
        original_spec.to_owned()
    };
    let with_asset = ensure_remote_asset(versioned.as_str(), asset.as_str());
    let provided = ensure_versioned_python_provides(with_asset.as_str());
    let noarch = ensure_buildarch_noarch(provided.as_str());
    let text = ensure_autochangelog_macro(noarch.as_str());
    let changed = !same(text.as_str(), original_spec);
    Ok(
        UpdatedSpec {
            text,
            changed,
            commit_message: update_commit_message(package_name, version_updated),
        },
    )
}

/// Where a package of the repository is.
pub open spec fn package_dir(repo_dir: Seq<char>, package_name: Seq<char>) -> Seq<char> {
    pieces::path_join(pieces::path_join(repo_dir, "SPECS"@), package_name)
}

/// Where a package of the repository would be.
pub fn repo_package_dir(repo_dir: &str, package_name: &str) -> (r: String)
    ensures
        r@ == package_dir(repo_dir@, package_name@),
{
    path_of(path_of(repo_dir, "SPECS").as_str(), package_name)
}

/// The directory of a package, which must be there.
pub fn existing_package_dir(repo_dir: &str, package_name: &str, present: bool) -> (r: Result<
    String,
    String,
>)
    ensures
        match r {
            Ok(dir) => present && dir@ == package_dir(repo_dir@, package_name@),
            Err(message) => !present && message@ == "package "@ + package_name@
                + " not found under "@ + pieces::path_join(repo_dir@, "SPECS"@),
        },
{
    if present {
        Ok(repo_package_dir(repo_dir, package_name))
    } else {
        Err(
            cat4(
                "package ",
                package_name,
                " not found under ",
                path_of(repo_dir, "SPECS").as_str(),
            ),
        )
    }
}

/// The directory for what a generator made, which must not hold anything yet.
pub fn stage_generated_package_dir(
    repo_dir: &str,
    package_name: &str,
    present: bool,
    is_empty: bool,
) -> (r: Result<String, String>)
    ensures
        match r {
            Ok(dir) => (!present || is_empty) && dir@ == package_dir(repo_dir@, package_name@),
            Err(message) => present && !is_empty && message@
                == "refusing to overwrite existing non-empty package directory "@ + package_dir(
                repo_dir@,
                package_name@,
            ) + "; remove it manually if you want to regenerate"@,
        },
{
    let dir = repo_package_dir(repo_dir, package_name);
    if present && !is_empty {
        Err(
            cat3(
                "refusing to overwrite existing non-empty package directory ",
                dir.as_str(),
                "; remove it manually if you want to regenerate",
            ),
        )
    } else {
        Ok(dir)
    }
}

/// Where the generator puts the spec of a package.
pub fn takopack_output_root(current_dir: &str, package_name: &str) -> (r: String)
    ensures
        r@ == pieces::path_join(
            pieces::path_join(pieces::path_join(current_dir@, "workspaces"@), "takopack"@),
            package_name@,
        ),
{
    path_of(
        path_of(path_of(current_dir, "workspaces").as_str(), "takopack").as_str(),
        package_name,
    )
}

/// A submission must have gone through for every component.
pub fn ensure_ebf_success(result: &EbfSubmitResult) -> (r: Result<(), String>)
    ensures
        match r {
            Ok(_) => result.success,
            Err(message) => !result.success && message@ == "ebf submit failed: "@
                + pieces::decimal(result.success_count as nat) + "/"@ + pieces::decimal(
                result.total_count as nat,
            ) + " succeeded; stderr: "@ + result.stderr@,
        },
{
    if result.success {
        return Ok(());
    }
    let mut message = cat4(
        "ebf submit failed: ",
        decimal_of(result.success_count as u64).as_str(),
        "/",
        decimal_of(result.total_count as u64).as_str(),
    );
    message.append(" succeeded; stderr: ");
    message.append(result.stderr.as_str());
    Err(message)
}

/// Whether the sources can be checked out.
pub open spec fn checkout_ready(status: Seq<char>) -> bool {
    let s = text::trim(status);
    s.len() > 0 && !text::contains(s, "blocked"@) && !text::contains(s, "broken"@)
}

pub fn is_source_checkout_ready(status: &str) -> (r: bool)
    ensures
        r == checkout_ready(status@),
{
    let s = trimmed(status);
    !is_empty(s.as_str()) && !holds(s.as_str(), "blocked") && !holds(s.as_str(), "broken")
}

/// How long is waited before a poll.
pub open spec fn poll_delay(poll_index: int) -> u64 {
    if poll_index <= 1 {
        0
    } else if poll_index == 2 {
        5
    } else if poll_index == 3 {
        10
    } else if poll_index == 4 {
        15
    } else {
        20
    }
}

pub fn poll_delay_secs(poll_index: usize) -> (r: u64)
    ensures
        r == poll_delay(poll_index as int),
{
    match poll_index {
        0 | 1 => 0,
        2 => 5,
        3 => 10,
        4 => 15,
        _ => 20,
    }
}

/// Later polls never wait less than earlier ones.
pub proof fn law_polls_slow_down(a: int, b: int)
    requires
        a <= b,
    ensures
        poll_delay(a) <= poll_delay(b) <= 20,
{
}

/// How often a status is asked for.
pub const MAX_POLLS: usize = 30;

/// What to do after a poll for the sources of a package: go on where they are ready, else ask
/// again, until that has been done often enough. A poll that failed has no status.
pub fn on_checkout_status(poll: usize, project: &str, package_name: &str, status: Option<&str>) -> (r:
    Result<bool, String>)
    ensures
        ({
            let ready = match status {
                Some(s) => checkout_ready(s@),
                None => false,
            };
            match r {
                Ok(go_on) => go_on == ready && (ready || poll < MAX_POLLS),
                Err(message) => !ready && poll >= MAX_POLLS && message@
                    == "timed out waiting for OBS source checkout readiness for "@ + project@
                    + "/"@ + package_name@,
            }
        }),
{
    if let Some(s) = status {
        if is_source_checkout_ready(s) {
            return Ok(true);
        }
    }
    if poll < MAX_POLLS {
        Ok(false)
    } else {
        Err(
            cat4(
                "timed out waiting for OBS source checkout readiness for ",
                project,
                "/",
                package_name,
            ),
        )
    }
}

/// A checkout must have succeeded.
pub fn ensure_checkout(
    project: &str,
    package_name: &str,
    success: bool,
    returncode: i32,
    stderr: &str,
) -> (r: Result<(), String>)
    ensures
        match r {
            Ok(_) => success,
            Err(message) => !success && message@ == "osc checkout failed for "@ + project@ + "/"@
                + package_name@ + " (rc="@ + pieces::signed_decimal(returncode as int) + "): "@
                + stderr@,
        },
{
    if success {
        return Ok(());
    }
    let mut message = cat5("osc checkout failed for ", project, "/", package_name, " (rc=");
    message.append(signed_decimal_of(returncode).as_str());
    message.append("): ");
    message.append(stderr);
    Err(message)
}

/// An update of a checkout must have succeeded.
pub fn ensure_update(dir: &str, success: bool, returncode: i32, stderr: &str) -> (r: Result<
    (),
    String,
>)
    ensures
        match r {
            Ok(_) => success,
            Err(message) => !success && message@ == "osc update failed for "@ + dir@ + " (rc="@
                + pieces::signed_decimal(returncode as int) + "): "@ + stderr@,
        },
{
    if success {
        return Ok(());
    }
    let mut message = cat3("osc update failed for ", dir, " (rc=");
    message.append(signed_decimal_of(returncode).as_str());
    message.append("): ");
    message.append(stderr);
    Err(message)
}

/// How a build on the service stands.
#[derive(Debug, Clone, PartialEq, Eq)]
pub enum RemoteBuildState {
    Succeeded,
    Failed { headline: String },
    Pending { headline: String },
}

/// The model of a [`RemoteBuildState`].
#[verifier::ext_equal]
pub enum RemoteModel {
    Succeeded,
    Failed { headline: Seq<char> },
    Pending { headline: Seq<char> },
}

impl View for RemoteBuildState {
    type V = RemoteModel;

    open spec fn view(&self) -> RemoteModel {
        match *self {
            RemoteBuildState::Succeeded => RemoteModel::Succeeded,
            RemoteBuildState::Failed { headline } => RemoteModel::Failed { headline: headline@ },
            RemoteBuildState::Pending { headline } => RemoteModel::Pending { headline: headline@ },
        }
    }
}

/// The first line of a status.
pub open spec fn headline_of(status: Seq<char>) -> Seq<char> {
    let v = pieces::lines(status);
    text::trim(
        if v.len() == 0 {
            "unknown"@
        } else {
            v[0]
        },
    )
}

/// A status that tells of a build that has not gone through.
pub open spec fn tells_failure(status: Seq<char>) -> bool {
    text::contains(status, "failed"@) || text::contains(status, "broken"@) || text::contains(
        status,
        "unresolvable"@,
    ) || text::contains(status, "disabled"@) || text::contains(status, "excluded"@)
}

/// How a build stands whose status is `status`.
pub open spec fn remote_state(status: Seq<char>) -> RemoteModel {
    if tells_failure(status) {
        RemoteModel::Failed { headline: headline_of(status) }
    } else if text::contains(status, "succeeded"@) {
        RemoteModel::Succeeded
    } else {
        RemoteModel::Pending { headline: headline_of(status) }
    }
}

pub fn classify_remote_build_status(status_text: &str) -> (r: RemoteBuildState)
    ensures
        r@ == remote_state(status_text@),
{
    let lines = lines_of(status_text);
    assert(text::texts(lines@).len() == lines@.len());
    let headline = if lines.len() == 0 {
        trimmed("unknown")
    } else {
        assert(text::texts(lines@)[0] == lines@[0]@);
        trimmed(lines[0].as_str())
    };
    if holds(status_text, "failed") || holds(status_text, "broken") || holds(
        status_text,
        "unresolvable",
    ) || holds(status_text, "disabled") || holds(status_text, "excluded") {
        return RemoteBuildState::Failed { headline };
    }
    if holds(status_text, "succeeded") {
        return RemoteBuildState::Succeeded;
    }
    RemoteBuildState::Pending { headline }
}

/// A status that tells of a failure is never taken for a success, whatever else it tells.
pub proof fn law_failure_outranks_success(status: Seq<char>)
    requires
        tells_failure(status),
    ensures
        remote_state(status) is Failed,
{
}

/// What to do after a poll for the build of a package: finish where it has come to an end, else
/// ask again, until that has been done often enough. A poll that failed has no status.
pub fn on_build_status(poll: usize, status: Option<&str>) -> (r: Result<bool, String>)
    ensures
        ({
            let state = match status {
                Some(s) => remote_state(s@),
                None => RemoteModel::Pending { headline: ""@ },
            };
            match r {
                Ok(done) => match state {
                    RemoteModel::Succeeded => done,
                    RemoteModel::Pending { .. } => !done && poll < MAX_POLLS,
                    RemoteModel::Failed { .. } => false,
                },
                Err(message) => match state {
                    RemoteModel::Failed { headline } => message@ == "remote build failed: "@
                        + headline,
                    RemoteModel::Pending { .. } => poll >= MAX_POLLS && message@
                        == "timed out waiting for remote build success"@,
                    RemoteModel::Succeeded => false,
                },
            }
        }),
{
    if let Some(s) = status {
        match classify_remote_build_status(s) {
            RemoteBuildState::Succeeded => return Ok(true),
            RemoteBuildState::Failed { headline } => return Err(
                cat2("remote build failed: ", headline.as_str()),
            ),
            RemoteBuildState::Pending { headline: _ } => {},
        }
    }
    if poll < MAX_POLLS {
        Ok(false)
    } else {
        Err("timed out waiting for remote build success".to_owned())
    }
}

/// The first result for `package` from `i` on.
pub open spec fn result_from(results: Seq<ResultModel>, package: Seq<char>, i: int) -> Option<
    OutcomeModel,
>
    decreases results.len() - i,
{
    if i < 0 || i >= results.len() {
        None
    } else if results[i].package == package {
        Some(results[i].outcome)
    } else {
        result_from(results, package, i + 1)
    }
}

pub open spec fn target_names(v: Seq<TargetModel>) -> Seq<Seq<char>> {
    Seq::new(v.len(), |i: int| v[i].package)
}

/// What is noted of the outcome of a root.
pub open spec fn root_notes(outcome: OutcomeModel) -> Seq<Seq<char>> {
    match outcome {
        OutcomeModel::Failed(reason) => seq!["root build failed: "@ + reason],
        OutcomeModel::NeedsDependencies(deps) => seq![
            "root build needs dependencies: "@ + pieces::join(target_names(deps), ", "@),
        ],
        OutcomeModel::Success { report } => match report {
            Some(inner) => inner.notes.push(
                "local build succeeded after "@ + pieces::decimal(inner.build_attempts as nat)
                    + " attempts, "@ + pieces::decimal(inner.fixes_applied as nat)
                    + " fixes applied"@,
            ),
            None => seq!["root build succeeded"@],
        },
    }
}

/// What is noted of a dependency.
pub open spec fn dependency_note(result: ResultModel) -> Seq<char> {
    "  dependency "@ + result.package + (match result.outcome {
        OutcomeModel::Success { .. } => ": success"@,
        OutcomeModel::NeedsDependencies(_) => ": needs-deps"@,
        OutcomeModel::Failed(reason) => ": failed ("@ + reason + ")"@,
    })
}

/// What is noted of all that is no root.
pub open spec fn dependency_notes(
    results: Seq<ResultModel>,
    root: Seq<char>,
    roots: Seq<Seq<char>>,
) -> Seq<Seq<char>>
    decreases results.len(),
{
    if results.len() == 0 {
        seq![]
    } else {
        let before = dependency_notes(results.drop_last(), root, roots);
        if results.last().package == root || roots.contains(results.last().package) {
            before
        } else {
            before.push(dependency_note(results.last()))
        }
    }
}

/// The report on a root that came to `outcome`.
pub open spec fn root_report(
    root: Seq<char>,
    roots: Seq<Seq<char>>,
    outcome: OutcomeModel,
    results: Seq<ResultModel>,
    current_dir: Seq<char>,
) -> ReportModel {
    let start = ReportModel {
        package_name: Some(root),
        operation_log_path: Some(
            ops_log::log_path(
                pieces::path_join(pieces::path_join(current_dir, "workspaces"@), root),
            ),
        ),
        notes: root_notes(outcome) + dependency_notes(results, root, roots),
        ..report::empty_report(
            if outcome is Success {
                Status::BuildSuccess
            } else {
                Status::Failed
            },
        )
    };
    match outcome {
        OutcomeModel::Success { report: Some(inner) } => ReportModel {
            build_attempts: inner.build_attempts,
            fixes_applied: inner.fixes_applied,
            last_log_path: inner.last_log_path,
            ..start
        },
        _ => start,
    }
}

fn root_notes_of(outcome: &BuildOutcome) -> (r: Vec<String>)
    ensures
        text::texts(r@) == root_notes(outcome@),
{
    let mut notes: Vec<String> = Vec::new();
    match outcome {
        BuildOutcome::Failed(reason) => {
            push_line(&mut notes, cat2("root build failed: ", reason.as_str()));
            assert(text::texts(notes@) =~= root_notes(outcome@));
        },
        BuildOutcome::NeedsDependencies(deps) => {
            let mut names: Vec<String> = Vec::new();
            let mut i: usize = 0;
            while i < deps.len()
                invariant
                    i <= deps@.len(),
                    names@.len() == i,
                    forall|k: int| 0 <= k < i ==> (#[trigger] names@[k])@ == deps@[k].package@,
                decreases deps@.len() - i,
            {
                names.push(deps[i].package.clone());
                i += 1;
            }
            assert(text::texts(names@) =~= target_names(graph::target_models(deps@)));
            push_line(
                &mut notes,
                cat2("root build needs dependencies: ", joined(&names, ", ").as_str()),
            );
            assert(text::texts(notes@) =~= root_notes(outcome@));
        },
        BuildOutcome::Success { report } => match report {
            Some(inner) => {
                notes = copy_texts(&inner.notes);
                push_line(
                    &mut notes,
                    cat5(
                        "local build succeeded after ",
                        decimal_of(inner.build_attempts as u64).as_str(),
                        " attempts, ",
                        decimal_of(inner.fixes_applied as u64).as_str(),
                        " fixes applied",
                    ),
                );
            },
            None => {
                push_line(&mut notes, "root build succeeded".to_owned());
                assert(text::texts(notes@) =~= root_notes(outcome@));
            },
        },
    }
    notes
}

fn dependency_note_of(result: &NodeResult) -> (r: String)
    ensures
        r@ == dependency_note(result@),
{
    let mut note = cat2("  dependency ", result.package.as_str());
    let ghost head = note@;
    match &result.outcome {
        BuildOutcome::Success { report: _ } => {
            note.append(": success");
        },
        BuildOutcome::NeedsDependencies(_) => {
            note.append(": needs-deps");
        },
        BuildOutcome::Failed(reason) => {
            note.append(cat3(": failed (", reason.as_str(), ")").as_str());
        },
    }
    note
}

/// `report` is the report on `root`, which has come to something.
pub open spec fn reports_root(
    report: ReportModel,
    root: Seq<char>,
    roots: Seq<Seq<char>>,
    results: Seq<ResultModel>,
    current_dir: Seq<char>,
) -> bool {
    match result_from(results, root, 0) {
        Some(outcome) => report == root_report(root, roots, outcome, results, current_dir),
        None => false,
    }
}

pub open spec fn missing_root() -> Seq<char> {
    "root node result not found in scheduler output"@
}

/// The report on the root `root_package_input` of a batch with the roots `root_packages`.
pub fn node_results_to_report_with_root_set(
    root_package_input: &str,
    root_packages: &[String],
    results: &[NodeResult],
    current_dir: &str,
) -> (r: Result<Report, String>)
    ensures
        ({
            let root = upstream::package_name(root_package_input@);
            let all = scheduler::result_models(results@);
            match (r, result_from(all, root, 0)) {
                (Ok(report), Some(outcome)) => report@ == root_report(
                    root,
                    text::texts(root_packages@),
                    outcome,
                    all,
                    current_dir@,
                ),
                (Err(message), None) => message@ == missing_root(),
                _ => false,
            }
        }),
{
    let root = python_package_name(root_package_input);
    let ghost all = scheduler::result_models(results@);
    let ghost roots = text::texts(root_packages@);
    let mut at: usize = 0;
    while at < results.len() && !same(results[at].package.as_str(), root.as_str())
        invariant
            at <= results@.len(),
            all == scheduler::result_models(results@),
            result_from(all, root@, 0) == result_from(all, root@, at as int),
        decreases results@.len() - at,
    {
        at += 1;
    }
    if at == results.len() {
        return Err("root node result not found in scheduler output".to_owned());
    }
    assert(all[at as int] == results@[at as int]@);
    let outcome = &results[at].outcome;
    let mut notes = root_notes_of(outcome);
    let ghost start = root_notes(outcome@);
    let mut i: usize = 0;
    assert(text::texts(notes@) =~= start + dependency_notes(all.take(0), root@, roots));
    while i < results.len()
        invariant
            i <= results@.len(),
            all == scheduler::result_models(results@),
            roots == text::texts(root_packages@),
            text::texts(notes@) == start + dependency_notes(all.take(i as int), root@, roots),
        decreases results@.len() - i,
    {
        let result = &results[i];
        if !same(result.package.as_str(), root.as_str()) && !has_text(
            root_packages,
            result.package.as_str(),
        ) {
            push_line(&mut notes, dependency_note_of(result));
        }
        i += 1;
        assert(all.take(i as int).drop_last() =~= all.take(i - 1));
        assert(all.take(i as int).last() == result@);
        assert(text::texts(notes@) =~= start + dependency_notes(all.take(i as int), root@, roots));
    }
    assert(all.take(all.len() as int) =~= all);
    let status = if matches!(outcome, BuildOutcome::Success { .. }) {
        Status::BuildSuccess
    } else {
        Status::Failed
    };
    let mut report = Report::new(status);
    let workdir = path_of(path_of(current_dir, "workspaces").as_str(), root.as_str());
    report.operation_log_path = Some(operation_log_path(workdir.as_str()));
    report.package_name = Some(root);
    report.notes = notes;
    if let BuildOutcome::Success { report: Some(inner) } = outcome {
        report.build_attempts = inner.build_attempts;
        report.fixes_applied = inner.fixes_applied;
        report.last_log_path = copy_opt(&inner.last_log_path);
    }
    assert(report@.applied_fixes =~= seq![]);
    Ok(report)
}

/// The report on the only root of a batch.
pub fn node_results_to_report(
    root_package_input: &str,
    results: &[NodeResult],
    current_dir: &str,
) -> (r: Result<Report, String>)
    ensures
        ({
            let root = upstream::package_name(root_package_input@);
            let all = scheduler::result_models(results@);
            match (r, result_from(all, root, 0)) {
                (Ok(report), Some(outcome)) => report@ == root_report(
                    root,
                    seq![root],
                    outcome,
                    all,
                    current_dir@,
                ),
                (Err(message), None) => message@ == missing_root(),
                _ => false,
            }
        }),
{
    let mut roots: Vec<String> = Vec::new();
    push_line(&mut roots, python_package_name(root_package_input));
    assert(text::texts(roots@) =~= seq![upstream::package_name(root_package_input@)]);
    node_results_to_report_with_root_set(root_package_input, &roots, results, current_dir)
}

/// The reports on the roots of a batch, in their order. All of them must be among the results.
pub fn node_results_to_reports(
    root_package_inputs: &[String],
    results: &[NodeResult],
    current_dir: &str,
) -> (r: Result<Vec<Report>, String>)
    ensures
        ({
            let roots = package_names(text::texts(root_package_inputs@));
            let all = scheduler::result_models(results@);
            match r {
                Ok(reports) => reports@.len() == roots.len() && forall|i: int|
                    0 <= i < roots.len() ==> reports_root(
                        (#[trigger] reports@[i])@,
                        roots[i],
                        roots,
                        all,
                        current_dir@,
                    ),
                Err(message) => message@ == missing_root() && exists|i: int|
                    0 <= i < roots.len() && result_from(all, #[trigger] roots[i], 0) is None,
            }
        }),
{
    let ghost roots = package_names(text::texts(root_package_inputs@));
    let ghost all = scheduler::result_models(results@);
    let mut names: Vec<String> = Vec::new();
    let mut i: usize = 0;
    while i < root_package_inputs.len()
        invariant
            i <= root_package_inputs@.len(),
            names@.len() == i,
            forall|k: int|
                0 <= k < i ==> (#[trigger] names@[k])@ == upstream::package_name(
                    root_package_inputs@[k]@,
                ),
        decreases root_package_inputs@.len() - i,
    {
        names.push(python_package_name(root_package_inputs[i].as_str()));
        i += 1;
    }
    assert(text::texts(names@) =~= roots);
    let mut reports: Vec<Report> = Vec::new();
    let mut k: usize = 0;
    while k < root_package_inputs.len()
        invariant
            k <= root_package_inputs@.len(),
            roots == package_names(text::texts(root_package_inputs@)),
            all == scheduler::result_models(results@),
            text::texts(names@) == roots,
            reports@.len() == k,
            forall|i: int|
                0 <= i < k ==> reports_root(
                    (#[trigger] reports@[i])@,
                    roots[i],
                    roots,
                    all,
                    current_dir@,
                ),
        decreases root_package_inputs@.len() - k,
    {
        assert(roots[k as int] == upstream::package_name(root_package_inputs@[k as int]@));
        match node_results_to_report_with_root_set(
            root_package_inputs[k].as_str(),
            &names,
            results,
            current_dir,
        ) {
            Ok(report) => {
                reports.push(report);
            },
            Err(message) => return Err(message),
        }
        k += 1;
    }
    Ok(reports)
}

} // verus!
