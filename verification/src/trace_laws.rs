//! Laws of what is asked of other programs and services, and of what is told of a run.
use vstd::prelude::*;

use crate::command;
use crate::command::CommandModel;
use crate::config;
use crate::config::PackfixConfig;
use crate::debug;
use crate::describe;
use crate::describe::TopLevelFiles;
use crate::git;
use crate::graph;
use crate::graph::{Nodes, StateModel, TargetModel};
use crate::issue::{ActionModel, IssueModel};
use crate::obs_local;
use crate::outside;
use crate::pieces;
use crate::pipeline;
use crate::remote_fix;
use crate::remote_fix::{LoopModel, RemoteFixModel, StepModel};
use crate::report;
use crate::report::ReportModel;
use crate::shown_laws;
use crate::text;
use crate::upstream;
use crate::workflow;

verus! {

/// The places of a name are where it stands, in order.
pub proof fn law_name_is_found_everywhere(names: Seq<Seq<char>>, wanted: Seq<char>, k: int)
    ensures
        workflow::places_of(names, wanted).contains(k) <==> 0 <= k < names.len() && names[k]
            == wanted,
        forall|i: int, j: int|
            0 <= i < j < workflow::places_of(names, wanted).len() ==> #[trigger] workflow::places_of(
                names,
                wanted,
            )[i] < #[trigger] workflow::places_of(names, wanted)[j],
    decreases names.len(),
{
    if names.len() > 0 {
        let rest = names.drop_last();
        law_name_is_found_everywhere(rest, wanted, k);
        let v = workflow::places_of(rest, wanted);
        lemma_number_added(v, names.len() - 1, k);
        assert forall|i: int| 0 <= i < v.len() implies #[trigger] v[i] < names.len() - 1 by {
            law_name_is_found_everywhere(rest, wanted, v[i]);
            assert(v.contains(v[i]));
        }
    }
}

proof fn lemma_number_added(v: Seq<int>, x: int, k: int)
    ensures
        v.push(x).contains(k) <==> v.contains(k) || k == x,
{
    let w = v.push(x);
    assert(w[v.len() as int] == x);
    if v.contains(k) {
        assert(w[v.index_of(k)] == k);
    }
    if w.contains(k) {
        let i = w.index_of(k);
        if i < v.len() {
            assert(v[i] == k);
        }
    }
}

/// The places of the names with a common start are where one of them stands, in order.
pub proof fn law_names_are_found_everywhere(names: Seq<Seq<char>>, start: Seq<char>, k: int)
    ensures
        workflow::places_from(names, start).contains(k) <==> 0 <= k < names.len()
            && text::starts_with(names[k], start),
        forall|i: int, j: int|
            0 <= i < j < workflow::places_from(names, start).len()
                ==> #[trigger] workflow::places_from(names, start)[i]
                < #[trigger] workflow::places_from(names, start)[j],
    decreases names.len(),
{
    if names.len() > 0 {
        let rest = names.drop_last();
        law_names_are_found_everywhere(rest, start, k);
        let v = workflow::places_from(rest, start);
        lemma_number_added(v, names.len() - 1, k);
        assert forall|i: int| 0 <= i < v.len() implies #[trigger] v[i] < names.len() - 1 by {
            law_names_are_found_everywhere(rest, start, v[i]);
            assert(v.contains(v[i]));
        }
    }
}

/// A package is asked for by its state exactly where it is in that state.
pub proof fn law_packages_are_found_by_their_state(
    nodes: Nodes,
    names: Seq<Seq<char>>,
    state: StateModel,
    p: Seq<char>,
)
    ensures
        graph::in_state(nodes, names, state).contains(p) <==> names.contains(p) && nodes[p].state
            == state,
    decreases names.len(),
{
    if names.len() > 0 {
        let rest = names.drop_last();
        law_packages_are_found_by_their_state(nodes, rest, state, p);
        lemma_name_added(rest, names.last(), p);
        lemma_name_added(graph::in_state(nodes, rest, state), names.last(), p);
        assert(rest.push(names.last()) =~= names);
    }
}

proof fn lemma_name_added(v: Seq<Seq<char>>, x: Seq<char>, s: Seq<char>)
    ensures
        v.push(x).contains(s) <==> v.contains(s) || s == x,
{
    let w = v.push(x);
    assert(w[v.len() as int] == x);
    if v.contains(s) {
        assert(w[v.index_of(s)] == s);
    }
    if w.contains(s) {
        let k = w.index_of(s);
        if k < v.len() {
            assert(v[k] == s);
        }
    }
}

/// The package's own metadata are those of its `PKG-INFO` where it has one, whatever other metadata
/// there are.
pub proof fn law_package_info_goes_first(files: TopLevelFiles, other: TopLevelFiles)
    requires
        files.pkg_info is Some,
        files.pkg_info == other.pkg_info,
        files.pyproject_toml == other.pyproject_toml,
        files.setup_cfg == other.setup_cfg,
    ensures
        describe::metadata_of(files) == describe::metadata_of(other),
{
}

/// Of the project files, `pyproject.toml` tells of a package in its section `[project]`, and
/// `setup.cfg` in its section `[metadata]`.
pub proof fn law_project_files_are_read_by_section(files: TopLevelFiles, text: String)
    requires
        files.pkg_info is None,
        files.metadata is None,
    ensures
        files.pyproject_toml == Some(text) && files.setup_cfg is None ==> describe::metadata_of(files)
            == describe::with_section(
            describe::no_metadata(),
            pieces::lines(text@),
            "[project]"@,
            true,
        ),
        files.setup_cfg == Some(text) && files.pyproject_toml is None ==> describe::metadata_of(files)
            == describe::with_section(
            describe::no_metadata(),
            pieces::lines(text@),
            "[metadata]"@,
            false,
        ),
{
}

/// The README in Markdown is quoted where there is one, else that in reStructuredText, else the
/// plain one with an ending, else the one without.
pub proof fn law_readme_is_chosen_by_its_name(files: TopLevelFiles)
    ensures
        files.readme_md matches Some(s) ==> describe::readme_of(files) == describe::excerpt(s@),
        files.readme_md is None ==> (files.readme_rst matches Some(s) ==> describe::readme_of(files)
            == describe::excerpt(s@)),
        files.readme_md is None && files.readme_rst is None ==> (files.readme_txt matches Some(s)
            ==> describe::readme_of(files) == describe::excerpt(s@)),
        files.readme_md is None && files.readme_rst is None && files.readme_txt is None ==> (
        files.readme matches Some(s) ==> describe::readme_of(files) == describe::excerpt(s@)),
{
}

/// A command is shown with its arguments in order, which are read back where none holds a space.
pub proof fn law_command_is_shown_word_by_word(spec: CommandModel)
    ensures
        command::shown_command(spec) == pieces::join(seq![spec.program] + spec.args, " "@),
        spec.cwd matches Some(dir) ==> command::shown_dir(spec) == dir,
{
    lemma_join_behind(spec.program, spec.args, " "@);
}

proof fn lemma_join_behind(a: Seq<char>, v: Seq<Seq<char>>, sep: Seq<char>)
    ensures
        pieces::join(seq![a] + v, sep) == if v.len() == 0 {
            a
        } else {
            a + sep + pieces::join(v, sep)
        },
    decreases v.len(),
{
    let w = seq![a] + v;
    if v.len() > 0 {
        let rest = v.drop_last();
        lemma_join_behind(a, rest, sep);
        assert(w.drop_last() =~= seq![a] + rest);
        assert(w.last() == v.last());
        if v.len() == 1 {
            assert(rest.len() == 0);
        } else {
            assert(pieces::join(w, sep) =~= a + sep + pieces::join(v, sep));
        }
    }
}

/// `git` is run in the repository, with the arguments that it is given, and logged below it.
pub proof fn law_git_is_run_in_the_repository(
    repo_dir: Seq<char>,
    args: Seq<Seq<char>>,
    operation: Seq<char>,
)
    ensures
        ({
            let run = git::git_run(repo_dir, args, operation);
            &&& run.program == "git"@
            &&& run.args == args
            &&& run.cwd == Some(repo_dir)
            &&& text::starts_with(run.log_path, repo_dir)
            &&& text::ends_with(run.log_path, operation + ".log"@)
        }),
{
    reveal_strlit("logs");
    reveal_strlit("git_");
    let run = git::git_run(repo_dir, args, operation);
    let name = "git_"@ + operation + ".log"@;
    let dir = pieces::path_join(repo_dir, "logs"@);
    assert("logs"@[0] == 'l');
    assert(name[0] == 'g');
    let p = run.log_path;
    assert(dir.subrange(0, repo_dir.len() as int) =~= repo_dir);
    assert(p.subrange(0, repo_dir.len() as int) =~= repo_dir);
    let e = operation + ".log"@;
    assert(p.subrange(p.len() - e.len(), p.len() as int) =~= e);
}

/// A package of the repository is in the directory of its name among the specs.
pub proof fn law_package_is_among_the_specs(repo_dir: Seq<char>, package: Seq<char>)
    requires
        repo_dir.len() > 0,
        repo_dir.last() != '/',
        package.len() > 0,
        package[0] != '/',
    ensures
        pipeline::package_dir(repo_dir, package) == repo_dir + "/SPECS/"@ + package,
{
    reveal_strlit("SPECS");
    reveal_strlit("/SPECS/");
    reveal_strlit("/");
    assert(pieces::path_join(repo_dir, "SPECS"@).last() == 'S');
    assert(pipeline::package_dir(repo_dir, package) =~= repo_dir + "/SPECS/"@ + package);
}

/// A batch goes by the revision that it is given. Without one, it goes by the time, and one of a
/// single package by its name too.
pub proof fn law_batch_has_its_revision(
    given: Option<Seq<char>>,
    packages: Seq<Seq<char>>,
    stamp: u64,
)
    ensures
        ({
            let r = pipeline::batch_revision(given, packages, stamp);
            &&& given matches Some(g) ==> r == g
            &&& given is None ==> text::ends_with(r, "-"@ + pieces::decimal(stamp as nat))
            &&& given is None && packages.len() == 1 ==> r == "rebuild-"@ + packages[0] + "-"@
                + pieces::decimal(stamp as nat)
            &&& given is None && packages.len() != 1 ==> r == "build-batch-"@ + pieces::decimal(
                stamp as nat,
            )
        }),
{
    reveal_strlit("-");
    reveal_strlit("build-batch-");
    let e = "-"@ + pieces::decimal(stamp as nat);
    let r = pipeline::batch_revision(given, packages, stamp);
    if given is None {
        assert(r.subrange(r.len() - e.len(), r.len() as int) =~= e);
    }
}

/// The status of a build is asked for of the package, in its project, for the repository and the
/// architecture, and each can be told from the path.
pub proof fn law_status_is_asked_for(
    project: Seq<char>,
    package: Seq<char>,
    repository: Seq<char>,
    arch: Seq<char>,
)
    ensures
        obs_local::status_arguments(project, package, repository, arch) == seq![
            "api"@,
            "/build"@ + "/"@ + pieces::join(seq![project, repository, arch, package], "/"@) + "/"@
                + "_status"@,
        ],
{
    reveal_strlit("/");
    reveal_strlit("/build");
    reveal_strlit("/build/");
    reveal_strlit("_status");
    reveal_strlit("/_status");
    let a = seq![project];
    let b = seq![project, repository];
    let c = seq![project, repository, arch];
    let d = seq![project, repository, arch, package];
    assert(d.drop_last() =~= c);
    assert(c.drop_last() =~= b);
    assert(b.drop_last() =~= a);
    let all = pieces::join(d, "/"@);
    assert(pieces::join(a, "/"@) == project);
    assert(b.last() == repository && c.last() == arch && d.last() == package);
    assert(pieces::join(b, "/"@) == project + "/"@ + repository);
    assert(pieces::join(c, "/"@) == project + "/"@ + repository + "/"@ + arch);
    assert(all == project + "/"@ + repository + "/"@ + arch + "/"@ + package);
    let x = "/build/"@ + project + "/"@ + repository + "/"@ + arch + "/"@ + package + "/_status"@;
    let y = "/build"@ + "/"@ + all + "/"@ + "_status"@;
    assert(x =~= y);
    assert(obs_local::status_arguments(project, package, repository, arch) =~= seq!["api"@, y]);
}

/// The generator is asked for the project by its name, for the version where one is given, and to
/// write into the directory.
pub proof fn law_generator_is_asked_for_the_project(
    name: Seq<char>,
    version: Option<Seq<char>>,
    output_dir: Seq<char>,
)
    ensures
        ({
            let args = upstream::takopack_args(name, version, output_dir);
            &&& args.subrange(0, 2) == seq!["py"@, "package"@]
            &&& args.subrange(2, 4) == seq!["-o"@, output_dir]
            &&& args[4] == name
            &&& version matches Some(v) ==> args.len() == 6 && args[5] == v
            &&& version is None ==> args.len() == 5
        }),
{
    let args = upstream::takopack_args(name, version, output_dir);
    assert(args.subrange(0, 2) =~= seq!["py"@, "package"@]);
    assert(args.subrange(2, 4) =~= seq!["-o"@, output_dir]);
}

/// The credentials are looked for below the home directory, or below that of root.
pub proof fn law_credentials_are_below_the_home(home: Seq<char>)
    requires
        home.len() > 0,
        home.last() != '/',
    ensures
        config::default_oscrc(Some(home)) == home + "/.config/osc/oscrc"@,
        config::default_oscrc(None) == "/root/.config/osc/oscrc"@,
{
    reveal_strlit("/");
    reveal_strlit("/root");
    reveal_strlit(".config/osc/oscrc");
    reveal_strlit("/.config/osc/oscrc");
    reveal_strlit("/root/.config/osc/oscrc");
    assert("/root"@.last() == 't');
    assert(".config/osc/oscrc"@[0] == '.');
    assert(config::default_oscrc(Some(home)) =~= home + "/.config/osc/oscrc"@);
    assert(config::default_oscrc(None) =~= "/root/.config/osc/oscrc"@);
}

/// A setting is shown under its name exactly where it is given.
pub proof fn law_setting_is_shown_where_it_is_given(key: Seq<char>, value: Seq<char>, n: int)
    ensures
        config::text_setting(key, Some(value)) == seq![key + " = "@ + outside::quoted(value)],
        config::text_setting(key, None) == Seq::<Seq<char>>::empty(),
        n >= 0 ==> config::number_setting(key, Some(n)) == seq![
            key + " = "@ + pieces::decimal(n as nat),
        ],
        config::number_setting(key, None) == Seq::<Seq<char>>::empty(),
{
}

/// The settings of the file are all shown: those of the service, the repository, the model and the
/// build.
pub proof fn law_settings_are_shown(config: Option<&PackfixConfig>)
    ensures
        ({
            let t = config::set_lines(config);
            &&& config::obs_api_url(config) matches Some(v) ==> t.contains(
                "obs.api_url = "@ + outside::quoted(v),
            )
            &&& config::obs_default_project(config) matches Some(v) ==> t.contains(
                "obs.default_project = "@ + outside::quoted(v),
            )
            &&& config::repo_url(config) matches Some(v) ==> t.contains(
                "repo.url = "@ + outside::quoted(v),
            )
            &&& config::llm_host(config) matches Some(v) ==> t.contains(
                "llm.host = "@ + outside::quoted(v),
            )
            &&& config::llm_port(config) matches Some(v) ==> t.contains(
                "llm.port = "@ + pieces::decimal(v as nat),
            )
            &&& config::llm_model(config) matches Some(v) ==> t.contains(
                "llm.model = "@ + outside::quoted(v),
            )
            &&& config::build_repository(config) matches Some(v) ==> t.contains(
                "build.repository = "@ + outside::quoted(v),
            )
            &&& config::build_arch(config) matches Some(v) ==> t.contains(
                "build.arch = "@ + outside::quoted(v),
            )
            &&& config::build_max_retries(config) matches Some(v) ==> t.contains(
                "build.max_retries = "@ + pieces::decimal(v as nat),
            )
            &&& config::build_max_dep_depth(config) matches Some(v) ==> t.contains(
                "build.max_dep_depth = "@ + pieces::decimal(v as nat),
            )
        }),
{
    lemma_key_texts();
    let a = config::text_setting("obs.api_url"@, config::obs_api_url(config));
    let b = config::text_setting("obs.default_project"@, config::obs_default_project(config));
    let c = config::text_setting("repo.url"@, config::repo_url(config));
    let d = config::text_setting("llm.host"@, config::llm_host(config));
    let e = config::number_setting(
        "llm.port"@,
        match config::llm_port(config) {
            Some(port) => Some(port as int),
            None => None,
        },
    );
    let f = config::text_setting("llm.model"@, config::llm_model(config));
    let g = config::text_setting("build.repository"@, config::build_repository(config));
    let h = config::text_setting("build.arch"@, config::build_arch(config));
    let i = config::number_setting(
        "build.max_retries"@,
        config::opt_int(config::build_max_retries(config)),
    );
    let j = config::number_setting(
        "build.max_dep_depth"@,
        config::opt_int(config::build_max_dep_depth(config)),
    );
    shown_laws::lemma_add_holds(a, b);
    shown_laws::lemma_add_holds(a + b, c);
    shown_laws::lemma_add_holds(a + b + c, d);
    shown_laws::lemma_add_holds(a + b + c + d, e);
    shown_laws::lemma_add_holds(a + b + c + d + e, f);
    shown_laws::lemma_add_holds(a + b + c + d + e + f, g);
    shown_laws::lemma_add_holds(a + b + c + d + e + f + g, h);
    shown_laws::lemma_add_holds(a + b + c + d + e + f + g + h, i);
    shown_laws::lemma_add_holds(a + b + c + d + e + f + g + h + i, j);
    assert(config::set_lines(config) == a + b + c + d + e + f + g + h + i + j);
    assert(a.len() > 0 ==> a.contains(a[0]));
    assert(b.len() > 0 ==> b.contains(b[0]));
    assert(c.len() > 0 ==> c.contains(c[0]));
    assert(d.len() > 0 ==> d.contains(d[0]));
    assert(e.len() > 0 ==> e.contains(e[0]));
    assert(f.len() > 0 ==> f.contains(f[0]));
    assert(g.len() > 0 ==> g.contains(g[0]));
    assert(h.len() > 0 ==> h.contains(h[0]));
    assert(i.len() > 0 ==> i.contains(i[0]));
    assert(j.len() > 0 ==> j.contains(j[0]));
}

proof fn lemma_key_texts()
    ensures
        "obs.api_url"@ + " = "@ == "obs.api_url = "@,
        "obs.default_project"@ + " = "@ == "obs.default_project = "@,
        "repo.url"@ + " = "@ == "repo.url = "@,
        "llm.host"@ + " = "@ == "llm.host = "@,
        "llm.port"@ + " = "@ == "llm.port = "@,
        "llm.model"@ + " = "@ == "llm.model = "@,
        "build.repository"@ + " = "@ == "build.repository = "@,
        "build.arch"@ + " = "@ == "build.arch = "@,
        "build.max_retries"@ + " = "@ == "build.max_retries = "@,
        "build.max_dep_depth"@ + " = "@ == "build.max_dep_depth = "@,
{
    reveal_strlit(" = ");
    reveal_strlit("obs.api_url");
    reveal_strlit("obs.api_url = ");
    reveal_strlit("obs.default_project");
    reveal_strlit("obs.default_project = ");
    reveal_strlit("repo.url");
    reveal_strlit("repo.url = ");
    reveal_strlit("llm.host");
    reveal_strlit("llm.host = ");
    reveal_strlit("llm.port");
    reveal_strlit("llm.port = ");
    reveal_strlit("llm.model");
    reveal_strlit("llm.model = ");
    reveal_strlit("build.repository");
    reveal_strlit("build.repository = ");
    reveal_strlit("build.arch");
    reveal_strlit("build.arch = ");
    reveal_strlit("build.max_retries");
    reveal_strlit("build.max_retries = ");
    reveal_strlit("build.max_dep_depth");
    reveal_strlit("build.max_dep_depth = ");
}

/// What is logged of a failure on the service tells the attempt, the headline, the log, the issue
/// and the action.
pub proof fn law_remote_failure_is_logged(
    attempt: nat,
    remote_log_path: Seq<char>,
    headline: Seq<char>,
    issue: IssueModel,
    action: ActionModel,
    log: Seq<char>,
)
    ensures
        ({
            let t = remote_fix::failure_lines(
                attempt,
                remote_log_path,
                headline,
                issue,
                action,
                log,
            );
            &&& t.contains("ATTEMPT: "@ + pieces::decimal(attempt))
            &&& t.contains("HEADLINE: "@ + headline)
            &&& t.contains("REMOTE_LOG: "@ + remote_log_path)
            &&& t.contains("ISSUE: "@ + debug::issue_text(issue, None))
            &&& t.contains("ACTION: "@ + debug::action_text(action, None))
        }),
{
    let t = remote_fix::failure_lines(attempt, remote_log_path, headline, issue, action, log);
    assert(t[0] == "ATTEMPT: "@ + pieces::decimal(attempt));
    assert(t[1] == "HEADLINE: "@ + headline);
    assert(t[2] == "REMOTE_LOG: "@ + remote_log_path);
    assert(t[3] == "ISSUE: "@ + debug::issue_text(issue, None));
    assert(t[4] == "ACTION: "@ + debug::action_text(action, None));
}

/// What is logged of a status that asks for packages names each of them with its features.
pub proof fn law_asked_packages_are_logged(
    attempt: nat,
    headline: Seq<char>,
    status: Seq<char>,
    targets: Seq<TargetModel>,
    i: int,
)
    requires
        0 <= i < targets.len(),
    ensures
        remote_fix::status_lines(attempt, headline, status, targets).contains(
            "DEPENDENCY: "@ + targets[i].package + " ["@ + pieces::join(targets[i].features, ", "@)
                + "]"@,
        ),
        remote_fix::status_lines(attempt, headline, status, targets).contains(
            "HEADLINE: "@ + headline,
        ),
{
    let t = remote_fix::status_lines(attempt, headline, status, targets);
    assert(t[3 + i] == remote_fix::dependency_line(targets[i]));
    assert(t[1] == "HEADLINE: "@ + headline);
}

/// A fix that changes nothing ends the repair on the service, and the reason tells of the failure.
pub proof fn law_idle_remote_fix_falls_back(state: LoopModel)
    ensures
        ({
            let m = remote_fix::on_no_change(state);
            &&& m.step matches StepModel::Done(RemoteFixModel::FallbackToLocal(reason))
                && text::ends_with(reason, state.headline)
            &&& m.operation matches Some(o) && o.lines == state.analysis
        }),
{
    let reason = "remote deterministic action produced no spec change: "@ + state.headline;
    let n = reason.len() as int;
    assert(reason.subrange(n - state.headline.len(), n) =~= state.headline);
}

/// A build that went through is logged with its attempt, its status and its log.
pub proof fn law_success_is_logged(report: ReportModel)
    ensures
        ({
            let t = workflow::success_lines(report);
            &&& t.contains("ATTEMPT: "@ + pieces::decimal(report.build_attempts as nat))
            &&& t.contains("STATUS: "@ + report::status_text(report.status))
            &&& report.last_log_path matches Some(path) ==> t.contains("BUILD_LOG: "@ + path)
        }),
{
    let t = workflow::success_lines(report);
    assert(t[0] == "ATTEMPT: "@ + pieces::decimal(report.build_attempts as nat));
    assert(t[1] == "STATUS: "@ + report::status_text(report.status));
    assert(t[2] == "BUILD_LOG: "@ + workflow::shown_log(report));
}

} // verus!
