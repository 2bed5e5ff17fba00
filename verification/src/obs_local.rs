//! What `osc` is asked to do, and what its answers mean.
use vstd::prelude::*;

use crate::command::{CommandModel, CommandResult, CommandSpec};
use crate::config;
use crate::ops_log::{lines2, lines3};
use crate::pieces;
use crate::pieces::{decimal3_of, path_of, signed_decimal_of};
use crate::report::push_line;
use crate::text;
use crate::text::{cat2, cat3, cat4, cat5, chars_of, last_index_of_at, same, string_of};

verus! {

/// What a run of `osc` has come to.
#[derive(Debug, Clone)]
pub struct BuildResult {
    pub success: bool,
    pub returncode: i32,
    pub log_path: String,
    pub stdout: String,
    pub stderr: String,
}

/// A run of `osc` has succeeded where it returned 0.
pub fn build_result(result: CommandResult) -> (r: BuildResult)
    ensures
        r.success == (result.returncode == 0),
        r.returncode == result.returncode,
        r.log_path@ == result.log_path@,
        r.stdout@ == result.stdout@,
        r.stderr@ == result.stderr@,
{
    BuildResult {
        success: result.returncode == 0,
        returncode: result.returncode,
        log_path: result.log_path,
        stdout: result.stdout,
        stderr: result.stderr,
    }
}

pub open spec fn opt_arg(flag: Seq<char>, value: Option<Seq<char>>) -> Seq<Seq<char>> {
    match value {
        Some(v) => seq![flag, v],
        None => seq![],
    }
}

/// The arguments of a build. The build root goes before what stands in a fixed place.
pub open spec fn build_arguments(
    repository: Seq<char>,
    arch: Seq<char>,
    spec_path: Seq<char>,
    project: Option<Seq<char>>,
    build_root: Option<Seq<char>>,
) -> Seq<Seq<char>> {
    seq!["build"@, "--noservice"@, "--no-verify"@] + opt_arg("--root"@, build_root) + seq![
        "--release"@,
        "0"@,
        repository,
        arch,
        spec_path,
    ] + opt_arg("--alternative-project"@, project)
}

fn push_opt_arg(v: &mut Vec<String>, flag: &str, value: Option<&str>)
    ensures
        text::texts(final(v)@) == text::texts(old(v)@) + opt_arg(flag@, config::opt_str(value)),
{
    if let Some(s) = value {
        push_line(v, flag.to_owned());
        push_line(v, s.to_owned());
    }
    assert(text::texts(v@) =~= text::texts(old(v)@) + opt_arg(flag@, config::opt_str(value)));
}

pub fn build_args(
    repository: &str,
    arch: &str,
    spec_path: &str,
    project: Option<&str>,
    build_root: Option<&str>,
) -> (r: Vec<String>)
    ensures
        text::texts(r@) == build_arguments(
            repository@,
            arch@,
            spec_path@,
            config::opt_str(project),
            config::opt_str(build_root),
        ),
{
    let mut args = lines3(
        "build".to_owned(),
        "--noservice".to_owned(),
        "--no-verify".to_owned(),
    );
    push_opt_arg(&mut args, "--root", build_root);
    let ghost head = text::texts(args@);
    push_line(&mut args, "--release".to_owned());
    push_line(&mut args, "0".to_owned());
    push_line(&mut args, repository.to_owned());
    push_line(&mut args, arch.to_owned());
    push_line(&mut args, spec_path.to_owned());
    assert(text::texts(args@) =~= head + seq![
        "--release"@,
        "0"@,
        repository@,
        arch@,
        spec_path@,
    ]);
    push_opt_arg(&mut args, "--alternative-project", project);
    args
}

/// A build never runs services or hooks, and a build root is named before the repository.
pub proof fn law_build_runs_no_hooks(
    repository: Seq<char>,
    arch: Seq<char>,
    spec_path: Seq<char>,
    project: Option<Seq<char>>,
    root: Seq<char>,
)
    ensures
        ({
            let args = build_arguments(repository, arch, spec_path, project, Some(root));
            &&& args[1] == "--noservice"@
            &&& args[2] == "--no-verify"@
            &&& args[3] == "--root"@
            &&& args[4] == root
            &&& args[7] == repository
        }),
{
}

/// The command of a build, the `attempt_index`th of a package.
pub fn osc_build(
    workdir: &str,
    spec_path: &str,
    repository: &str,
    arch: &str,
    project: Option<&str>,
    osc_bin: &str,
    attempt_index: usize,
    build_root: Option<&str>,
) -> (r: CommandSpec)
    ensures
        r@ == (CommandModel {
            program: osc_bin@,
            args: build_arguments(
                repository@,
                arch@,
                spec_path@,
                config::opt_str(project),
                config::opt_str(build_root),
            ),
            cwd: Some(workdir@),
            timeout: 3600,
            log_path: pieces::path_join(
                pieces::path_join(workdir@, "logs"@),
                "build_attempt_"@ + pieces::decimal3(attempt_index as nat) + ".log"@,
            ),
        }),
{
    let name = cat3("build_attempt_", decimal3_of(attempt_index as u64).as_str(), ".log");
    CommandSpec {
        program: osc_bin.to_owned(),
        args: build_args(repository, arch, spec_path, project, build_root),
        cwd: Some(workdir.to_owned()),
        timeout: 3600,
        log_path: path_of(path_of(workdir, "logs").as_str(), name.as_str()),
    }
}

pub open spec fn checkout_arguments(project: Seq<char>, package: Option<Seq<char>>) -> Seq<
    Seq<char>,
> {
    seq![
        "checkout"@,
        match package {
            Some(p) => project + "/"@ + p,
            None => project,
        },
    ]
}

pub fn checkout_args(project: &str, package: Option<&str>) -> (r: Vec<String>)
    ensures
        text::texts(r@) == checkout_arguments(project@, config::opt_str(package)),
{
    let target = match package {
        Some(p) => cat3(project, "/", p),
        None => project.to_owned(),
    };
    lines2("checkout".to_owned(), target)
}

/// Where a checkout ends up.
pub fn checkout_target_dir(checkout_root: &str, project: &str, package: Option<&str>) -> (r: String)
    ensures
        r@ == (match package {
            Some(p) => pieces::path_join(pieces::path_join(checkout_root@, project@), p@),
            None => pieces::path_join(checkout_root@, project@),
        }),
{
    let dir = path_of(checkout_root, project);
    match package {
        Some(p) => path_of(dir.as_str(), p),
        None => dir,
    }
}

pub open spec fn checkout_log(
    checkout_root: Seq<char>,
    project: Seq<char>,
    package: Option<Seq<char>>,
) -> Seq<char> {
    pieces::path_join(
        pieces::path_join(checkout_root, "logs"@),
        "osc_checkout_"@ + config::first_given(package, None, project) + ".log"@,
    )
}

pub fn checkout_log_path(checkout_root: &str, project: &str, package: Option<&str>) -> (r: String)
    ensures
        r@ == checkout_log(checkout_root@, project@, config::opt_str(package)),
{
    let suffix = match package {
        Some(p) => p,
        None => project,
    };
    path_of(
        path_of(checkout_root, "logs").as_str(),
        cat3("osc_checkout_", suffix, ".log").as_str(),
    )
}

/// The command of a checkout, into the current directory where no other is given.
pub fn osc_checkout(
    project: &str,
    package: Option<&str>,
    checkout_root: Option<&str>,
    osc_bin: &str,
) -> (r: CommandSpec)
    ensures
        ({
            let root = config::first_given(config::opt_str(checkout_root), None, "."@);
            r@ == (CommandModel {
                program: osc_bin@,
                args: checkout_arguments(project@, config::opt_str(package)),
                cwd: Some(root),
                timeout: 300,
                log_path: checkout_log(root, project@, config::opt_str(package)),
            })
        }),
{
    let root = match checkout_root {
        Some(root) => root,
        None => ".",
    };
    CommandSpec {
        program: osc_bin.to_owned(),
        args: checkout_args(project, package),
        cwd: Some(root.to_owned()),
        timeout: 300,
        log_path: checkout_log_path(root, project, package),
    }
}

pub fn update_args() -> (r: Vec<String>)
    ensures
        text::texts(r@) == seq!["up"@, "-S"@],
{
    lines2("up".to_owned(), "-S".to_owned())
}

/// The command that brings a checkout up to date.
pub fn osc_update(workdir: &str, osc_bin: &str) -> (r: CommandSpec)
    ensures
        r@ == (CommandModel {
            program: osc_bin@,
            args: seq!["up"@, "-S"@],
            cwd: Some(workdir@),
            timeout: 300,
            log_path: pieces::path_join(
                pieces::path_join(workdir@, "logs"@),
                "osc_update.log"@,
            ),
        }),
{
    CommandSpec {
        program: osc_bin.to_owned(),
        args: update_args(),
        cwd: Some(workdir.to_owned()),
        timeout: 300,
        log_path: path_of(path_of(workdir, "logs").as_str(), "osc_update.log"),
    }
}

pub open spec fn status_arguments(
    project: Seq<char>,
    package: Seq<char>,
    repository: Seq<char>,
    arch: Seq<char>,
) -> Seq<Seq<char>> {
    seq![
        "api"@,
        "/build/"@ + project + "/"@ + repository + "/"@ + arch + "/"@ + package + "/_status"@,
    ]
}

pub fn api_status_args(project: &str, package: &str, repository: &str, arch: &str) -> (r: Vec<
    String,
>)
    ensures
        text::texts(r@) == status_arguments(project@, package@, repository@, arch@),
{
    let mut url = cat5("/build/", project, "/", repository, "/");
    url.append(arch);
    url.append("/");
    url.append(package);
    url.append("/_status");
    lines2("api".to_owned(), url)
}

/// The decimal notation of a large number.
pub fn wide_decimal(n: u128) -> (r: String)
    ensures
        r@ == pieces::decimal(n as nat),
    decreases n,
{
    let mut s = if n < 10 {
        String::new()
    } else {
        wide_decimal(n / 10)
    };
    let d: u8 = (n % 10) as u8;
    let c: char = (48u8 + d) as char;
    s.push(c);
    s
}

pub open spec fn zeros(n: int) -> Seq<char>
    decreases n,
{
    if n <= 0 {
        seq![]
    } else {
        zeros(n - 1).push('0')
    }
}

/// The mark of a moment in a file name, in nanoseconds since the epoch and 16 digits at least.
pub open spec fn moment(nanos: Option<u128>) -> Seq<char> {
    match nanos {
        Some(n) => "_"@ + zeros(16 - pieces::decimal(n as nat).len()) + pieces::decimal(n as nat),
        None => seq![],
    }
}

fn moment_of(nanos: Option<u128>) -> (r: String)
    ensures
        r@ == moment(nanos),
{
    match nanos {
        Some(n) => {
            let digits = wide_decimal(n);
            let v = chars_of(digits.as_str());
            let have: usize = v.len();
            let mut pad = String::new();
            let mut k: usize = 0;
            while k < 16 && have + k < 16
                invariant
                    k <= 16,
                    have == v@.len(),
                    pad@ == zeros(k as int),
                    have + k <= 16 || k == 0,
                decreases 16 - k,
            {
                pad.push('0');
                k += 1;
            }
            assert(zeros(k as int) == zeros(16 - have));
            cat3("_", pad.as_str(), digits.as_str())
        },
        None => String::new(),
    }
}

/// The command that asks for the status of a build, at a moment.
pub fn osc_api_status(
    project: &str,
    package: &str,
    repository: &str,
    arch: &str,
    osc_bin: &str,
    nanos: Option<u128>,
) -> (r: CommandSpec)
    ensures
        r@ == (CommandModel {
            program: osc_bin@,
            args: status_arguments(project@, package@, repository@, arch@),
            cwd: Some("."@),
            timeout: 60,
            log_path: "./logs/osc_status_"@ + package@ + moment(nanos) + ".log"@,
        }),
{
    CommandSpec {
        program: osc_bin.to_owned(),
        args: api_status_args(project, package, repository, arch),
        cwd: Some(".".to_owned()),
        timeout: 60,
        log_path: cat4("./logs/osc_status_", package, moment_of(nanos).as_str(), ".log"),
    }
}

/// What is done with a file of a checkout.
#[derive(Debug, Clone, PartialEq, Eq)]
pub enum EntryFix {
    Keep,
    Remove,
    /// Rename it, unless there is a file of that name: then remove it.
    Rename(String),
}

/// The model of an [`EntryFix`].
#[verifier::ext_equal]
pub enum FixModel {
    Keep,
    Remove,
    Rename(Seq<char>),
}

impl View for EntryFix {
    type V = FixModel;

    open spec fn view(&self) -> FixModel {
        match *self {
            EntryFix::Keep => FixModel::Keep,
            EntryFix::Remove => FixModel::Remove,
            EntryFix::Rename(name) => FixModel::Rename(name@),
        }
    }
}

/// What is done with a file of a checkout: the description of the services goes, and what they have
/// made loses the mark before its name.
pub open spec fn entry_fix(name: Seq<char>) -> FixModel {
    let colon = text::last_index_of(name, ':', name.len() as int);
    if name == "_service"@ {
        FixModel::Remove
    } else if colon >= 0 {
        FixModel::Rename(name.skip(colon + 1))
    } else {
        FixModel::Keep
    }
}

pub fn sanitize_checkout_entry(name: &str) -> (r: EntryFix)
    ensures
        r@ == entry_fix(name@),
{
    if same(name, "_service") {
        return EntryFix::Remove;
    }
    let v = chars_of(name);
    let place: usize = last_index_of_at(&v, ':');
    proof {
        text::lemma_last_index_of(v@, ':', v@.len() as int);
    }
    if place > 0 {
        let rest = string_of(&v, place, v.len());
        assert(rest@ =~= name@.skip(place as int));
        return EntryFix::Rename(rest);
    }
    EntryFix::Keep
}

/// A file that has lost its mark is not renamed again.
pub proof fn law_sanitizing_settles(name: Seq<char>)
    ensures
        entry_fix(name) matches FixModel::Rename(plain) ==> !(entry_fix(plain) is Rename),
{
    let n = name.len() as int;
    text::lemma_last_index_of(name, ':', n);
    let colon = text::last_index_of(name, ':', n);
    if colon >= 0 {
        let plain = name.skip(colon + 1);
        text::lemma_last_index_of(plain, ':', plain.len() as int);
        let again = text::last_index_of(plain, ':', plain.len() as int);
        if again >= 0 {
            assert(name[colon + 1 + again] == ':');
        }
    }
}

/// What is said of a run of `osc` that has not succeeded.
pub fn osc_failure(what: &str, returncode: i32, stderr: &str) -> (r: String)
    ensures
        r@ == what@ + " failed (rc="@ + pieces::signed_decimal(returncode as int) + "): "@
            + stderr@,
{
    cat2(
        cat4(what, " failed (rc=", signed_decimal_of(returncode).as_str(), "): ").as_str(),
        stderr,
    )
}

} // verus!
