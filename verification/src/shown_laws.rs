//! Laws of what is shown, logged and read of settings.
use vstd::prelude::*;

use crate::cli;
use crate::command;
use crate::command::CommandModel;
use crate::config;
use crate::config::PackfixConfig;
use crate::debug;
use crate::git;
use crate::issue::{ActionModel, IssueModel};
use crate::line_laws;
use crate::log_laws;
use crate::ops_log;
use crate::outside;
use crate::pieces;
use crate::report;
use crate::report::{ReportModel, Status};
use crate::text;

verus! {

/// No two statuses have the same name.
pub proof fn law_statuses_have_their_own_names(a: Status, b: Status)
    ensures
        report::status_text(a) == report::status_text(b) <==> a == b,
        report::status_text(Status::BuildSuccess) == "BuildSuccess"@,
        report::status_text(Status::NeedHuman) == "NeedHuman"@,
        report::status_text(Status::Failed) == "Failed"@,
{
    reveal_strlit("BuildSuccess");
    reveal_strlit("NeedHuman");
    reveal_strlit("Failed");
    reveal_strlit("DryRunComplete");
    assert("BuildSuccess"@.len() == 12 && "NeedHuman"@.len() == 9);
    assert("Failed"@.len() == 6 && "DryRunComplete"@.len() == 14);
}

pub proof fn lemma_add_holds(a: Seq<Seq<char>>, b: Seq<Seq<char>>)
    ensures
        forall|x: Seq<char>| #[trigger] a.contains(x) ==> (a + b).contains(x),
        forall|x: Seq<char>| #[trigger] b.contains(x) ==> (a + b).contains(x),
{
    assert forall|x: Seq<char>| #[trigger] a.contains(x) implies (a + b).contains(x) by {
        assert((a + b)[a.index_of(x)] == x);
    }
    assert forall|x: Seq<char>| #[trigger] b.contains(x) implies (a + b).contains(x) by {
        assert((a + b)[a.len() + b.index_of(x)] == x);
    }
}

/// A report is shown with its status, the numbers of its builds and fixes, what it knows of the
/// package, its spec and its logs, and at the end all its notes in order.
pub proof fn law_report_shows_what_it_knows(r: ReportModel)
    ensures
        ({
            let t = report::report_text(r);
            let n = r.notes.len();
            &&& t.contains("status: "@ + report::status_text(r.status))
            &&& t.contains("build_attempts: "@ + pieces::decimal(r.build_attempts as nat))
            &&& t.contains("fixes_applied: "@ + pieces::decimal(r.fixes_applied as nat))
            &&& r.package_name matches Some(name) ==> t.contains("package: "@ + name)
            &&& r.spec_path matches Some(path) ==> t.contains("spec: "@ + path)
            &&& r.last_log_path matches Some(path) ==> t.contains("last_log: "@ + path)
            &&& r.operation_log_path matches Some(path) ==> t.contains(
                "operations_log: "@ + path,
            )
            &&& t.len() >= n
            &&& forall|i: int|
                0 <= i < n ==> t[t.len() - n + i] == "note: "@ + #[trigger] r.notes[i]
        }),
{
    let t = report::report_text(r);
    let a = report::labelled("package: "@, r.package_name);
    let b = seq!["status: "@ + report::status_text(r.status)];
    let c = report::labelled("spec: "@, r.spec_path);
    let d = seq![
        "build_attempts: "@ + pieces::decimal(r.build_attempts as nat),
        "fixes_applied: "@ + pieces::decimal(r.fixes_applied as nat),
    ];
    let e = report::labelled("last_log: "@, r.last_log_path);
    let f = report::labelled("operations_log: "@, r.operation_log_path);
    let g = report::labelled(
        "final_action: "@,
        match r.final_action {
            Some(action) => Some(debug::action_text(action, Some(""@))),
            None => None,
        },
    );
    let h = pieces::prefix_each("note: "@, r.notes);
    assert(b.contains(b[0]));
    assert(d.contains(d[0]) && d.contains(d[1]));
    if r.package_name is Some {
        assert(a.contains(a[0]));
    }
    if r.spec_path is Some {
        assert(c.contains(c[0]));
    }
    if r.last_log_path is Some {
        assert(e.contains(e[0]));
    }
    if r.operation_log_path is Some {
        assert(f.contains(f[0]));
    }
    lemma_add_holds(a, b);
    lemma_add_holds(a + b, c);
    lemma_add_holds(a + b + c, d);
    lemma_add_holds(a + b + c + d, e);
    lemma_add_holds(a + b + c + d + e, f);
    lemma_add_holds(a + b + c + d + e + f, g);
    lemma_add_holds(a + b + c + d + e + f + g, h);
    assert(t == a + b + c + d + e + f + g + h);
}

/// Several reports are shown one after the other, each whole, with an empty line between two.
pub proof fn law_reports_are_shown_one_by_one(reports: Seq<ReportModel>, last: ReportModel)
    requires
        reports.len() > 0,
    ensures
        report::reports_text(seq![last]) == report::report_text(last),
        report::reports_text(reports.push(last)) == report::reports_text(reports) + seq![
            Seq::<char>::empty(),
        ] + report::report_text(last),
{
    reveal_strlit("");
    assert(""@ =~= Seq::<char>::empty());
    assert(reports.push(last).drop_last() =~= reports);
    let t = report::reports_text(reports);
    assert(t.push(""@) =~= t + seq![Seq::<char>::empty()]);
}

proof fn lemma_ended(v: Seq<Seq<char>>)
    requires
        v.len() > 0,
    ensures
        ops_log::ended(v) == pieces::join(v, "\n"@) + "\n"@,
    decreases v.len(),
{
    if v.len() == 1 {
        assert(v.drop_last() =~= seq![]);
        assert(ops_log::ended(v.drop_last()) =~= seq![]);
        assert(ops_log::ended(v) =~= v[0] + "\n"@);
    } else {
        lemma_ended(v.drop_last());
    }
}

/// An entry of the log has a line with the time and the title, then the lines of the operation, and
/// then an empty one.
pub proof fn law_operation_is_logged(
    time: Option<(u64, u32)>,
    title: Seq<char>,
    lines: Seq<Seq<char>>,
)
    requires
        log_laws::is_line(title),
        forall|i: int| 0 <= i < lines.len() ==> log_laws::is_line(#[trigger] lines[i]),
        !ops_log::time_text(time).contains('\n'),
    ensures
        pieces::lines(ops_log::entry_text(time, title, lines)) == seq![
            "== "@ + ops_log::time_text(time) + " | "@ + title + " =="@,
        ] + lines + seq![Seq::<char>::empty()],
{
    reveal_strlit("== ");
    reveal_strlit(" | ");
    reveal_strlit(" ==\n");
    reveal_strlit(" ==");
    reveal_strlit("\n");
    let head = "== "@ + ops_log::time_text(time) + " | "@ + title + " =="@;
    let empty = Seq::<char>::empty();
    let v = seq![head] + lines + seq![empty];
    let entry = ops_log::entry_text(time, title, lines);
    if lines.len() == 0 {
        assert(ops_log::ended(lines) =~= seq![]);
        assert(v =~= seq![head, empty]);
        assert(v.drop_last() =~= seq![head]);
        assert(pieces::join(v.drop_last(), "\n"@) == head);
        assert(entry =~= pieces::join(v, "\n"@) + "\n"@);
    } else {
        lemma_ended(lines);
        line_laws::lemma_join_cons(seq![head] + lines, "\n"@);
        assert((seq![head] + lines).drop_first() =~= lines);
        assert(v.drop_last() =~= seq![head] + lines);
        assert(entry =~= pieces::join(v, "\n"@) + "\n"@);
    }
    assert forall|i: int| 0 <= i < v.len() implies !(#[trigger] v[i]).contains('\n') by {
        if i == 0 {
            lemma_head_is_line(ops_log::time_text(time), title);
        } else if i <= lines.len() {
            assert(v[i] == lines[i - 1]);
            assert(log_laws::is_line(lines[i - 1]));
        }
    }
    line_laws::lemma_lines_of_closed_join(v);
    let t = line_laws::strip_cr_each(v);
    assert forall|i: int| 0 <= i < v.len() implies t[i] == v[i] by {
        if i == 0 {
            assert(head.last() == '=');
        } else if i <= lines.len() {
            assert(log_laws::is_line(lines[i - 1]));
        }
    }
    assert(t =~= v);
}

proof fn lemma_head_is_line(time: Seq<char>, title: Seq<char>)
    requires
        !time.contains('\n'),
        !title.contains('\n'),
    ensures
        !("== "@ + time + " | "@ + title + " =="@).contains('\n'),
{
    reveal_strlit("== ");
    reveal_strlit(" | ");
    reveal_strlit(" ==");
    let s = "== "@ + time + " | "@ + title + " =="@;
    if s.contains('\n') {
        let k = s.index_of('\n');
        let a = 3 + time.len();
        let b = a + 3 + title.len();
        if 3 <= k < a {
            assert(time[k - 3] == '\n');
        } else if a + 3 <= k < b {
            assert(title[k - a - 3] == '\n');
        }
    }
}

/// A time is logged in seconds, with its milliseconds behind a point.
pub proof fn law_time_is_shown(seconds: u64, millis: u32)
    ensures
        ops_log::time_text(Some((seconds, millis))) == pieces::decimal(seconds as nat) + "."@
            + pieces::decimal3(millis as nat) + "Z"@,
{
}

/// Only three programs may be run.
pub proof fn law_three_programs_may_be_run(name: Seq<char>)
    ensures
        command::is_allowed("takopack"@),
        command::is_allowed("osc"@),
        command::is_allowed("git"@),
        command::is_allowed(name) ==> name == "takopack"@ || name == "osc"@ || name == "git"@,
{
}

/// A line that a program has put out is kept without the line ends behind it, and with everything
/// else.
pub proof fn law_line_ends_are_cut_off(s: Seq<char>)
    ensures
        s.len() > 0 && s.last() != '\n' && s.last() != '\r' ==> command::without_end(s) == s,
        command::without_end(s.push('\n')) == command::without_end(s),
        command::without_end(s.push('\r')) == command::without_end(s),
        command::without_end(s).len() <= s.len(),
        s.take(command::without_end(s).len() as int) == command::without_end(s),
        command::without_end(s).len() > 0 ==> command::without_end(s).last() != '\n'
            && command::without_end(s).last() != '\r',
    decreases s.len(),
{
    assert(s.push('\n').drop_last() =~= s);
    assert(s.push('\r').drop_last() =~= s);
    if s.len() > 0 && (s.last() == '\n' || s.last() == '\r') {
        let rest = s.drop_last();
        law_line_ends_are_cut_off(rest);
        let n = command::without_end(rest).len() as int;
        assert(s.take(n) =~= rest.take(n));
    } else {
        assert(s.take(s.len() as int) =~= s);
    }
}

/// The error output of a program that took too long starts with what it had put out, and ends with
/// a line that says how long it was given.
pub proof fn law_timeout_is_told(stderr: Seq<char>, timeout: u64)
    ensures
        ({
            let told = "TIMEOUT after "@ + pieces::decimal(timeout as nat) + "s"@;
            let out = command::timeout_text(stderr, timeout);
            &&& text::starts_with(out, stderr)
            &&& text::ends_with(out, told)
            &&& stderr.len() == 0 ==> out == told
            &&& stderr.len() > 0 ==> text::ends_with(out, "\n"@ + told)
        }),
{
    reveal_strlit("\n");
    let told = "TIMEOUT after "@ + pieces::decimal(timeout as nat) + "s"@;
    let out = command::timeout_text(stderr, timeout);
    let n = out.len() as int;
    assert(out.subrange(0, stderr.len() as int) =~= stderr);
    assert(out.subrange(n - told.len(), n) =~= told);
    if stderr.len() == 0 {
        assert(out =~= told);
    } else {
        let tail = "\n"@ + told;
        if text::ends_with(stderr, "\n"@) {
            let m = stderr.len() as int;
            assert(stderr.subrange(m - 1, m)[0] == stderr[m - 1]);
        }
        assert(out.subrange(n - tail.len(), n) =~= tail);
    }
}

/// The log of a command tells what was run and where, and what it put out and returned.
pub proof fn law_command_is_logged(
    spec: CommandModel,
    started: Option<(u64, u32)>,
    stdout: Seq<char>,
    stderr: Seq<char>,
    code: i32,
    finished: Option<(u64, u32)>,
    elapsed: Seq<char>,
)
    ensures
        text::starts_with(
            command::header_text(spec, started),
            "COMMAND: "@ + spec.program + " "@ + pieces::join(spec.args, " "@) + "\n"@,
        ),
        text::contains(
            command::header_text(spec, started),
            "CWD: "@ + match spec.cwd {
                Some(dir) => dir,
                None => "."@,
            } + "\n"@,
        ),
        text::contains(
            command::result_text(stdout, stderr, code, finished, elapsed),
            "STDOUT:\n"@ + stdout + "\n"@,
        ),
        text::contains(
            command::result_text(stdout, stderr, code, finished, elapsed),
            "STDERR:\n"@ + stderr + "\n"@,
        ),
        text::contains(
            command::result_text(stdout, stderr, code, finished, elapsed),
            "RETURNCODE: "@ + pieces::signed_decimal(code as int) + "\n"@,
        ),
{
    reveal_strlit("\n");
    reveal_strlit("\nCWD: ");
    reveal_strlit("CWD: ");
    reveal_strlit("\nSTARTED_AT: ");
    reveal_strlit("STDOUT:\n");
    reveal_strlit("STDERR:\n");
    reveal_strlit("\n\nSTDERR:\n");
    reveal_strlit("RETURNCODE: ");
    reveal_strlit("\n\nRETURNCODE: ");
    reveal_strlit("\nFINISHED_AT: ");
    let header = command::header_text(spec, started);
    let a = "COMMAND: "@ + spec.program + " "@ + pieces::join(spec.args, " "@);
    let first = a + "\n"@;
    assert(header.subrange(0, first.len() as int) =~= first);
    let dir = match spec.cwd {
        Some(dir) => dir,
        None => "."@,
    };
    let b = "CWD: "@ + dir + "\n"@;
    let i = first.len() as int;
    assert(header.subrange(i, i + b.len()) =~= b);
    log_laws::lemma_contains_at(header, b, i);
    let result = command::result_text(stdout, stderr, code, finished, elapsed);
    let c = "STDOUT:\n"@ + stdout + "\n"@;
    assert(result.subrange(0, c.len() as int) =~= c);
    log_laws::lemma_contains_at(result, c, 0);
    let d = "STDERR:\n"@ + stderr + "\n"@;
    let j = c.len() as int + 1;
    assert(result.subrange(j, j + d.len()) =~= d);
    log_laws::lemma_contains_at(result, d, j);
    let e = "RETURNCODE: "@ + pieces::signed_decimal(code as int) + "\n"@;
    let k = j + d.len() + 1;
    assert(result.subrange(k, k + e.len()) =~= e);
    log_laws::lemma_contains_at(result, e, k);
}

/// What `git` complains of is its error output, and only where that is blank its output.
pub proof fn law_git_complains_by_its_error_output(stdout: Seq<char>, stderr: Seq<char>)
    ensures
        text::trim(stderr).len() > 0 ==> git::complaint(stdout, stderr) == text::trim(stderr),
        text::trim(stderr).len() == 0 ==> git::complaint(stdout, stderr) == text::trim(stdout),
{
}

/// What the command line gives goes before what is configured, be it given behind the flag or
/// behind `=`; what it does not give is configured.
pub proof fn law_command_line_goes_first(
    args: Seq<Seq<char>>,
    flag: Seq<char>,
    value: Seq<char>,
    i: int,
    parsed: Seq<char>,
    configured: Seq<char>,
    number: int,
    other: int,
)
    requires
        0 <= i < args.len(),
        args[i] == flag || args[i] == flag + "="@ + value,
    ensures
        cli::text_option(args, flag, parsed, Some(configured)) == parsed,
        cli::number_option(args, flag, number, Some(other)) == number,
        cli::text_option(seq![], flag, parsed, Some(configured)) == configured,
        cli::number_option(seq![], flag, number, Some(other)) == other,
        cli::text_option(seq![], flag, parsed, None) == parsed,
        cli::number_option(seq![], flag, number, None) == number,
{
    let p = flag + "="@;
    assert((p + value).subrange(0, p.len() as int) =~= p);
    assert(cli::provided(args, flag));
    assert(!cli::provided(seq![], flag));
}

/// Other arguments do not count as the flag.
pub proof fn law_other_arguments_are_not_the_flag(args: Seq<Seq<char>>, flag: Seq<char>)
    requires
        forall|i: int| 0 <= i < args.len() ==> !text::starts_with(#[trigger] args[i], flag),
    ensures
        !cli::provided(args, flag),
{
    assert forall|i: int| 0 <= i < args.len() implies !(#[trigger] args[i] == flag
        || text::starts_with(args[i], flag + "="@)) by {
        let a = args[i];
        if a == flag {
            assert(a.subrange(0, flag.len() as int) =~= flag);
        }
        if text::starts_with(a, flag + "="@) {
            let p = flag + "="@;
            assert(a.subrange(0, flag.len() as int) =~= a.subrange(0, p.len() as int).subrange(
                0,
                flag.len() as int,
            ));
            assert(p.subrange(0, flag.len() as int) =~= flag);
        }
    }
}

/// Each setting is read from its own place in the configuration.
pub proof fn law_settings_are_read(c: PackfixConfig)
    ensures
        c.obs matches Some(o) ==> {
            &&& config::obs_api_url(Some(&c)) == text::opt_text(o.api_url)
            &&& config::obs_default_project(Some(&c)) == text::opt_text(o.default_project)
            &&& config::obs_oscrc_path(Some(&c)) == text::opt_text(o.oscrc_path)
        },
        c.repo matches Some(r) ==> {
            &&& config::repo_url(Some(&c)) == text::opt_text(r.url)
            &&& config::repo_workdir(Some(&c)) == text::opt_text(r.workdir)
        },
        c.llm matches Some(l) ==> {
            &&& config::llm_host(Some(&c)) == text::opt_text(l.host)
            &&& config::llm_port(Some(&c)) == l.port
            &&& config::llm_model(Some(&c)) == text::opt_text(l.model)
        },
        c.build matches Some(b) ==> {
            &&& config::build_repository(Some(&c)) == text::opt_text(b.repository)
            &&& config::build_arch(Some(&c)) == text::opt_text(b.arch)
            &&& config::build_max_retries(Some(&c)) == b.max_retries
            &&& config::build_max_dep_depth(Some(&c)) == b.max_dep_depth
        },
        c.description matches Some(d) ==> {
            &&& config::system_prompt(Some(&c)) == d.system_prompt@
            &&& config::user_prompt(Some(&c)) == d.user_prompt@
            &&& config::timeout_secs(Some(&c)) == d.timeout_secs
            &&& config::max_context_chars(Some(&c)) == d.max_context_chars
            &&& config::num_predict(Some(&c)) == d.num_predict
            &&& config::temperature(Some(&c)) == d.temperature
        },
{
}

/// The first of three that is given counts.
pub proof fn law_first_given_counts(
    a: Option<Seq<char>>,
    b: Option<Seq<char>>,
    c: Seq<char>,
    x: Seq<char>,
)
    ensures
        config::first_given(Some(x), b, c) == x,
        config::first_given(None, Some(x), c) == x,
        config::first_given(None, None, c) == c,
        a is Some ==> config::first_given(a, b, c) == a->0,
{
}

/// A list is shown in brackets, its texts in quotes and with commas between them; an optional text
/// as what it is.
pub proof fn law_values_are_shown(v: Seq<Seq<char>>, s: Seq<char>)
    requires
        v.len() > 0,
    ensures
        debug::list_text(v, None) == "["@ + pieces::join(debug::quote_each(v), ", "@) + "]"@,
        debug::list_text(seq![], None) == "[]"@,
        debug::option_text(Some(s), None) == "Some("@ + outside::quoted(s) + ")"@,
        debug::option_text(None, None) == "None"@,
        forall|i: int|
            0 <= i < v.len() ==> debug::quote_each(v)[i] == outside::quoted(#[trigger] v[i]),
{
    reveal_strlit("");
    let j = pieces::join(debug::quote_each(v), ", "@);
    assert("["@ + ""@ =~= "["@);
    assert(""@ + "]"@ =~= "]"@);
    assert("Some("@ + ""@ =~= "Some("@);
    assert(""@ + ")"@ =~= ")"@);
}

proof fn lemma_fields_start(name: Seq<char>, fields: Seq<Seq<char>>)
    ensures
        text::starts_with(debug::fields_text(name, fields, None), name + " { "@),
{
    reveal_strlit(" {");
    reveal_strlit(" ");
    reveal_strlit(" { ");
    assert(" {"@ + " "@ =~= " { "@);
    let s = debug::fields_text(name, fields, None);
    let head = name + " { "@;
    assert(s.subrange(0, head.len() as int) =~= head);
}

/// The fields of a value are shown in order between braces behind its name.
pub proof fn law_fields_are_shown(name: Seq<char>, fields: Seq<Seq<char>>)
    ensures
        debug::fields_text(name, fields, None) == name + " { "@ + pieces::join(fields, ", "@)
            + " }"@,
{
    reveal_strlit(" {");
    reveal_strlit(" ");
    reveal_strlit(" { ");
    reveal_strlit("}");
    reveal_strlit(" }");
    assert(" {"@ + " "@ =~= " { "@);
    assert(" "@ + "}"@ =~= " }"@);
    assert(debug::fields_text(name, fields, None) =~= name + " { "@ + pieces::join(fields, ", "@)
        + " }"@);
}

/// An issue is shown under its name, with the texts that it holds.
pub proof fn law_issue_is_shown_under_its_name(issue: IssueModel)
    ensures
        match issue {
            IssueModel::MissingBuildDependencies { deps } => debug::issue_text(issue, None)
                == "MissingBuildDependencies"@ + " { "@ + "deps"@ + ": "@ + debug::list_text(
                deps,
                None,
            ) + " }"@,
            IssueModel::DependencyUnresolvable { deps } => debug::issue_text(issue, None)
                == "DependencyUnresolvable"@ + " { "@ + "deps"@ + ": "@ + debug::list_text(
                deps,
                None,
            ) + " }"@,
            IssueModel::InstalledButUnpackagedFiles { files } => debug::issue_text(issue, None)
                == "InstalledButUnpackagedFiles"@ + " { "@ + "files"@ + ": "@ + debug::list_text(
                files,
                None,
            ) + " }"@,
            IssueModel::MissingPythonModule { .. } => text::starts_with(
                debug::issue_text(issue, None),
                "MissingPythonModule"@ + " { "@,
            ),
            IssueModel::ImportCheckExclusions { .. } => text::starts_with(
                debug::issue_text(issue, None),
                "ImportCheckExclusions"@ + " { "@,
            ),
            IssueModel::InstallModuleMismatch { .. } => text::starts_with(
                debug::issue_text(issue, None),
                "InstallModuleMismatch"@ + " { "@,
            ),
            IssueModel::PyprojectBackendMissing { .. } => text::starts_with(
                debug::issue_text(issue, None),
                "PyprojectBackendMissing"@ + " { "@,
            ),
            IssueModel::CExtensionCompileError { .. } => text::starts_with(
                debug::issue_text(issue, None),
                "CExtensionCompileError"@ + " { "@,
            ),
            IssueModel::TestFailure { .. } => text::starts_with(
                debug::issue_text(issue, None),
                "TestFailure"@ + " { "@,
            ),
            IssueModel::PatchApplyError { .. } => text::starts_with(
                debug::issue_text(issue, None),
                "PatchApplyError"@ + " { "@,
            ),
            IssueModel::Unknown { .. } => text::starts_with(
                debug::issue_text(issue, None),
                "Unknown"@ + " { "@,
            ),
            IssueModel::EmptyImportCheck => debug::issue_text(issue, None) == "EmptyImportCheck"@,
            IssueModel::ArchDependentInNoarch => debug::issue_text(issue, None)
                == "ArchDependentInNoarch"@,
            IssueModel::MissingPep639LicenseMetadata => debug::issue_text(issue, None)
                == "MissingPep639LicenseMetadata"@,
        },
{
    match issue {
        IssueModel::MissingBuildDependencies { deps } => {
            lemma_one_list("MissingBuildDependencies"@, "deps"@, deps);
        },
        IssueModel::DependencyUnresolvable { deps } => {
            lemma_one_list("DependencyUnresolvable"@, "deps"@, deps);
        },
        IssueModel::InstalledButUnpackagedFiles { files } => {
            lemma_one_list("InstalledButUnpackagedFiles"@, "files"@, files);
        },
        IssueModel::MissingPythonModule { module, import_context } => {
            lemma_fields_start(
                "MissingPythonModule"@,
                seq![
                    debug::text_field("module"@, module),
                    debug::field_text(
                        "import_context"@,
                        debug::option_text(import_context, debug::inner(None)),
                    ),
                ],
            );
        },
        IssueModel::ImportCheckExclusions { modules, missing_modules, exclusions } => {
            lemma_fields_start(
                "ImportCheckExclusions"@,
                seq![
                    debug::list_field("modules"@, modules, None),
                    debug::list_field("missing_modules"@, missing_modules, None),
                    debug::list_field("exclusions"@, exclusions, None),
                ],
            );
        },
        IssueModel::InstallModuleMismatch { wrong_module, suggested_module } => {
            lemma_fields_start(
                "InstallModuleMismatch"@,
                seq![
                    debug::text_field("wrong_module"@, wrong_module),
                    debug::text_field("suggested_module"@, suggested_module),
                ],
            );
        },
        IssueModel::PyprojectBackendMissing { deps } => {
            lemma_fields_start(
                "PyprojectBackendMissing"@,
                seq![debug::list_field("deps"@, deps, None)],
            );
        },
        IssueModel::CExtensionCompileError { important_lines } => {
            lemma_fields_start(
                "CExtensionCompileError"@,
                seq![debug::list_field("important_lines"@, important_lines, None)],
            );
        },
        IssueModel::TestFailure { important_lines } => {
            lemma_fields_start(
                "TestFailure"@,
                seq![debug::list_field("important_lines"@, important_lines, None)],
            );
        },
        IssueModel::PatchApplyError { important_lines } => {
            lemma_fields_start(
                "PatchApplyError"@,
                seq![debug::list_field("important_lines"@, important_lines, None)],
            );
        },
        IssueModel::Unknown { important_lines } => {
            lemma_fields_start(
                "Unknown"@,
                seq![debug::list_field("important_lines"@, important_lines, None)],
            );
        },
        _ => {},
    }
}

proof fn lemma_one_list(name: Seq<char>, key: Seq<char>, v: Seq<Seq<char>>)
    ensures
        debug::fields_text(name, seq![debug::list_field(key, v, None)], None) == name + " { "@
            + key + ": "@ + debug::list_text(v, None) + " }"@,
{
    let fields = seq![debug::list_field(key, v, None)];
    law_fields_are_shown(name, fields);
    assert(pieces::join(fields, ", "@) == fields[0]);
    assert(name + " { "@ + fields[0] + " }"@ =~= name + " { "@ + key + ": "@ + debug::list_text(
        v,
        None,
    ) + " }"@);
}

/// An action is shown under its name, with its reason.
pub proof fn law_action_is_shown_under_its_name(action: ActionModel)
    ensures
        ({
            let t = debug::action_text(action, None);
            match action {
                ActionModel::AddBuildRequires { .. } => text::starts_with(
                    t,
                    "AddBuildRequires"@ + " { "@,
                ),
                ActionModel::AddBuildOptionCheckExcludes { .. } => text::starts_with(
                    t,
                    "AddBuildOptionCheckExcludes"@ + " { "@,
                ),
                ActionModel::AddEmptyCheckSection { .. } => text::starts_with(
                    t,
                    "AddEmptyCheckSection"@ + " { "@,
                ),
                ActionModel::FixBuildOptionInstall { .. } => text::starts_with(
                    t,
                    "FixBuildOptionInstall"@ + " { "@,
                ),
                ActionModel::AppendFilesEntries { .. } => text::starts_with(
                    t,
                    "AppendFilesEntries"@ + " { "@,
                ),
                ActionModel::RemoveNoarch { reason } => t == "RemoveNoarch"@ + " { "@ + "reason"@
                    + ": "@ + outside::quoted(reason) + " }"@,
                ActionModel::NeedHuman { .. } => text::starts_with(t, "NeedHuman"@ + " { "@),
                ActionModel::NoOp { reason } => t == "NoOp"@ + " { "@ + "reason"@ + ": "@
                    + outside::quoted(reason) + " }"@,
            }
        }),
{
    match action {
        ActionModel::AddBuildRequires { deps, reason } => {
            lemma_fields_start(
                "AddBuildRequires"@,
                seq![
                    debug::list_field("deps"@, deps, None),
                    debug::text_field("reason"@, reason),
                ],
            );
        },
        ActionModel::AddBuildOptionCheckExcludes { patterns, reason } => {
            lemma_fields_start(
                "AddBuildOptionCheckExcludes"@,
                seq![
                    debug::list_field("patterns"@, patterns, None),
                    debug::text_field("reason"@, reason),
                ],
            );
        },
        ActionModel::AddEmptyCheckSection { comment, reason } => {
            lemma_fields_start(
                "AddEmptyCheckSection"@,
                seq![
                    debug::text_field("comment"@, comment),
                    debug::text_field("reason"@, reason),
                ],
            );
        },
        ActionModel::FixBuildOptionInstall { arg, reason } => {
            lemma_fields_start(
                "FixBuildOptionInstall"@,
                seq![debug::text_field("arg"@, arg), debug::text_field("reason"@, reason)],
            );
        },
        ActionModel::AppendFilesEntries { files, reason } => {
            lemma_fields_start(
                "AppendFilesEntries"@,
                seq![
                    debug::list_field("files"@, files, None),
                    debug::text_field("reason"@, reason),
                ],
            );
        },
        ActionModel::RemoveNoarch { reason } => {
            lemma_one_text("RemoveNoarch"@, reason);
        },
        ActionModel::NeedHuman { reason, issue } => {
            lemma_fields_start(
                "NeedHuman"@,
                seq![
                    debug::text_field("reason"@, reason),
                    debug::field_text(
                        "issue"@,
                        debug::issue_text(issue, debug::inner(None)),
                    ),
                ],
            );
        },
        ActionModel::NoOp { reason } => {
            lemma_one_text("NoOp"@, reason);
        },
    }
}

proof fn lemma_one_text(name: Seq<char>, reason: Seq<char>)
    ensures
        debug::fields_text(name, seq![debug::text_field("reason"@, reason)], None) == name
            + " { "@ + "reason"@ + ": "@ + outside::quoted(reason) + " }"@,
{
    let fields = seq![debug::text_field("reason"@, reason)];
    law_fields_are_shown(name, fields);
    assert(pieces::join(fields, ", "@) == fields[0]);
    assert(name + " { "@ + fields[0] + " }"@ =~= name + " { "@ + "reason"@ + ": "@
        + outside::quoted(reason) + " }"@);
}

} // verus!
