use packfix::command::{
    command_line, ensure_allowed_command, log_header, log_result, on_tick, trimmed_line_end,
    working_dir, CommandOutput, CommandSpec, StreamLine, Tick,
};
use packfix::git::{
    add, branch_exists, checkout_or_create_branch, commit, commit_if_staged, has_staged_changes, push, run_git,
    run_git_capture, staged_changes,
};
use packfix::paths::{file_name, find_spec, is_spec_file, path_less};
use std::path::Path;

fn spec(args: &[&str]) -> CommandSpec {
    CommandSpec {
        program: "/usr/bin/osc".into(),
        args: args.iter().map(|s| s.to_string()).collect(),
        cwd: None,
        timeout: 5,
        log_path: "/tmp/l".into(),
    }
}

fn line(is_stderr: bool, line: &str) -> StreamLine {
    StreamLine {
        is_stderr,
        line: line.into(),
    }
}

#[test]
fn static_allowed_list_respects_rules() {
    assert!(ensure_allowed_command("takopack").is_ok());
    assert!(ensure_allowed_command("osc").is_ok());
    assert!(ensure_allowed_command("git").is_ok());
    assert!(ensure_allowed_command("baz").is_err());
}

#[test]
fn allowed_programs_may_be_anywhere() {
    assert!(ensure_allowed_command("/usr/local/bin/git").is_ok());
    assert_eq!(
        ensure_allowed_command("/bin/sh").unwrap_err(),
        "uncontrolled command '/bin/sh' (allowed: [\"takopack\", \"osc\", \"git\"])"
    );
    assert!(ensure_allowed_command("git/..").is_err());
}

#[test]
fn file_names_are_those_of_paths() {
    let paths = [
        "a", "/a/b", "a/b/", "a//b//", "a/.", "./a", ".", "..", "a/..", "/", "", "a/./b", "...",
    ];
    for p in paths {
        assert_eq!(
            file_name(p).as_deref(),
            Path::new(p).file_name().and_then(|s| s.to_str()),
            "{p}"
        );
    }
}

#[test]
fn specs_are_found_in_the_order_of_paths() {
    let found: Vec<String> = ["w/b.spec", "w/a/z.spec", "w/a-b/a.spec", "w/a.spec"]
        .iter()
        .map(|s| s.to_string())
        .collect();
    let mut sorted: Vec<&Path> = found.iter().map(Path::new).collect();
    sorted.sort();
    assert_eq!(Path::new(&find_spec("w", &found).unwrap()), sorted[0]);
    assert_eq!(find_spec("w", &[]).unwrap_err(), "no .spec found under w");
    for a in &found {
        for b in &found {
            assert_eq!(path_less(a, b), Path::new(a) < Path::new(b));
        }
    }
    assert!(is_spec_file("a.spec"));
    assert!(!is_spec_file("a.spec.bak"));
    for name in [".spec", "..spec", "x.spec", "spec", "", "\u{e4}.spec", "a.spec."] {
        let extension = Path::new(name).extension();
        assert_eq!(is_spec_file(name), extension.is_some_and(|e| e == "spec"), "{name}");
    }
}

#[test]
fn commands_are_shown_and_logged() {
    assert_eq!(command_line(&spec(&[])), "/usr/bin/osc");
    let s = spec(&["up", "-S"]);
    assert_eq!(command_line(&s), "/usr/bin/osc up -S");
    assert_eq!(working_dir(&s), ".");
    assert_eq!(
        log_header(&s, Some((12, 7))),
        "COMMAND: /usr/bin/osc up -S\nCWD: .\nSTARTED_AT: 12.007Z\nTIMEOUT: 5s\n"
    );
    let mut output = CommandOutput::new();
    output.on_line(line(false, "hello"));
    output.on_line(line(true, "boom"));
    output.on_line(line(false, "again"));
    let result = output.finish(false, 5, Some(7), "/tmp/l".into());
    assert_eq!(result.stdout, "hello\nagain\n");
    assert_eq!(result.stderr, "boom\n");
    assert_eq!(result.returncode, 7);
    assert_eq!(
        log_result(&result, None, "0.100"),
        "STDOUT:\nhello\nagain\n\n\nSTDERR:\nboom\n\n\nRETURNCODE: 7\nFINISHED_AT: before-unix-epoch\nELAPSED: 0.100s"
    );
}

#[test]
fn programs_that_take_too_long_say_so() {
    let mut output = CommandOutput::new();
    output.on_line(line(true, "x"));
    let result = output.finish(true, 3, Some(0), "l".into());
    assert_eq!(result.returncode, -1);
    assert_eq!(result.stderr, "x\nTIMEOUT after 3s");
    let bare = CommandOutput::new().finish(true, 0, None, "l".into());
    assert_eq!(bare.stderr, "TIMEOUT after 0s");
    let killed = CommandOutput::new().finish(false, 0, None, "l".into());
    assert_eq!(killed.returncode, -1);
    let mut open = CommandOutput::new();
    open.stderr.push_str("open");
    assert_eq!(open.finish(true, 1, None, "l".into()).stderr, "open\nTIMEOUT after 1s");
}

#[test]
fn lines_are_taken_without_their_end() {
    assert_eq!(trimmed_line_end("a\r\n\n"), "a");
    assert_eq!(trimmed_line_end("a b "), "a b ");
}

#[test]
fn git_is_asked_in_the_repository() {
    let c = commit("/r", "m");
    assert_eq!(c.program, "git");
    assert_eq!(c.args, vec!["commit", "--no-verify", "-m", "m"]);
    assert_eq!(c.cwd.as_deref(), Some("/r"));
    assert_eq!(c.log_path, "/r/logs/git_commit.log");
    assert_eq!(add("/r", &["a".to_string()]).args, vec!["add", "a"]);
    assert_eq!(push("/r", "origin", "b").args, vec!["push", "origin", "b"]);
    assert_eq!(
        branch_exists("/r", "b").args,
        vec!["rev-parse", "--verify", "--quiet", "refs/heads/b"]
    );
    assert_eq!(checkout_or_create_branch("/r", "b", 0).args, vec!["checkout", "b"]);
    assert_eq!(checkout_or_create_branch("/r", "b", 1).args, vec!["checkout", "-b", "b"]);
    assert_eq!(
        staged_changes("/r").args,
        vec!["diff", "--cached", "--quiet", "--exit-code"]
    );
}

#[test]
fn git_answers_are_understood() {
    assert_eq!(has_staged_changes("/r", 0, ""), Ok(false));
    assert_eq!(has_staged_changes("/r", 1, ""), Ok(true));
    assert_eq!(
        has_staged_changes("/r", 128, "bad"),
        Err("git diff --cached failed in /r with rc=128: bad".to_string())
    );
    let args: Vec<String> = vec!["push".into(), "o".into()];
    assert_eq!(run_git(&args, 0, "", ""), Ok(()));
    assert_eq!(run_git(&args, 1, " out ", " \n"), Err("git push o failed: out".to_string()));
    assert_eq!(run_git(&args, 1, "out", "err\n"), Err("git push o failed: err".to_string()));
    assert_eq!(run_git_capture(&args, "/r"), "git push o failed in /r");
}

#[test]
fn only_staged_changes_are_committed() {
    assert!(commit_if_staged("/r", "m", 0, "").unwrap().is_none());
    let made = commit_if_staged("/r", "m", 1, "").unwrap().unwrap();
    assert_eq!(made.args, commit("/r", "m").args);
    assert_eq!(made.args, ["commit", "--no-verify", "-m", "m"]);
    assert_eq!(
        commit_if_staged("/r", "m", 128, "bad").unwrap_err(),
        "git diff --cached failed in /r with rc=128: bad"
    );
}

#[test]
fn a_program_is_killed_when_its_time_is_up() {
    assert_eq!(on_tick(5_000, 5, 0), Tick::Wait);
    assert_eq!(on_tick(5_001, 5, 40_000), Tick::Kill);
    assert_eq!(on_tick(1, 0, 0), Tick::Kill);
    assert_eq!(on_tick(90_000, 600, 29_999), Tick::Wait);
    assert_eq!(on_tick(90_000, 600, 30_000), Tick::Log);
    assert_eq!(on_tick(u64::MAX, u64::MAX, 0), Tick::Wait);
}
