//! What `git` is asked to do, and what its answers mean.
use vstd::prelude::*;

use crate::command::{CommandModel, CommandSpec};
use crate::ops_log::{lines2, lines3, lines4};
use crate::pieces;
use crate::pieces::{joined, path_of, signed_decimal_of};
use crate::report::push_line;
use crate::text;
use crate::text::{cat3, cat4, is_empty, trimmed};

verus! {

/// How long `git` may take, in seconds.
pub const GIT_TIMEOUT: u64 = 300;

/// A run of `git` with `args`, logged under the name of the operation.
pub open spec fn git_run(repo_dir: Seq<char>, args: Seq<Seq<char>>, operation: Seq<char>) ->
    CommandModel {
    CommandModel {
        program: "git"@,
        args,
        cwd: Some(repo_dir),
        timeout: GIT_TIMEOUT,
        log_path: pieces::path_join(
            pieces::path_join(repo_dir, "logs"@),
            "git_"@ + operation + ".log"@,
        ),
    }
}

fn git_command(repo_dir: &str, args: Vec<String>, operation: &str) -> (r: CommandSpec)
    ensures
        r@ == git_run(repo_dir@, text::texts(args@), operation@),
{
    CommandSpec {
        program: "git".to_owned(),
        args,
        cwd: Some(repo_dir.to_owned()),
        timeout: GIT_TIMEOUT,
        log_path: path_of(
            path_of(repo_dir, "logs").as_str(),
            cat3("git_", operation, ".log").as_str(),
        ),
    }
}

pub fn checkout(repo_dir: &str, branch: &str) -> (r: CommandSpec)
    ensures
        r@ == git_run(repo_dir@, seq!["checkout"@, branch@], "checkout"@),
{
    git_command(repo_dir, lines2("checkout".to_owned(), branch.to_owned()), "checkout")
}

pub fn create_branch(repo_dir: &str, branch: &str) -> (r: CommandSpec)
    ensures
        r@ == git_run(repo_dir@, seq!["checkout"@, "-b"@, branch@], "create_branch"@),
{
    git_command(
        repo_dir,
        lines3("checkout".to_owned(), "-b".to_owned(), branch.to_owned()),
        "create_branch",
    )
}

pub fn add(repo_dir: &str, paths: &[String]) -> (r: CommandSpec)
    ensures
        r@ == git_run(repo_dir@, seq!["add"@] + text::texts(paths@), "add"@),
{
    let mut args: Vec<String> = Vec::new();
    push_line(&mut args, "add".to_owned());
    let ghost all = text::texts(paths@);
    let mut i: usize = 0;
    assert(text::texts(args@) =~= seq!["add"@] + all.take(0));
    while i < paths.len()
        invariant
            i <= paths@.len(),
            all == text::texts(paths@),
            text::texts(args@) == seq!["add"@] + all.take(i as int),
        decreases paths@.len() - i,
    {
        push_line(&mut args, paths[i].clone());
        i += 1;
        assert(text::texts(args@) =~= seq!["add"@] + all.take(i as int));
    }
    assert(all.take(all.len() as int) =~= all);
    git_command(repo_dir, args, "add")
}

pub fn commit(repo_dir: &str, message: &str) -> (r: CommandSpec)
    ensures
        r@ == git_run(
            repo_dir@,
            seq!["commit"@, "--no-verify"@, "-m"@, message@],
            "commit"@,
        ),
{
    git_command(
        repo_dir,
        lines4(
            "commit".to_owned(),
            "--no-verify".to_owned(),
            "-m".to_owned(),
            message.to_owned(),
        ),
        "commit",
    )
}

pub fn push(repo_dir: &str, remote: &str, branch: &str) -> (r: CommandSpec)
    ensures
        r@ == git_run(repo_dir@, seq!["push"@, remote@, branch@], "push"@),
{
    git_command(
        repo_dir,
        lines3("push".to_owned(), remote.to_owned(), branch.to_owned()),
        "push",
    )
}

pub fn branch_exists(repo_dir: &str, branch: &str) -> (r: CommandSpec)
    ensures
        r@ == git_run(
            repo_dir@,
            seq!["rev-parse"@, "--verify"@, "--quiet"@, "refs/heads/"@ + branch@],
            "branch_exists"@,
        ),
{
    git_command(
        repo_dir,
        lines4(
            "rev-parse".to_owned(),
            "--verify".to_owned(),
            "--quiet".to_owned(),
            text::cat2("refs/heads/", branch),
        ),
        "branch_exists",
    )
}

/// How a branch is gone to, by what the question whether it exists returned: one that does not is
/// created.
pub fn checkout_or_create_branch(repo_dir: &str, branch: &str, exists_code: i32) -> (r: CommandSpec)
    ensures
        r@ == if exists_code == 0 {
            git_run(repo_dir@, seq!["checkout"@, branch@], "checkout"@)
        } else {
            git_run(repo_dir@, seq!["checkout"@, "-b"@, branch@], "create_branch"@)
        },
{
    if exists_code == 0 {
        checkout(repo_dir, branch)
    } else {
        create_branch(repo_dir, branch)
    }
}

pub fn staged_changes(repo_dir: &str) -> (r: CommandSpec)
    ensures
        r@ == git_run(
            repo_dir@,
            seq!["diff"@, "--cached"@, "--quiet"@, "--exit-code"@],
            "has_staged_changes"@,
        ),
{
    git_command(
        repo_dir,
        lines4(
            "diff".to_owned(),
            "--cached".to_owned(),
            "--quiet".to_owned(),
            "--exit-code".to_owned(),
        ),
        "has_staged_changes",
    )
}

/// Whether there are staged changes, by what the question returned.
pub fn has_staged_changes(repo_dir: &str, returncode: i32, stderr: &str) -> (r: Result<
    bool,
    String,
>)
    ensures
        match r {
            Ok(changes) => returncode == if changes {
                1i32
            } else {
                0i32
            },
            Err(message) => returncode != 0 && returncode != 1 && message@
                == "git diff --cached failed in "@ + repo_dir@ + " with rc="@
                + pieces::signed_decimal(returncode as int) + ": "@ + stderr@,
        },
{
    if returncode == 0 {
        Ok(false)
    } else if returncode == 1 {
        Ok(true)
    } else {
        let mut message = cat4(
            "git diff --cached failed in ",
            repo_dir,
            " with rc=",
            signed_decimal_of(returncode).as_str(),
        );
        message.append(": ");
        message.append(stderr);
        Err(message)
    }
}

/// The commit to make, by what the question for staged changes returned: none where there are
/// none.
pub fn commit_if_staged(repo_dir: &str, message: &str, returncode: i32, stderr: &str) -> (r: Result<
    Option<CommandSpec>,
    String,
>)
    ensures
        match r {
            Ok(None) => returncode == 0,
            Ok(Some(spec)) => returncode == 1 && spec@ == git_run(
                repo_dir@,
                seq!["commit"@, "--no-verify"@, "-m"@, message@],
                "commit"@,
            ),
            Err(error) => returncode != 0 && returncode != 1 && error@
                == "git diff --cached failed in "@ + repo_dir@ + " with rc="@
                + pieces::signed_decimal(returncode as int) + ": "@ + stderr@,
        },
{
    match has_staged_changes(repo_dir, returncode, stderr) {
        Ok(true) => Ok(Some(commit(repo_dir, message))),
        Ok(false) => Ok(None),
        Err(error) => Err(error),
    }
}

/// What `git` has to say: its error output, or else its output.
pub open spec fn complaint(stdout: Seq<char>, stderr: Seq<char>) -> Seq<char> {
    if text::trim(stderr).len() == 0 {
        text::trim(stdout)
    } else {
        text::trim(stderr)
    }
}

/// A run of `git` must have succeeded.
pub fn run_git(args: &[String], returncode: i32, stdout: &str, stderr: &str) -> (r: Result<
    (),
    String,
>)
    ensures
        match r {
            Ok(_) => returncode == 0,
            Err(message) => returncode != 0 && message@ == "git "@ + pieces::join(
                text::texts(args@),
                " "@,
            ) + " failed: "@ + complaint(stdout@, stderr@),
        },
{
    if returncode == 0 {
        return Ok(());
    }
    let err = trimmed(stderr);
    let shown = if is_empty(err.as_str()) {
        trimmed(stdout)
    } else {
        err
    };
    Err(cat4("git ", joined(args, " ").as_str(), " failed: ", shown.as_str()))
}

/// What is said where `git` could not be run.
pub fn run_git_capture(args: &[String], repo_dir: &str) -> (r: String)
    ensures
        r@ == "git "@ + pieces::join(text::texts(args@), " "@) + " failed in "@ + repo_dir@,
{
    cat4("git ", joined(args, " ").as_str(), " failed in ", repo_dir)
}

} // verus!
