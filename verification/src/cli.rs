//! What is asked for on the command line.
use vstd::prelude::*;

use crate::config;
use crate::config::PackfixConfig;
use crate::text;
use crate::text::{cat2, has_prefix, same};

verus! {

/// The options that every command takes, and the command.
#[derive(Debug, Clone)]
pub struct Cli {
    pub command: Command,
    pub project: Option<String>,
    pub repository: String,
    pub arch: String,
    pub max_retries: usize,
    pub max_dep_depth: usize,
    pub takopack_bin: String,
    pub osc_bin: String,
    pub ollama_host: String,
    pub ollama_port: u16,
    pub model: String,
    pub apply_text: bool,
    pub json: bool,
    pub obs_api_url: Option<String>,
    pub repo_url: Option<String>,
    pub oscrc_path: Option<String>,
    pub default_obs_project: Option<String>,
    pub llm_description: bool,
    pub no_llm_description: bool,
}

#[derive(Debug, Clone)]
pub enum Command {
    Build {
        pypi_names: Vec<String>,
        version: Option<String>,
        obs_project: Option<String>,
        revision: Option<String>,
    },
    BuildExisting {
        packages: Vec<String>,
        obs_project: Option<String>,
        revision: Option<String>,
    },
    AnalyzeLog { log_file: String },
    DryRun { workdir: String },
    Fix { workdirs: Vec<String> },
    New { pypi_name: String, version: Option<String> },
    Summarize { workdir: String },
    ConfigShow,
    Checkout { project: String, package: Option<String>, output: Option<String> },
    Update { target: String, obs_project: Option<String> },
    Status {
        project: String,
        package: String,
        repository: Option<String>,
        arch: Option<String>,
    },
    Submit { revision: String, components: Vec<String>, obs_project: Option<String> },
    Describe { dir: String, output: Option<String> },
}

/// Whether `flag`, alone or with a value behind `=`, is among the arguments.
pub open spec fn provided(args: Seq<Seq<char>>, flag: Seq<char>) -> bool {
    exists|i: int|
        0 <= i < args.len() && (#[trigger] args[i] == flag || text::starts_with(
            args[i],
            flag + "="@,
        ))
}

pub fn arg_provided(args: &[String], flag: &str) -> (r: bool)
    ensures
        r == provided(text::texts(args@), flag@),
{
    let with_value = cat2(flag, "=");
    let mut i: usize = 0;
    while i < args.len()
        invariant
            i <= args@.len(),
            with_value@ == flag@ + "="@,
            forall|k: int|
                0 <= k < i ==> #[trigger] text::texts(args@)[k] != flag@ && !text::starts_with(
                    text::texts(args@)[k],
                    flag@ + "="@,
                ),
        decreases args@.len() - i,
    {
        assert(text::texts(args@)[i as int] == args@[i as int]@);
        if same(args[i].as_str(), flag) || has_prefix(args[i].as_str(), with_value.as_str()) {
            return true;
        }
        i += 1;
    }
    false
}

/// The value of an option: what the command line gives, and what is configured where it gives
/// nothing.
pub open spec fn text_option(
    args: Seq<Seq<char>>,
    flag: Seq<char>,
    parsed: Seq<char>,
    configured: Option<Seq<char>>,
) -> Seq<char> {
    match configured {
        Some(v) => if provided(args, flag) {
            parsed
        } else {
            v
        },
        None => parsed,
    }
}

pub open spec fn number_option(
    args: Seq<Seq<char>>,
    flag: Seq<char>,
    parsed: int,
    configured: Option<int>,
) -> int {
    match configured {
        Some(v) => if provided(args, flag) {
            parsed
        } else {
            v
        },
        None => parsed,
    }
}

fn set_text(option: &mut String, args: &[String], flag: &str, configured: Option<String>)
    ensures
        final(option)@ == text_option(
            text::texts(args@),
            flag@,
            old(option)@,
            text::opt_text(configured),
        ),
{
    if !arg_provided(args, flag) {
        if let Some(v) = configured {
            *option = v;
        }
    }
}

fn set_number(option: &mut usize, args: &[String], flag: &str, configured: Option<usize>)
    ensures
        *final(option) == number_option(
            text::texts(args@),
            flag@,
            *old(option) as int,
            config::opt_int(configured),
        ),
{
    if !arg_provided(args, flag) {
        if let Some(v) = configured {
            *option = v;
        }
    }
}

/// Puts what is configured in the place of what the command line `args` does not give.
pub fn apply_cli_config_defaults(cli: &mut Cli, args: &[String], cfg: Option<&PackfixConfig>)
    ensures
        ({
            let given = text::texts(args@);
            &&& final(cli).repository@ == text_option(
                given,
                "--repository"@,
                old(cli).repository@,
                config::build_repository(cfg),
            )
            &&& final(cli).arch@ == text_option(
                given,
                "--arch"@,
                old(cli).arch@,
                config::build_arch(cfg),
            )
            &&& final(cli).max_retries == number_option(
                given,
                "--max-retries"@,
                old(cli).max_retries as int,
                config::opt_int(config::build_max_retries(cfg)),
            )
            &&& final(cli).max_dep_depth == number_option(
                given,
                "--max-dep-depth"@,
                old(cli).max_dep_depth as int,
                config::opt_int(config::build_max_dep_depth(cfg)),
            )
            &&& final(cli).ollama_host@ == text_option(
                given,
                "--ollama-host"@,
                old(cli).ollama_host@,
                config::llm_host(cfg),
            )
            &&& final(cli).ollama_port == (match config::llm_port(cfg) {
                Some(port) => if provided(given, "--ollama-port"@) {
                    old(cli).ollama_port
                } else {
                    port
                },
                None => old(cli).ollama_port,
            })
            &&& final(cli).model@ == text_option(
                given,
                "--model"@,
                old(cli).model@,
                config::llm_model(cfg),
            )
        }),
        *final(cli) == (Cli {
            repository: final(cli).repository,
            arch: final(cli).arch,
            max_retries: final(cli).max_retries,
            max_dep_depth: final(cli).max_dep_depth,
            ollama_host: final(cli).ollama_host,
            ollama_port: final(cli).ollama_port,
            model: final(cli).model,
            ..*old(cli)
        }),
{
    set_text(&mut cli.repository, args, "--repository", config::build_repository_of(cfg));
    set_text(&mut cli.arch, args, "--arch", config::build_arch_of(cfg));
    set_number(&mut cli.max_retries, args, "--max-retries", config::build_max_retries_of(cfg));
    set_number(
        &mut cli.max_dep_depth,
        args,
        "--max-dep-depth",
        config::build_max_dep_depth_of(cfg),
    );
    set_text(&mut cli.ollama_host, args, "--ollama-host", config::llm_host_of(cfg));
    if !arg_provided(args, "--ollama-port") {
        if let Some(port) = config::llm_port_of(cfg) {
            cli.ollama_port = port;
        }
    }
    set_text(&mut cli.model, args, "--model", config::llm_model_of(cfg));
}

/// The repository or the architecture of a status request: that of the command, or else the
/// general one.
pub fn status_option(given: &Option<String>, general: &str) -> (r: String)
    ensures
        r@ == config::first_given(text::opt_text(*given), None, general@),
{
    match given {
        Some(s) => s.clone(),
        None => general.to_owned(),
    }
}

} // verus!
