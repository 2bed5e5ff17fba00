//! What is configured, and what holds where nothing is.
use vstd::prelude::*;

use crate::issue::copy_opt;
use crate::outside;
use crate::outside::debug_form;
use crate::pieces;
use crate::pieces::{decimal_of, path_of, signed_decimal_of};
use crate::report::push_line;
use crate::text;
use crate::text::cat2;

verus! {

pub const DESCRIPTION_SYSTEM_PROMPT: &'static str =
    "You generate RPM spec file %description bodies for Python packages. Use only the provided package metadata, README excerpt, and module list. Do not invent unsupported facts. Output plain English text only. Do not output Markdown, bullets, headings, quotes, or the '%description' tag. Write in a concise downstream packaging style, not in marketing style.";

pub const DESCRIPTION_USER_PROMPT: &'static str =
    "Task: Generate RPM spec %description body.\n\nExtracted package information:\n{context}\n\nHard requirements:\n- English only.\n- Output 1 to 5 lines.\n- Each line must be no longer than 100 characters.\n- Plain text only.\n- Do not include \"%description\".\n- Do not include a package name/version heading.\n- Do not mention sources, metadata, README, uncertainty, classifiers, or license.\n- Do not mention Python version requirements unless essential to the package purpose.\n- Avoid generic filler such as \"various applications\", \"used by developers\",\n  \"advanced customization\", \"provides utilities\", or \"secure protocols\".\n- Prefer concrete capabilities over broad claims.\n- Describe what the package provides and what it is used for.\n- The result should be suitable for direct insertion under an RPM spec %description.";

pub const DESCRIPTION_TIMEOUT_SECS: u64 = 180;

pub const DESCRIPTION_MAX_CONTEXT_CHARS: usize = 12000;

pub const DESCRIPTION_NUM_PREDICT: i32 = 160;

/// The bits of the temperature 0.
pub const DESCRIPTION_TEMPERATURE: u32 = 0;

pub const OBS_API_URL: &'static str = "https://pickaxe.oerv.ac.cn/";

pub const REPO_URL: &'static str = "https://github.com/yyjeqhc/openruyi/";

pub const OBS_PROJECT: &'static str = "home:yyjeqhc:new_ruyios";

pub const REPO_DIR: &'static str = "/root/git/openruyi-repo";

pub const OLLAMA_HOST: &'static str = "http://localhost";

pub const OLLAMA_PORT: u16 = 11434;

pub const MODEL: &'static str = "qwen3:8b";

pub const BUILD_REPOSITORY: &'static str = "x64";

pub const BUILD_ARCH: &'static str = "x86_64";

/// The configuration file.
#[derive(Debug, Clone)]
pub struct PackfixConfig {
    pub obs: Option<ObsConfig>,
    pub repo: Option<RepoConfig>,
    pub llm: Option<LlmConfig>,
    pub build: Option<BuildConfig>,
    pub description: Option<DescriptionConfig>,
}

#[derive(Debug, Clone)]
pub struct ObsConfig {
    pub api_url: Option<String>,
    pub default_project: Option<String>,
    pub oscrc_path: Option<String>,
}

#[derive(Debug, Clone)]
pub struct RepoConfig {
    pub url: Option<String>,
    pub workdir: Option<String>,
}

#[derive(Debug, Clone)]
pub struct LlmConfig {
    pub host: Option<String>,
    pub port: Option<u16>,
    pub model: Option<String>,
}

#[derive(Debug, Clone)]
pub struct BuildConfig {
    pub repository: Option<String>,
    pub arch: Option<String>,
    pub max_retries: Option<usize>,
    pub max_dep_depth: Option<usize>,
    pub llm_description: Option<bool>,
}

/// How a description is asked for. The temperature stands as the bits of an `f32`.
#[derive(Debug, Clone)]
pub struct DescriptionConfig {
    pub system_prompt: String,
    pub user_prompt: String,
    pub timeout_secs: u64,
    pub max_context_chars: usize,
    pub num_predict: i32,
    pub temperature: u32,
}

impl Default for PackfixConfig {
    fn default() -> (r: Self)
        ensures
            r.obs is None,
            r.repo is None,
            r.llm is None,
            r.build is None,
            r.description is None,
    {
        PackfixConfig { obs: None, repo: None, llm: None, build: None, description: None }
    }
}

/// The files that may hold the configuration, the one that is looked at first in front.
pub fn config_paths(home: Option<&str>) -> (r: Vec<String>)
    ensures
        text::texts(r@) == (match home {
            Some(h) => seq!["packfix.toml"@, pieces::path_join(h@, ".config/packfix/config.toml"@)],
            None => seq!["packfix.toml"@],
        }),
{
    let mut v: Vec<String> = Vec::new();
    push_line(&mut v, "packfix.toml".to_owned());
    if let Some(h) = home {
        push_line(&mut v, path_of(h, ".config/packfix/config.toml"));
        assert(text::texts(v@) =~= seq![
            "packfix.toml"@,
            pieces::path_join(h@, ".config/packfix/config.toml"@),
        ]);
    } else {
        assert(text::texts(v@) =~= seq!["packfix.toml"@]);
    }
    v
}

/// The text of the first that is there.
pub open spec fn first_given(a: Option<Seq<char>>, b: Option<Seq<char>>, c: Seq<char>) -> Seq<
    char,
> {
    match a {
        Some(s) => s,
        None => match b {
            Some(s) => s,
            None => c,
        },
    }
}

pub open spec fn opt_str(o: Option<&str>) -> Option<Seq<char>> {
    match o {
        Some(s) => Some(s@),
        None => None,
    }
}

fn given(a: Option<&str>, b: Option<String>, c: &str) -> (r: String)
    ensures
        r@ == first_given(opt_str(a), text::opt_text(b), c@),
{
    match a {
        Some(s) => s.to_owned(),
        None => match b {
            Some(s) => s,
            None => c.to_owned(),
        },
    }
}

pub open spec fn obs_api_url(config: Option<&PackfixConfig>) -> Option<Seq<char>> {
    match config {
        Some(c) => match c.obs {
            Some(s) => text::opt_text(s.api_url),
            None => None,
        },
        None => None,
    }
}

pub fn obs_api_url_of(config: Option<&PackfixConfig>) -> (r: Option<String>)
    ensures
        text::opt_text(r) == obs_api_url(config),
{
    match config {
        Some(c) => match &c.obs {
            Some(s) => copy_opt(&s.api_url),
            None => None,
        },
        None => None,
    }
}

pub open spec fn obs_default_project(config: Option<&PackfixConfig>) -> Option<Seq<char>> {
    match config {
        Some(c) => match c.obs {
            Some(s) => text::opt_text(s.default_project),
            None => None,
        },
        None => None,
    }
}

pub fn obs_default_project_of(config: Option<&PackfixConfig>) -> (r: Option<String>)
    ensures
        text::opt_text(r) == obs_default_project(config),
{
    match config {
        Some(c) => match &c.obs {
            Some(s) => copy_opt(&s.default_project),
            None => None,
        },
        None => None,
    }
}

pub open spec fn obs_oscrc_path(config: Option<&PackfixConfig>) -> Option<Seq<char>> {
    match config {
        Some(c) => match c.obs {
            Some(s) => text::opt_text(s.oscrc_path),
            None => None,
        },
        None => None,
    }
}

pub fn obs_oscrc_path_of(config: Option<&PackfixConfig>) -> (r: Option<String>)
    ensures
        text::opt_text(r) == obs_oscrc_path(config),
{
    match config {
        Some(c) => match &c.obs {
            Some(s) => copy_opt(&s.oscrc_path),
            None => None,
        },
        None => None,
    }
}

pub open spec fn repo_url(config: Option<&PackfixConfig>) -> Option<Seq<char>> {
    match config {
        Some(c) => match c.repo {
            Some(s) => text::opt_text(s.url),
            None => None,
        },
        None => None,
    }
}

pub fn repo_url_of(config: Option<&PackfixConfig>) -> (r: Option<String>)
    ensures
        text::opt_text(r) == repo_url(config),
{
    match config {
        Some(c) => match &c.repo {
            Some(s) => copy_opt(&s.url),
            None => None,
        },
        None => None,
    }
}

pub open spec fn repo_workdir(config: Option<&PackfixConfig>) -> Option<Seq<char>> {
    match config {
        Some(c) => match c.repo {
            Some(s) => text::opt_text(s.workdir),
            None => None,
        },
        None => None,
    }
}

pub fn repo_workdir_of(config: Option<&PackfixConfig>) -> (r: Option<String>)
    ensures
        text::opt_text(r) == repo_workdir(config),
{
    match config {
        Some(c) => match &c.repo {
            Some(s) => copy_opt(&s.workdir),
            None => None,
        },
        None => None,
    }
}

pub open spec fn llm_host(config: Option<&PackfixConfig>) -> Option<Seq<char>> {
    match config {
        Some(c) => match c.llm {
            Some(s) => text::opt_text(s.host),
            None => None,
        },
        None => None,
    }
}

pub fn llm_host_of(config: Option<&PackfixConfig>) -> (r: Option<String>)
    ensures
        text::opt_text(r) == llm_host(config),
{
    match config {
        Some(c) => match &c.llm {
            Some(s) => copy_opt(&s.host),
            None => None,
        },
        None => None,
    }
}

pub open spec fn llm_port(config: Option<&PackfixConfig>) -> Option<u16> {
    match config {
        Some(c) => match c.llm {
            Some(s) => s.port,
            None => None,
        },
        None => None,
    }
}

pub fn llm_port_of(config: Option<&PackfixConfig>) -> (r: Option<u16>)
    ensures
        r == llm_port(config),
{
    match config {
        Some(c) => match &c.llm {
            Some(s) => s.port,
            None => None,
        },
        None => None,
    }
}

pub open spec fn llm_model(config: Option<&PackfixConfig>) -> Option<Seq<char>> {
    match config {
        Some(c) => match c.llm {
            Some(s) => text::opt_text(s.model),
            None => None,
        },
        None => None,
    }
}

pub fn llm_model_of(config: Option<&PackfixConfig>) -> (r: Option<String>)
    ensures
        text::opt_text(r) == llm_model(config),
{
    match config {
        Some(c) => match &c.llm {
            Some(s) => copy_opt(&s.model),
            None => None,
        },
        None => None,
    }
}

pub open spec fn build_repository(config: Option<&PackfixConfig>) -> Option<Seq<char>> {
    match config {
        Some(c) => match c.build {
            Some(s) => text::opt_text(s.repository),
            None => None,
        },
        None => None,
    }
}

pub fn build_repository_of(config: Option<&PackfixConfig>) -> (r: Option<String>)
    ensures
        text::opt_text(r) == build_repository(config),
{
    match config {
        Some(c) => match &c.build {
            Some(s) => copy_opt(&s.repository),
            None => None,
        },
        None => None,
    }
}

pub open spec fn build_arch(config: Option<&PackfixConfig>) -> Option<Seq<char>> {
    match config {
        Some(c) => match c.build {
            Some(s) => text::opt_text(s.arch),
            None => None,
        },
        None => None,
    }
}

pub fn build_arch_of(config: Option<&PackfixConfig>) -> (r: Option<String>)
    ensures
        text::opt_text(r) == build_arch(config),
{
    match config {
        Some(c) => match &c.build {
            Some(s) => copy_opt(&s.arch),
            None => None,
        },
        None => None,
    }
}

pub open spec fn build_max_retries(config: Option<&PackfixConfig>) -> Option<usize> {
    match config {
        Some(c) => match c.build {
            Some(s) => s.max_retries,
            None => None,
        },
        None => None,
    }
}

pub fn build_max_retries_of(config: Option<&PackfixConfig>) -> (r: Option<usize>)
    ensures
        r == build_max_retries(config),
{
    match config {
        Some(c) => match &c.build {
            Some(s) => s.max_retries,
            None => None,
        },
        None => None,
    }
}

pub open spec fn build_max_dep_depth(config: Option<&PackfixConfig>) -> Option<usize> {
    match config {
        Some(c) => match c.build {
            Some(s) => s.max_dep_depth,
            None => None,
        },
        None => None,
    }
}

pub fn build_max_dep_depth_of(config: Option<&PackfixConfig>) -> (r: Option<usize>)
    ensures
        r == build_max_dep_depth(config),
{
    match config {
        Some(c) => match &c.build {
            Some(s) => s.max_dep_depth,
            None => None,
        },
        None => None,
    }
}

/// Where the build service is: the command line goes before the configuration.
pub fn resolve_obs_api_url(cli_obs_api_url: Option<&str>, config: Option<&PackfixConfig>) -> (r: String)
    ensures
        r@ == first_given(opt_str(cli_obs_api_url), obs_api_url(config), OBS_API_URL@),
{
    given(cli_obs_api_url, obs_api_url_of(config), OBS_API_URL)
}

/// Where the package repository is: the command line goes before the configuration.
pub fn resolve_repo_url(cli_repo_url: Option<&str>, config: Option<&PackfixConfig>) -> (r: String)
    ensures
        r@ == first_given(opt_str(cli_repo_url), repo_url(config), REPO_URL@),
{
    given(cli_repo_url, repo_url_of(config), REPO_URL)
}

/// The project to build in: the command line goes before the configuration.
pub fn resolve_default_obs_project(cli_default_obs_project: Option<&str>, config: Option<&PackfixConfig>) -> (r: String)
    ensures
        r@ == first_given(opt_str(cli_default_obs_project), obs_default_project(config), OBS_PROJECT@),
{
    given(cli_default_obs_project, obs_default_project_of(config), OBS_PROJECT)
}

/// Where the credentials are where nothing says so: under the home directory, or that of root.
pub open spec fn default_oscrc(home: Option<Seq<char>>) -> Seq<char> {
    pieces::path_join(first_given(home, None, "/root"@), ".config/osc/oscrc"@)
}

/// Where the credentials of the build service are.
pub fn resolve_oscrc_path(
    cli_oscrc_path: Option<&str>,
    config: Option<&PackfixConfig>,
    home: Option<&str>,
) -> (r: String)
    ensures
        r@ == first_given(
            opt_str(cli_oscrc_path),
            obs_oscrc_path(config),
            default_oscrc(opt_str(home)),
        ),
{
    let dir = given(home, None, "/root");
    let default = path_of(dir.as_str(), ".config/osc/oscrc");
    given(cli_oscrc_path, obs_oscrc_path_of(config), default.as_str())
}

/// Where the package repository is checked out.
pub fn resolve_repo_dir(config: Option<&PackfixConfig>) -> (r: String)
    ensures
        r@ == first_given(None, repo_workdir(config), REPO_DIR@),
{
    given(None, repo_workdir_of(config), REPO_DIR)
}

pub open spec fn description_of(config: Option<&PackfixConfig>) -> Option<DescriptionConfig> {
    match config {
        Some(c) => c.description,
        None => None,
    }
}

pub open spec fn system_prompt(config: Option<&PackfixConfig>) -> Seq<char> {
    match description_of(config) {
        Some(d) => d.system_prompt@,
        None => DESCRIPTION_SYSTEM_PROMPT@,
    }
}

pub fn resolve_description_system_prompt(config: Option<&PackfixConfig>) -> (r: String)
    ensures
        r@ == system_prompt(config),
{
    match config {
        Some(c) => match &c.description {
            Some(d) => d.system_prompt.clone(),
            None => DESCRIPTION_SYSTEM_PROMPT.to_owned(),
        },
        None => DESCRIPTION_SYSTEM_PROMPT.to_owned(),
    }
}

pub open spec fn user_prompt(config: Option<&PackfixConfig>) -> Seq<char> {
    match description_of(config) {
        Some(d) => d.user_prompt@,
        None => DESCRIPTION_USER_PROMPT@,
    }
}

pub fn resolve_description_user_prompt(config: Option<&PackfixConfig>) -> (r: String)
    ensures
        r@ == user_prompt(config),
{
    match config {
        Some(c) => match &c.description {
            Some(d) => d.user_prompt.clone(),
            None => DESCRIPTION_USER_PROMPT.to_owned(),
        },
        None => DESCRIPTION_USER_PROMPT.to_owned(),
    }
}

pub open spec fn timeout_secs(config: Option<&PackfixConfig>) -> u64 {
    match description_of(config) {
        Some(d) => d.timeout_secs,
        None => DESCRIPTION_TIMEOUT_SECS,
    }
}

pub fn resolve_description_timeout_secs(config: Option<&PackfixConfig>) -> (r: u64)
    ensures
        r == timeout_secs(config),
{
    match config {
        Some(c) => match &c.description {
            Some(d) => d.timeout_secs,
            None => DESCRIPTION_TIMEOUT_SECS,
        },
        None => DESCRIPTION_TIMEOUT_SECS,
    }
}

pub open spec fn max_context_chars(config: Option<&PackfixConfig>) -> usize {
    match description_of(config) {
        Some(d) => d.max_context_chars,
        None => DESCRIPTION_MAX_CONTEXT_CHARS,
    }
}

pub fn resolve_description_max_context_chars(config: Option<&PackfixConfig>) -> (r: usize)
    ensures
        r == max_context_chars(config),
{
    match config {
        Some(c) => match &c.description {
            Some(d) => d.max_context_chars,
            None => DESCRIPTION_MAX_CONTEXT_CHARS,
        },
        None => DESCRIPTION_MAX_CONTEXT_CHARS,
    }
}

pub open spec fn num_predict(config: Option<&PackfixConfig>) -> i32 {
    match description_of(config) {
        Some(d) => d.num_predict,
        None => DESCRIPTION_NUM_PREDICT,
    }
}

pub fn resolve_description_num_predict(config: Option<&PackfixConfig>) -> (r: i32)
    ensures
        r == num_predict(config),
{
    match config {
        Some(c) => match &c.description {
            Some(d) => d.num_predict,
            None => DESCRIPTION_NUM_PREDICT,
        },
        None => DESCRIPTION_NUM_PREDICT,
    }
}

/// The bits of the temperature.
pub open spec fn temperature(config: Option<&PackfixConfig>) -> u32 {
    match description_of(config) {
        Some(d) => d.temperature,
        None => DESCRIPTION_TEMPERATURE,
    }
}

pub fn resolve_description_temperature(config: Option<&PackfixConfig>) -> (r: u32)
    ensures
        r == temperature(config),
{
    match config {
        Some(c) => match &c.description {
            Some(d) => d.temperature,
            None => DESCRIPTION_TEMPERATURE,
        },
        None => DESCRIPTION_TEMPERATURE,
    }
}

/// The configuration as it takes effect.
#[derive(Debug, Clone)]
pub struct DisplayConfig {
    pub obs_api_url: String,
    pub repo_url: String,
    pub default_obs_project: String,
    pub oscrc_path: String,
    pub ollama_host: String,
    pub ollama_port: u16,
    pub model: String,
    pub description_system_prompt: String,
    pub description_user_prompt: String,
    pub description_timeout_secs: u64,
    pub description_max_context_chars: usize,
    pub description_num_predict: i32,
    pub description_temperature: u32,
    pub build_repository: String,
    pub build_arch: String,
}

/// What `r` shows is what `config` comes to.
pub open spec fn shows(r: DisplayConfig, config: Option<&PackfixConfig>, home: Option<Seq<char>>) -> bool {
    &&& r.obs_api_url@ == first_given(None, obs_api_url(config), OBS_API_URL@)
    &&& r.repo_url@ == first_given(None, repo_url(config), REPO_URL@)
    &&& r.default_obs_project@ == first_given(None, obs_default_project(config), OBS_PROJECT@)
    &&& r.oscrc_path@ == first_given(None, obs_oscrc_path(config), default_oscrc(home))
    &&& r.ollama_host@ == first_given(None, llm_host(config), OLLAMA_HOST@)
    &&& r.ollama_port == (match llm_port(config) {
        Some(port) => port,
        None => OLLAMA_PORT,
    })
    &&& r.model@ == first_given(None, llm_model(config), MODEL@)
    &&& r.build_repository@ == first_given(None, build_repository(config), BUILD_REPOSITORY@)
    &&& r.build_arch@ == first_given(None, build_arch(config), BUILD_ARCH@)
    &&& r.description_system_prompt@ == system_prompt(config)
    &&& r.description_user_prompt@ == user_prompt(config)
    &&& r.description_timeout_secs == timeout_secs(config)
    &&& r.description_max_context_chars == max_context_chars(config)
    &&& r.description_num_predict == num_predict(config)
    &&& r.description_temperature == temperature(config)
}

/// The configuration as `config-show` shows it in JSON.
pub fn effective_config(config: Option<&PackfixConfig>, home: Option<&str>) -> (r: DisplayConfig)
    ensures
        shows(r, config, opt_str(home)),
{
    DisplayConfig {
        obs_api_url: resolve_obs_api_url(None, config),
        repo_url: resolve_repo_url(None, config),
        default_obs_project: resolve_default_obs_project(None, config),
        oscrc_path: resolve_oscrc_path(None, config, home),
        ollama_host: given(None, llm_host_of(config), OLLAMA_HOST),
        ollama_port: match llm_port_of(config) {
            Some(port) => port,
            None => OLLAMA_PORT,
        },
        model: given(None, llm_model_of(config), MODEL),
        description_system_prompt: resolve_description_system_prompt(config),
        description_user_prompt: resolve_description_user_prompt(config),
        description_timeout_secs: resolve_description_timeout_secs(config),
        description_max_context_chars: resolve_description_max_context_chars(config),
        description_num_predict: resolve_description_num_predict(config),
        description_temperature: resolve_description_temperature(config),
        build_repository: given(None, build_repository_of(config), BUILD_REPOSITORY),
        build_arch: given(None, build_arch_of(config), BUILD_ARCH),
    }
}

/// A setting that is a text, as a line, where it is given.
pub open spec fn text_setting(key: Seq<char>, value: Option<Seq<char>>) -> Seq<Seq<char>> {
    match value {
        Some(v) => seq![key + " = "@ + outside::quoted(v)],
        None => seq![],
    }
}

/// A setting that is a number, as a line, where it is given.
pub open spec fn number_setting(key: Seq<char>, value: Option<int>) -> Seq<Seq<char>> {
    match value {
        Some(v) => seq![key + " = "@ + pieces::decimal(v as nat)],
        None => seq![],
    }
}

pub open spec fn opt_int(o: Option<usize>) -> Option<int> {
    match o {
        Some(n) => Some(n as int),
        None => None,
    }
}

fn push_text_setting(v: &mut Vec<String>, key: &str, value: Option<String>)
    ensures
        text::texts(final(v)@) == text::texts(old(v)@) + text_setting(key@, text::opt_text(value)),
{
    if let Some(s) = value {
        let mut line = cat2(key, " = ");
        line.append(debug_form(s.as_str()).as_str());
        push_line(v, line);
    }
    assert(text::texts(v@) =~= text::texts(old(v)@) + text_setting(key@, text::opt_text(value)));
}

fn push_number_setting(v: &mut Vec<String>, key: &str, value: Option<usize>)
    ensures
        text::texts(final(v)@) == text::texts(old(v)@) + number_setting(key@, opt_int(value)),
{
    if let Some(n) = value {
        let mut line = cat2(key, " = ");
        line.append(decimal_of(n as u64).as_str());
        push_line(v, line);
    }
    assert(text::texts(v@) =~= text::texts(old(v)@) + number_setting(key@, opt_int(value)));
}

/// What the configuration file sets, line by line.
pub open spec fn set_lines(config: Option<&PackfixConfig>) -> Seq<Seq<char>> {
    text_setting("obs.api_url"@, obs_api_url(config)) + text_setting(
        "obs.default_project"@,
        obs_default_project(config),
    ) + text_setting("repo.url"@, repo_url(config)) + text_setting(
        "llm.host"@,
        llm_host(config),
    ) + number_setting(
        "llm.port"@,
        match llm_port(config) {
            Some(port) => Some(port as int),
            None => None,
        },
    ) + text_setting("llm.model"@, llm_model(config)) + text_setting(
        "build.repository"@,
        build_repository(config),
    ) + text_setting("build.arch"@, build_arch(config)) + number_setting(
        "build.max_retries"@,
        opt_int(build_max_retries(config)),
    ) + number_setting("build.max_dep_depth"@, opt_int(build_max_dep_depth(config)))
}

fn set_lines_of(config: Option<&PackfixConfig>) -> (r: Vec<String>)
    ensures
        text::texts(r@) == set_lines(config),
{
    let mut v: Vec<String> = Vec::new();
    assert(text::texts(v@) =~= seq![]);
    push_text_setting(&mut v, "obs.api_url", obs_api_url_of(config));
    push_text_setting(&mut v, "obs.default_project", obs_default_project_of(config));
    push_text_setting(&mut v, "repo.url", repo_url_of(config));
    push_text_setting(&mut v, "llm.host", llm_host_of(config));
    let port: Option<usize> = match llm_port_of(config) {
        Some(port) => Some(port as usize),
        None => None,
    };
    push_number_setting(&mut v, "llm.port", port);
    push_text_setting(&mut v, "llm.model", llm_model_of(config));
    push_text_setting(&mut v, "build.repository", build_repository_of(config));
    push_text_setting(&mut v, "build.arch", build_arch_of(config));
    push_number_setting(&mut v, "build.max_retries", build_max_retries_of(config));
    push_number_setting(&mut v, "build.max_dep_depth", build_max_dep_depth_of(config));
    assert(text::texts(v@) =~= set_lines(config));
    v
}

/// What takes effect, line by line. `temperature` is the notation of the temperature.
pub open spec fn resolved_lines(
    config: Option<&PackfixConfig>,
    home: Option<Seq<char>>,
    temperature: Seq<char>,
) -> Seq<Seq<char>> {
    seq![
        "---resolved---"@,
        "description_system_prompt = "@ + outside::quoted(system_prompt(config)),
        "description_user_prompt = "@ + outside::quoted(user_prompt(config)),
        "description_timeout_secs = "@ + pieces::decimal(timeout_secs(config) as nat),
        "description_max_context_chars = "@ + pieces::decimal(max_context_chars(config) as nat),
        "description_num_predict = "@ + pieces::signed_decimal(num_predict(config) as int),
        "description_temperature = "@ + temperature,
        "obs_api_url = "@ + first_given(None, obs_api_url(config), OBS_API_URL@),
        "repo_url = "@ + first_given(None, repo_url(config), REPO_URL@),
        "default_obs_project = "@ + first_given(None, obs_default_project(config), OBS_PROJECT@),
        "oscrc_path = "@ + first_given(None, obs_oscrc_path(config), default_oscrc(home)),
    ]
}

/// The configuration as `config-show` shows it in text, line by line.
#[verifier::rlimit(40)]
pub fn display_config(config: Option<&PackfixConfig>, home: Option<&str>, temperature: &str) -> (r:
    Vec<String>)
    ensures
        text::texts(r@) == set_lines(config) + resolved_lines(
            config,
            opt_str(home),
            temperature@,
        ),
{
    let d = effective_config(config, home);
    let mut v = set_lines_of(config);
    push_line(&mut v, "---resolved---".to_owned());
    push_line(
        &mut v,
        cat2(
            "description_system_prompt = ",
            debug_form(d.description_system_prompt.as_str()).as_str(),
        ),
    );
    push_line(
        &mut v,
        cat2(
            "description_user_prompt = ",
            debug_form(d.description_user_prompt.as_str()).as_str(),
        ),
    );
    push_line(
        &mut v,
        cat2("description_timeout_secs = ", decimal_of(d.description_timeout_secs).as_str()),
    );
    push_line(
        &mut v,
        cat2(
            "description_max_context_chars = ",
            decimal_of(d.description_max_context_chars as u64).as_str(),
        ),
    );
    push_line(
        &mut v,
        cat2(
            "description_num_predict = ",
            signed_decimal_of(d.description_num_predict).as_str(),
        ),
    );
    push_line(&mut v, cat2("description_temperature = ", temperature));
    push_line(&mut v, cat2("obs_api_url = ", d.obs_api_url.as_str()));
    push_line(&mut v, cat2("repo_url = ", d.repo_url.as_str()));
    push_line(&mut v, cat2("default_obs_project = ", d.default_obs_project.as_str()));
    push_line(&mut v, cat2("oscrc_path = ", d.oscrc_path.as_str()));
    assert(text::texts(v@) =~= set_lines(config) + resolved_lines(
        config,
        opt_str(home),
        temperature@,
    ));
    v
}

} // verus!
