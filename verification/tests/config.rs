use packfix::config::{
    config_paths, display_config, effective_config, resolve_default_obs_project,
    resolve_description_max_context_chars, resolve_description_num_predict,
    resolve_description_system_prompt, resolve_description_temperature,
    resolve_description_timeout_secs, resolve_description_user_prompt, resolve_obs_api_url,
    resolve_oscrc_path, resolve_repo_dir, resolve_repo_url, BuildConfig, DescriptionConfig,
    LlmConfig, ObsConfig, PackfixConfig, RepoConfig, DESCRIPTION_MAX_CONTEXT_CHARS,
    DESCRIPTION_NUM_PREDICT, DESCRIPTION_SYSTEM_PROMPT, DESCRIPTION_TEMPERATURE,
    DESCRIPTION_TIMEOUT_SECS, DESCRIPTION_USER_PROMPT,
};

/// The configuration that a file describes, as far as these tests need it.
fn config_of(text: &str) -> PackfixConfig {
    let table: toml::Table = text.parse().unwrap();
    let word = |section: &str, key: &str| {
        let section = table.get(section)?.as_table()?;
        Some(section.get(key)?.as_str()?.to_string())
    };
    let number = |section: &str, key: &str| {
        let section = table.get(section)?.as_table()?;
        section.get(key)?.as_integer()
    };
    let mut config = PackfixConfig::default();
    if table.contains_key("obs") {
        config.obs = Some(ObsConfig {
            api_url: word("obs", "api_url"),
            default_project: word("obs", "default_project"),
            oscrc_path: word("obs", "oscrc_path"),
        });
    }
    if table.contains_key("description") {
        config.description = Some(DescriptionConfig {
            system_prompt: word("description", "system_prompt")
                .unwrap_or(DESCRIPTION_SYSTEM_PROMPT.to_string()),
            user_prompt: word("description", "user_prompt")
                .unwrap_or(DESCRIPTION_USER_PROMPT.to_string()),
            timeout_secs: number("description", "timeout_secs")
                .map(|n| n as u64)
                .unwrap_or(DESCRIPTION_TIMEOUT_SECS),
            max_context_chars: DESCRIPTION_MAX_CONTEXT_CHARS,
            num_predict: DESCRIPTION_NUM_PREDICT,
            temperature: DESCRIPTION_TEMPERATURE,
        });
    }
    config
}

#[test]
fn resolve_obs_api_url_cli_wins() {
    let url = resolve_obs_api_url(Some("https://cli.example.com"), None);
    assert_eq!(url, "https://cli.example.com");
}

#[test]
fn resolve_obs_api_url_config_fallback() {
    let toml = r#"[obs]
api_url = "https://config.example.com"
"#;
    let config = config_of(toml);
    let url = resolve_obs_api_url(None, Some(&config));
    assert_eq!(url, "https://config.example.com");
}

#[test]
fn resolve_repo_url_default() {
    let url = resolve_repo_url(None, None);
    assert!(url.contains("github.com"));
}

#[test]
fn description_system_prompt_default() {
    let prompt = resolve_description_system_prompt(None);
    assert!(prompt.contains("RPM spec file %description"));
}

#[test]
fn description_user_prompt_default() {
    let prompt = resolve_description_user_prompt(None);
    assert!(prompt.contains("{context}"));
    assert!(prompt.contains("1 to 5 lines"));
}

#[test]
fn description_prompt_from_config() {
    let toml = r#"
[description]
system_prompt = "Custom system"
user_prompt = "Custom user {context}"
"#;
    let config = config_of(toml);
    assert_eq!(
        resolve_description_system_prompt(Some(&config)),
        "Custom system"
    );
    assert_eq!(
        resolve_description_user_prompt(Some(&config)),
        "Custom user {context}"
    );
}

#[test]
fn description_prompt_default_when_section_missing() {
    let toml = r#"
[obs]
api_url = "https://example.com/"
"#;
    let config = config_of(toml);
    let prompt = resolve_description_system_prompt(Some(&config));
    assert!(prompt.contains("RPM spec file %description"));
}

#[test]
fn description_timeout_secs_default() {
    let secs = resolve_description_timeout_secs(None);
    assert_eq!(secs, 180);
}

#[test]
fn description_timeout_secs_from_config() {
    let toml = r#"
[description]
timeout_secs = 60
"#;
    let config = config_of(toml);
    let secs = resolve_description_timeout_secs(Some(&config));
    assert_eq!(secs, 60);
}

#[test]
fn description_max_context_chars_default() {
    assert_eq!(resolve_description_max_context_chars(None), 12000);
}

#[test]
fn description_num_predict_default() {
    assert_eq!(resolve_description_num_predict(None), 160);
}

#[test]
fn description_temperature_default() {
    let temperature = f32::from_bits(resolve_description_temperature(None));
    assert!((temperature - 0.0).abs() < f32::EPSILON);
}

fn full_config() -> PackfixConfig {
    PackfixConfig {
        obs: Some(ObsConfig {
            api_url: Some("u".into()),
            default_project: Some("p".into()),
            oscrc_path: None,
        }),
        repo: Some(RepoConfig {
            url: Some("r".into()),
            workdir: Some("/repo".into()),
        }),
        llm: Some(LlmConfig {
            host: Some("h".into()),
            port: Some(9),
            model: None,
        }),
        build: Some(BuildConfig {
            repository: None,
            arch: Some("riscv64".into()),
            max_retries: Some(3),
            max_dep_depth: None,
            llm_description: None,
        }),
        description: None,
    }
}

#[test]
fn settings_fall_back_step_by_step() {
    let config = full_config();
    assert_eq!(resolve_repo_url(None, Some(&config)), "r");
    assert_eq!(resolve_repo_url(Some("c"), Some(&config)), "c");
    assert_eq!(resolve_default_obs_project(None, Some(&config)), "p");
    assert_eq!(resolve_default_obs_project(None, None), "home:yyjeqhc:new_ruyios");
    assert_eq!(resolve_repo_dir(Some(&config)), "/repo");
    assert_eq!(resolve_repo_dir(None), "/root/git/openruyi-repo");
    assert_eq!(resolve_oscrc_path(Some("/o"), None, None), "/o");
    assert_eq!(resolve_oscrc_path(None, None, Some("/home/a")), "/home/a/.config/osc/oscrc");
    assert_eq!(resolve_oscrc_path(None, None, None), "/root/.config/osc/oscrc");
    assert_eq!(
        config_paths(Some("/home/a")),
        vec!["packfix.toml", "/home/a/.config/packfix/config.toml"]
    );
    assert_eq!(config_paths(None), vec!["packfix.toml"]);
}

#[test]
fn configuration_is_shown_in_full() {
    let config = full_config();
    let lines = display_config(Some(&config), Some("/home/a"), "0");
    assert_eq!(
        lines[..8],
        [
            "obs.api_url = \"u\"",
            "obs.default_project = \"p\"",
            "repo.url = \"r\"",
            "llm.host = \"h\"",
            "llm.port = 9",
            "build.arch = \"riscv64\"",
            "build.max_retries = 3",
            "---resolved---",
        ]
    );
    assert_eq!(lines[8], format!("description_system_prompt = {:?}", DESCRIPTION_SYSTEM_PROMPT));
    assert_eq!(lines[9], format!("description_user_prompt = {:?}", DESCRIPTION_USER_PROMPT));
    assert_eq!(
        lines[10..],
        [
            "description_timeout_secs = 180",
            "description_max_context_chars = 12000",
            "description_num_predict = 160",
            "description_temperature = 0",
            "obs_api_url = u",
            "repo_url = r",
            "default_obs_project = p",
            "oscrc_path = /home/a/.config/osc/oscrc",
        ]
    );
    let shown = effective_config(Some(&config), None);
    assert_eq!(shown.ollama_host, "h");
    assert_eq!(shown.ollama_port, 9);
    assert_eq!(shown.model, "qwen3:8b");
    assert_eq!(shown.build_repository, "x64");
    assert_eq!(effective_config(None, None).ollama_port, 11434);
}
