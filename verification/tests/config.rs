use llmpal::app::{
    api_url_or_default, is_success_status, max_tokens_or_default, model_label, reply_text,
    select_api_key, status_error, transport_error, truncation_warning, usage_of, LlmpalError,
    TransportFailure, Usage,
};
use llmpal::config::{
    find_model, get_model_config, get_selected_model_code, lookup_env, resolve_env_token, Cli,
    Config, ModelConfig, DEFAULT_MAX_TOKENS, DEFAULT_MODEL, OPEN_ROUTER_URL,
};
use llmpal::utils::{dump_failure, dump_file_name, next_dump_id};

const DEFAULT_PROMPT_COST: f64 = 0.60;
const DEFAULT_COMPLETION_COST: f64 = 2.50;

fn cli(model: Option<&str>) -> Cli {
    Cli {
        files: vec![],
        verbose: false,
        output: None,
        trace: false,
        model: model.map(|m| m.to_string()),
        instruction: "instruction".to_string(),
    }
}

fn env(pairs: &[(&str, &str)]) -> Vec<(String, String)> {
    pairs.iter().map(|(k, v)| (k.to_string(), v.to_string())).collect()
}

fn resolve(args: &Cli, config: &Config<f64>, env: &Vec<(String, String)>) -> ModelConfig<f64> {
    get_model_config(args, config, DEFAULT_PROMPT_COST, DEFAULT_COMPLETION_COST, env)
}

#[test]
fn test_default_model_config() {
    let args = cli(None);
    let config = Config { models: None, rules: None };
    let model_config = resolve(&args, &config, &env(&[]));
    assert_eq!(model_config.model, DEFAULT_MODEL);
    assert_eq!(model_config.prompt_cost, DEFAULT_PROMPT_COST);
    assert_eq!(model_config.completion_cost, DEFAULT_COMPLETION_COST);
    assert_eq!(model_config.code, DEFAULT_MODEL);
}

#[test]
fn test_model_config_resolution() {
    let config = Config {
        models: Some(vec![ModelConfig {
            code: "kimi".to_string(),
            model: "test-model".to_string(),
            prompt_cost: 1.1,
            completion_cost: 2.2,
            api_url: None,
            api_key: Some("$TOKEN".to_string()),
            max_tokens: Some(4096),
            provider: Some("fireworks".to_string()),
        }]),
        rules: None,
    };

    let args = cli(Some("kimi"));
    let model_config = resolve(&args, &config, &env(&[]));

    assert_eq!(model_config.model, "test-model");
    assert_eq!(model_config.prompt_cost, 1.1);
    assert_eq!(model_config.completion_cost, 2.2);
    assert_eq!(model_config.max_tokens, Some(4096));
    assert_eq!(model_config.code, "kimi");
    assert_eq!(model_config.api_key.as_deref(), Some("$TOKEN"));
    assert_eq!(model_config.provider, Some("fireworks".to_string()));
}

#[test]
fn test_fallback_to_first_model_when_no_model_specified() {
    let config = Config {
        models: Some(vec![ModelConfig {
            code: "other".to_string(),
            model: "other-model".to_string(),
            prompt_cost: 0.5,
            completion_cost: 1.0,
            api_url: None,
            api_key: None,
            max_tokens: None,
            provider: None,
        }]),
        rules: None,
    };

    let args = cli(None);
    let model_config = resolve(&args, &config, &env(&[]));

    assert_eq!(model_config.model, "other-model");
    assert_eq!(model_config.prompt_cost, 0.5);
    assert_eq!(model_config.completion_cost, 1.0);
    assert_eq!(model_config.max_tokens, None);
    assert_eq!(model_config.provider, None);
}

#[test]
fn test_specified_model_not_in_config() {
    let config = Config { models: Some(vec![]), rules: None };
    let args = cli(Some("missing"));
    let model_config = resolve(&args, &config, &env(&[]));
    assert_eq!(model_config.code, "missing");
    assert_eq!(model_config.model, DEFAULT_MODEL);
    assert_eq!(model_config.prompt_cost, DEFAULT_PROMPT_COST);
    assert_eq!(model_config.completion_cost, DEFAULT_COMPLETION_COST);
    assert_eq!(model_config.provider, None);
}

#[test]
fn test_resolve_env_token_with_var() {
    let env = env(&[("TEST_TOKEN", "actual_value")]);
    assert_eq!(resolve_env_token("$TEST_TOKEN", &env), "actual_value");
}

#[test]
fn test_resolve_env_token_missing_var() {
    assert_eq!(resolve_env_token("$MISSING_VAR", &env(&[])), "$MISSING_VAR");
}

#[test]
fn test_resolve_env_token_plain_string() {
    assert_eq!(resolve_env_token("plain_val", &env(&[])), "plain_val");
}

#[test]
fn env_tokens_at_the_edges() {
    let env = env(&[("", "empty name"), ("A", "first"), ("A", "second"), ("$B", "dollar")]);
    assert_eq!(resolve_env_token("", &env), "");
    assert_eq!(resolve_env_token("$", &env), "empty name");
    assert_eq!(resolve_env_token("$A", &env), "first");
    assert_eq!(resolve_env_token("A", &env), "A");
    assert_eq!(resolve_env_token(" $A", &env), " $A");
    assert_eq!(resolve_env_token("$$B", &env), "dollar");
    assert_eq!(resolve_env_token("$a", &env), "$a");
    assert_eq!(lookup_env(&env, "A"), Some("first".to_string()));
    assert_eq!(lookup_env(&env, "B"), None);
}

#[test]
fn the_first_profile_with_the_code_wins() {
    let profile = |code: &str, model: &str, key: Option<&str>| ModelConfig {
        code: code.to_string(),
        model: model.to_string(),
        prompt_cost: 1.0,
        completion_cost: 2.0,
        api_url: Some(format!("https://{}", model)),
        api_key: key.map(|k| k.to_string()),
        max_tokens: None,
        provider: None,
    };
    let config = Config {
        models: Some(vec![
            profile("a", "one", None),
            profile("b", "two", Some("$KEY")),
            profile("b", "three", Some("plain")),
        ]),
        rules: Some(vec!["r".to_string()]),
    };
    let env = env(&[("KEY", "secret")]);
    assert_eq!(get_selected_model_code(&cli(None), &config), "a");
    assert_eq!(get_selected_model_code(&cli(Some("b")), &config), "b");
    assert_eq!(get_selected_model_code(&cli(Some("zzz")), &config), "zzz");
    assert_eq!(find_model(config.models.as_ref().unwrap(), &"b".to_string()), Some(1));
    assert_eq!(find_model(config.models.as_ref().unwrap(), &"c".to_string()), None);
    let chosen = resolve(&cli(Some("b")), &config, &env);
    assert_eq!(chosen.model, "two");
    assert_eq!(chosen.api_url, Some("https://two".to_string()));
    assert_eq!(chosen.api_key, Some("secret".to_string()));
    let first = resolve(&cli(None), &config, &env);
    assert_eq!(first.code, "a");
    assert_eq!(first.model, "one");
    assert_eq!(first.api_key, None);
}

#[test]
fn selected_code_without_profiles_is_the_default_model() {
    let none: Config<f64> = Config { models: None, rules: None };
    let empty: Config<f64> = Config { models: Some(vec![]), rules: None };
    assert_eq!(get_selected_model_code(&cli(None), &none), DEFAULT_MODEL);
    assert_eq!(get_selected_model_code(&cli(None), &empty), DEFAULT_MODEL);
    assert_eq!(DEFAULT_MODEL, "moonshotai/kimi-k2");
}

#[test]
fn api_key_comes_from_the_profile_or_the_environment() {
    let env = env(&[("OPENROUTER_API_KEY", "from env")]);
    assert_eq!(select_api_key(Some("mine".to_string()), &env), Ok("mine".to_string()));
    assert_eq!(select_api_key(None, &env), Ok("from env".to_string()));
    assert_eq!(select_api_key(None, &vec![]), Err(LlmpalError::ApiKeyMissing));
    assert_eq!(select_api_key(Some(String::new()), &vec![]), Ok(String::new()));
}

#[test]
fn defaults_of_a_run() {
    assert_eq!(api_url_or_default(&None), "https://openrouter.ai/api/v1/chat/completions");
    assert_eq!(api_url_or_default(&None), OPEN_ROUTER_URL);
    assert_eq!(api_url_or_default(&Some("http://localhost".to_string())), "http://localhost");
    assert_eq!(max_tokens_or_default(None), 16384);
    assert_eq!(max_tokens_or_default(None), DEFAULT_MAX_TOKENS);
    assert_eq!(max_tokens_or_default(Some(0)), 0);
    assert_eq!(max_tokens_or_default(Some(7)), 7);
}

#[test]
fn labels_and_failures() {
    assert_eq!(model_label("m", None), "m");
    assert_eq!(model_label("m", Some("p")), "m [provider: p]");
    for code in [0u16, 100, 199, 300, 404, 500, 65535] {
        assert!(!is_success_status(code));
    }
    for code in [200u16, 201, 204, 299] {
        assert!(is_success_status(code));
    }
    assert_eq!(
        transport_error(TransportFailure::Send, "timed out"),
        LlmpalError::NetworkError("Failed to send request: timed out".to_string())
    );
    assert_eq!(
        transport_error(TransportFailure::ReadError, "reset"),
        LlmpalError::NetworkError("Failed to read error response: reset".to_string())
    );
    assert_eq!(
        transport_error(TransportFailure::Decode, "EOF"),
        LlmpalError::NetworkError("Failed to parse JSON response: EOF".to_string())
    );
    assert_eq!(
        status_error("401 Unauthorized", "{\"error\":\"no\"}"),
        LlmpalError::NetworkError(
            "API request failed with status 401 Unauthorized: {\"error\":\"no\"}".to_string()
        )
    );
    assert_eq!(reply_text(Some("hello".to_string())), Ok("hello".to_string()));
    assert_eq!(
        reply_text(None),
        Err(LlmpalError::ParseError("Invalid response format from API".to_string()))
    );
}

#[test]
fn truncation_is_warned_of_at_the_ceiling() {
    assert_eq!(truncation_warning(99, 100), None);
    assert_eq!(
        truncation_warning(100, 100),
        Some("Warning: Completion tokens (100) equal or exceed max token limit (100). Output might be missing or incomplete.".to_string())
    );
    assert_eq!(
        truncation_warning(16385, 16384),
        Some("Warning: Completion tokens (16385) equal or exceed max token limit (16384). Output might be missing or incomplete.".to_string())
    );
    assert_eq!(
        truncation_warning(0, 0),
        Some("Warning: Completion tokens (0) equal or exceed max token limit (0). Output might be missing or incomplete.".to_string())
    );
    assert_eq!(truncation_warning(0, 1), None);
}

#[test]
fn usage_needs_both_counts() {
    assert_eq!(
        usage_of(Some(100), Some(50)),
        Some(Usage { prompt_tokens: 100, completion_tokens: 50 })
    );
    assert_eq!(usage_of(Some(0), Some(0)), Some(Usage { prompt_tokens: 0, completion_tokens: 0 }));
    assert_eq!(usage_of(None, Some(50)), None);
    assert_eq!(usage_of(Some(100), None), None);
    assert_eq!(usage_of(None, None), None);
}

#[test]
fn dump_files_are_named_by_the_time() {
    assert_eq!(dump_file_name(0), "dump_0.log");
    assert_eq!(dump_file_name(1761609600), "dump_1761609600.log");
    assert_eq!(dump_file_name(u64::MAX), "dump_18446744073709551615.log");
    assert_eq!(dump_failure("disk full"), "Failed to save dump log: disk full");
}

#[test]
fn a_taken_dump_identifier_gives_way_to_the_next() {
    assert_eq!(next_dump_id(0), Some(1));
    assert_eq!(next_dump_id(1761609600), Some(1761609601));
    assert_eq!(next_dump_id(u64::MAX - 1), Some(u64::MAX));
    assert_eq!(next_dump_id(u64::MAX), None);
    assert_ne!(dump_file_name(1761609600), dump_file_name(next_dump_id(1761609600).unwrap()));
}
