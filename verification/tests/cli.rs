use giribeat::cli::{resolve_api_key, Cli, Provider};

fn cli_with(model: Option<&str>, duration: Option<&str>) -> Cli {
    cli_prompt("dark techno", model, duration)
}

fn cli_prompt(prompt: &str, model: Option<&str>, duration: Option<&str>) -> Cli {
    Cli {
        prompt: prompt.to_string(),
        duration: duration.map(|d| d.to_string()),
        provider: Provider::Cohere,
        api_key: None,
        model: model.map(|m| m.to_string()),
        no_play: false,
        output: None,
        print_code: false,
    }
}

#[test]
fn providers_name_their_defaults() {
    assert_eq!(Provider::Cerebras.default_model(), "llama3.1-8b");
    assert_eq!(Provider::Cohere.default_model(), "command-a-03-2025");
    assert_eq!(Provider::Cerebras.env_key_name(), "CEREBRAS_API_KEY");
    assert_eq!(Provider::Cohere.env_key_name(), "COHERE_API_KEY");
    assert_eq!(Provider::Cerebras.display_name(), "Cerebras");
    assert_eq!(Provider::Cohere.display_name(), "Cohere");
}

#[test]
fn given_key_wins_over_environment() {
    assert_eq!(
        resolve_api_key(Provider::Cerebras, Some("k1".to_string()), Some("k2".to_string()), Some("g".to_string())),
        Ok("k1".to_string())
    );
    assert_eq!(
        resolve_api_key(Provider::Cerebras, None, Some("k2".to_string()), Some("g".to_string())),
        Ok("k2".to_string())
    );
}

#[test]
fn agnostic_key_is_the_last_fallback() {
    assert_eq!(resolve_api_key(Provider::Cerebras, None, None, Some("g".to_string())), Ok("g".to_string()));
}

#[test]
fn missing_key_names_the_variable() {
    assert_eq!(
        resolve_api_key(Provider::Cohere, None, None, None),
        Err("No API key found. Provide --api-key or set the COHERE_API_KEY environment variable.".to_string())
    );
}

#[test]
fn model_defaults_to_the_providers() {
    assert_eq!(cli_with(None, None).model_name(), "command-a-03-2025");
    assert_eq!(cli_with(Some("command-r-plus"), None).model_name(), "command-r-plus");
}

#[test]
fn duration_option_sets_the_song_length() {
    assert_eq!(cli_with(None, Some("5m")).target_secs(), Some(300));
    assert_eq!(cli_with(None, Some("soon")).target_secs(), None);
    assert_eq!(cli_with(None, None).target_secs(), None);
}

#[test]
fn duration_in_prompt_sets_the_song_length() {
    assert_eq!(cli_prompt("3 minutes of dark ambient drone", None, None).target_secs(), Some(180));
    assert_eq!(cli_prompt("5 minutes of lo-fi hip hop", None, Some("5m")).target_secs(), Some(300));
    assert_eq!(cli_prompt("5 minutes of lo-fi hip hop", None, Some("later")).target_secs(), Some(300));
    assert_eq!(cli_prompt("dark techno", None, Some("2:30")).target_secs(), Some(150));
    assert_eq!(cli_prompt("melancholic jazz piano trio", None, None).target_secs(), None);
}
