use memx::config::EmbeddingDraft;
use memx::setup::{
    asks_before_writing, check_setup_overwrite, dimension_without_validation, doctor_fix_hint,
    entered_dimension, entered_secret, entered_text, first_non_empty, infer_provider, mask_secret,
    non_interactive_fields, parse_tags, prompt_defaults, provider_choice, provider_from_choice, reconcile_dimension, resolve_text_value,
    secret_prompt, text_prompt, yes_no_answer, DimensionError, ProviderPreset, SetupRefused,
};

fn draft(api_key: Option<&str>, base_url: Option<&str>, model: Option<&str>) -> EmbeddingDraft {
    EmbeddingDraft {
        api_key: api_key.map(str::to_string),
        base_url: base_url.map(str::to_string),
        model: model.map(str::to_string),
        dimension: None,
    }
}

#[test]
fn secrets_are_masked_by_length() {
    assert_eq!(mask_secret(""), "<empty>");
    assert_eq!(mask_secret("short"), "********");
    assert_eq!(mask_secret("12345678"), "********");
    assert_eq!(mask_secret("sk-abcdefgh1234"), "sk-a****1234");
}

#[test]
fn fix_hints_follow_the_error() {
    assert_eq!(doctor_fix_hint("HTTP 401 Unauthorized", "/c.toml"), "update embedding.api_key in /c.toml");
    assert_eq!(
        doctor_fix_hint("Unknown MODEL name", "/c.toml"),
        "verify embedding.base_url and embedding.model in /c.toml"
    );
    assert_eq!(
        doctor_fix_hint("Request failed: timeout", "/c.toml"),
        "verify network connectivity and embedding.base_url in /c.toml"
    );
    assert_eq!(doctor_fix_hint("boom", "/c.toml"), "re-run `memx setup` or edit /c.toml");
}

#[test]
fn provider_is_inferred_from_base_url() {
    assert_eq!(infer_provider(None), ProviderPreset::Deepinfra);
    assert_eq!(infer_provider(Some("https://api.deepinfra.com/v1/openai/")), ProviderPreset::Deepinfra);
    assert_eq!(infer_provider(Some("https://api.openai.com/v1")), ProviderPreset::OpenaiCompatible);
}

#[test]
fn presets_suggest_defaults() {
    assert_eq!(ProviderPreset::Deepinfra.label(), "DeepInfra");
    assert_eq!(ProviderPreset::Deepinfra.default_model(), Some("Qwen/Qwen3-Embedding-0.6B"));
    assert_eq!(ProviderPreset::Custom.default_base_url(), None);
}

#[test]
fn first_non_blank_value_wins() {
    let blank = "  ".to_string();
    let a = "a".to_string();
    let b = "b".to_string();
    assert_eq!(first_non_empty(Some(&a), Some(&b)), Some("a"));
    assert_eq!(first_non_empty(Some(&blank), Some(&b)), Some("b"));
    assert_eq!(first_non_empty(None, Some(&blank)), None);
}

#[test]
fn text_values_fall_back_to_preset_or_fail() {
    assert_eq!(resolve_text_value(None, None, Some("d"), "model").unwrap(), "d");
    let err = resolve_text_value(None, None, None, "api_key").err().unwrap();
    assert_eq!(err.field, "api_key");
}

#[test]
fn dimension_rules() {
    assert_eq!(dimension_without_validation(Some(8)), Ok(8));
    assert_eq!(dimension_without_validation(None), Err(DimensionError::MissingDimension));
    assert_eq!(reconcile_dimension(None, 1024), Ok(1024));
    assert_eq!(reconcile_dimension(Some(1024), 1024), Ok(1024));
    assert_eq!(
        reconcile_dimension(Some(768), 1024),
        Err(DimensionError::Mismatch { configured: 768, detected: 1024 })
    );
}

#[test]
fn tags_are_split_on_commas_and_trimmed() {
    assert_eq!(parse_tags("rust, dev ,notes"), vec!["rust", "dev", "notes"]);
    assert_eq!(parse_tags("a,,b"), vec!["a", "", "b"]);
    assert_eq!(parse_tags(""), vec![""]);
}

#[test]
fn non_interactive_setup_settles_fields_in_order() {
    let existing = draft(Some("old-key"), None, None);
    let fields = non_interactive_fields(None, None, None, None, &existing).unwrap();
    assert_eq!(fields.provider, ProviderPreset::Deepinfra);
    assert_eq!(fields.base_url, "https://api.deepinfra.com/v1/openai");
    assert_eq!(fields.model, "Qwen/Qwen3-Embedding-0.6B");
    assert_eq!(fields.api_key, "old-key");

    let custom = non_interactive_fields(Some(ProviderPreset::Custom), None, None, None, &existing);
    assert_eq!(custom.err().unwrap().field, "base_url");

    let url = "https://x.example/v1".to_string();
    let no_model = non_interactive_fields(Some(ProviderPreset::OpenaiCompatible), Some(&url), None, None, &existing);
    assert_eq!(no_model.err().unwrap().field, "model");

    let model = "m".to_string();
    let no_key = non_interactive_fields(None, Some(&url), Some(&model), None, &draft(None, None, None));
    assert_eq!(no_key.err().unwrap().field, "api_key");
}

#[test]
fn interactive_defaults_prefer_given_then_existing_then_preset() {
    let existing = draft(Some("old-key"), Some("https://old.example"), None);
    let given_model = "given-model".to_string();
    let d = prompt_defaults(ProviderPreset::Deepinfra, None, Some(&given_model), None, &existing);
    assert_eq!(d.model.as_deref(), Some("given-model"));
    assert_eq!(d.base_url.as_deref(), Some("https://old.example"));
    assert_eq!(d.api_key.as_deref(), Some("old-key"));
    let none = prompt_defaults(ProviderPreset::Custom, None, None, None, &draft(None, None, None));
    assert_eq!(none.model, None);
    assert_eq!(none.base_url, None);
    assert_eq!(none.api_key, None);
}

#[test]
fn prompts_show_defaults() {
    assert_eq!(text_prompt("Embedding model", Some("m")), "Embedding model [m]: ");
    assert_eq!(text_prompt("Embedding model", Some("")), "Embedding model: ");
    assert_eq!(text_prompt("Embedding model", None), "Embedding model: ");
    assert_eq!(secret_prompt("Embedding API key", true), "Embedding API key [press Enter to keep current value]: ");
    assert_eq!(secret_prompt("Embedding API key", false), "Embedding API key: ");
}

#[test]
fn answers_are_read_with_defaults() {
    assert_eq!(entered_text("  value \n", Some("d")), "value");
    assert_eq!(entered_text("\n", Some("d")), "d");
    assert_eq!(entered_text("   ", None), "");
    assert_eq!(entered_secret(" key ", Some("old")).as_deref(), Some(" key "));
    assert_eq!(entered_secret("", Some("old")).as_deref(), Some("old"));
    assert_eq!(entered_secret("", Some(" ")), None);
    assert_eq!(entered_dimension("384"), Some(384));
    assert_eq!(entered_dimension("0"), None);
    assert_eq!(entered_dimension("x"), None);
}

#[test]
fn yes_no_answers() {
    assert_eq!(yes_no_answer("[Y/n]", true), Some(true));
    assert_eq!(yes_no_answer("[y/N]", false), Some(false));
    assert_eq!(yes_no_answer(" YES ", false), Some(true));
    assert_eq!(yes_no_answer("n", true), Some(false));
    assert_eq!(yes_no_answer("No", true), Some(false));
    assert_eq!(yes_no_answer("maybe", true), None);
    assert_eq!(yes_no_answer("", false), Some(false));
}

#[test]
fn setup_guards() {
    assert_eq!(check_setup_overwrite(true, true, false), Err(SetupRefused::ConfigExists));
    assert_eq!(check_setup_overwrite(true, true, true), Ok(()));
    assert_eq!(check_setup_overwrite(false, true, false), Ok(()));
    assert!(asks_before_writing(false, false, false));
    assert!(!asks_before_writing(false, false, true));
    assert!(!asks_before_writing(true, false, false));
}

#[test]
fn provider_menu_numbers() {
    assert_eq!(provider_choice(ProviderPreset::OpenaiCompatible), "2");
    assert_eq!(provider_from_choice("3"), Some(ProviderPreset::Custom));
    assert_eq!(provider_from_choice("4"), None);
    for p in [ProviderPreset::Deepinfra, ProviderPreset::OpenaiCompatible, ProviderPreset::Custom] {
        assert_eq!(provider_from_choice(provider_choice(p)), Some(p));
    }
}
