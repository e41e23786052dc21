use fak::provider::{
    after_output_marker, detect_provider, extract_command, provider_named, ProviderType,
};

#[test]
fn unset_provider_is_local() {
    assert_eq!(detect_provider(None), ProviderType::Local);
}

#[test]
fn named_providers_ignore_case() {
    assert_eq!(detect_provider(Some("NVIDIA")), ProviderType::Nvidia);
    assert_eq!(detect_provider(Some("Groq")), ProviderType::Groq);
    assert_eq!(detect_provider(Some("cerebras")), ProviderType::Cerebras);
    assert_eq!(detect_provider(Some("LFM")), ProviderType::Local);
    assert_eq!(detect_provider(Some("Local")), ProviderType::Local);
}

#[test]
fn other_values_select_gemini() {
    assert_eq!(detect_provider(Some("gemini")), ProviderType::Gemini);
    assert_eq!(detect_provider(Some("openai")), ProviderType::Gemini);
    assert_eq!(detect_provider(Some("")), ProviderType::Gemini);
    assert_eq!(detect_provider(Some(" local")), ProviderType::Gemini);
}

#[test]
fn provider_named_needs_lowercase() {
    assert_eq!(provider_named("groq"), ProviderType::Groq);
    assert_eq!(provider_named("GROQ"), ProviderType::Gemini);
}

#[test]
fn lowercase_is_unicode_aware() {
    // KELVIN SIGN lowercases to an ASCII 'k', which no provider name holds
    assert_eq!(detect_provider(Some("\u{212A}")), ProviderType::Gemini);
    assert_eq!(detect_provider(Some("CEREBRAS")), ProviderType::Cerebras);
}

#[test]
fn remote_settings_table() {
    let table = [
        (ProviderType::Nvidia, "NVIDIA_API_KEY", "NVIDIA_MODEL", "google/gemma-4-31b-it", "Nvidia"),
        (ProviderType::Cerebras, "CEREBRAS_API_KEY", "CEREBRAS_MODEL", "llama3.1-8b", "Cerebras"),
        (ProviderType::Gemini, "GEMINI_API_KEY", "GEMINI_MODEL", "gemma-4-31b-it", "Gemini"),
        (ProviderType::Groq, "GROQ_API_KEY", "GROQ_MODEL", "llama-3.3-70b-versatile", "Groq"),
    ];
    for (p, key, model, default, label) in table {
        let s = p.remote_settings().unwrap();
        assert_eq!(s.key_var, key);
        assert_eq!(s.model_var, model);
        assert_eq!(s.default_model, default);
        assert_eq!(s.label, label);
    }
    assert!(ProviderType::Local.remote_settings().is_none());
}

#[test]
fn missing_key_is_an_error() {
    let s = ProviderType::Groq.remote_settings().unwrap();
    assert_eq!(s.missing_key_message(), "GROQ_API_KEY environment variable is not set");
    let r = s.request(None, Some("m"));
    assert_eq!(r.err(), Some("GROQ_API_KEY environment variable is not set".to_string()));
}

#[test]
fn request_uses_default_model() {
    let s = ProviderType::Cerebras.remote_settings().unwrap();
    let q = s.request(Some("key"), None).ok().unwrap();
    assert_eq!(q.api_key, "key");
    assert_eq!(q.model, "llama3.1-8b");
    let q = s.request(Some("key"), Some("other")).ok().unwrap();
    assert_eq!(q.model, "other");
}

#[test]
fn preambles() {
    assert_eq!(
        ProviderType::Local.preamble(),
        "You are a command-line correction assistant. Correct the misspelled or incorrect CLI command. Respond ONLY with the corrected single command string. Do not use markdown, backticks, or explanations."
    );
    assert_eq!(
        ProviderType::Groq.preamble(),
        "You are a command-line correction assistant. The user will give you a misspelled or incorrect CLI command. Respond ONLY with the corrected single command string, with no markdown formatting, backticks, or explanation."
    );
}

#[test]
fn plain_reply_is_trimmed() {
    assert_eq!(extract_command("  git status \n"), Some("git status".to_string()));
}

#[test]
fn text_between_backticks_is_taken() {
    assert_eq!(extract_command("Use `git status` please"), Some("git status".to_string()));
}

#[test]
fn single_backtick_is_trimmed() {
    assert_eq!(extract_command("`git status"), Some("git status".to_string()));
}

#[test]
fn triple_backticks_give_nothing_between_the_first_two() {
    assert_eq!(extract_command("```git status```"), Some(String::new()));
}

#[test]
fn output_marker_is_cut_in_any_case() {
    assert_eq!(extract_command("Output: git status"), Some("git status".to_string()));
    assert_eq!(extract_command("The OUTPUT:  ls -la"), Some("ls -la".to_string()));
}

#[test]
fn marker_offset_follows_the_lowercase_text() {
    // "İ" lowercases to two characters taking three bytes, one more than it
    // takes itself: the cut lands one byte further in the original text.
    assert_eq!(extract_command("İOutput: x"), Some("x".to_string()));
}

#[test]
fn marker_offset_inside_a_character_gives_none() {
    assert_eq!(extract_command("İOutput:é"), None);
}

#[test]
fn after_marker_with_given_lowercase() {
    assert_eq!(after_output_marker("Output: ls", "output: ls"), Some("ls".to_string()));
    assert_eq!(after_output_marker("ls", "ls"), Some("ls".to_string()));
    assert_eq!(after_output_marker("ab", "xxoutput:"), None);
}
