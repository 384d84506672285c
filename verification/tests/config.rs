use ulgate::config::{Environment, GatewayConfig, LlmProvider};

fn empty_env() -> Environment {
    Environment {
        port: None,
        db: None,
        llm_provider: None,
        llm_model: None,
        api_keys: vec![None, None, None, None, None],
    }
}

#[test]
fn default_config() {
    let cfg = GatewayConfig::default();
    assert_eq!(cfg.bind_addr.port(), 8080);
    assert_eq!(cfg.llm_provider, "groq");
}

#[test]
fn parse_llm_spec() {
    let (p, m) = GatewayConfig::parse_llm_spec("openai:gpt-4o");
    assert_eq!(p, "openai");
    assert_eq!(m, "gpt-4o");

    let (p2, m2) = GatewayConfig::parse_llm_spec("llama-3.3-70b-versatile");
    assert_eq!(p2, "groq");
    assert_eq!(m2, "llama-3.3-70b-versatile");
}

#[test]
fn empty_environment_gives_defaults() {
    let cfg = GatewayConfig::from_env(&empty_env());
    assert_eq!(cfg.bind_addr.text(), "0.0.0.0:8080");
    assert_eq!(cfg.db_path, "./data");
    assert_eq!(cfg.llm_model, "llama-3.3-70b-versatile");
    assert_eq!(cfg.api_key, None);
    assert_eq!(cfg.max_tokens, 4096);
    assert!(cfg.cors_enabled);
}

#[test]
fn environment_overrides_defaults() {
    let mut env = empty_env();
    env.port = Some("9000".into());
    env.db = Some("/tmp/db".into());
    env.llm_provider = Some("openai".into());
    env.llm_model = Some("gpt-4o".into());
    env.api_keys = vec![None, Some("second".into()), Some("third".into()), None, None];
    let cfg = GatewayConfig::from_env(&env);
    assert_eq!(cfg.bind_addr.text(), "0.0.0.0:9000");
    assert_eq!(cfg.db_path, "/tmp/db");
    assert_eq!(cfg.llm_provider, "openai");
    assert_eq!(cfg.llm_model, "gpt-4o");
    assert_eq!(cfg.api_key.as_deref(), Some("second"));
}

#[test]
fn bad_port_is_passed_over() {
    for bad in ["65536", "", "80a", "-1", "+"] {
        let mut env = empty_env();
        env.port = Some(bad.into());
        assert_eq!(GatewayConfig::from_env(&env).bind_addr.port(), 8080);
    }
    let mut env = empty_env();
    env.port = Some("+0443".into());
    assert_eq!(GatewayConfig::from_env(&env).bind_addr.port(), 443);
}

#[test]
fn arguments_override_environment() {
    let cfg = GatewayConfig::default().with_arguments(
        &Some("70".into()),
        &Some("d".into()),
        &Some("mistral:m:1".into()),
    );
    assert_eq!(cfg.bind_addr.port(), 70);
    assert_eq!(cfg.db_path, "d");
    assert_eq!(cfg.llm_provider, "mistral");
    assert_eq!(cfg.llm_model, "m:1");
    let same = GatewayConfig::default().with_arguments(&Some("x".into()), &None, &None);
    assert_eq!(same.bind_addr.text(), "0.0.0.0:8080");
    assert_eq!(same.llm_provider, "groq");
}

#[test]
fn providers_by_name() {
    assert_eq!(LlmProvider::from_name("openai"), LlmProvider::OpenAi);
    assert_eq!(LlmProvider::from_name("anthropic"), LlmProvider::Anthropic);
    assert_eq!(LlmProvider::from_name("ollama"), LlmProvider::Ollama);
    assert_eq!(LlmProvider::from_name("groq"), LlmProvider::Groq);
    assert_eq!(LlmProvider::from_name("gemini"), LlmProvider::Gemini);
    assert_eq!(LlmProvider::from_name("together"), LlmProvider::Together);
    assert_eq!(LlmProvider::from_name("fireworks"), LlmProvider::Fireworks);
    assert_eq!(LlmProvider::from_name("mistral"), LlmProvider::Mistral);
    assert_eq!(LlmProvider::from_name("other"), LlmProvider::Custom);
}
