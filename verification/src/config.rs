//! Gateway configuration.

use vstd::prelude::*;

use crate::text::{
    clone_opt, cut, cut_at, dec, first_index, has_char, lemma_cut_join, lemma_first_index, lemma_parse_dec,
    opt_view, parse_u64, parse_unsigned, str_eq, u64_text,
};

verus! {

/// The address that the gateway listens on.
#[derive(Debug, Clone)]
pub struct BindAddr {
    pub host: String,
    pub port: u16,
}

impl BindAddr {
    /// The port.
    pub fn port(&self) -> (r: u16)
        ensures
            r == self.port,
    {
        self.port
    }

    /// The address in the form `host:port`.
    pub fn text(&self) -> (r: String)
        ensures
            r@ == self.host@ + ":"@ + dec(self.port as nat),
    {
        self.host.clone().concat(":").concat(u64_text(self.port as u64).as_str())
    }
}

/// Configuration of the gateway.
#[derive(Debug, Clone)]
pub struct GatewayConfig {
    pub bind_addr: BindAddr,
    pub db_path: String,
    pub llm_provider: String,
    pub llm_model: String,
    pub api_key: Option<String>,
    pub max_tokens: usize,
    pub cors_enabled: bool,
}

/// The environment variables that configure the gateway.
#[derive(Debug, Clone)]
pub struct Environment {
    /// `PORT`
    pub port: Option<String>,
    /// `ULGATE_DB`
    pub db: Option<String>,
    /// `LLM_PROVIDER`
    pub llm_provider: Option<String>,
    /// `LLM_MODEL`
    pub llm_model: Option<String>,
    /// `LLM_API_KEY`, `GROQ_API_KEY`, `OPENAI_API_KEY`, `ANTHROPIC_API_KEY` and
    /// `GEMINI_API_KEY`, in this order.
    pub api_keys: Vec<Option<String>>,
}

/// The configuration in force where nothing is configured.
pub open spec fn is_default(c: GatewayConfig) -> bool {
    &&& c.bind_addr.host@ == "0.0.0.0"@
    &&& c.bind_addr.port == 8080
    &&& c.db_path@ == "./data"@
    &&& c.llm_provider@ == "groq"@
    &&& c.llm_model@ == "llama-3.3-70b-versatile"@
    &&& c.api_key is None
    &&& c.max_tokens == 4096
    &&& c.cors_enabled
}

impl Default for GatewayConfig {
    fn default() -> (r: GatewayConfig)
        ensures
            is_default(r),
    {
        GatewayConfig::standard()
    }
}

/// The port that a text denotes, else `otherwise`.
pub open spec fn port_or(text: Option<Seq<char>>, otherwise: u16) -> u16 {
    match text {
        Some(s) => match parse_unsigned(s, 65535) {
            Some(n) => n as u16,
            None => otherwise,
        },
        None => otherwise,
    }
}

/// The text, else `otherwise`.
pub open spec fn text_or(text: Option<Seq<char>>, otherwise: Seq<char>) -> Seq<char> {
    match text {
        Some(s) => s,
        None => otherwise,
    }
}

/// The first text there is.
pub open spec fn first_some(v: Seq<Option<String>>) -> Option<Seq<char>>
    decreases v.len(),
{
    if v.len() == 0 {
        None
    } else if v[0] is Some {
        opt_view(v[0])
    } else {
        first_some(v.skip(1))
    }
}

/// The provider and the model that a text names: `provider:model`, or a model of groq.
pub open spec fn llm_spec(s: Seq<char>) -> (Seq<char>, Seq<char>) {
    match cut(s, ':') {
        Some((p, m)) => (p, m),
        None => ("groq"@, s),
    }
}

/// The port that a text denotes, else `otherwise`.
fn port_of(text: &Option<String>, otherwise: u16) -> (r: u16)
    ensures
        r == port_or(opt_view(*text), otherwise),
{
    match text {
        Some(s) => match parse_u64(s.as_str(), 65535) {
            Some(n) => n as u16,
            None => otherwise,
        },
        None => otherwise,
    }
}

/// A copy of the text, else `otherwise`.
fn text_of(text: &Option<String>, otherwise: String) -> (r: String)
    ensures
        r@ == text_or(opt_view(*text), otherwise@),
{
    match text {
        Some(s) => s.clone(),
        None => otherwise,
    }
}

impl GatewayConfig {
    fn standard() -> (r: GatewayConfig)
        ensures
            is_default(r),
    {
        GatewayConfig {
            bind_addr: BindAddr { host: "0.0.0.0".to_owned(), port: 8080 },
            db_path: "./data".to_owned(),
            llm_provider: "groq".to_owned(),
            llm_model: "llama-3.3-70b-versatile".to_owned(),
            api_key: None,
            max_tokens: 4096,
            cors_enabled: true,
        }
    }

    /// The configuration that the environment calls for. A port that is no number is passed over.
    pub fn from_env(env: &Environment) -> (r: GatewayConfig)
        ensures
            r.bind_addr.host@ == "0.0.0.0"@,
            r.bind_addr.port == port_or(opt_view(env.port), 8080),
            r.db_path@ == text_or(opt_view(env.db), "./data"@),
            r.llm_provider@ == text_or(opt_view(env.llm_provider), "groq"@),
            r.llm_model@ == text_or(opt_view(env.llm_model), "llama-3.3-70b-versatile"@),
            opt_view(r.api_key) == first_some(env.api_keys@),
            r.max_tokens == 4096,
            r.cors_enabled,
    {
        let base = GatewayConfig::standard();
        let mut key: Option<String> = None;
        let mut i: usize = 0;
        assert(env.api_keys@.skip(0) =~= env.api_keys@);
        while i < env.api_keys.len() && key.is_none()
            invariant
                i <= env.api_keys@.len(),
                key is None ==> first_some(env.api_keys@) == first_some(
                    env.api_keys@.skip(i as int),
                ),
                key is Some ==> first_some(env.api_keys@) == opt_view(key),
            decreases env.api_keys@.len() - i,
        {
            assert(env.api_keys@.skip(i as int).skip(1) =~= env.api_keys@.skip(i + 1));
            assert(env.api_keys@.skip(i as int)[0] == env.api_keys@[i as int]);
            key = clone_opt(&env.api_keys[i]);
            i = i + 1;
        }
        GatewayConfig {
            bind_addr: BindAddr {
                host: base.bind_addr.host,
                port: port_of(&env.port, base.bind_addr.port),
            },
            db_path: text_of(&env.db, base.db_path),
            llm_provider: text_of(&env.llm_provider, base.llm_provider),
            llm_model: text_of(&env.llm_model, base.llm_model),
            api_key: key,
            max_tokens: base.max_tokens,
            cors_enabled: base.cors_enabled,
        }
    }

    /// The same configuration with what the command line sets: port, database and model.
    pub fn with_arguments(
        self,
        port: &Option<String>,
        db_path: &Option<String>,
        spec_text: &Option<String>,
    ) -> (r: GatewayConfig)
        ensures
            opt_view(*port) is Some && parse_unsigned(opt_view(*port).unwrap(), 65535) is Some
                ==> r.bind_addr.host@ == "0.0.0.0"@,
            !(opt_view(*port) is Some && parse_unsigned(opt_view(*port).unwrap(), 65535) is Some)
                ==> r.bind_addr.host == self.bind_addr.host,
            r.bind_addr.port == port_or(opt_view(*port), self.bind_addr.port),
            r.db_path@ == text_or(opt_view(*db_path), self.db_path@),
            match opt_view(*spec_text) {
                Some(s) => (r.llm_provider@, r.llm_model@) == llm_spec(s),
                None => r.llm_provider == self.llm_provider && r.llm_model == self.llm_model,
            },
            r.api_key == self.api_key,
            r.max_tokens == self.max_tokens,
            r.cors_enabled == self.cors_enabled,
    {
        let bind_addr = match port {
            Some(s) => match parse_u64(s.as_str(), 65535) {
                Some(n) => BindAddr { host: "0.0.0.0".to_owned(), port: n as u16 },
                None => self.bind_addr,
            },
            None => self.bind_addr,
        };
        let (llm_provider, llm_model) = match spec_text {
            Some(s) => GatewayConfig::parse_llm_spec(s.as_str()),
            None => (self.llm_provider, self.llm_model),
        };
        GatewayConfig {
            bind_addr,
            db_path: text_of(db_path, self.db_path),
            llm_provider,
            llm_model,
            api_key: self.api_key,
            max_tokens: self.max_tokens,
            cors_enabled: self.cors_enabled,
        }
    }

    /// The provider and the model of a text such as `openai:gpt-4o`; without a colon, a model of
    /// groq.
    pub fn parse_llm_spec(spec_text: &str) -> (r: (String, String))
        ensures
            (r.0@, r.1@) == llm_spec(spec_text@),
    {
        match cut_at(spec_text, ':') {
            Some((p, m)) => (p.to_owned(), m.to_owned()),
            None => ("groq".to_owned(), spec_text.to_owned()),
        }
    }
}

/// A provider of language models.
#[derive(Debug, Clone, Copy, PartialEq, Eq, Structural)]
pub enum LlmProvider {
    OpenAi,
    Anthropic,
    Ollama,
    Groq,
    Gemini,
    Together,
    Fireworks,
    Mistral,
    /// Any other, known by its name alone.
    Custom,
}

/// The provider of a name.
pub open spec fn provider_named(name: Seq<char>) -> LlmProvider {
    if name == "openai"@ {
        LlmProvider::OpenAi
    } else if name == "anthropic"@ {
        LlmProvider::Anthropic
    } else if name == "ollama"@ {
        LlmProvider::Ollama
    } else if name == "groq"@ {
        LlmProvider::Groq
    } else if name == "gemini"@ {
        LlmProvider::Gemini
    } else if name == "together"@ {
        LlmProvider::Together
    } else if name == "fireworks"@ {
        LlmProvider::Fireworks
    } else if name == "mistral"@ {
        LlmProvider::Mistral
    } else {
        LlmProvider::Custom
    }
}

impl LlmProvider {
    /// The provider of a name.
    pub fn from_name(name: &str) -> (r: LlmProvider)
        ensures
            r == provider_named(name@),
    {
        if str_eq(name, "openai") {
            LlmProvider::OpenAi
        } else if str_eq(name, "anthropic") {
            LlmProvider::Anthropic
        } else if str_eq(name, "ollama") {
            LlmProvider::Ollama
        } else if str_eq(name, "groq") {
            LlmProvider::Groq
        } else if str_eq(name, "gemini") {
            LlmProvider::Gemini
        } else if str_eq(name, "together") {
            LlmProvider::Together
        } else if str_eq(name, "fireworks") {
            LlmProvider::Fireworks
        } else if str_eq(name, "mistral") {
            LlmProvider::Mistral
        } else {
            LlmProvider::Custom
        }
    }
}

// ---------------------------------------------------------------------------
// Laws

/// A port is the number that is given, where it is one below 65536, and else the one before.
pub proof fn ports_are_as_given(n: u16, otherwise: u16, text: Seq<char>)
    ensures
        port_or(Some(dec(n as nat)), otherwise) == n,
        port_or(None, otherwise) == otherwise,
        parse_unsigned(text, 65535) is None ==> port_or(Some(text), otherwise) == otherwise,
{
    lemma_parse_dec(n as nat, 65535);
}

/// The key is the first that is set.
pub proof fn first_key_counts(v: Seq<Option<String>>, i: int)
    requires
        0 <= i < v.len(),
        v[i] is Some,
        forall|j: int| 0 <= j < i ==> (#[trigger] v[j]) is None,
    ensures
        first_some(v) == Some(v[i].unwrap()@),
    decreases v.len(),
{
    if i > 0 {
        assert(v[0] is None);
        let rest = v.skip(1);
        assert forall|j: int| 0 <= j < i - 1 implies (#[trigger] rest[j]) is None by {
            assert(v[j + 1] is None);
        }
        first_key_counts(rest, i - 1);
    }
}

/// Without any there is no key.
pub proof fn no_key_without_any(v: Seq<Option<String>>)
    requires
        forall|j: int| 0 <= j < v.len() ==> (#[trigger] v[j]) is None,
    ensures
        first_some(v) is None,
    decreases v.len(),
{
    if v.len() > 0 {
        assert(v[0] is None);
        let rest = v.skip(1);
        assert forall|j: int| 0 <= j < rest.len() implies (#[trigger] rest[j]) is None by {
            assert(v[j + 1] is None);
        }
        no_key_without_any(rest);
    }
}

/// A model is named after its provider and a colon; without one it is a model of groq.
pub proof fn models_follow_their_provider(provider: Seq<char>, model: Seq<char>)
    requires
        !has_char(provider, ':'),
    ensures
        llm_spec(provider + seq![':'] + model) == (provider, model),
        llm_spec(provider) == ("groq"@, provider),
{
    lemma_cut_join(provider, ':', model);
    lemma_first_index(provider, ':');
    let i = first_index(provider, ':');
    if i < provider.len() {
        assert(provider[i] == ':');
    }
}

/// The name of a provider that is known by it.
pub open spec fn name_of(p: LlmProvider) -> Option<Seq<char>> {
    match p {
        LlmProvider::OpenAi => Some("openai"@),
        LlmProvider::Anthropic => Some("anthropic"@),
        LlmProvider::Ollama => Some("ollama"@),
        LlmProvider::Groq => Some("groq"@),
        LlmProvider::Gemini => Some("gemini"@),
        LlmProvider::Together => Some("together"@),
        LlmProvider::Fireworks => Some("fireworks"@),
        LlmProvider::Mistral => Some("mistral"@),
        LlmProvider::Custom => None,
    }
}

/// Every provider is known by its own name.
pub proof fn providers_are_known_by_name(name: Seq<char>, p: LlmProvider)
    ensures
        name_of(provider_named(name)) matches Some(n) ==> n == name,
        name_of(p) matches Some(n) ==> provider_named(n) == p,
{
    reveal_strlit("openai");
    reveal_strlit("anthropic");
    reveal_strlit("ollama");
    reveal_strlit("groq");
    reveal_strlit("gemini");
    reveal_strlit("together");
    reveal_strlit("fireworks");
    reveal_strlit("mistral");
    assert("openai"@.len() == 6 && "ollama"@.len() == 6 && "gemini"@.len() == 6);
    assert("openai"@[1] == 'p' && "ollama"@[1] == 'l' && "gemini"@[1] == 'e');
    assert("anthropic"@.len() == 9 && "fireworks"@.len() == 9 && "groq"@.len() == 4);
    assert("anthropic"@[0] == 'a' && "fireworks"@[0] == 'f');
    assert("together"@.len() == 8 && "mistral"@.len() == 7);
}

} // verus!
