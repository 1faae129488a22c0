//! Application configuration: the AI providers and which of them is
//! active.  Reading and writing the configuration file is the
//! caller's business; the defaults, the file location and the lookup
//! of the active provider are defined here.

use vstd::prelude::*;

verus! {

/// One AI provider: how to reach it and which model to ask for.
#[derive(Debug, Clone)]
pub struct ProviderConfig {
    pub name: String,
    pub api_key: Option<String>,
    pub base_url: String,
    pub active_model: String,
    pub system_prompt: Option<String>,
}

/// The whole configuration: the provider roster and the active name.
#[derive(Debug, Clone)]
pub struct AppConfig {
    pub active_provider: String,
    pub providers: Vec<ProviderConfig>,
}

/// Relies on `dirs::config_dir`: the platform's per-user
/// configuration directory, when the platform defines one.  The
/// result depends on the environment, so nothing is assumed of it.
#[verifier::external_body]
fn user_config_dir() -> (r: Option<String>)
{
    dirs::config_dir().map(|p| p.to_string_lossy().to_string())
}

impl AppConfig {
    /// The directory holding this application's configuration: the
    /// per-user configuration directory — or the working directory
    /// when the platform names none — with `latex-rs` inside.
    pub fn config_dir() -> (r: String)
        ensures
            exists|base: Seq<char>| r@ == base + "/latex-rs"@,
    {
        let mut base = match user_config_dir() {
            Some(d) => d,
            None => String::from_str("."),
        };
        let ghost b = base@;
        base.append("/latex-rs");
        proof {
            assert(base@ == b + "/latex-rs"@);
        }
        base
    }

    /// The configuration file inside [`AppConfig::config_dir`].
    pub fn config_file() -> (r: String)
        ensures
            exists|base: Seq<char>| r@ == base + "/latex-rs/config.toml"@,
    {
        let mut path = Self::config_dir();
        let ghost p = path@;
        path.append("/config.toml");
        proof {
            reveal_strlit("/latex-rs");
            reveal_strlit("/config.toml");
            reveal_strlit("/latex-rs/config.toml");
            let base = choose|base: Seq<char>| p == base + "/latex-rs"@;
            assert(path@ =~= base + "/latex-rs/config.toml"@);
        }
        path
    }

    /// The first provider whose name is the active one, if any.
    pub fn get_active_provider(&self) -> (r: Option<&ProviderConfig>)
        ensures
            match r {
                Some(p) => exists|i: int|
                    {
                        &&& 0 <= i < self.providers@.len()
                        &&& *p == self.providers@[i]
                        &&& p.name@ == self.active_provider@
                        &&& forall|j: int|
                            0 <= j < i ==> (#[trigger] self.providers@[j].name@)
                                != self.active_provider@
                    },
                None => forall|j: int|
                    0 <= j < self.providers@.len() ==> (#[trigger] self.providers@[j].name@)
                        != self.active_provider@,
            },
    {
        let n = self.providers.len();
        let mut i: usize = 0;
        while i < n
            invariant
                i <= n,
                n == self.providers@.len(),
                forall|j: int|
                    0 <= j < i ==> (#[trigger] self.providers@[j].name@)
                        != self.active_provider@,
            decreases n - i,
        {
            if self.providers[i].name == self.active_provider {
                return Some(&self.providers[i]);
            }
            i = i + 1;
        }
        None
    }
}

impl Default for AppConfig {
    /// The shipped roster: a local Ollama as the active provider,
    /// and two well-known remote endpoints without keys.
    fn default() -> (r: AppConfig)
        ensures
            r.active_provider@ == "Ollama"@,
            r.providers@.len() == 3,
            r.providers@[0].name@ == "Ollama"@,
            r.providers@[0].api_key is None,
            r.providers@[0].base_url@ == "http://localhost:11434"@,
            r.providers@[0].active_model@ == "qwen2.5:0.5b"@,
            r.providers@[0].system_prompt is None,
            r.providers@[1].name@ == "DeepSeek"@,
            r.providers@[1].api_key is None,
            r.providers@[1].base_url@ == "https://api.deepseek.com/v1"@,
            r.providers@[1].active_model@ == "deepseek-reasoner"@,
            r.providers@[1].system_prompt is None,
            r.providers@[2].name@ == "OpenAI"@,
            r.providers@[2].api_key is None,
            r.providers@[2].base_url@ == "https://api.openai.com/v1"@,
            r.providers@[2].active_model@ == "gpt-4o"@,
            r.providers@[2].system_prompt is None,
    {
        let mut providers: Vec<ProviderConfig> = Vec::new();
        providers.push(
            ProviderConfig {
                name: String::from_str("Ollama"),
                api_key: None,
                base_url: String::from_str("http://localhost:11434"),
                active_model: String::from_str("qwen2.5:0.5b"),
                system_prompt: None,
            },
        );
        providers.push(
            ProviderConfig {
                name: String::from_str("DeepSeek"),
                api_key: None,
                base_url: String::from_str("https://api.deepseek.com/v1"),
                active_model: String::from_str("deepseek-reasoner"),
                system_prompt: None,
            },
        );
        providers.push(
            ProviderConfig {
                name: String::from_str("OpenAI"),
                api_key: None,
                base_url: String::from_str("https://api.openai.com/v1"),
                active_model: String::from_str("gpt-4o"),
                system_prompt: None,
            },
        );
        AppConfig { active_provider: String::from_str("Ollama"), providers }
    }
}

} // verus!
