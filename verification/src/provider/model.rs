//! Provider records, their categories and the connectivity request / results.
use vstd::prelude::*;

verus! {

/// `serde_json::Value`, carried through unread (the provider's free-form extra settings).
#[verifier::external_type_specification]
#[verifier::external_body]
pub struct ExJsonValue(serde_json::Value);

/// The category drives the default base URL and common models in the UI (see `presets`).
#[derive(Debug, Clone, Copy, PartialEq, Eq, Structural)]
pub enum ProviderCategory {
    Openai,
    Deepseek,
    Siliconflow,
    Qwen,
    Moonshot,
    Zhipu,
    Ollama,
    Custom,
}

/// The lower-case name of a category, as stored and sent to the front end.
pub open spec fn category_name(c: ProviderCategory) -> Seq<char> {
    match c {
        ProviderCategory::Openai => "openai"@,
        ProviderCategory::Deepseek => "deepseek"@,
        ProviderCategory::Siliconflow => "siliconflow"@,
        ProviderCategory::Qwen => "qwen"@,
        ProviderCategory::Moonshot => "moonshot"@,
        ProviderCategory::Zhipu => "zhipu"@,
        ProviderCategory::Ollama => "ollama"@,
        ProviderCategory::Custom => "custom"@,
    }
}

impl ProviderCategory {
    pub fn as_str(self) -> (r: &'static str)
        ensures
            r@ == category_name(self),
    {
        match self {
            ProviderCategory::Openai => "openai",
            ProviderCategory::Deepseek => "deepseek",
            ProviderCategory::Siliconflow => "siliconflow",
            ProviderCategory::Qwen => "qwen",
            ProviderCategory::Moonshot => "moonshot",
            ProviderCategory::Zhipu => "zhipu",
            ProviderCategory::Ollama => "ollama",
            ProviderCategory::Custom => "custom",
        }
    }
}

/// The full provider record stored in the `provider` table.
#[derive(Debug)]
pub struct ProviderRecord {
    pub id: String,
    pub name: String,
    pub category: ProviderCategory,
    pub base_url: String,
    /// Handle of the stored secret; empty when no key has been saved yet.
    pub api_key_id: String,
    /// True when a secret is stored, so the UI can show a "key set" badge without the key.
    pub has_api_key: bool,
    pub models: Vec<String>,
    pub default_model: String,
    pub is_enabled: bool,
    pub is_applied: bool,
    pub sort_index: i32,
    pub notes: String,
    pub extra: serde_json::Value,
    pub created_at: String,
    pub updated_at: String,
}

/// Payload for create / update. The library owns id, `has_api_key` and the time stamps.
#[derive(Debug)]
pub struct ProviderPayload {
    pub name: String,
    pub category: ProviderCategory,
    pub base_url: String,
    /// Empty = leave the stored key untouched; otherwise the key to store.
    pub api_key: String,
    pub models: Vec<String>,
    pub default_model: String,
    pub is_enabled: bool,
    pub notes: String,
    pub extra: serde_json::Value,
}

/// What a connection test or a model listing needs: the base URL, the stored key's handle,
/// or a key typed in but not yet saved.
#[derive(Debug, Clone)]
pub struct ConnectivityRequest {
    pub api_key_id: String,
    pub base_url: String,
    /// Required for a connection test, unused for a model listing.
    pub model: Option<String>,
    /// A key typed in the form; it takes precedence over the stored one.
    pub api_key: Option<String>,
}

#[derive(Debug, Clone)]
pub struct ConnectionTestResult {
    pub ok: bool,
    pub message: String,
    pub latency_ms: Option<u64>,
}

#[derive(Debug, Clone)]
pub struct ModelFetchResult {
    pub ok: bool,
    pub models: Vec<String>,
    pub message: String,
}

} // verus!
