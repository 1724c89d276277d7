//! The app settings and their defaults.
use vstd::prelude::*;

verus! {

/// The key the settings are stored under.
pub const SETTINGS_KEY: &'static str = "app_settings";

/// The user's settings.
#[derive(Debug, Clone)]
pub struct AppSettings {
    /// `light`, `dark` or `system`.
    pub theme: String,
    /// `zh` or `en`.
    pub language: String,
    pub default_output_dir: String,
    pub default_lang_in: String,
    pub default_lang_out: String,
    pub default_provider_id: String,
    pub log_retention_days: u32,
    pub cache_dir: String,
}

/// The theme when none is set: follow the system.
pub fn default_theme() -> (r: String)
    ensures
        r@ == "system"@,
{
    "system".to_string()
}

/// The interface language when none is set.
pub fn default_language() -> (r: String)
    ensures
        r@ == "zh"@,
{
    "zh".to_string()
}

/// The source language when none is set.
pub fn default_lang_in() -> (r: String)
    ensures
        r@ == "en"@,
{
    "en".to_string()
}

/// The target language when none is set.
pub fn default_lang_out() -> (r: String)
    ensures
        r@ == "zh"@,
{
    "zh".to_string()
}

/// How many days of logs are kept when nothing is set.
pub fn default_log_retention() -> (r: u32)
    ensures
        r == 7,
{
    7
}

/// The settings of a fresh installation.
pub open spec fn default_settings(s: AppSettings) -> bool {
    &&& s.theme@ == "system"@
    &&& s.language@ == "zh"@
    &&& s.default_output_dir@ == Seq::<char>::empty()
    &&& s.default_lang_in@ == "en"@
    &&& s.default_lang_out@ == "zh"@
    &&& s.default_provider_id@ == Seq::<char>::empty()
    &&& s.log_retention_days == 7
    &&& s.cache_dir@ == Seq::<char>::empty()
}

impl Default for AppSettings {
    fn default() -> (r: Self)
        ensures
            default_settings(r),
    {
        AppSettings {
            theme: default_theme(),
            language: default_language(),
            default_output_dir: String::new(),
            default_lang_in: default_lang_in(),
            default_lang_out: default_lang_out(),
            default_provider_id: String::new(),
            log_retention_days: default_log_retention(),
            cache_dir: String::new(),
        }
    }
}

} // verus!
