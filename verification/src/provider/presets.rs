//! Built-in OpenAI-compatible presets.
use vstd::prelude::*;

use crate::provider::model::ProviderCategory;

verus! {

/// A built-in provider: category, label, base URL and common models.
pub struct Preset {
    pub category: ProviderCategory,
    pub label: &'static str,
    pub base_url: &'static str,
    pub models: &'static [&'static str],
}

/// A preset as plain values.
pub type PresetSpec = (ProviderCategory, Seq<char>, Seq<char>, Seq<Seq<char>>);

pub open spec fn preset_view(p: Preset) -> PresetSpec {
    (p.category, p.label@, p.base_url@, p.models@.map_values(|m: &str| m@))
}

/// The built-in presets, in the order the UI lists them.
pub open spec fn preset_table() -> Seq<PresetSpec> {
    seq![
        (
            ProviderCategory::Openai,
            "OpenAI"@,
            "https://api.openai.com/v1"@,
            seq!["gpt-4o-mini"@, "gpt-4o"@, "gpt-4.1-mini"@],
        ),
        (
            ProviderCategory::Deepseek,
            "DeepSeek"@,
            "https://api.deepseek.com/v1"@,
            seq!["deepseek-chat"@, "deepseek-reasoner"@],
        ),
        (
            ProviderCategory::Siliconflow,
            "硅基流动 (SiliconFlow)"@,
            "https://api.siliconflow.cn/v1"@,
            seq!["Qwen/Qwen2.5-7B-Instruct"@, "deepseek-ai/DeepSeek-V3"@],
        ),
        (
            ProviderCategory::Qwen,
            "阿里云百炼 (Qwen)"@,
            "https://dashscope.aliyuncs.com/compatible-mode/v1"@,
            seq!["qwen-plus"@, "qwen-turbo"@, "qwen-max"@],
        ),
        (
            ProviderCategory::Moonshot,
            "Moonshot (Kimi)"@,
            "https://api.moonshot.cn/v1"@,
            seq!["moonshot-v1-8k"@, "moonshot-v1-32k"@],
        ),
        (
            ProviderCategory::Zhipu,
            "智谱 (GLM)"@,
            "https://open.bigmodel.cn/api/paas/v4"@,
            seq!["glm-4-flash"@, "glm-4"@, "glm-4-air"@],
        ),
        (
            ProviderCategory::Ollama,
            "Ollama / LM Studio (本地)"@,
            "http://localhost:11434/v1"@,
            seq![],
        ),
        (ProviderCategory::Custom, "自定义"@, ""@, seq![]),
    ]
}

/// Built-in OpenAI-compatible presets. The user can still edit base URL and models per
/// provider.
pub fn presets() -> (r: Vec<Preset>)
    ensures
        r@.map_values(|p: Preset| preset_view(p)) == preset_table(),
{
    let v = vec![
        Preset {
            category: ProviderCategory::Openai,
            label: "OpenAI",
            base_url: "https://api.openai.com/v1",
            models: &["gpt-4o-mini", "gpt-4o", "gpt-4.1-mini"],
        },
        Preset {
            category: ProviderCategory::Deepseek,
            label: "DeepSeek",
            base_url: "https://api.deepseek.com/v1",
            models: &["deepseek-chat", "deepseek-reasoner"],
        },
        Preset {
            category: ProviderCategory::Siliconflow,
            label: "硅基流动 (SiliconFlow)",
            base_url: "https://api.siliconflow.cn/v1",
            models: &["Qwen/Qwen2.5-7B-Instruct", "deepseek-ai/DeepSeek-V3"],
        },
        Preset {
            category: ProviderCategory::Qwen,
            label: "阿里云百炼 (Qwen)",
            base_url: "https://dashscope.aliyuncs.com/compatible-mode/v1",
            models: &["qwen-plus", "qwen-turbo", "qwen-max"],
        },
        Preset {
            category: ProviderCategory::Moonshot,
            label: "Moonshot (Kimi)",
            base_url: "https://api.moonshot.cn/v1",
            models: &["moonshot-v1-8k", "moonshot-v1-32k"],
        },
        Preset {
            category: ProviderCategory::Zhipu,
            label: "智谱 (GLM)",
            base_url: "https://open.bigmodel.cn/api/paas/v4",
            models: &["glm-4-flash", "glm-4", "glm-4-air"],
        },
        Preset {
            category: ProviderCategory::Ollama,
            label: "Ollama / LM Studio (本地)",
            base_url: "http://localhost:11434/v1",
            models: &[],
        },
        Preset { category: ProviderCategory::Custom, label: "自定义", base_url: "", models: &[] },
    ];
    proof {
        let t = preset_table();
        assert(v@[0].models@.map_values(|m: &str| m@) =~= t[0].3);
        assert(v@[1].models@.map_values(|m: &str| m@) =~= t[1].3);
        assert(v@[2].models@.map_values(|m: &str| m@) =~= t[2].3);
        assert(v@[3].models@.map_values(|m: &str| m@) =~= t[3].3);
        assert(v@[4].models@.map_values(|m: &str| m@) =~= t[4].3);
        assert(v@[5].models@.map_values(|m: &str| m@) =~= t[5].3);
        assert(v@[6].models@.map_values(|m: &str| m@) =~= t[6].3);
        assert(v@[7].models@.map_values(|m: &str| m@) =~= t[7].3);
    }
    assert(v@.map_values(|p: Preset| preset_view(p)) =~= preset_table());
    v
}

} // verus!
