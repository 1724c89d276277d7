use pageweave::error::AppError;
use pageweave::provider::commands::{
    apply_provider_update, create_provider_record, export_bundle, list_provider_presets,
};
use pageweave::provider::connectivity::{
    connection_plan, connection_reply, connection_result, connection_step, extract_error_message,
    first_connection_step, first_models_step, model_fetch_result, model_ids, models_plan,
    models_reply, models_step, probe_body, probe_urls, resolve_probe_key, response_failure_message,
    ProbeReply, ProbeStep,
};
use pageweave::provider::model::{ConnectivityRequest, ProviderCategory, ProviderPayload};
use pageweave::provider::presets::presets;

fn payload(key: &str) -> ProviderPayload {
    ProviderPayload {
        name: "My OpenAI".into(),
        category: ProviderCategory::Openai,
        base_url: "https://api.openai.com/v1".into(),
        api_key: key.into(),
        models: vec!["gpt-4o-mini".into()],
        default_model: "gpt-4o-mini".into(),
        is_enabled: true,
        notes: "n".into(),
        extra: serde_json::Value::Null,
    }
}

#[test]
fn presets_cover_every_category() {
    let all = presets();
    assert_eq!(all.len(), 8);
    assert_eq!(all[0].label, "OpenAI");
    assert_eq!(all[0].base_url, "https://api.openai.com/v1");
    assert_eq!(all[0].models, &["gpt-4o-mini", "gpt-4o", "gpt-4.1-mini"]);
    assert_eq!(all[7].category, ProviderCategory::Custom);
    assert_eq!(all[7].base_url, "");
    assert!(all[6].models.is_empty());
    let views = list_provider_presets();
    assert_eq!(views.len(), 8);
    assert_eq!(views[3].label, "阿里云百炼 (Qwen)");
    assert_eq!(views[3].models, vec!["qwen-plus".to_string(), "qwen-turbo".into(), "qwen-max".into()]);
    assert_eq!(ProviderCategory::Siliconflow.as_str(), "siliconflow");
    assert_eq!(ProviderCategory::Custom.as_str(), "custom");
}

#[test]
fn created_records_keep_the_key_apart() {
    let (rec, secret) = create_provider_record(payload("sk-secret"), 3);
    assert!(rec.id.starts_with("prov_"));
    assert_eq!(rec.id.len(), 37);
    assert!(rec.id[5..].chars().all(|c| c.is_ascii_digit() || ('a'..='f').contains(&c)));
    assert!(rec.created_at.contains('T'));
    assert!(rec.api_key_id.starts_with("key_"));
    assert_eq!(rec.api_key_id.len(), 36);
    assert!(rec.has_api_key);
    assert_eq!(secret.as_deref(), Some("sk-secret"));
    assert_eq!(rec.sort_index, 3);
    assert!(!rec.is_applied);
    assert_eq!(rec.created_at, rec.updated_at);

    let (rec, secret) = create_provider_record(payload(""), 0);
    assert_eq!(rec.api_key_id, "");
    assert!(!rec.has_api_key);
    assert!(secret.is_none());
}

#[test]
fn updates_keep_or_replace_the_key() {
    let (rec, _) = create_provider_record(payload("sk-1"), 1);
    let handle = rec.api_key_id.clone();
    let id = rec.id.clone();
    let mut p = payload("");
    p.name = "Renamed".into();
    let (upd, secret) = apply_provider_update(rec, p);
    assert_eq!(upd.name, "Renamed");
    assert_eq!(upd.api_key_id, handle);
    assert!(secret.is_none());
    assert_eq!(upd.id, id);
    assert_eq!(upd.sort_index, 1);

    let (upd, secret) = apply_provider_update(upd, payload("sk-2"));
    assert_eq!(secret, Some((handle.clone(), "sk-2".to_string())));
    assert_eq!(upd.api_key_id, handle);
    assert_eq!(upd.name, "My OpenAI");

    let (bare, _) = create_provider_record(payload(""), 1);
    let (upd, secret) = apply_provider_update(bare, payload("sk-3"));
    assert!(upd.has_api_key);
    assert!(upd.api_key_id.starts_with("key_"));
    assert_eq!(secret.map(|s| s.1), Some("sk-3".to_string()));
}

#[test]
fn export_carries_no_key() {
    let (a, _) = create_provider_record(payload("sk-a"), 0);
    let (b, _) = create_provider_record(payload(""), 1);
    let a_id = a.id.clone();
    let bundle = export_bundle(vec![a, b]);
    assert_eq!(bundle.version, 1);
    assert_eq!(bundle.providers.len(), 2);
    assert_eq!(bundle.providers[0].id, a_id);
    assert!(bundle.providers[0].has_api_key);
    assert!(!bundle.providers[1].has_api_key);
    assert_eq!(bundle.providers[1].sort_index, 1);
}

fn conn(key_id: &str, typed: Option<&str>, model: Option<&str>) -> ConnectivityRequest {
    ConnectivityRequest {
        api_key_id: key_id.into(),
        base_url: "https://gw.example/v1//".into(),
        model: model.map(|m| m.to_string()),
        api_key: typed.map(|k| k.to_string()),
    }
}

#[test]
fn probe_key_choice() {
    assert_eq!(resolve_probe_key(&conn("", Some("  sk-typed "), None), None).unwrap(), "sk-typed");
    assert_eq!(
        resolve_probe_key(&conn("key_1", Some("   "), None), Some("sk-stored".into())).unwrap(),
        "sk-stored"
    );
    match resolve_probe_key(&conn(" ", None, None), Some("sk-stored".into())) {
        Err(AppError::InvalidInput(m)) => assert_eq!(m, "API key is missing"),
        other => panic!("unexpected {:?}", other),
    }
    match resolve_probe_key(&conn("key_1", None, None), None) {
        Err(AppError::InvalidInput(m)) => assert_eq!(m, "API key is missing"),
        other => panic!("unexpected {:?}", other),
    }
}

#[test]
fn probe_urls_try_v1_only_when_missing() {
    assert_eq!(
        probe_urls("https://gw.example/v1//", "models"),
        vec!["https://gw.example/v1/models".to_string()]
    );
    assert_eq!(
        probe_urls("https://gw.example/", "chat/completions"),
        vec![
            "https://gw.example/chat/completions".to_string(),
            "https://gw.example/v1/chat/completions".into()
        ]
    );
}

#[test]
fn plans_check_key_then_model() {
    let plan = connection_plan(&conn("", Some("sk"), Some("m")), None).unwrap();
    assert_eq!(plan.key, "sk");
    assert_eq!(plan.model.as_deref(), Some("m"));
    assert_eq!(plan.urls, vec!["https://gw.example/v1/chat/completions".to_string()]);
    match connection_plan(&conn("", Some("sk"), None), None) {
        Err(AppError::InvalidInput(m)) => assert_eq!(m, "model is required for connection test"),
        other => panic!("unexpected {:?}", other),
    }
    match connection_plan(&conn("", None, None), None) {
        Err(AppError::InvalidInput(m)) => assert_eq!(m, "API key is missing"),
        other => panic!("unexpected {:?}", other),
    }
    let plan = models_plan(&conn("k", None, None), Some("sk-s".into())).unwrap();
    assert_eq!(plan.urls, vec!["https://gw.example/v1/models".to_string()]);
    assert!(plan.model.is_none());
}

#[test]
fn error_bodies() {
    assert_eq!(
        extract_error_message(r#"{"error":{"message":"bad key","type":"auth"}}"#).as_deref(),
        Some("bad key")
    );
    assert_eq!(extract_error_message(r#"{"message":"quota"}"#).as_deref(), Some("quota"));
    assert_eq!(
        extract_error_message(r#"{"error":{"message":"inner"},"message":"outer"}"#).as_deref(),
        Some("inner")
    );
    assert_eq!(extract_error_message(r#"{"error":"plain"}"#), None);
    assert_eq!(extract_error_message("<html>502</html>"), None);
    assert_eq!(response_failure_message("<html>502</html>".into()), "<html>502</html>");
    assert_eq!(response_failure_message(r#"{"message":"quota"}"#.into()), "quota");
}

#[test]
fn connection_replies() {
    let ok = connection_reply(ProbeReply::Response { status_ok: true, body: "{}".into() }, 120).unwrap();
    assert!(ok.ok);
    assert_eq!(ok.latency_ms, Some(120));
    assert_eq!(ok.message, "连接成功");
    let keep = connection_reply(
        ProbeReply::Response { status_ok: false, body: r#"{"error":{"message":"nope"}}"#.into() },
        5,
    );
    assert_eq!(keep.unwrap_err(), "nope");
    assert_eq!(connection_reply(ProbeReply::Failed("timeout".into()), 5).unwrap_err(), "timeout");
    let fail = connection_result(None, String::new());
    assert!(!fail.ok);
    assert_eq!(fail.message, "无法连接到服务");
    assert_eq!(connection_result(None, "nope".into()).message, "nope");
}

#[test]
fn model_replies() {
    let body = r#"{"data":[{"id":"gpt-4o"},{"object":"model"},{"id":7},{"id":"gpt-4o-mini"}]}"#;
    assert_eq!(model_ids(body), Some(vec!["gpt-4o".to_string(), "gpt-4o-mini".into()]));
    let r = models_reply(ProbeReply::Response { status_ok: true, body: body.into() }).unwrap();
    assert!(r.ok);
    assert_eq!(r.models, vec!["gpt-4o".to_string(), "gpt-4o-mini".into()]);
    assert_eq!(r.message, "");
    let empty = models_reply(ProbeReply::Response { status_ok: true, body: r#"{"data":[]}"#.into() });
    assert_eq!(empty.unwrap_err(), r#"{"data":[]}"#);
    let denied = models_reply(ProbeReply::Response {
        status_ok: false,
        body: r#"{"error":{"message":"denied"},"data":[{"id":"x"}]}"#.into(),
    });
    assert_eq!(denied.unwrap_err(), "denied");
    assert_eq!(model_ids("not json"), None);
    let none = model_fetch_result(None, String::new());
    assert!(!none.ok && none.models.is_empty());
    assert_eq!(none.message, "无法获取模型列表，请手动填写");
}

#[test]
fn connection_test_posts_a_one_token_ping() {
    let plan = connection_plan(&conn("", Some("sk"), Some("gpt-4o-mini")), None).unwrap();
    let body = plan.body.as_ref().unwrap();
    assert_eq!(body.model, "gpt-4o-mini");
    assert_eq!(body.role, "user");
    assert_eq!(body.content, "ping");
    assert_eq!(body.max_tokens, 1);
    assert!(!body.stream);
    assert_eq!(probe_body("m").model, "m");
    assert!(models_plan(&conn("", Some("sk"), None), None).unwrap().body.is_none());
}

#[test]
fn connection_steps_try_each_url_then_fail() {
    let plan = connection_plan(
        &ConnectivityRequest {
            api_key_id: "".into(),
            base_url: "https://gw.example".into(),
            model: Some("m".into()),
            api_key: Some("sk".into()),
        },
        None,
    )
    .unwrap();
    match first_connection_step(&plan) {
        ProbeStep::Send { url, last_msg } => {
            assert_eq!(url, "https://gw.example/chat/completions");
            assert_eq!(last_msg, "");
        }
        other => panic!("unexpected {:?}", other),
    }
    match connection_step(&plan, 1, ProbeReply::Failed("refused".into()), 3) {
        ProbeStep::Send { url, last_msg } => {
            assert_eq!(url, "https://gw.example/v1/chat/completions");
            assert_eq!(last_msg, "refused");
        }
        other => panic!("unexpected {:?}", other),
    }
    match connection_step(&plan, 2, ProbeReply::Response { status_ok: false, body: r#"{"message":"no"}"#.into() }, 9) {
        ProbeStep::Done(r) => {
            assert!(!r.ok);
            assert_eq!(r.message, "no");
        }
        other => panic!("unexpected {:?}", other),
    }
    match connection_step(&plan, 1, ProbeReply::Response { status_ok: true, body: "{}".into() }, 42) {
        ProbeStep::Done(r) => {
            assert!(r.ok);
            assert_eq!(r.latency_ms, Some(42));
        }
        other => panic!("unexpected {:?}", other),
    }
}

#[test]
fn model_steps_stop_at_the_first_listing() {
    let plan = models_plan(&conn("", Some("sk"), None), None).unwrap();
    match first_models_step(&plan) {
        ProbeStep::Send { url, .. } => assert_eq!(url, "https://gw.example/v1/models"),
        other => panic!("unexpected {:?}", other),
    }
    match models_step(&plan, 1, ProbeReply::Response { status_ok: true, body: r#"{"data":[{"id":"a"}]}"#.into() }) {
        ProbeStep::Done(r) => assert_eq!(r.models, vec!["a".to_string()]),
        other => panic!("unexpected {:?}", other),
    }
    match models_step(&plan, 1, ProbeReply::Failed("".into())) {
        ProbeStep::Done(r) => {
            assert!(!r.ok);
            assert_eq!(r.message, "无法获取模型列表，请手动填写");
        }
        other => panic!("unexpected {:?}", other),
    }
}
