//! What the provider commands compute: the preset list, new and updated records, and the
//! export bundle (which never carries a key).
use vstd::prelude::*;

use crate::deps::now_rfc3339;
use crate::ids::{fresh_form, fresh_id, rfc3339_form};
use crate::order::texts;
use crate::provider::model::{ProviderCategory, ProviderPayload, ProviderRecord};
use crate::provider::presets::{preset_table, preset_view, presets, Preset, PresetSpec};

verus! {

/// A preset as the front end receives it.
#[derive(Debug, Clone)]
pub struct PresetView {
    pub category: ProviderCategory,
    pub label: String,
    pub base_url: String,
    pub models: Vec<String>,
}

pub open spec fn preset_view_of(p: PresetView) -> PresetSpec {
    (p.category, p.label@, p.base_url@, texts(p.models@))
}

fn owned_models(models: &[&'static str]) -> (r: Vec<String>)
    ensures
        texts(r@) == models@.map_values(|m: &str| m@),
{
    let mut r: Vec<String> = Vec::new();
    let mut i: usize = 0;
    while i < models.len()
        invariant
            i <= models.len(),
            texts(r@) == models@.map_values(|m: &str| m@).take(i as int),
        decreases models.len() - i,
    {
        let m: &str = models[i];
        assert(m == models@[i as int]);
        let s = m.to_owned();
        assert(s@ == m@);
        let ghost before = r@;
        r.push(s);
        assert(texts(r@) =~= texts(before).push(m@));
        assert(models@.map_values(|m: &str| m@).take(i + 1) =~= models@.map_values(|m: &str| m@).take(i as int).push(m@));
        i = i + 1;
        assert(texts(r@) =~= models@.map_values(|m: &str| m@).take(i as int));
    }
    assert(models@.map_values(|m: &str| m@).take(models.len() as int) =~= models@.map_values(
        |m: &str| m@,
    ));
    r
}

/// The built-in presets, as owned values for the front end.
pub fn list_provider_presets() -> (r: Vec<PresetView>)
    ensures
        r@.map_values(|p: PresetView| preset_view_of(p)) == preset_table(),
{
    let all: Vec<Preset> = presets();
    let mut r: Vec<PresetView> = Vec::new();
    let mut i: usize = 0;
    while i < all.len()
        invariant
            i <= all.len(),
            all@.map_values(|p: Preset| preset_view(p)) == preset_table(),
            r@.map_values(|p: PresetView| preset_view_of(p)) == preset_table().take(i as int),
        decreases all.len() - i,
    {
        let p = &all[i];
        let view = PresetView {
            category: p.category,
            label: p.label.to_owned(),
            base_url: p.base_url.to_owned(),
            models: owned_models(p.models),
        };
        let ghost before = r@;
        proof {
            assert(preset_table()[i as int] == preset_view(all@[i as int]));
            assert(preset_view_of(view) == preset_view(all@[i as int]));
        }
        r.push(view);
        assert(r@.map_values(|p: PresetView| preset_view_of(p)) =~= before.map_values(
            |p: PresetView| preset_view_of(p),
        ).push(preset_table()[i as int]));
        assert(preset_table().take(i + 1) =~= preset_table().take(i as int).push(
            preset_table()[i as int],
        ));
        i = i + 1;
        assert(r@.map_values(|p: PresetView| preset_view_of(p)) =~= preset_table().take(i as int));
    }
    assert(preset_table().take(all.len() as int) =~= preset_table());
    r
}

/// The record that a payload creates, with the given id, key handle, sort position and
/// time stamp.
pub open spec fn record_from_payload(
    r: ProviderRecord,
    p: ProviderPayload,
    id: Seq<char>,
    api_key_id: Seq<char>,
    sort_index: i32,
    now: Seq<char>,
) -> bool {
    &&& r.id@ == id
    &&& r.name == p.name
    &&& r.category == p.category
    &&& r.base_url == p.base_url
    &&& r.api_key_id@ == api_key_id
    &&& r.has_api_key == (api_key_id.len() > 0)
    &&& r.models == p.models
    &&& r.default_model == p.default_model
    &&& r.is_enabled == p.is_enabled
    &&& !r.is_applied
    &&& r.sort_index == sort_index
    &&& r.notes == p.notes
    &&& r.extra == p.extra
    &&& r.created_at@ == now
    &&& r.updated_at@ == now
}

/// A provider made from a payload is never the applied one, holds a key exactly when it
/// got a key handle, sits at the sort position it was given, was created and updated at the
/// same instant, and keeps every field the payload sets.
pub proof fn law_new_record_follows_payload(
    r: ProviderRecord,
    p: ProviderPayload,
    id: Seq<char>,
    api_key_id: Seq<char>,
    sort_index: i32,
    now: Seq<char>,
)
    requires
        record_from_payload(r, p, id, api_key_id, sort_index, now),
    ensures
        !r.is_applied,
        r.has_api_key <==> api_key_id.len() > 0,
        r.api_key_id@ == api_key_id,
        r.id@ == id,
        r.sort_index == sort_index,
        r.created_at@ == now && r.updated_at@ == now,
        r.name == p.name && r.category == p.category && r.base_url == p.base_url,
        r.models == p.models && r.default_model == p.default_model,
        r.is_enabled == p.is_enabled && r.notes == p.notes && r.extra == p.extra,
{
}

/// The record for a new provider: `prov_…` id, the key handle `api_key_id` (empty when
/// there is no key), not the default, at `sort_index`, created and updated at `now`.
pub fn provider_record_from(
    payload: ProviderPayload,
    id: String,
    api_key_id: String,
    sort_index: i32,
    now: String,
) -> (r: ProviderRecord)
    ensures
        record_from_payload(r, payload, id@, api_key_id@, sort_index, now@),
{
    let has_api_key = !api_key_id.as_str().is_empty();
    ProviderRecord {
        id,
        name: payload.name,
        category: payload.category,
        base_url: payload.base_url,
        has_api_key,
        api_key_id,
        models: payload.models,
        default_model: payload.default_model,
        is_enabled: payload.is_enabled,
        is_applied: false,
        sort_index,
        notes: payload.notes,
        extra: payload.extra,
        created_at: now.clone(),
        updated_at: now,
    }
}

/// Create a provider from a payload: a fresh `prov_` id, the current time, and, when the
/// payload carries a key, a fresh `key_` handle with the key to store under it.
pub fn create_provider_record(payload: ProviderPayload, sort_index: i32) -> (r: (
    ProviderRecord,
    Option<String>,
))
    ensures
        exists|id: Seq<char>, key_id: Seq<char>, now: Seq<char>|
            record_from_payload(r.0, payload, id, key_id, sort_index, now),
        fresh_form(r.0.id@, "prov_"@),
        payload.api_key@.len() == 0 ==> r.0.api_key_id@.len() == 0 && r.1 is None,
        payload.api_key@.len() > 0 ==> fresh_form(r.0.api_key_id@, "key_"@) && r.1 == Some(
            payload.api_key,
        ),
        r.0.created_at@ == r.0.updated_at@,
        rfc3339_form(r.0.created_at@),
{
    proof {
        reveal_strlit("prov_");
        reveal_strlit("key_");
    }
    let ghost p = payload;
    let id = fresh_id("prov_");
    let now = now_rfc3339();
    let ProviderPayload {
        name,
        category,
        base_url,
        api_key,
        models,
        default_model,
        is_enabled,
        notes,
        extra,
    } = payload;
    let (api_key_id, secret) = if api_key.as_str().is_empty() {
        (String::new(), None)
    } else {
        (fresh_id("key_"), Some(api_key))
    };
    let rest = ProviderPayload {
        name,
        category,
        base_url,
        api_key: String::new(),
        models,
        default_model,
        is_enabled,
        notes,
        extra,
    };
    let rec = provider_record_from(rest, id, api_key_id, sort_index, now);
    assert(record_from_payload(rec, p, rec.id@, rec.api_key_id@, sort_index, rec.created_at@));
    (rec, secret)
}

/// The record after an update: every editable field from the payload, a fresh update time;
/// a non-empty key is stored (under the existing handle, or a fresh `key_` one), an empty
/// key keeps the stored one. Returns the handle and key to store, when there is one.
pub fn apply_provider_update(rec: ProviderRecord, payload: ProviderPayload) -> (r: (
    ProviderRecord,
    Option<(String, String)>,
))
    ensures
        r.0.id == rec.id,
        r.0.name == payload.name,
        r.0.category == payload.category,
        r.0.base_url == payload.base_url,
        r.0.models == payload.models,
        r.0.default_model == payload.default_model,
        r.0.is_enabled == payload.is_enabled,
        r.0.notes == payload.notes,
        r.0.extra == payload.extra,
        r.0.is_applied == rec.is_applied,
        r.0.sort_index == rec.sort_index,
        r.0.created_at == rec.created_at,
        payload.api_key@.len() == 0 ==> r.1 is None && r.0.api_key_id == rec.api_key_id
            && r.0.has_api_key == rec.has_api_key,
        payload.api_key@.len() > 0 ==> r.0.has_api_key && (r.1 matches Some((k, s)) && k
            == r.0.api_key_id && s == payload.api_key) && (rec.api_key_id@.len() > 0
            ==> r.0.api_key_id == rec.api_key_id) && (rec.api_key_id@.len() == 0
            ==> fresh_form(r.0.api_key_id@, "key_"@)),
        rfc3339_form(r.0.updated_at@),
{
    proof {
        reveal_strlit("key_");
    }
    let mut out = rec;
    let ProviderPayload {
        name,
        category,
        base_url,
        api_key,
        models,
        default_model,
        is_enabled,
        notes,
        extra,
    } = payload;
    out.name = name;
    out.category = category;
    out.base_url = base_url;
    out.models = models;
    out.default_model = default_model;
    out.is_enabled = is_enabled;
    out.notes = notes;
    out.extra = extra;
    let mut secret: Option<(String, String)> = None;
    if !api_key.as_str().is_empty() {
        if out.api_key_id.as_str().is_empty() {
            out.api_key_id = fresh_id("key_");
        }
        secret = Some((out.api_key_id.clone(), api_key));
        out.has_api_key = true;
    }
    out.updated_at = now_rfc3339();
    (out, secret)
}

/// A provider in an import / export file: never the key, only whether one is stored.
#[derive(Debug, Clone)]
pub struct ProviderExport {
    pub id: String,
    pub name: String,
    pub category: ProviderCategory,
    pub base_url: String,
    pub has_api_key: bool,
    pub models: Vec<String>,
    pub default_model: String,
    pub is_enabled: bool,
    pub is_applied: bool,
    pub sort_index: i32,
    pub notes: String,
}

/// An export file.
#[derive(Debug, Clone)]
pub struct ExportBundle {
    pub version: u32,
    pub providers: Vec<ProviderExport>,
}

/// `e` is the export of record `r`.
pub open spec fn exported_as(r: ProviderRecord, e: ProviderExport) -> bool {
    &&& e.id == r.id
    &&& e.name == r.name
    &&& e.category == r.category
    &&& e.base_url == r.base_url
    &&& e.has_api_key == r.has_api_key
    &&& e.models == r.models
    &&& e.default_model == r.default_model
    &&& e.is_enabled == r.is_enabled
    &&& e.is_applied == r.is_applied
    &&& e.sort_index == r.sort_index
    &&& e.notes == r.notes
}

/// The export bundle (version 1) of the given records, in their order.
pub fn export_bundle(records: Vec<ProviderRecord>) -> (b: ExportBundle)
    ensures
        b.version == 1,
        b.providers@.len() == records@.len(),
        forall|i: int|
            0 <= i < records@.len() ==> exported_as(records@[i], #[trigger] b.providers@[i]),
{
    let ghost orig = records@;
    let mut out: Vec<ProviderExport> = Vec::new();
    for r in it: records
        invariant
            it.seq() == orig,
            out@.len() == it.index(),
            forall|i: int| 0 <= i < it.index() ==> exported_as(orig[i], #[trigger] out@[i]),
    {
        let ghost rv = r;
        out.push(
            ProviderExport {
                id: r.id,
                name: r.name,
                category: r.category,
                base_url: r.base_url,
                has_api_key: r.has_api_key,
                models: r.models,
                default_model: r.default_model,
                is_enabled: r.is_enabled,
                is_applied: r.is_applied,
                sort_index: r.sort_index,
                notes: r.notes,
            },
        );
    }
    ExportBundle { version: 1, providers: out }
}

} // verus!
