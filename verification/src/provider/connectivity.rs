//! The decisions of a connection test and a model listing: which key to use, which URLs to
//! try, what each reply means, and the result the front end receives. The HTTP requests
//! themselves are made by the application, one URL after the other.
use vstd::prelude::*;

use crate::deps::{json_error_fields, json_error_fields_of, json_model_ids, json_model_ids_of};
use crate::error::{AppError, AppResult, ErrorView};
use crate::order::texts;
use crate::provider::model::{ConnectionTestResult, ConnectivityRequest, ModelFetchResult};
use crate::text::{chars_of, has_suffix, opt_text, trim, trim_str, vec_ends_with};

verus! {

/// The key a probe uses: a key typed in (trimmed) first, else the stored key of a
/// non-blank handle; otherwise the key is missing.
pub open spec fn probe_key(
    typed: Option<Seq<char>>,
    api_key_id: Seq<char>,
    stored: Option<Seq<char>>,
) -> Result<Seq<char>, ErrorView> {
    match typed {
        Some(k) if trim(k).len() > 0 => Ok(trim(k)),
        _ => if trim(api_key_id).len() == 0 {
            Err(ErrorView::InvalidInput("API key is missing"@))
        } else {
            match stored {
                Some(s) => Ok(s),
                None => Err(ErrorView::InvalidInput("API key is missing"@)),
            }
        },
    }
}

/// An optional list of optional strings as plain values.
pub open spec fn opt_texts(v: Seq<Option<String>>) -> Seq<Option<Seq<char>>> {
    v.map_values(|o: Option<String>| crate::text::opt_text(o))
}

/// Choose the key for a connection test or a model listing.
pub fn resolve_probe_key(req: &ConnectivityRequest, stored_key: Option<String>) -> (r: AppResult<String>)
    ensures
        match r {
            Ok(k) => probe_key(opt_text(req.api_key), req.api_key_id@, opt_text(stored_key)) == Ok::<
                Seq<char>,
                ErrorView,
            >(k@),
            Err(e) => probe_key(opt_text(req.api_key), req.api_key_id@, opt_text(stored_key))
                == Err::<Seq<char>, ErrorView>(e@),
        },
{
    match &req.api_key {
        Some(k) => {
            let t = trim_str(k.as_str());
            if !t.as_str().is_empty() {
                return Ok(t);
            }
        },
        None => {},
    }
    if crate::text::is_blank(req.api_key_id.as_str()) {
        return Err(AppError::InvalidInput("API key is missing".to_string()));
    }
    match stored_key {
        Some(s) => Ok(s),
        None => Err(AppError::InvalidInput("API key is missing".to_string())),
    }
}

/// A key typed in the form wins: whenever it is not blank, the probe uses it, trimmed,
/// whatever the key handle and the stored key are. Only without one does the stored key
/// of a non-blank handle count, and with neither the key is missing.
pub proof fn law_typed_key_wins(
    typed: Option<Seq<char>>,
    api_key_id: Seq<char>,
    stored: Option<Seq<char>>,
)
    ensures
        typed matches Some(k) && trim(k).len() > 0 ==> probe_key(typed, api_key_id, stored)
            == Ok::<Seq<char>, ErrorView>(trim(typed->0)),
        !(typed matches Some(k) && trim(k).len() > 0) && trim(api_key_id).len() > 0
            && stored is Some ==> probe_key(typed, api_key_id, stored) == Ok::<
            Seq<char>,
            ErrorView,
        >(stored->0),
        !(typed matches Some(k) && trim(k).len() > 0) && (trim(api_key_id).len() == 0
            || stored is None) ==> probe_key(typed, api_key_id, stored) == Err::<
            Seq<char>,
            ErrorView,
        >(ErrorView::InvalidInput("API key is missing"@)),
{
}

/// A connection test needs a model.
pub fn require_model(req: &ConnectivityRequest) -> (r: AppResult<String>)
    ensures
        match r {
            Ok(m) => req.model matches Some(x) && m@ == x@,
            Err(e) => req.model is None && e@ == ErrorView::InvalidInput(
                "model is required for connection test"@,
            ),
        },
{
    match &req.model {
        Some(m) => Ok(m.clone()),
        None => Err(AppError::InvalidInput("model is required for connection test".to_string())),
    }
}

/// `s` without its trailing `/` characters (`trim_end_matches('/')`).
pub open spec fn trim_slashes(s: Seq<char>) -> Seq<char>
    decreases s.len(),
{
    if s.len() > 0 && s.last() == '/' {
        trim_slashes(s.drop_last())
    } else {
        s
    }
}

/// The URLs to try for `path` under `base`: `{base}/{path}`, then `{base}/v1/{path}` unless
/// the base already ends in `/v1` (gateways differ on whether the base includes it).
pub open spec fn probe_url_list(base: Seq<char>, path: Seq<char>) -> Seq<Seq<char>> {
    let b = trim_slashes(base);
    if has_suffix(b, "/v1"@) {
        seq![b + "/"@ + path]
    } else {
        seq![b + "/"@ + path, b + "/v1/"@ + path]
    }
}

proof fn lemma_trim_slashes(s: Seq<char>)
    ensures
        trim_slashes(s).len() <= s.len(),
        s.subrange(0, trim_slashes(s).len() as int) == trim_slashes(s),
        forall|i: int| trim_slashes(s).len() <= i < s.len() ==> s[i] == '/',
        trim_slashes(s).len() == 0 || trim_slashes(s).last() != '/',
    decreases s.len(),
{
    if s.len() > 0 && s.last() == '/' {
        lemma_trim_slashes(s.drop_last());
        let t = trim_slashes(s.drop_last());
        assert(s.subrange(0, t.len() as int) =~= s.drop_last().subrange(0, t.len() as int));
        assert forall|i: int| t.len() <= i < s.len() implies s[i] == '/' by {
            if i < s.len() - 1 {
                assert(s.drop_last()[i] == s[i]);
            }
        }
    } else {
        assert(s.subrange(0, s.len() as int) =~= s);
    }
}

/// The URLs a probe tries under `base`: the base without its trailing slashes (what was
/// dropped is only `/` characters) joined to `path`, and, unless that base ends in `/v1`,
/// then the same base with `/v1/` before `path`; never anything else.
pub proof fn law_probe_urls(base: Seq<char>, path: Seq<char>)
    ensures
        ({
            let b = trim_slashes(base);
            let urls = probe_url_list(base, path);
            &&& base.subrange(0, b.len() as int) == b
            &&& forall|i: int| b.len() <= i < base.len() ==> base[i] == '/'
            &&& b.len() == 0 || b.last() != '/'
            &&& urls.len() >= 1 && urls[0] == b + "/"@ + path
            &&& has_suffix(b, "/v1"@) ==> urls.len() == 1
            &&& !has_suffix(b, "/v1"@) ==> urls.len() == 2 && urls[1] == b + "/v1/"@ + path
        }),
{
    lemma_trim_slashes(base);
}

fn trim_slashes_str(s: &str) -> (r: String)
    ensures
        r@ == trim_slashes(s@),
{
    let v = chars_of(s);
    let mut end: usize = v.len();
    assert(v@.subrange(0, end as int) =~= s@);
    while end > 0 && v[end - 1] == '/'
        invariant
            end <= v.len(),
            v@ == s@,
            trim_slashes(s@) == trim_slashes(v@.subrange(0, end as int)),
        decreases end,
    {
        let ghost q = v@.subrange(0, end as int);
        assert(q.last() == v@[end - 1]);
        assert(q.drop_last() =~= v@.subrange(0, end - 1));
        end = end - 1;
    }
    let ghost q = v@.subrange(0, end as int);
    if end > 0 {
        assert(q.last() == v@[end - 1]);
    }
    s.substring_char(0, end).to_owned()
}

/// The URLs a probe tries, in order.
pub fn probe_urls(base_url: &str, path: &str) -> (r: Vec<String>)
    ensures
        r@.map_values(|u: String| u@) == probe_url_list(base_url@, path@),
{
    let base = trim_slashes_str(base_url);
    let mut first = base.clone();
    first.append("/");
    first.append(path);
    let mut urls: Vec<String> = Vec::new();
    urls.push(first);
    let bv = chars_of(base.as_str());
    if !vec_ends_with(&bv, &chars_of("/v1")) {
        let mut second = base.clone();
        second.append("/v1/");
        second.append(path);
        urls.push(second);
    }
    assert(urls@.map_values(|u: String| u@) =~= probe_url_list(base_url@, path@));
    urls
}

/// The message of an error body: OpenAI's `error.message` first, a top-level `message`
/// otherwise; nothing when the body is not JSON or has neither as a string.
pub open spec fn error_message_of(body: Seq<char>) -> Option<Seq<char>> {
    match json_error_fields_of(body) {
        Some(f) => match f.0 {
            Some(m) => Some(m),
            None => f.1,
        },
        None => None,
    }
}

/// The message of an error body.
pub fn extract_error_message(txt: &str) -> (r: Option<String>)
    ensures
        opt_text(r) == error_message_of(txt@),
{
    match json_error_fields(txt) {
        Some((nested, top)) => match nested {
            Some(m) => Some(m),
            None => top,
        },
        None => None,
    }
}

/// What an unsuccessful response leaves as the last message: its error message, or else
/// its whole body.
pub open spec fn failure_of(body: Seq<char>) -> Seq<char> {
    match error_message_of(body) {
        Some(m) => m,
        None => body,
    }
}

/// The message an unsuccessful response leaves: the nested `error.message` when the body
/// has one, else a top-level `message`, else the whole body.
pub proof fn law_failure_message_prefers_nested_error(body: Seq<char>)
    ensures
        match json_error_fields_of(body) {
            Some((Some(m), _)) => failure_of(body) == m,
            Some((None, Some(t))) => failure_of(body) == t,
            _ => failure_of(body) == body,
        },
{
}

/// What an unsuccessful response leaves as the last message.
pub fn response_failure_message(body: String) -> (r: String)
    ensures
        r@ == failure_of(body@),
{
    match extract_error_message(body.as_str()) {
        Some(m) => m,
        None => body,
    }
}

/// What one probe request gave: a response (whether its status is 2xx, and its body), or
/// the text of the error that kept it from completing.
#[derive(Debug)]
pub enum ProbeReply {
    Response { status_ok: bool, body: String },
    Failed(String),
}

/// The request body of a connection test: a one-token, non-streaming chat completion of the
/// single user message `ping`.
#[derive(Debug)]
pub struct ChatProbe {
    pub model: String,
    pub role: String,
    pub content: String,
    pub max_tokens: u32,
    pub stream: bool,
}

/// `b` is the connection-test body for `model`.
pub open spec fn chat_probe_for(b: ChatProbe, model: Seq<char>) -> bool {
    &&& b.model@ == model
    &&& b.role@ == "user"@
    &&& b.content@ == "ping"@
    &&& b.max_tokens == 1
    &&& !b.stream
}

/// The connection-test body for `model`.
pub fn probe_body(model: &str) -> (b: ChatProbe)
    ensures
        chat_probe_for(b, model@),
{
    ChatProbe {
        model: model.to_string(),
        role: "user".to_string(),
        content: "ping".to_string(),
        max_tokens: 1,
        stream: false,
    }
}

/// What a probe is made with: the bearer key, the model and the body to post (for a
/// connection test), and the URLs to try in order.
#[derive(Debug)]
pub struct ProbePlan {
    pub key: String,
    pub model: Option<String>,
    pub body: Option<ChatProbe>,
    pub urls: Vec<String>,
}

/// Prepare a connection test: the key (see `probe_key`), then the model, which it needs,
/// then the body to post (see `chat_probe_for`) and the `chat/completions` URLs.
pub fn connection_plan(req: &ConnectivityRequest, stored_key: Option<String>) -> (r: AppResult<ProbePlan>)
    ensures
        match probe_key(opt_text(req.api_key), req.api_key_id@, opt_text(stored_key)) {
            Err(v) => r matches Err(e) && e@ == v,
            Ok(k) => match req.model {
                None => r matches Err(e) && e@ == ErrorView::InvalidInput(
                    "model is required for connection test"@,
                ),
                Some(m) => r matches Ok(p) && p.key@ == k && opt_text(p.model) == Some(m@)
                    && (p.body matches Some(b) && chat_probe_for(b, m@)) && p.urls@.map_values(|u: String| u@) == probe_url_list(
                    req.base_url@,
                    "chat/completions"@,
                ),
            },
        },
{
    let key = match resolve_probe_key(req, stored_key) {
        Ok(k) => k,
        Err(e) => {
            return Err(e);
        },
    };
    let model = match require_model(req) {
        Ok(m) => m,
        Err(e) => {
            return Err(e);
        },
    };
    let urls = probe_urls(req.base_url.as_str(), "chat/completions");
    let body = probe_body(model.as_str());
    Ok(ProbePlan { key, model: Some(model), body: Some(body), urls })
}

/// Prepare a model listing: the key (see `probe_key`), then the `models` URLs.
pub fn models_plan(req: &ConnectivityRequest, stored_key: Option<String>) -> (r: AppResult<ProbePlan>)
    ensures
        match probe_key(opt_text(req.api_key), req.api_key_id@, opt_text(stored_key)) {
            Err(v) => r matches Err(e) && e@ == v,
            Ok(k) => r matches Ok(p) && p.key@ == k && p.model is None && p.body is None
                && p.urls@.map_values(|u: String| u@) == probe_url_list(req.base_url@, "models"@),
        },
{
    let key = match resolve_probe_key(req, stored_key) {
        Ok(k) => k,
        Err(e) => {
            return Err(e);
        },
    };
    let urls = probe_urls(req.base_url.as_str(), "models");
    Ok(ProbePlan { key, model: None, body: None, urls })
}

/// What one reply means for a connection test: a 2xx response ends it successfully with
/// the time taken so far; otherwise the message to keep for the next URL.
pub fn connection_reply(reply: ProbeReply, elapsed_ms: u64) -> (r: Result<ConnectionTestResult, String>)
    ensures
        match reply {
            ProbeReply::Response { status_ok, body } => if status_ok {
                r matches Ok(x) && x.ok && x.latency_ms == Some(elapsed_ms) && x.message@
                    == "连接成功"@
            } else {
                r matches Err(m) && m@ == failure_of(body@)
            },
            ProbeReply::Failed(e) => r matches Err(m) && m@ == e@,
        },
{
    match reply {
        ProbeReply::Response { status_ok, body } => if status_ok {
            Ok(connection_result(Some(elapsed_ms), String::new()))
        } else {
            Err(response_failure_message(body))
        },
        ProbeReply::Failed(e) => Err(e),
    }
}

/// The values that are present, in order.
pub open spec fn present(s: Seq<Option<Seq<char>>>) -> Seq<Seq<char>>
    decreases s.len(),
{
    if s.len() == 0 {
        seq![]
    } else {
        present(s.drop_last()) + match s.last() {
            Some(x) => seq![x],
            None => seq![],
        }
    }
}

/// The model ids listed are exactly the string ids present in the `data` array, in their
/// order: each present id is listed, each listed id is present, and the ids of two parts of
/// the array are those of the first part followed by those of the second.
pub proof fn law_listed_ids_are_the_present_ones(
    s: Seq<Option<Seq<char>>>,
    a: Seq<Option<Seq<char>>>,
    b: Seq<Option<Seq<char>>>,
)
    ensures
        forall|i: int| 0 <= i < s.len() && (#[trigger] s[i]) is Some ==> present(s).contains(
            s[i]->0,
        ),
        forall|x: Seq<char>| #[trigger] present(s).contains(x) ==> exists|i: int|
            0 <= i < s.len() && #[trigger] s[i] == Some(x),
        present(a + b) == present(a) + present(b),
    decreases s.len() + b.len(),
{
    if b.len() > 0 {
        law_listed_ids_are_the_present_ones(s, a, b.drop_last());
        assert((a + b).drop_last() =~= a + b.drop_last());
        assert((a + b).last() == b.last());
        assert(present(a + b) =~= present(a) + present(b));
    } else {
        assert(a + b =~= a);
        assert(present(a) + present(b) =~= present(a));
    }
    if s.len() > 0 {
        let d = s.drop_last();
        law_listed_ids_are_the_present_ones(d, a, seq![]);
        let l = s.len() - 1;
        let p = present(s);
        assert(p == present(d) + match s.last() {
            Some(x) => seq![x],
            None => Seq::<Seq<char>>::empty(),
        });
        assert forall|i: int| 0 <= i < s.len() && (#[trigger] s[i]) is Some implies p.contains(
            s[i]->0,
        ) by {
            if i < l {
                assert(s[i] == d[i]);
                let k = choose|k: int| 0 <= k < present(d).len() && present(d)[k] == d[i]->0;
                assert(p[k] == d[i]->0);
            } else {
                assert(p[present(d).len() as int] == s[i]->0);
            }
        }
        assert forall|x: Seq<char>| #[trigger] p.contains(x) implies exists|i: int|
            0 <= i < s.len() && #[trigger] s[i] == Some(x) by {
            let k = choose|k: int| 0 <= k < p.len() && p[k] == x;
            if k < present(d).len() {
                assert(present(d)[k] == x);
                assert(present(d).contains(x));
                let i = choose|i: int| 0 <= i < d.len() && #[trigger] d[i] == Some(x);
                assert(s[i] == d[i]);
            } else {
                assert(s[l] == Some(x));
            }
        }
    }
}

/// The model ids of a `/models` body: the string `id` of each element of its `data` array;
/// nothing when the body is not JSON or has no such array.
pub open spec fn model_ids_of(body: Seq<char>) -> Option<Seq<Seq<char>>> {
    match json_model_ids_of(body) {
        Some(ids) => Some(present(ids)),
        None => None,
    }
}

/// The model ids found in a `/models` body.
pub fn model_ids(body: &str) -> (r: Option<Vec<String>>)
    ensures
        match r {
            Some(v) => model_ids_of(body@) == Some(texts(v@)),
            None => model_ids_of(body@) is None,
        },
{
    match json_model_ids(body) {
        None => None,
        Some(ids) => {
            let ghost all = opt_texts(ids@);
            let mut out: Vec<String> = Vec::new();
            let mut i: usize = 0;
            assert(texts(out@) =~= present(all.take(0)));
            while i < ids.len()
                invariant
                    i <= ids@.len(),
                    all == opt_texts(ids@),
                    texts(out@) == present(all.take(i as int)),
                decreases ids.len() - i,
            {
                let ghost before = texts(out@);
                match &ids[i] {
                    Some(x) => {
                        out.push(x.clone());
                    },
                    None => {},
                }
                proof {
                    assert(all.take(i + 1).drop_last() =~= all.take(i as int));
                    assert(all.take(i + 1).last() == crate::text::opt_text(ids@[i as int]));
                    assert(texts(out@) =~= before + match crate::text::opt_text(ids@[i as int]) {
                        Some(x) => seq![x],
                        None => Seq::<Seq<char>>::empty(),
                    });
                }
                i = i + 1;
            }
            assert(all.take(ids@.len() as int) =~= all);
            Some(out)
        },
    }
}

/// What one reply means for a model listing: a 2xx response with at least one model id
/// ends it with those models; any other response leaves its failure message, an error its
/// text.
pub fn models_reply(reply: ProbeReply) -> (r: Result<ModelFetchResult, String>)
    ensures
        match reply {
            ProbeReply::Response { status_ok, body } => if status_ok && (model_ids_of(body@) matches Some(
                ids,
            ) && ids.len() > 0) {
                r matches Ok(x) && x.ok && Some(texts(x.models@)) == model_ids_of(body@)
                    && x.message@.len() == 0
            } else {
                r matches Err(m) && m@ == failure_of(body@)
            },
            ProbeReply::Failed(e) => r matches Err(m) && m@ == e@,
        },
{
    match reply {
        ProbeReply::Response { status_ok, body } => {
            if status_ok {
                match model_ids(body.as_str()) {
                    Some(ids) => {
                        if ids.len() > 0 {
                            return Ok(
                                ModelFetchResult { ok: true, models: ids, message: String::new() },
                            );
                        }
                    },
                    None => {},
                }
            }
            Err(response_failure_message(body))
        },
        ProbeReply::Failed(e) => Err(e),
    }
}

/// The result of a connection test: success with its latency, or failure with the last
/// message (a generic one when there is none).
pub fn connection_result(latency_ms: Option<u64>, last_msg: String) -> (r: ConnectionTestResult)
    ensures
        r.ok == latency_ms is Some,
        r.latency_ms == latency_ms,
        latency_ms is Some ==> r.message@ == "连接成功"@,
        latency_ms is None && last_msg@.len() == 0 ==> r.message@ == "无法连接到服务"@,
        latency_ms is None && last_msg@.len() > 0 ==> r.message@ == last_msg@,
{
    match latency_ms {
        Some(l) => ConnectionTestResult {
            ok: true,
            message: "连接成功".to_string(),
            latency_ms: Some(l),
        },
        None => ConnectionTestResult {
            ok: false,
            message: if last_msg.as_str().is_empty() {
                "无法连接到服务".to_string()
            } else {
                last_msg
            },
            latency_ms: None,
        },
    }
}

/// The result of a model listing: the models found, or failure with the last message (a
/// generic one when there is none).
pub fn model_fetch_result(models: Option<Vec<String>>, last_msg: String) -> (r: ModelFetchResult)
    ensures
        r.ok == models is Some,
        models matches Some(m) ==> r.models == m && r.message@.len() == 0,
        models is None ==> r.models@.len() == 0,
        models is None && last_msg@.len() == 0 ==> r.message@ == "无法获取模型列表，请手动填写"@,
        models is None && last_msg@.len() > 0 ==> r.message@ == last_msg@,
{
    match models {
        Some(m) => ModelFetchResult { ok: true, models: m, message: String::new() },
        None => ModelFetchResult {
            ok: false,
            models: Vec::new(),
            message: if last_msg.as_str().is_empty() {
                "无法获取模型列表，请手动填写".to_string()
            } else {
                last_msg
            },
        },
    }
}

/// The next thing a probe run does: send to a URL, keeping the last failure message, or
/// stop with a result.
#[derive(Debug)]
pub enum ProbeStep<T> {
    Send { url: String, last_msg: String },
    Done(T),
}

/// The first step of a probe run: the first URL, or the failure result when there is none.
pub fn first_connection_step(plan: &ProbePlan) -> (r: ProbeStep<ConnectionTestResult>)
    ensures
        plan.urls@.len() > 0 ==> (r matches ProbeStep::Send { url, last_msg } && url@
            == plan.urls@[0]@ && last_msg@.len() == 0),
        plan.urls@.len() == 0 ==> (r matches ProbeStep::Done(x) && !x.ok && x.latency_ms is None
            && x.message@ == "无法连接到服务"@),
{
    if plan.urls.len() > 0 {
        ProbeStep::Send { url: plan.urls[0].clone(), last_msg: String::new() }
    } else {
        ProbeStep::Done(connection_result(None, String::new()))
    }
}

/// After the reply to the `sent`-th URL (counting from 1): a 2xx ends the test
/// successfully; otherwise the next URL is tried with the failure kept, and after the last
/// URL the test fails with the last failure message.
pub fn connection_step(plan: &ProbePlan, sent: usize, reply: ProbeReply, elapsed_ms: u64) -> (r:
    ProbeStep<ConnectionTestResult>)
    ensures
        match reply {
            ProbeReply::Response { status_ok: true, .. } => r matches ProbeStep::Done(x) && x.ok
                && x.latency_ms == Some(elapsed_ms) && x.message@ == "连接成功"@,
            _ => {
                let m = match reply {
                    ProbeReply::Response { body, .. } => failure_of(body@),
                    ProbeReply::Failed(e) => e@,
                };
                if sent < plan.urls@.len() {
                    r matches ProbeStep::Send { url, last_msg } && url@ == plan.urls@[sent as int]@
                        && last_msg@ == m
                } else {
                    r matches ProbeStep::Done(x) && !x.ok && x.latency_ms is None && x.message@ == (
                    if m.len() == 0 {
                        "无法连接到服务"@
                    } else {
                        m
                    })
                }
            },
        },
{
    match connection_reply(reply, elapsed_ms) {
        Ok(done) => ProbeStep::Done(done),
        Err(m) => if sent < plan.urls.len() {
            ProbeStep::Send { url: plan.urls[sent].clone(), last_msg: m }
        } else {
            ProbeStep::Done(connection_result(None, m))
        },
    }
}

/// The first step of a model listing: the first URL, or the failure result when there is
/// none.
pub fn first_models_step(plan: &ProbePlan) -> (r: ProbeStep<ModelFetchResult>)
    ensures
        plan.urls@.len() > 0 ==> (r matches ProbeStep::Send { url, last_msg } && url@
            == plan.urls@[0]@ && last_msg@.len() == 0),
        plan.urls@.len() == 0 ==> (r matches ProbeStep::Done(x) && !x.ok && x.models@.len() == 0
            && x.message@ == "无法获取模型列表，请手动填写"@),
{
    if plan.urls.len() > 0 {
        ProbeStep::Send { url: plan.urls[0].clone(), last_msg: String::new() }
    } else {
        ProbeStep::Done(model_fetch_result(None, String::new()))
    }
}

/// After the reply to the `sent`-th URL (counting from 1): a 2xx with at least one model id
/// ends the listing with those models; otherwise the next URL is tried with the failure kept,
/// and after the last URL the listing fails with the last failure message.
pub fn models_step(plan: &ProbePlan, sent: usize, reply: ProbeReply) -> (r: ProbeStep<ModelFetchResult>)
    ensures
        match reply {
            ProbeReply::Response { status_ok, body } if status_ok && (model_ids_of(body@) matches Some(
                ids,
            ) && ids.len() > 0) => r matches ProbeStep::Done(x) && x.ok && Some(texts(x.models@))
                == model_ids_of(body@) && x.message@.len() == 0,
            _ => {
                let m = match reply {
                    ProbeReply::Response { body, .. } => failure_of(body@),
                    ProbeReply::Failed(e) => e@,
                };
                if sent < plan.urls@.len() {
                    r matches ProbeStep::Send { url, last_msg } && url@ == plan.urls@[sent as int]@
                        && last_msg@ == m
                } else {
                    r matches ProbeStep::Done(x) && !x.ok && x.models@.len() == 0 && x.message@ == (
                    if m.len() == 0 {
                        "无法获取模型列表，请手动填写"@
                    } else {
                        m
                    })
                }
            },
        },
{
    match models_reply(reply) {
        Ok(done) => ProbeStep::Done(done),
        Err(m) => if sent < plan.urls.len() {
            ProbeStep::Send { url: plan.urls[sent].clone(), last_msg: m }
        } else {
            ProbeStep::Done(model_fetch_result(None, m))
        },
    }
}

} // verus!
