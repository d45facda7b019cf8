//! The decisions of the chat-completions pipeline: request checks,
//! authentication, where the plan comes from, and the planner exchange.

use vstd::prelude::*;
use vstd::utf8::{encode_utf8, valid_utf8};
use crate::json::{Json, member, as_str, get, opt_str};
use crate::plan::{PublicManifest, RmvmPlan};
use crate::plan_json::parse_plan_json;
use crate::extract::{extract_json_object, extract_of};
use crate::response::ApiError;
use crate::store::{ApiKeyMapping, BrainStore, hash_from, key_digest, mappings_v};
use crate::package::ascii_lower;
use crate::crypto::{base64_decode, base64_decoded, json_quote, json_quoted, utf8_text};
use crate::brain::strs;
use crate::text::{chars_of, is_blank, push_char, str_eq, trim, trim_string};

verus! {

#[derive(Debug, Clone, Copy, PartialEq, Eq, Structural)]
pub enum PlannerMode {
    Fallback,
    OpenAi,
    ByoHeader,
}

/// How the proxy reaches its external planner.
#[derive(Debug, Clone)]
pub struct PlannerConfig {
    pub mode: PlannerMode,
    pub base_url: String,
    pub model: String,
    pub api_key: Option<String>,
    pub timeout_ms: u64,
}

#[derive(Debug)]
pub struct ChatMessage {
    pub role: String,
    pub content: Json,
}

#[derive(Debug)]
pub struct ChatCompletionRequest {
    pub model: Option<String>,
    pub messages: Vec<ChatMessage>,
    pub user: Option<String>,
    pub stream: Option<bool>,
}

/// Who a request acts for.
#[derive(Debug, Clone)]
pub struct RequestContext {
    pub subject: String,
}

pub open spec fn lower(s: Seq<char>) -> Seq<char> {
    s.map_values(|c: char| ascii_lower(c))
}

pub fn lower_str(s: &str) -> (r: String)
    ensures
        r@ == lower(s@),
{
    let cs = chars_of(s);
    let mut out = String::new();
    let mut i: usize = 0;
    while i < cs.len()
        invariant
            cs@ == s@,
            i <= cs@.len(),
            out@ == lower(cs@.subrange(0, i as int)),
        decreases cs.len() - i,
    {
        let c = cs[i];
        let l = if 'A' <= c && c <= 'Z' {
            ((c as u8) + 32) as char
        } else {
            c
        };
        push_char(&mut out, l);
        assert(lower(cs@.subrange(0, i + 1)) =~= lower(cs@.subrange(0, i as int)).push(l));
        i += 1;
    }
    assert(cs@.subrange(0, i as int) =~= s@);
    out
}

pub open spec fn planner_mode_of(s: Seq<char>) -> Option<PlannerMode> {
    let v = lower(trim(s));
    if v == "fallback"@ {
        Some(PlannerMode::Fallback)
    } else if v == "openai"@ {
        Some(PlannerMode::OpenAi)
    } else if v == "byo"@ || v == "byo_header"@ || v == "byoheader"@ {
        Some(PlannerMode::ByoHeader)
    } else {
        None
    }
}

pub open spec fn mode_name(m: PlannerMode) -> Seq<char> {
    match m {
        PlannerMode::Fallback => "fallback"@,
        PlannerMode::OpenAi => "openai"@,
        PlannerMode::ByoHeader => "byo_header"@,
    }
}

/// The planner mode was not one of fallback, openai or byo.
#[derive(Debug, Clone)]
pub struct UnknownPlannerMode {
    pub given: String,
}

impl PlannerMode {
    /// Reads a mode, ignoring case and surrounding white space.
    pub fn parse(value: &str) -> (r: Result<PlannerMode, UnknownPlannerMode>)
        ensures
            match planner_mode_of(value@) {
                Some(m) => r == Ok::<PlannerMode, UnknownPlannerMode>(m),
                None => r matches Err(e) && e.given@ == lower(trim(value@)),
            },
    {
        let t = trim_string(value);
        let v = lower_str(t.as_str());
        let s = v.as_str();
        if str_eq(s, "fallback") {
            Ok(PlannerMode::Fallback)
        } else if str_eq(s, "openai") {
            Ok(PlannerMode::OpenAi)
        } else if str_eq(s, "byo") || str_eq(s, "byo_header") || str_eq(s, "byoheader") {
            Ok(PlannerMode::ByoHeader)
        } else {
            Err(UnknownPlannerMode { given: v })
        }
    }

    pub fn as_str(&self) -> (r: &'static str)
        ensures
            r@ == mode_name(*self),
    {
        match self {
            PlannerMode::Fallback => "fallback",
            PlannerMode::OpenAi => "openai",
            PlannerMode::ByoHeader => "byo_header",
        }
    }
}

pub fn api_error(status: u16, code: &str, message: &str) -> (r: ApiError)
    ensures
        r.status == status,
        r.code@ == code@,
        r.message@ == message@,
        r.headers@.len() == 0,
{
    ApiError {
        status,
        code: String::from_str(code),
        message: String::from_str(message),
        headers: Vec::new(),
    }
}

/// The bearer token of an `Authorization` header value, trimmed.
pub open spec fn bearer_of(raw: Seq<char>) -> Option<Seq<char>> {
    let p = "Bearer "@;
    if raw.len() >= p.len() && raw.subrange(0, p.len() as int) == p {
        Some(trim(raw.subrange(p.len() as int, raw.len() as int)))
    } else {
        None
    }
}

/// Reads the bearer token of the `Authorization` header, if there is one.
/// A header that is not a bearer token, or whose token is blank, is refused
/// with 401 `invalid_auth_header`.
pub fn parse_bearer(authorization: Option<&str>) -> (r: Result<Option<String>, ApiError>)
    ensures
        match authorization {
            None => r matches Ok(None),
            Some(raw) => match bearer_of(raw@) {
                None => r matches Err(e) && e.status == 401 && e.code@ == "invalid_auth_header"@,
                Some(t) => if t.len() == 0 {
                    r matches Err(e) && e.status == 401 && e.code@ == "invalid_auth_header"@
                } else {
                    r matches Ok(Some(s)) && s@ == t
                },
            },
        },
{
    let raw = match authorization {
        Some(a) => a,
        None => {
            return Ok(None);
        },
    };
    let prefix = "Bearer ";
    proof {
        reveal_strlit("Bearer ");
    }
    let cs = chars_of(raw);
    let n = prefix.unicode_len();
    let mut ok = cs.len() >= n;
    let mut i: usize = 0;
    while ok && i < n
        invariant
            cs@ == raw@,
            n == prefix@.len(),
            ok ==> cs@.len() >= n,
            i <= n,
            ok ==> forall|k: int| 0 <= k < i ==> cs@[k] == prefix@[k],
            !ok ==> !(raw@.len() >= prefix@.len() && raw@.subrange(0, prefix@.len() as int)
                == prefix@),
        decreases n - i + if ok { 1int } else { 0int },
    {
        if cs[i] != prefix.get_char(i) {
            ok = false;
            assert(raw@.subrange(0, prefix@.len() as int)[i as int] != prefix@[i as int]);
        } else {
            i += 1;
        }
    }
    if !ok {
        return Err(api_error(401, "invalid_auth_header", "Authorization must use Bearer token"));
    }
    assert(raw@.subrange(0, prefix@.len() as int) =~= prefix@);
    let rest = crate::text::string_of(cs.as_slice(), n, cs.len());
    let token = trim_string(rest.as_str());
    if token.unicode_len() == 0 {
        return Err(api_error(401, "invalid_auth_header", "Bearer token is empty"));
    }
    Ok(Some(token))
}

/// The subject that a request without a bearer token acts for: its `user`
/// field unless blank, else `user:local`.
pub open spec fn default_subject(user: Option<String>) -> Seq<char> {
    match user {
        Some(u) => if is_blank(u@) {
            "user:local"@
        } else {
            u@
        },
        None => "user:local"@,
    }
}

/// Authenticates a request. With a bearer token it is accepted exactly when
/// the token's hash has a mapping, and acts for that mapping's subject.
/// Without one it is accepted exactly when a default or active brain exists.
pub fn resolve_context(
    store: &BrainStore,
    mappings: &Vec<ApiKeyMapping>,
    bearer: Option<&str>,
    brain_available: bool,
    user: &Option<String>,
) -> (r: Result<RequestContext, ApiError>)
    ensures
        match bearer {
            Some(t) => match hash_from(mappings_v(mappings@), key_digest(t@), 0) {
                Some(m) => r matches Ok(c) && c.subject@ == m.subject,
                None => r matches Err(e) && e.status == 401 && e.code@ == "auth_failed"@,
            },
            None => if brain_available {
                r matches Ok(c) && c.subject@ == default_subject(*user)
            } else {
                r matches Err(e) && e.status == 401 && e.code@ == "auth_required"@
            },
        },
{
    if let Some(t) = bearer {
        return match store.resolve_api_key(mappings, t) {
            Some(m) => Ok(RequestContext { subject: m.subject }),
            None => Err(api_error(401, "auth_failed", "API key is not mapped")),
        };
    }
    if !brain_available {
        return Err(
            api_error(401, "auth_required", "missing bearer token and no default/active brain configured"),
        );
    }
    let subject = match user {
        Some(u) => {
            if crate::text::trim_string(u.as_str()).unicode_len() == 0 {
                String::from_str("user:local")
            } else {
                u.clone()
            }
        },
        None => String::from_str("user:local"),
    };
    proof {
        if user.is_some() {
            crate::text::lemma_trim_empty_iff_blank(user.unwrap()@);
        }
    }
    Ok(RequestContext { subject })
}

/// The `text` of a message part, where the part is an object holding one.
pub open spec fn part_text(p: Json) -> Option<Seq<char>> {
    match p {
        Json::Object(f) => opt_str(member(f@, "text"@)),
        _ => None,
    }
}

/// The texts of the parts, joined by newlines (empty texts add nothing before
/// the first one).
pub open spec fn parts_text(parts: Seq<Json>) -> Seq<char>
    decreases parts.len(),
{
    if parts.len() == 0 {
        seq![]
    } else {
        let acc = parts_text(parts.drop_last());
        match part_text(parts.last()) {
            Some(t) => if acc.len() > 0 {
                acc + seq!['\n'] + t
            } else {
                acc + t
            },
            None => acc,
        }
    }
}

/// The text of a message's content: a string as it is, or the joined texts of
/// its parts when there are any.
pub open spec fn content_text(c: Json) -> Option<Seq<char>> {
    match c {
        Json::Str(s) => Some(s@),
        Json::Array(parts) => if parts_text(parts@).len() > 0 {
            Some(parts_text(parts@))
        } else {
            None
        },
        _ => None,
    }
}

pub fn message_content_as_text(content: &Json) -> (r: Option<String>)
    ensures
        r matches Some(s) ==> content_text(*content) == Some(s@),
        r.is_none() ==> content_text(*content).is_none(),
{
    match content {
        Json::Str(s) => Some(s.clone()),
        Json::Array(parts) => {
            let mut out = String::new();
            let mut i: usize = 0;
            while i < parts.len()
                invariant
                    i <= parts@.len(),
                    out@ == parts_text(parts@.subrange(0, i as int)),
                decreases parts.len() - i,
            {
                assert(parts@.subrange(0, i + 1).drop_last() =~= parts@.subrange(0, i as int));
                let text = match &parts[i] {
                    Json::Object(f) => match get(f, "text") {
                        Some(Json::Str(t)) => Some(t),
                        _ => None,
                    },
                    _ => None,
                };
                if let Some(t) = text {
                    if out.unicode_len() > 0 {
                        push_char(&mut out, '\n');
                    }
                    out.append(t.as_str());
                }
                i += 1;
            }
            assert(parts@.subrange(0, i as int) =~= parts@);
            if out.unicode_len() == 0 {
                None
            } else {
                Some(out)
            }
        },
        _ => None,
    }
}

/// The index of the last message whose role is `user`, in any case.
pub open spec fn last_user_before(m: Seq<ChatMessage>, j: int) -> Option<int>
    decreases j,
{
    if j <= 0 || j > m.len() {
        None
    } else if lower(m[j - 1].role@) == "user"@ {
        Some(j - 1)
    } else {
        last_user_before(m, j - 1)
    }
}

/// The text of the last user message.
pub open spec fn user_message_of(m: Seq<ChatMessage>) -> Option<Seq<char>> {
    match last_user_before(m, m.len() as int) {
        Some(i) => content_text(m[i].content),
        None => None,
    }
}

pub fn extract_user_message(request: &ChatCompletionRequest) -> (r: Option<String>)
    ensures
        r matches Some(s) ==> user_message_of(request.messages@) == Some(s@),
        r.is_none() ==> user_message_of(request.messages@).is_none(),
{
    let msgs = &request.messages;
    let mut j: usize = msgs.len();
    while j > 0
        invariant
            msgs@ == request.messages@,
            j <= msgs@.len(),
            last_user_before(msgs@, msgs@.len() as int) == last_user_before(msgs@, j as int),
        decreases j,
    {
        let role = lower_str(msgs[j - 1].role.as_str());
        if str_eq(role.as_str(), "user") {
            assert(last_user_before(msgs@, j as int) == Some((j - 1) as int));
            let r = message_content_as_text(&msgs[j - 1].content);
            assert(user_message_of(msgs@) == content_text(msgs@[j - 1].content));
            return r;
        }
        j -= 1;
    }
    None
}

/// The checks before any kernel call: streaming is refused, and there must be
/// a user message with text, which is returned.
pub fn check_chat_request(request: &ChatCompletionRequest) -> (r: Result<String, ApiError>)
    ensures
        request.stream == Some(true) ==> (r matches Err(e) && e.status == 400 && e.code@
            == "stream_not_supported"@),
        request.stream != Some(true) ==> match user_message_of(request.messages@) {
            Some(t) => r matches Ok(s) && s@ == t,
            None => r matches Err(e) && e.status == 400 && e.code@ == "missing_user_message"@,
        },
{
    if let Some(true) = request.stream {
        return Err(api_error(400, "stream_not_supported", "stream=true is not supported in proxy v0"));
    }
    match extract_user_message(request) {
        Some(m) => Ok(m),
        None => Err(api_error(400, "missing_user_message", "no user message found")),
    }
}

/// Where the plan comes from: a plan header always wins; without one, the
/// BYO mode refuses the request.
pub fn select_plan_source(has_plan_header: bool, mode: PlannerMode) -> (r: Result<PlannerMode, ApiError>)
    ensures
        has_plan_header ==> r == Ok::<PlannerMode, ApiError>(PlannerMode::ByoHeader),
        !has_plan_header && mode == PlannerMode::ByoHeader ==> (r matches Err(e) && e.status == 400
            && e.code@ == "plan_header_required"@),
        !has_plan_header && mode != PlannerMode::ByoHeader ==> r == Ok::<PlannerMode, ApiError>(mode),
{
    if has_plan_header {
        Ok(PlannerMode::ByoHeader)
    } else if mode == PlannerMode::ByoHeader {
        Err(api_error(400, "plan_header_required", "planner mode BYO requires X-Cortex-Plan header"))
    } else {
        Ok(mode)
    }
}

/// Decodes the plan header: base64 of UTF-8 text holding a JSON object,
/// whose text is returned.
pub fn decode_plan_header(raw: &str) -> (r: Result<String, ApiError>)
    ensures
        r matches Ok(t) ==> exists|text: Seq<char>|
            base64_decoded(raw@) == Some(encode_utf8(text)) && extract_of(text) == Ok::<
                Seq<char>,
                crate::extract::ExtractError,
            >(t@),
        r matches Err(e) ==> e.status == 400,
        base64_decoded(raw@).is_none() ==> (r matches Err(e) && e.code@ == "invalid_plan_header"@),
        base64_decoded(raw@) matches Some(b) && !valid_utf8(b) ==> (r matches Err(e) && e.code@
            == "invalid_plan_header"@),
        (base64_decoded(raw@) matches Some(b) && valid_utf8(b)) ==> exists|text: Seq<char>|
            base64_decoded(raw@) == Some(encode_utf8(text)) && match extract_of(text) {
                Ok(t) => r matches Ok(s) && s@ == t,
                Err(_) => r matches Err(e) && e.status == 400 && e.code@ == "invalid_plan_json"@,
            },
{
    let bytes = match base64_decode(raw) {
        Some(b) => b,
        None => {
            return Err(api_error(400, "invalid_plan_header", "X-Cortex-Plan must be base64"));
        },
    };
    let text = match utf8_text(bytes) {
        Some(t) => t,
        None => {
            return Err(api_error(400, "invalid_plan_header", "decoded plan is not UTF-8"));
        },
    };
    match extract_json_object(text.as_str()) {
        Ok(j) => Ok(j),
        Err(_) => Err(api_error(400, "invalid_plan_json", "plan header holds no JSON object")),
    }
}

/// The plan of a parsed JSON document (`None`: the text was not JSON); a
/// refusal carries status 400 and `code`.
pub fn plan_from_document(doc: Option<&Json>, request_id: &str, code: &str) -> (r: Result<
    RmvmPlan,
    ApiError,
>)
    ensures
        match doc {
            None => r matches Err(e) && e.status == 400 && e.code@ == code@,
            Some(d) => match crate::plan_json::plan_of(*d, request_id@) {
                Ok(p) => r matches Ok(q) && q@ == p,
                Err(_) => r matches Err(e) && e.status == 400 && e.code@ == code@,
            },
        },
{
    let d = match doc {
        Some(d) => d,
        None => {
            return Err(api_error(400, code, "plan is not valid JSON"));
        },
    };
    match parse_plan_json(d, request_id) {
        Ok(p) => Ok(p),
        Err(_) => Err(api_error(400, code, "plan JSON does not describe a plan")),
    }
}

/// Validates a plan against the manifest, refusing an invalid one with 400
/// `invalid_plan`.
pub fn check_plan(plan: &RmvmPlan, manifest: &PublicManifest) -> (r: Result<(), ApiError>)
    ensures
        r.is_ok() <==> crate::plan::plan_valid(*plan, *manifest),
        r matches Err(e) ==> e.status == 400 && e.code@ == "invalid_plan"@,
{
    match crate::plan::validate_plan_against_manifest(plan, manifest) {
        Ok(()) => Ok(()),
        Err(_) => Err(api_error(400, "invalid_plan", "plan is not valid against the manifest")),
    }
}

/// The content of the planner's first choice: `/choices/0/message/content`.
pub open spec fn planner_content_of(root: Json) -> Option<Seq<char>> {
    match root {
        Json::Object(f) => match member(f@, "choices"@) {
            Some(Json::Array(cs)) => if cs@.len() > 0 {
                match cs@[0] {
                    Json::Object(c) => match member(c@, "message"@) {
                        Some(Json::Object(msg)) => opt_str(member(msg@, "content"@)),
                        _ => None,
                    },
                    _ => None,
                }
            } else {
                None
            },
            _ => None,
        },
        _ => None,
    }
}

/// The JSON plan text in the planner's reply. A non-2xx status is refused
/// with 502 `planner_http_failed`, an unreadable reply with 502
/// `planner_decode_failed`, and a reply without a JSON object with 400
/// `planner_output_invalid`.
pub fn planner_plan_text(http_status: u16, body: Option<&Json>) -> (r: Result<String, ApiError>)
    ensures
        !(200 <= http_status < 300) ==> (r matches Err(e) && e.status == 502 && e.code@
            == "planner_http_failed"@),
        200 <= http_status < 300 ==> match body {
            None => r matches Err(e) && e.status == 502 && e.code@ == "planner_decode_failed"@,
            Some(b) => match planner_content_of(*b) {
                None => r matches Err(e) && e.status == 502 && e.code@ == "planner_decode_failed"@,
                Some(c) => match extract_of(c) {
                    Ok(t) => r matches Ok(s) && s@ == t,
                    Err(_) => r matches Err(e) && e.status == 400 && e.code@
                        == "planner_output_invalid"@,
                },
            },
        },
{
    if !(200 <= http_status && http_status < 300) {
        return Err(api_error(502, "planner_http_failed", "planner returned a non-success status"));
    }
    let root = match body {
        Some(b) => b,
        None => {
            return Err(api_error(502, "planner_decode_failed", "planner reply is not JSON"));
        },
    };
    let missing = "planner response missing choices[0].message.content";
    let content = match root {
        Json::Object(f) => match get(f, "choices") {
            Some(Json::Array(cs)) => {
                if cs.len() > 0 {
                    match &cs[0] {
                        Json::Object(c) => match get(c, "message") {
                            Some(Json::Object(msg)) => match get(msg, "content") {
                                Some(Json::Str(t)) => t,
                                _ => {
                                    return Err(api_error(502, "planner_decode_failed", missing));
                                },
                            },
                            _ => {
                                return Err(api_error(502, "planner_decode_failed", missing));
                            },
                        },
                        _ => {
                            return Err(api_error(502, "planner_decode_failed", missing));
                        },
                    }
                } else {
                    return Err(api_error(502, "planner_decode_failed", missing));
                }
            },
            _ => {
                return Err(api_error(502, "planner_decode_failed", missing));
            },
        },
        _ => {
            return Err(api_error(502, "planner_decode_failed", missing));
        },
    };
    match extract_json_object(content.as_str()) {
        Ok(t) => Ok(t),
        Err(_) => Err(api_error(400, "planner_output_invalid", "planner output holds no JSON object")),
    }
}

/// `items` joined by `, `.
pub open spec fn comma_joined(items: Seq<Seq<char>>) -> Seq<char>
    decreases items.len(),
{
    if items.len() == 0 {
        seq![]
    } else if items.len() == 1 {
        items[0]
    } else {
        comma_joined(items.drop_last()) + ", "@ + items.last()
    }
}

/// The prompt that tells a planner which handles and selectors it may use.
pub open spec fn prompt_of(user_message: Seq<char>, handles: Seq<Seq<char>>, selectors: Seq<Seq<char>>) -> Seq<
    char,
> {
    "Return plan JSON only. Do not include prose or markdown.\n"@
        + "Use schema: {requestId, steps:[{out, op:{kind,...}}], outputs:[string]}.\n"@
        + "Allowed op.kind values: fetch, applySelector, resolve, filter, join, project, assert.\n"@
        + "assert bindings shape: bindings.{field} = {reg, fieldPath}.\n"@ + "User message: "@
        + user_message + "\nAllowed handle refs: ["@ + comma_joined(handles)
        + "]\nAllowed selector refs: ["@ + comma_joined(selectors)
        + "]\nEvery fetch.handleRef must be from allowed handle refs.\n"@
        + "Every applySelector.selectorRef must be from allowed selector refs."@
}

fn join_comma(items: &Vec<String>) -> (r: String)
    ensures
        r@ == comma_joined(strs(items@)),
{
    let ghost v = strs(items@);
    let mut out = String::new();
    let mut i: usize = 0;
    while i < items.len()
        invariant
            v == strs(items@),
            i <= items@.len(),
            out@ == comma_joined(v.subrange(0, i as int)),
        decreases items.len() - i,
    {
        if i > 0 {
            out.append(", ");
        }
        out.append(items[i].as_str());
        proof {
            assert(v.subrange(0, i + 1).drop_last() =~= v.subrange(0, i as int));
            if i == 0 {
                assert(out@ =~= v.subrange(0, 1)[0]);
            }
        }
        i += 1;
    }
    assert(v.subrange(0, i as int) =~= v);
    out
}

pub open spec fn handle_refs(m: PublicManifest) -> Seq<Seq<char>> {
    m.handles@.map_values(|h: crate::plan::HandleRef| h.handle_ref@)
}

pub open spec fn selector_refs(m: PublicManifest) -> Seq<Seq<char>> {
    m.selectors@.map_values(|x: crate::plan::SelectorRef| x.sel@)
}

pub fn build_plan_only_prompt(user_message: &str, manifest: &PublicManifest) -> (r: String)
    ensures
        r@ == prompt_of(user_message@, handle_refs(*manifest), selector_refs(*manifest)),
{
    let mut hs: Vec<String> = Vec::new();
    let mut i: usize = 0;
    while i < manifest.handles.len()
        invariant
            i <= manifest.handles@.len(),
            strs(hs@) == handle_refs(*manifest).subrange(0, i as int),
        decreases manifest.handles.len() - i,
    {
        let ghost h0 = hs@;
        hs.push(manifest.handles[i].handle_ref.clone());
        assert(strs(hs@) =~= strs(h0).push(manifest.handles@[i as int].handle_ref@));
        assert(strs(hs@) =~= handle_refs(*manifest).subrange(0, i + 1));
        i += 1;
    }
    let mut ss: Vec<String> = Vec::new();
    let mut k: usize = 0;
    while k < manifest.selectors.len()
        invariant
            k <= manifest.selectors@.len(),
            strs(ss@) == selector_refs(*manifest).subrange(0, k as int),
        decreases manifest.selectors.len() - k,
    {
        let ghost s0 = ss@;
        ss.push(manifest.selectors[k].sel.clone());
        assert(strs(ss@) =~= strs(s0).push(manifest.selectors@[k as int].sel@));
        assert(strs(ss@) =~= selector_refs(*manifest).subrange(0, k + 1));
        k += 1;
    }
    assert(handle_refs(*manifest).subrange(0, i as int) =~= handle_refs(*manifest));
    assert(selector_refs(*manifest).subrange(0, k as int) =~= selector_refs(*manifest));
    let mut out = String::from_str("Return plan JSON only. Do not include prose or markdown.\n");
    out.append("Use schema: {requestId, steps:[{out, op:{kind,...}}], outputs:[string]}.\n");
    out.append("Allowed op.kind values: fetch, applySelector, resolve, filter, join, project, assert.\n");
    out.append("assert bindings shape: bindings.{field} = {reg, fieldPath}.\n");
    out.append("User message: ");
    out.append(user_message);
    out.append("\nAllowed handle refs: [");
    out.append(join_comma(&hs).as_str());
    out.append("]\nAllowed selector refs: [");
    out.append(join_comma(&ss).as_str());
    out.append("]\nEvery fetch.handleRef must be from allowed handle refs.\n");
    out.append("Every applySelector.selectorRef must be from allowed selector refs.");
    out
}

/// `s` without trailing `/`.
pub open spec fn trim_slashes(s: Seq<char>) -> Seq<char>
    decreases s.len(),
{
    if s.len() > 0 && s.last() == '/' {
        trim_slashes(s.drop_last())
    } else {
        s
    }
}

pub fn trim_end_slashes(s: &str) -> (r: String)
    ensures
        r@ == trim_slashes(s@),
{
    let cs = chars_of(s);
    let mut j: usize = cs.len();
    assert(cs@.subrange(0, j as int) =~= s@);
    while j > 0 && cs[j - 1] == '/'
        invariant
            cs@ == s@,
            j <= cs@.len(),
            trim_slashes(s@) == trim_slashes(cs@.subrange(0, j as int)),
        decreases j,
    {
        assert(cs@.subrange(0, j as int).drop_last() =~= cs@.subrange(0, j - 1));
        j -= 1;
    }
    crate::text::string_of(cs.as_slice(), 0, j)
}

pub const PLANNER_SYSTEM_PROMPT: &'static str = "Return only JSON matching the RMVMPlan schema. No markdown and no prose.";

/// The chat-completion request to the external planner: its URL and its
/// JSON body (members in sorted order, temperature 0). Without an API key
/// the request is refused with 502 `planner_auth_missing`.
pub fn planner_request(cfg: &PlannerConfig, plan_prompt: &str) -> (r: Result<(String, String, String), ApiError>)
    ensures
        cfg.api_key.is_none() ==> (r matches Err(e) && e.status == 502 && e.code@ == "planner_auth_missing"@),
        cfg.api_key matches Some(k) ==> (r matches Ok((url, key, body)) && url@ == trim_slashes(cfg.base_url@) + "/chat/completions"@
            && key@ == k@ && body@ == "{\"messages\":[{\"content\":"@ + json_quoted(PLANNER_SYSTEM_PROMPT@)
            + ",\"role\":\"system\"},{\"content\":"@ + json_quoted(plan_prompt@)
            + ",\"role\":\"user\"}],\"model\":"@ + json_quoted(cfg.model@) + ",\"temperature\":0}"@),
{
    let key = match &cfg.api_key {
        Some(k) => k.clone(),
        None => {
            return Err(api_error(
                502,
                "planner_auth_missing",
                "openai planner mode requires CORTEX_PLANNER_API_KEY or OPENAI_API_KEY",
            ));
        },
    };
    let url = trim_end_slashes(cfg.base_url.as_str()).concat("/chat/completions");
    let mut body = String::from_str("{\"messages\":[{\"content\":");
    body.append(json_quote(PLANNER_SYSTEM_PROMPT).as_str());
    body.append(",\"role\":\"system\"},{\"content\":");
    body.append(json_quote(plan_prompt).as_str());
    body.append(",\"role\":\"user\"}],\"model\":");
    body.append(json_quote(cfg.model.as_str()).as_str());
    body.append(",\"temperature\":0}");
    Ok((url, key, body))
}

/// What `/dashboard/status` reports.
#[derive(Debug, Clone)]
pub struct DashboardStatus {
    pub proxy_base_url: String,
    pub chat_completions_url: String,
    pub proxy_healthy: bool,
    pub proxy_api_key: Option<String>,
    pub planner_provider: String,
    pub planner_mode: String,
    pub planner_model: String,
    pub planner_base_url: String,
    pub rmvm_endpoint: String,
    pub rmvm_healthy: bool,
    pub brain_selected: String,
}

/// The label of the selected brain: its name when it resolves, its reference
/// otherwise, and `<none>` when no brain is selected.
pub fn brain_label(selected: Option<&str>, resolved_name: Option<&str>) -> (r: String)
    ensures
        r@ == match selected {
            None => "<none>"@,
            Some(s) => match resolved_name {
                Some(n) => n@,
                None => s@,
            },
        },
{
    match selected {
        None => String::from_str("<none>"),
        Some(s) => match resolved_name {
            Some(n) => String::from_str(n),
            None => String::from_str(s),
        },
    }
}

/// The dashboard's snapshot; the kernel's health is probed by the caller.
pub fn dashboard_status(
    proxy_addr: &str,
    planner: &PlannerConfig,
    provider_name: Option<&str>,
    proxy_api_key: &Option<String>,
    rmvm_endpoint: &str,
    rmvm_healthy: bool,
    brain_selected: String,
) -> (r: DashboardStatus)
    ensures
        r.proxy_base_url@ == "http://"@ + proxy_addr@,
        r.chat_completions_url@ == "http://"@ + proxy_addr@ + "/v1/chat/completions"@,
        r.proxy_healthy,
        r.proxy_api_key == *proxy_api_key,
        r.planner_provider@ == match provider_name {
            Some(p) => p@,
            None => "custom"@,
        },
        r.planner_mode@ == mode_name(planner.mode),
        r.planner_model@ == planner.model@,
        r.planner_base_url@ == planner.base_url@,
        r.rmvm_endpoint@ == rmvm_endpoint@,
        r.rmvm_healthy == rmvm_healthy,
        r.brain_selected == brain_selected,
{
    let base = String::from_str("http://").concat(proxy_addr);
    let chat = base.clone().concat("/v1/chat/completions");
    DashboardStatus {
        proxy_base_url: base,
        chat_completions_url: chat,
        proxy_healthy: true,
        proxy_api_key: match proxy_api_key {
            Some(k) => Some(k.clone()),
            None => None,
        },
        planner_provider: match provider_name {
            Some(p) => String::from_str(p),
            None => String::from_str("custom"),
        },
        planner_mode: String::from_str(planner.mode.as_str()),
        planner_model: planner.model.clone(),
        planner_base_url: planner.base_url.clone(),
        rmvm_endpoint: String::from_str(rmvm_endpoint),
        rmvm_healthy,
        brain_selected,
    }
}

} // verus!
