use cortex::pipeline::{chat_step, ChatAction, ChatEvent, ChatFlow, ChatStage};
use cortex::adapter::{normalize_endpoint, RmvmAdapter};
use cortex::json::{Json};
use cortex::kernel::{ExecuteResponse, ExecutionError, ExecutionStatus, ProofRoots, StallInfo};
use cortex::plan::{HandleRef, PublicManifest, SelectorRef};
use cortex::product::{
    default_config, derive_healthz_url, normalize_grpc_endpoint, parse_bool_flag,
    parse_restart_policy, planner_base_url_requires_api_key, provider_display_name,
    resolve_provider, rmvm_endpoint, split_csv, RestartPolicy,
};
use cortex::proxy::{
    build_plan_only_prompt, check_chat_request, decode_plan_header, parse_bearer,
    planner_plan_text, planner_request, resolve_context, select_plan_source, ChatCompletionRequest,
    ChatMessage, PlannerConfig, PlannerMode,
};
use cortex::response::{cortex_headers, map_execute_response};
use cortex::store::BrainStore;

fn response(status: ExecutionStatus) -> ExecuteResponse {
    ExecuteResponse {
        status,
        error: None,
        proof: Some(ProofRoots { semantic_root: "sem-1".to_string(), trace_root: "trace-1".to_string() }),
        stall: None,
        verified_blocks: Some(vec!["Verified: user prefers tea.".to_string()]),
    }
}

fn header<'a>(h: &'a [(String, String)], name: &str) -> Option<&'a str> {
    h.iter().find(|(n, _)| n == name).map(|(_, v)| v.as_str())
}

fn map(e: &ExecuteResponse) -> Result<(cortex::response::ChatCompletionResponse, Vec<(String, String)>), cortex::response::ApiError> {
    let headers = cortex_headers(e, &"byo_header".to_string());
    map_execute_response(e, None, "prompt".to_string(), "byo_header".to_string(), headers, "chatcmpl-1".to_string(), 0)
}

#[test]
fn e2e_status_mapping_and_headers_in_process() {
    let ok = response(ExecutionStatus::Success);
    let (body, headers) = map(&ok).unwrap();
    assert_eq!(body.object, "chat.completion");
    assert_eq!(body.choices[0].message.content, "Verified: user prefers tea.");
    assert!(body.choices[0].message.content.contains("Verified"));
    assert_eq!(body.cortex.status, "OK");
    assert_eq!(header(&headers, "x-cortex-plan-source"), Some("byo_header"));
    assert_eq!(header(&headers, "x-cortex-status"), Some("OK"));
    assert_eq!(header(&headers, "x-cortex-semantic-root"), Some("sem-1"));
    assert_eq!(header(&headers, "x-cortex-trace-root"), Some("trace-1"));

    let mut rejected = response(ExecutionStatus::Rejected);
    rejected.error = Some(ExecutionError { code: "TypeMismatch".to_string(), message: "bad types".to_string() });
    let err = map(&rejected).unwrap_err();
    assert_eq!(err.status, 400);
    assert_eq!(err.code, "TypeMismatch");
    assert_eq!(header(&err.headers, "x-cortex-status"), Some("REJECTED"));
    assert_eq!(header(&err.headers, "x-cortex-error-code"), Some("TypeMismatch"));
    let reply = err.into_response();
    assert_eq!(reply.status, 400);

    let mut stall = response(ExecutionStatus::Stall);
    stall.stall = Some(StallInfo { handle_ref: "H1".to_string(), availability: "PENDING".to_string() });
    let err = map(&stall).unwrap_err();
    assert_eq!(err.status, 503);
    assert_eq!(header(&err.headers, "x-cortex-status"), Some("STALL"));
    assert_eq!(header(&err.headers, "x-cortex-stall-handle"), Some("H1"));
    assert_eq!(err.code, "stall");
}

#[test]
fn status_table_is_exact() {
    let cases = [
        (ExecutionStatus::Success, 200u16),
        (ExecutionStatus::Rejected, 400),
        (ExecutionStatus::Stall, 503),
        (ExecutionStatus::AuthDenied, 403),
        (ExecutionStatus::RangeExceeded, 429),
        (ExecutionStatus::Unspecified, 502),
    ];
    for (s, code) in cases {
        let got = match map(&response(s)) {
            Ok(_) => 200,
            Err(e) => e.status,
        };
        assert_eq!(got, code);
    }
    let err = map(&response(ExecutionStatus::Unspecified)).unwrap_err();
    assert_eq!(err.message, "RMVM returned unspecified status");
    assert_eq!(err.code, "unknown_status");
}

#[test]
fn empty_blocks_and_joined_blocks() {
    let mut e = response(ExecutionStatus::Success);
    e.verified_blocks = Some(vec![]);
    assert_eq!(map(&e).unwrap().0.choices[0].message.content, "No verified output.");
    e.verified_blocks = Some(vec!["a".to_string(), "b".to_string()]);
    assert_eq!(map(&e).unwrap().0.choices[0].message.content, "a\n\nb");
    e.verified_blocks = None;
    let (body, _) = map(&e).unwrap();
    assert_eq!(body.model, "cortex-rmvm-proxy");
}

#[test]
fn header_with_control_character_is_dropped() {
    let mut e = response(ExecutionStatus::Success);
    e.proof = Some(ProofRoots { semantic_root: "bad\nroot".to_string(), trace_root: "t".to_string() });
    let headers = cortex_headers(&e, &"fallback".to_string());
    assert_eq!(header(&headers, "x-cortex-semantic-root"), None);
    assert_eq!(header(&headers, "x-cortex-trace-root"), Some("t"));
}

#[test]
fn e2e_openai_planner_mode_without_byo_header() {
    let plan_json = r#"{"requestId":"req-e2e","steps":[{"out":"r0","op":{"kind":"fetch","handleRef":"H1"}}],"outputs":["r0"]}"#;
    let cfg = PlannerConfig {
        mode: PlannerMode::OpenAi,
        base_url: "http://127.0.0.1:9/".to_string(),
        model: "planner-model".to_string(),
        api_key: Some("planner-secret".to_string()),
        timeout_ms: 1000,
    };
    assert_eq!(select_plan_source(false, cfg.mode).unwrap(), PlannerMode::OpenAi);
    assert_eq!(PlannerMode::OpenAi.as_str(), "openai");
    let (url, key, body) = planner_request(&cfg, "prompt").unwrap();
    assert_eq!(url, "http://127.0.0.1:9/chat/completions");
    assert_eq!(key, "planner-secret");
    let parsed: serde_json::Value = serde_json::from_str(&body).unwrap();
    assert_eq!(parsed["model"], "planner-model");
    let reply = Json::Object(vec![(
        "choices".to_string(),
        Json::Array(vec![Json::Object(vec![(
            "message".to_string(),
            Json::Object(vec![("content".to_string(), Json::Str(plan_json.to_string()))]),
        )])]),
    )]);
    assert_eq!(planner_plan_text(200, Some(&reply)).unwrap(), plan_json);
    assert_eq!(planner_plan_text(500, Some(&reply)).unwrap_err().code, "planner_http_failed");
    assert_eq!(planner_plan_text(200, None).unwrap_err().code, "planner_decode_failed");
    let no_key = PlannerConfig { api_key: None, ..cfg };
    assert_eq!(planner_request(&no_key, "p").unwrap_err().code, "planner_auth_missing");
}

#[test]
fn plan_header_selection_and_decoding() {
    assert_eq!(select_plan_source(true, PlannerMode::Fallback).unwrap(), PlannerMode::ByoHeader);
    assert_eq!(select_plan_source(false, PlannerMode::ByoHeader).unwrap_err().code, "plan_header_required");
    assert_eq!(select_plan_source(false, PlannerMode::Fallback).unwrap(), PlannerMode::Fallback);
    let encoded = "YGBganNvbgp7InN0ZXBzIjpbXX0KYGBg";
    assert_eq!(decode_plan_header(encoded).unwrap(), "{\"steps\":[]}");
    assert_eq!(decode_plan_header("!!!").unwrap_err().code, "invalid_plan_header");
    assert_eq!(decode_plan_header("/w==").unwrap_err().code, "invalid_plan_header");
    assert_eq!(decode_plan_header("bm8gb2JqZWN0").unwrap_err().code, "invalid_plan_json");
}

#[test]
fn bearer_parsing() {
    assert_eq!(parse_bearer(None).unwrap(), None);
    assert_eq!(parse_bearer(Some("Bearer  tok ")).unwrap(), Some("tok".to_string()));
    assert_eq!(parse_bearer(Some("Basic abc")).unwrap_err().code, "invalid_auth_header");
    assert_eq!(parse_bearer(Some("Bearer    ")).unwrap_err().status, 401);
}

#[test]
fn auth_requires_mapping_or_brain() {
    let store = BrainStore::new("/tmp/h".to_string());
    let mut mappings = Vec::new();
    store.map_api_key(&mut mappings, "key-1", "t", "b", "user:mapped");
    let ctx = resolve_context(&store, &mappings, Some("key-1"), false, &None).unwrap();
    assert_eq!(ctx.subject, "user:mapped");
    let err = resolve_context(&store, &mappings, Some("other"), true, &None).unwrap_err();
    assert_eq!((err.status, err.code.as_str()), (401, "auth_failed"));
    let err = resolve_context(&store, &mappings, None, false, &Some("u".to_string())).unwrap_err();
    assert_eq!(err.code, "auth_required");
    assert_eq!(resolve_context(&store, &mappings, None, true, &Some("u".to_string())).unwrap().subject, "u");
    assert_eq!(resolve_context(&store, &mappings, None, true, &Some("  ".to_string())).unwrap().subject, "user:local");
    assert_eq!(resolve_context(&store, &mappings, None, true, &None).unwrap().subject, "user:local");
}

fn msg(role: &str, content: Json) -> ChatMessage {
    ChatMessage { role: role.to_string(), content }
}

#[test]
fn chat_request_checks() {
    let parts = Json::Array(vec![
        Json::Object(vec![("text".to_string(), Json::Str("hello".to_string()))]),
        Json::Object(vec![("type".to_string(), Json::Str("image".to_string()))]),
        Json::Object(vec![("text".to_string(), Json::Str("world".to_string()))]),
    ]);
    let req = ChatCompletionRequest {
        model: None,
        messages: vec![msg("user", Json::Str("first".to_string())), msg("assistant", Json::Str("x".to_string())), msg("USER", parts)],
        user: None,
        stream: None,
    };
    assert_eq!(check_chat_request(&req).unwrap(), "hello\nworld");
    let streaming = ChatCompletionRequest { stream: Some(true), ..req };
    assert_eq!(check_chat_request(&streaming).unwrap_err().code, "stream_not_supported");
    let none = ChatCompletionRequest { model: None, messages: vec![msg("system", Json::Str("s".to_string()))], user: None, stream: Some(false) };
    assert_eq!(check_chat_request(&none).unwrap_err().code, "missing_user_message");
}

#[test]
fn planner_mode_parsing() {
    assert_eq!(PlannerMode::parse(" Fallback ").unwrap(), PlannerMode::Fallback);
    assert_eq!(PlannerMode::parse("BYO_header").unwrap(), PlannerMode::ByoHeader);
    assert_eq!(PlannerMode::parse("OpenAI").unwrap(), PlannerMode::OpenAi);
    assert_eq!(PlannerMode::parse("Magic").unwrap_err().given, "magic");
}

#[test]
fn prompt_lists_refs() {
    let m = PublicManifest {
        request_id: "r".to_string(),
        handles: vec![
            HandleRef { handle_ref: "H1".to_string(), type_id: "t".to_string(), signature_summary: "s".to_string() },
            HandleRef { handle_ref: "H2".to_string(), type_id: "t".to_string(), signature_summary: "s".to_string() },
        ],
        selectors: vec![SelectorRef { sel: "S0".to_string(), description: "d".to_string() }],
    };
    let p = build_plan_only_prompt("hi", &m);
    assert!(p.contains("User message: hi\n"));
    assert!(p.contains("Allowed handle refs: [H1, H2]\n"));
    assert!(p.contains("Allowed selector refs: [S0]\n"));
    assert_eq!(p.lines().count(), 9);
}

#[test]
fn endpoints() {
    assert_eq!(normalize_endpoint("grpc://h:1"), "http://h:1");
    assert_eq!(normalize_endpoint("https://h:1"), "https://h:1");
    assert_eq!(normalize_endpoint("h:1"), "http://h:1");
    assert_eq!(RmvmAdapter::new("grpc://k:5".to_string()).endpoint(), "http://k:5");
    assert_eq!(normalize_grpc_endpoint("http://h:1"), "grpc://h:1");
    assert_eq!(normalize_grpc_endpoint("https://h:1"), "grpc://h:1");
    assert_eq!(normalize_grpc_endpoint("h:1"), "grpc://h:1");
    assert_eq!(normalize_grpc_endpoint("grpc://h:1"), "grpc://h:1");
}

#[test]
fn product_helpers() {
    let cfg = default_config();
    assert_eq!(rmvm_endpoint(&cfg), "grpc://127.0.0.1:50051");
    assert_eq!(resolve_provider(&cfg, None).unwrap().planner_model, "gpt-4o-mini");
    assert_eq!(resolve_provider(&cfg, Some("ollama")).unwrap().planner_base_url, "http://127.0.0.1:11434/v1");
    assert!(resolve_provider(&cfg, Some("nope")).is_none());
    assert_eq!(provider_display_name("OPENAI"), "OpenAI");
    assert_eq!(provider_display_name("Custom"), "custom");
    assert!(planner_base_url_requires_api_key("https://api.openai.com/v1"));
    assert!(!planner_base_url_requires_api_key("http://LOCALHOST:1"));
    assert_eq!(derive_healthz_url("http://127.0.0.1:8080/v1/"), "http://127.0.0.1:8080/healthz");
    assert_eq!(derive_healthz_url("http://h"), "http://h/healthz");
    assert_eq!(parse_restart_policy(" Auto ").unwrap(), RestartPolicy::Auto);
    assert_eq!(parse_restart_policy("sometimes").unwrap_err().given, "sometimes");
    assert_eq!(parse_bool_flag("x", "YES").unwrap(), true);
    assert_eq!(parse_bool_flag("x", "off").unwrap(), false);
    assert!(parse_bool_flag("x", "maybe").is_err());
    assert_eq!(split_csv(" a, ,b ,,c "), vec!["a".to_string(), "b".to_string(), "c".to_string()]);
    assert!(split_csv("").is_empty());
}

#[test]
fn dashboard_snapshot() {
    let cfg = PlannerConfig {
        mode: PlannerMode::Fallback,
        base_url: "http://unused".to_string(),
        model: "m".to_string(),
        api_key: None,
        timeout_ms: 10,
    };
    let label = cortex::proxy::brain_label(Some("demo-1"), None);
    let d = cortex::proxy::dashboard_status("127.0.0.1:8080", &cfg, None, &None, "grpc://k:1", false, label);
    assert_eq!(d.chat_completions_url, "http://127.0.0.1:8080/v1/chat/completions");
    assert_eq!(d.planner_provider, "custom");
    assert_eq!(d.planner_mode, "fallback");
    assert_eq!(d.brain_selected, "demo-1");
    assert_eq!(cortex::proxy::brain_label(None, None), "<none>");
    assert_eq!(cortex::proxy::brain_label(Some("x"), Some("name")), "name");
}

#[test]
fn success_reply_has_no_error_code() {
    let mut e = response(ExecutionStatus::Success);
    e.error = Some(ExecutionError { code: "Warn".to_string(), message: "m".to_string() });
    let (body, headers) = map(&e).unwrap();
    assert!(body.cortex.error_code.is_none());
    assert_eq!(body.cortex.semantic_root.as_deref(), Some("sem-1"));
    assert_eq!(header(&headers, "x-cortex-error-code"), Some("Warn"));
}

#[test]
fn json_quote_matches_serde_json() {
    for s in ["plain", "q\"b\\s", "tab\tnl\ncr\rff\u{c}bs\u{8}", "ctl\u{1}\u{1f}", "é✓", ""] {
        assert_eq!(cortex::crypto::json_quote(s), serde_json::to_string(s).unwrap());
    }
}

fn one_handle_manifest() -> PublicManifest {
    PublicManifest {
        request_id: "req".to_string(),
        handles: vec![HandleRef { handle_ref: "H1".to_string(), type_id: "t".to_string(), signature_summary: "s".to_string() }],
        selectors: vec![],
    }
}

#[test]
fn pipeline_runs_in_order_and_validates_before_execute() {
    let manifest = one_handle_manifest();
    let mut flow = ChatFlow::new(false, PlannerMode::Fallback);
    assert!(matches!(chat_step(&mut flow, ChatEvent::Appended), ChatAction::GetManifest));
    assert!(matches!(chat_step(&mut flow, ChatEvent::ManifestReceived(manifest.clone())), ChatAction::ObtainPlan(PlannerMode::Fallback)));
    let plan = cortex::plan::deterministic_plan_from_manifest("req", "user:x", &manifest).unwrap();
    assert!(matches!(chat_step(&mut flow, ChatEvent::PlanReady(plan)), ChatAction::Execute(_)));
    assert_eq!(flow.stage, ChatStage::AwaitExecute);
    assert!(matches!(chat_step(&mut flow, ChatEvent::Executed(response(ExecutionStatus::Success))), ChatAction::Respond(_)));
    assert_eq!(flow.stage, ChatStage::Finished);

    let mut flow = ChatFlow::new(false, PlannerMode::Fallback);
    chat_step(&mut flow, ChatEvent::Appended);
    chat_step(&mut flow, ChatEvent::ManifestReceived(manifest.clone()));
    let bad = cortex::plan::RmvmPlan {
        request_id: "req".to_string(),
        steps: vec![cortex::plan::Step { out: "r0".to_string(), op: Some(cortex::plan::Op::Fetch { handle_ref: "H9".to_string() }) }],
        outputs: vec![],
    };
    match chat_step(&mut flow, ChatEvent::PlanReady(bad)) {
        ChatAction::Fail(e) => assert_eq!((e.status, e.code.as_str()), (400, "invalid_plan")),
        _ => panic!("an invalid plan must not execute"),
    }
}

#[test]
fn pipeline_stops_at_first_failure_and_picks_source() {
    let mut flow = ChatFlow::new(false, PlannerMode::Fallback);
    match chat_step(&mut flow, ChatEvent::CallFailed("down".to_string())) {
        ChatAction::Fail(e) => assert_eq!(e.code, "append_event_failed"),
        _ => panic!("expected failure"),
    }
    assert_eq!(flow.stage, ChatStage::Finished);
    assert!(matches!(chat_step(&mut flow, ChatEvent::Appended), ChatAction::Fail(_)));

    let mut flow = ChatFlow::new(true, PlannerMode::OpenAi);
    chat_step(&mut flow, ChatEvent::Appended);
    assert!(matches!(chat_step(&mut flow, ChatEvent::ManifestReceived(one_handle_manifest())), ChatAction::ObtainPlan(PlannerMode::ByoHeader)));

    let mut flow = ChatFlow::new(false, PlannerMode::ByoHeader);
    chat_step(&mut flow, ChatEvent::Appended);
    match chat_step(&mut flow, ChatEvent::ManifestReceived(one_handle_manifest())) {
        ChatAction::Fail(e) => assert_eq!(e.code, "plan_header_required"),
        _ => panic!("expected failure"),
    }
    let mut flow = ChatFlow::new(false, PlannerMode::Fallback);
    chat_step(&mut flow, ChatEvent::Appended);
    match chat_step(&mut flow, ChatEvent::ManifestMissing) {
        ChatAction::Fail(e) => assert_eq!((e.status, e.code.as_str()), (502, "manifest_missing")),
        _ => panic!("expected failure"),
    }
}
