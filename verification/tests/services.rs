use inference_super_router::clock::{nanos_at, still_counts};
use inference_super_router::config::EnvVars;
use inference_super_router::error::AppError;
use inference_super_router::json::Json;
use inference_super_router::models::chat::{ChatMessage, ChatRequest, FunctionCall, FunctionDefinition, Tool, ToolCall};
use inference_super_router::services::credits_client::{read_balance, CreditsClient, CreditsReply};
use inference_super_router::services::facilitator::{
    CallEvent, CallStep, FacilitatorCall, FacilitatorClient, FacilitatorConfig,
};
use inference_super_router::services::inference_client::{
    input_or_empty, InferenceClient, UpstreamReply,
};
use inference_super_router::services::nonce_tracker::NonceTracker;
use inference_super_router::services::session_manager::{
    session_found, session_ttl_secs, SessionManager, DEFAULT_SESSION_TTL_SECS,
};
use inference_super_router::services::settlement_worker::SettlementWorker;
use inference_super_router::services::verification_cache::VerificationCache;
use serde_json::Value;

fn json(text: &str) -> Json {
    Json::parse(text.as_bytes()).unwrap()
}

fn value(j: &Json) -> Value {
    serde_json::from_str(&j.to_text()).unwrap()
}

fn read(text: &str) -> Value {
    serde_json::from_str(text).unwrap()
}

// ---------------------------------------------------------------------------
// The facilitator
// ---------------------------------------------------------------------------

fn refused(code: u16, status: &str) -> CallEvent {
    CallEvent::Refused { code, status: status.to_string(), body: "b".to_string() }
}

fn failed(connect: bool) -> CallEvent {
    CallEvent::Failed { timeout: false, connect, request: false, error: "e".to_string() }
}

fn message<T>(step: CallStep<T>) -> (bool, String) {
    match step {
        CallStep::Done(_) => panic!("an answer"),
        CallStep::GiveUp(AppError::Facilitator(m)) => (false, m),
        CallStep::MayRetry(AppError::Facilitator(m)) => (true, m),
        _ => panic!("another error"),
    }
}

#[test]
fn the_facilitator_has_its_urls() {
    let f = FacilitatorClient::new("https://f.example//");
    assert_eq!(f.verify_url(), "https://f.example/verify");
    assert_eq!(f.settle_url(), "https://f.example/settle");
    assert_eq!(f.config.max_retries, 3);
    assert_eq!(f.config.initial_interval, 100);
    assert_eq!(f.config.max_interval, 2000);
    assert_eq!(f.config.request_timeout, 30_000);
}

#[test]
fn transient_statuses_are_known() {
    for code in [429, 500, 503, 599] {
        assert!(FacilitatorClient::is_transient_status(code));
    }
    for code in [200, 400, 402, 428, 430, 499, 600] {
        assert!(!FacilitatorClient::is_transient_status(code));
    }
}

#[test]
fn transient_errors_are_known() {
    assert!(FacilitatorClient::is_transient_error(true, false, false));
    assert!(FacilitatorClient::is_transient_error(false, true, false));
    assert!(FacilitatorClient::is_transient_error(false, false, true));
    assert!(!FacilitatorClient::is_transient_error(false, false, false));
    let f = FacilitatorClient::new("u");
    for (timeout, request) in [(true, false), (false, true)] {
        let mut call = FacilitatorCall::start();
        let event =
            CallEvent::Failed { timeout, connect: false, request, error: "e".to_string() };
        assert!(message(f.verify_raw(&mut call, event)).0);
    }
}

#[test]
fn calls_are_sent_again_after_a_while() {
    let b = FacilitatorClient::new("u").create_backoff();
    assert_eq!((b.initial_interval, b.max_interval, b.max_elapsed_time), (100, 2000, 10_000));
    let b = SettlementWorker::create_backoff();
    assert_eq!((b.initial_interval, b.max_interval, b.max_elapsed_time), (10_000, 120_000, 600_000));
}

#[test]
fn a_verification_is_read() {
    let f = FacilitatorClient::new("u");
    let mut call = FacilitatorCall::start();
    let body = json("{\"isValid\": true, \"payer\": \"0xa\", \"invalidReason\": 5}");
    match f.verify_raw(&mut call, CallEvent::Answered(Ok(body))) {
        CallStep::Done(v) => {
            assert!(v.is_valid);
            assert_eq!(v.payer, Some("0xa".to_string()));
            assert_eq!(v.invalid_reason, None);
        }
        _ => panic!("no answer"),
    }
    match f.verify_raw(&mut call, CallEvent::Answered(Ok(json("{\"isValid\": \"true\"}")))) {
        CallStep::Done(v) => assert!(!v.is_valid),
        _ => panic!("no answer"),
    }
    let bad = CallEvent::Answered(Err("x".to_string()));
    assert_eq!(message(f.verify_raw(&mut call, bad)), (false, "Invalid response: x".to_string()));
}

#[test]
fn a_settlement_answer_is_read() {
    let f = FacilitatorClient::new("u");
    let mut call = FacilitatorCall::start();
    let body = json("{\"success\": true, \"transaction\": \"0xt\", \"errorReason\": \"r\"}");
    match f.settle_raw(&mut call, CallEvent::Answered(Ok(body))) {
        CallStep::Done(s) => {
            assert!(s.success);
            assert_eq!(s.transaction, Some("0xt".to_string()));
            assert_eq!(s.payer, None);
            assert_eq!(s.error_reason, Some("r".to_string()));
        }
        _ => panic!("no answer"),
    }
    let bad = CallEvent::Answered(Err("x".to_string()));
    assert_eq!(
        message(f.settle_raw(&mut call, bad)),
        (false, "Invalid settlement response: x".to_string())
    );
}

#[test]
fn a_call_is_made_four_times_at_most() {
    let f = FacilitatorClient::new("u");
    let mut call = FacilitatorCall::start();
    let text = "Facilitator returned 503 Service Unavailable: b".to_string();
    for _ in 0..3 {
        let step = f.verify_raw(&mut call, refused(503, "503 Service Unavailable"));
        assert_eq!(message(step), (true, text.clone()));
        call.again();
    }
    let step = f.verify_raw(&mut call, refused(503, "503 Service Unavailable"));
    assert_eq!(message(step), (false, text));
}

#[test]
fn a_final_refusal_is_not_tried_again() {
    let f = FacilitatorClient::new("u");
    let mut call = FacilitatorCall::start();
    assert_eq!(
        message(f.settle_raw(&mut call, refused(400, "400 Bad Request"))),
        (false, "Settlement failed with 400 Bad Request: b".to_string())
    );
    assert_eq!(
        message(f.settle_raw(&mut call, failed(false))),
        (false, "Settlement connection failed: e".to_string())
    );
    assert_eq!(
        message(f.verify_raw(&mut call, failed(true))),
        (true, "Connection failed: e".to_string())
    );
}

#[test]
fn the_last_transient_error_is_reported() {
    let config = FacilitatorConfig { max_retries: 1, ..FacilitatorConfig::default() };
    let f = FacilitatorClient::with_config("u", config);
    let mut call = FacilitatorCall::start();
    assert!(message(f.verify_raw(&mut call, refused(500, "500 X"))).0);
    call.again();
    assert_eq!(
        message(f.verify_raw(&mut call, failed(true))),
        (false, "Facilitator returned 500 X: b".to_string())
    );
}

// ---------------------------------------------------------------------------
// Credits
// ---------------------------------------------------------------------------

#[test]
fn the_credits_api_is_asked() {
    let c = CreditsClient::new("https://c/api/", "secret".to_string());
    assert_eq!(c.authorization(), "Bearer secret");
    assert_eq!(c.balance_url("0xa"), "https://c/api/admin/credits?address=0xa");
    assert_eq!(c.adjust_url(), "https://c/api/admin/credits");
    assert_eq!(value(&c.adjust_body("0xa", -5)), read("{\"address\": \"0xa\", \"delta\": -5}"));
}

#[test]
fn the_credits_reply_is_read() {
    let c = CreditsClient::new("u", "s".to_string());
    let got = |code, body: &str| CreditsReply::Received {
        code,
        status: format!("{} S", code),
        body: body.to_string(),
    };
    assert_eq!(c.get_credits(got(200, "{\"credits\": -7}")), Ok(-7));
    assert_eq!(c.adjust_credits(got(299, "{\"credits\": 8}")), Ok(8));
    assert_eq!(
        c.get_credits(got(500, "oops")),
        Err("Credits API error 500 S: oops".to_string())
    );
    assert_eq!(
        c.adjust_credits(got(200, "{\"credits\": \"8\"}")),
        Err("Missing 'credits' field in response: {\"credits\": \"8\"}".to_string())
    );
    assert!(c.get_credits(got(200, "{")).unwrap_err().starts_with("Invalid credits JSON: EOF"));
    assert_eq!(
        c.get_credits(CreditsReply::Failed("e".to_string())),
        Err("Credits API request failed: e".to_string())
    );
    assert_eq!(
        c.adjust_credits(CreditsReply::Unread("e".to_string())),
        Err("Failed to read credits response: e".to_string())
    );
    assert_eq!(read_balance(Err("e".to_string()), "b"), Err("Invalid credits JSON: e".to_string()));
}

// ---------------------------------------------------------------------------
// Inference
// ---------------------------------------------------------------------------

fn request(messages: Vec<ChatMessage>) -> ChatRequest {
    ChatRequest {
        messages,
        model: Some("auto".to_string()),
        temperature: None,
        max_tokens: Some(9),
        stream: None,
        tools: None,
        tool_choice: None,
        payment_type: Some("x402".to_string()),
    }
}

#[test]
fn an_openai_request_is_adjusted() {
    let c = InferenceClient::new("https://up", "k", "gpt", "openai");
    let r = c.chat_request(&request(vec![ChatMessage::user("hi")]));
    assert!(!c.is_anthropic());
    assert_eq!(r.url, "https://up");
    assert_eq!(
        r.headers,
        vec![
            ("Authorization".to_string(), "Bearer k".to_string()),
            ("Content-Type".to_string(), "application/json".to_string()),
        ]
    );
    assert_eq!(
        value(&r.body),
        read("{\"model\":\"gpt\",\"max_completion_tokens\":9,\"messages\":[{\"role\":\"user\",\"content\":\"hi\"}]}")
    );
}

#[test]
fn a_kimi_request_does_not_think() {
    let c = InferenceClient::new("u", "k", "kimi", "kimi").copy();
    let r = c.chat_request(&request(vec![]));
    assert_eq!(
        value(&r.body),
        read("{\"model\":\"kimi\",\"max_tokens\":9,\"messages\":[],\"thinking\":{\"type\":\"disabled\"}}")
    );
    let m = InferenceClient::new("u", "k", "mini", "minimax");
    assert_eq!(
        value(&m.chat_request(&request(vec![])).body),
        read("{\"model\":\"mini\",\"max_tokens\":9,\"messages\":[]}")
    );
}

#[test]
fn an_anthropic_request_is_converted() {
    let c = InferenceClient::new("u", "k", "sonnet", "anthropic");
    assert!(c.is_anthropic());
    let mut calls = ChatMessage::assistant("");
    calls.tool_calls = Some(vec![
        ToolCall {
            id: "1".to_string(),
            call_type: "function".to_string(),
            function: FunctionCall { name: "f".to_string(), arguments: "{\"a\":1}".to_string() },
        },
        ToolCall {
            id: "2".to_string(),
            call_type: "function".to_string(),
            function: FunctionCall { name: "g".to_string(), arguments: "oops".to_string() },
        },
    ]);
    let mut req = request(vec![
        ChatMessage::system("one"),
        ChatMessage::user("hi"),
        ChatMessage::system("two"),
        calls,
        ChatMessage::tool_result("1", "done"),
        ChatMessage::assistant("ok"),
    ]);
    req.max_tokens = None;
    req.temperature = Some(json("0.5"));
    req.tools = Some(vec![Tool {
        tool_type: "function".to_string(),
        function: FunctionDefinition {
            name: "f".to_string(),
            description: "d".to_string(),
            parameters: json("{\"type\":\"object\"}"),
        },
    }]);
    req.tool_choice = Some(json("{\"function\":{\"name\":\"f\"}}"));
    let r = c.chat_request(&req);
    assert_eq!(
        r.headers,
        vec![
            ("x-api-key".to_string(), "k".to_string()),
            ("anthropic-version".to_string(), "2023-06-01".to_string()),
            ("Content-Type".to_string(), "application/json".to_string()),
        ]
    );
    let expected = "{\"model\":\"sonnet\",\"system\":\"one\\n\\ntwo\",\"max_tokens\":8192,\
        \"temperature\":0.5,\"messages\":[{\"role\":\"user\",\"content\":\"hi\"},\
        {\"role\":\"assistant\",\"content\":[\
        {\"type\":\"tool_use\",\"id\":\"1\",\"name\":\"f\",\"input\":{\"a\":1}},\
        {\"type\":\"tool_use\",\"id\":\"2\",\"name\":\"g\",\"input\":{}}]},\
        {\"role\":\"user\",\"content\":[{\"type\":\"tool_result\",\"tool_use_id\":\"1\",\"content\":\"done\"}]},\
        {\"role\":\"assistant\",\"content\":\"ok\"}],\
        \"tools\":[{\"name\":\"f\",\"description\":\"d\",\"input_schema\":{\"type\":\"object\"}}],\
        \"tool_choice\":{\"type\":\"tool\",\"name\":\"f\"}}";
    assert_eq!(value(&r.body), read(expected));
    for (choice, kind) in [
        ("\"auto\"", "auto"),
        ("\"none\"", "any"),
        ("\"required\"", "any"),
        ("\"other\"", "auto"),
        ("{\"function\":{}}", "auto"),
        ("{}", "auto"),
    ] {
        req.tool_choice = Some(json(choice));
        let v = value(&c.chat_request(&req).body);
        assert_eq!(v["tool_choice"], read(&format!("{{\"type\":\"{}\"}}", kind)));
    }
    req.tools = None;
    assert_eq!(value(&c.chat_request(&req).body).get("tool_choice"), None);
}

#[test]
fn arguments_that_cannot_be_read_are_empty() {
    assert_eq!(value(&input_or_empty(Err("e".to_string()))), read("{}"));
    assert_eq!(value(&input_or_empty(Ok(json("[1]")))), read("[1]"));
}

#[test]
fn upstream_errors_are_reported() {
    let c = InferenceClient::new("u", "k", "m", "openai");
    let a = InferenceClient::new("u", "k", "m", "anthropic");
    let text = |r: Result<String, AppError>| match r {
        Err(AppError::InferenceBackend(m)) => m,
        _ => panic!("no error"),
    };
    assert_eq!(text(c.chat(UpstreamReply::Failed("e".to_string()))), "Connection failed: e");
    assert_eq!(
        text(c.chat(UpstreamReply::Refused {
            status: "401 Unauthorized".to_string(),
            body: "no".to_string()
        })),
        "API returned 401 Unauthorized: no"
    );
    assert_eq!(
        text(c.chat(UpstreamReply::Unread("e".to_string()))),
        "Failed to read response: e"
    );
    assert!(matches!(c.chat(UpstreamReply::Body("b".to_string())), Ok(b) if b == "b"));
    match InferenceClient::invalid_response("e") {
        AppError::InferenceBackend(m) => assert_eq!(m, "Invalid response: e"),
        _ => panic!("another error"),
    }
    match a.chat_anthropic(UpstreamReply::Body("{".to_string())) {
        Err(AppError::InferenceBackend(m)) => assert!(m.starts_with("Invalid response: EOF")),
        _ => panic!("no error"),
    }
    match a.chat_anthropic(UpstreamReply::Failed("e".to_string())) {
        Err(AppError::InferenceBackend(m)) => assert_eq!(m, "Connection failed: e"),
        _ => panic!("no error"),
    }
}

#[test]
fn an_anthropic_response_is_converted() {
    let a = InferenceClient::new("u", "k", "sonnet", "anthropic");
    let body = "{\"id\":\"msg_1\",\"model\":\"c\",\"stop_reason\":\"tool_use\",\"content\":[\
        {\"type\":\"text\",\"text\":\"Hel\"},{\"type\":\"image\"},{\"type\":\"text\",\"text\":\"lo\"},\
        {\"type\":\"tool_use\",\"id\":\"t\",\"name\":\"f\",\"input\":{\"a\":1}},{\"type\":\"tool_use\"}],\
        \"usage\":{\"input_tokens\":4294967297,\"output_tokens\":2}}";
    let r = a.chat_anthropic(UpstreamReply::Body(body.to_string())).unwrap();
    assert_eq!(
        value(&r.to_json()),
        read("{\"id\":\"msg_1\",\"object\":\"chat.completion\",\"created\":0,\"model\":\"c\",\
            \"choices\":[{\"index\":0,\"finish_reason\":\"tool_calls\",\"message\":\
            {\"role\":\"assistant\",\"content\":\"Hello\",\"tool_calls\":[\
            {\"id\":\"t\",\"type\":\"function\",\"function\":{\"name\":\"f\",\"arguments\":\"{\\\"a\\\":1}\"}},\
            {\"id\":\"call_unknown\",\"type\":\"function\",\"function\":{\"name\":\"\",\"arguments\":\"{}\"}}]}}],\
            \"usage\":{\"prompt_tokens\":1,\"completion_tokens\":2,\"total_tokens\":3}}")
    );
    let bare = a.anthropic_to_openai_response(&json("{}"));
    assert_eq!(bare.id, "msg_unknown");
    assert_eq!(bare.model, "sonnet");
    assert!(bare.choices[0].message.content.is_none());
    assert!(bare.choices[0].message.tool_calls.is_none());
    assert!(bare.choices[0].finish_reason.is_none());
    assert!(bare.usage.is_none());
}

#[test]
fn stop_reasons_are_mapped() {
    let a = InferenceClient::new("u", "k", "m", "anthropic");
    for (from, to) in [
        ("end_turn", "stop"),
        ("tool_use", "tool_calls"),
        ("max_tokens", "length"),
        ("stop_sequence", "stop"),
        ("refusal", "refusal"),
    ] {
        let r = a.anthropic_to_openai_response(&json(&format!("{{\"stop_reason\":\"{}\"}}", from)));
        assert_eq!(r.choices[0].finish_reason, Some(to.to_string()));
    }
}

// ---------------------------------------------------------------------------
// Sessions, payers and nonces
// ---------------------------------------------------------------------------

fn ttl(v: &str) -> EnvVars {
    EnvVars { vars: vec![("SESSION_TTL_SECS".to_string(), v.to_string())] }
}

#[test]
fn a_session_reads_back() {
    let mut m = SessionManager::new(60);
    let (token, expires) =
        m.create_session_at("0xA", 8453, "token".to_string(), 1000);
    assert_eq!((token.as_str(), expires), ("token", 1060));
    let s = m.validate("token").unwrap();
    assert_eq!(s.wallet_address, "0xA");
    assert_eq!((s.chain_id, s.created_at, s.expires_at), (8453, 1000, 1060));
    assert!(m.validate("other").is_none());
    assert_eq!(m.ttl_secs(), 60);
}

#[test]
fn sessions_have_tokens_of_their_own() {
    let mut m = SessionManager::new(60);
    let (a, _) = m.create_session("0xa", 1);
    let (b, _) = m.create_session("0xb", 1);
    assert!(a != b);
    assert_eq!(a.len(), 36);
    assert_eq!(m.validate(&a).unwrap().wallet_address, "0xa");
    assert_eq!(m.validate(&b).unwrap().wallet_address, "0xb");
}

#[test]
fn the_lifetime_of_sessions_is_read() {
    assert_eq!(session_ttl_secs(&ttl("7")), 7);
    assert_eq!(session_ttl_secs(&ttl("-7")), DEFAULT_SESSION_TTL_SECS);
    assert_eq!(session_ttl_secs(&EnvVars { vars: vec![] }), 3600);
    assert_eq!(SessionManager::from_env(&ttl("7")).ttl_secs(), 7);
}

#[test]
fn payers_are_remembered() {
    let mut c = VerificationCache::with_default_ttl();
    assert!(!c.is_verified("0xAB"));
    assert!(!c.has_recent_failure("0xAB"));
    c.mark_verified("0xAB");
    assert!(c.is_verified("0xAB"));
    assert!(!c.is_verified("0xab"));
    c.record_failure("0xAB");
    assert!(c.is_verified("0xAB"));
    assert!(c.has_recent_failure("0xAB"));
    c.mark_verified("0xAB");
    assert!(!c.has_recent_failure("0xAB"));
    assert_eq!(c.stats(), (2, 2, 1));
}

#[test]
fn a_nonce_is_used_once() {
    let mut n = NonceTracker::new(60_000);
    assert!(n.try_use_nonce("a"));
    assert!(!n.try_use_nonce("a"));
    assert!(n.try_use_nonce("A"));
}

#[test]
fn a_nonce_counts_as_used_for_its_life() {
    let mut n = NonceTracker::new(2);
    assert!(n.try_use_nonce_at("a", 10));
    assert!(n.try_use_nonce_at("b", 1_000_000));
    assert!(!n.try_use_nonce_at("a", 2_000_009));
    assert!(n.try_use_nonce_at("a", 2_000_010));
    assert!(!n.try_use_nonce_at("b", 2_000_010));
    assert!(!n.try_use_nonce_at("a", 4_000_009));
    assert!(n.try_use_nonce_at("b", 4_000_009));
    // A clock that is set back finds what was used later.
    assert!(!n.try_use_nonce_at("b", 0));
    let start = std::time::Instant::now();
    let mut n = NonceTracker::new(50);
    assert!(n.try_use_nonce("a"));
    while start.elapsed().as_millis() < 120 {}
    assert!(n.try_use_nonce("a"));
}

#[test]
fn what_was_noted_counts_for_its_life() {
    assert!(still_counts(Some(5), 5, 1));
    assert!(still_counts(Some(5), 14, 10));
    assert!(!still_counts(Some(5), 15, 10));
    assert!(still_counts(Some(5), 0, 1));
    assert!(!still_counts(Some(5), 5, 0));
    assert!(!still_counts(None, 5, 10));
}

#[test]
fn what_a_lookup_finds_is_taken_up() {
    let s = session_found(Some(("0xa".to_string(), 7, 1, 2))).unwrap();
    assert_eq!(s.wallet_address, "0xa");
    assert_eq!((s.chain_id, s.created_at, s.expires_at), (7, 1, 2));
    assert!(session_found(None).is_none());
    let mut c = VerificationCache::with_default_ttl();
    assert!(!c.failure_found(false));
    assert!(c.failure_found(true));
    assert!(c.lookup_found(true));
    assert!(!c.lookup_found(false));
    assert!(!c.lookup_found(false));
    assert_eq!(c.stats(), (1, 2, 1));
}

#[test]
fn times_are_counted_in_nanoseconds() {
    assert_eq!(nanos_at(2, 5), 2_000_000_005);
    assert_eq!(nanos_at(-1, 0), -1_000_000_000);
}

#[test]
fn a_verification_counts_for_its_time() {
    let mut c = VerificationCache::new(200);
    c.mark_verified("0xa");
    c.record_failure("0xa");
    assert!(c.is_verified("0xa"));
    assert!(!c.is_verified("0xb"));
    let start = std::time::Instant::now();
    while start.elapsed().as_millis() < 300 {}
    assert!(!c.is_verified("0xa"));
    assert!(c.has_recent_failure("0xa"));
    assert_eq!(c.stats(), (1, 2, 1));
}

#[test]
fn verifications_and_refusals_count_at_given_times() {
    let mut c = VerificationCache::with_default_ttl();
    c.mark_verified_at("0xa", 1000);
    c.record_failure_at("0xa", 2000);
    assert!(c.is_verified_at("0xa", 30_000_000_999));
    assert!(!c.is_verified_at("0xa", 30_000_001_000));
    assert!(!c.is_verified_at("0xb", 1000));
    assert!(c.has_recent_failure_at("0xa", 60_000_001_999));
    assert!(!c.has_recent_failure_at("0xa", 60_000_002_000));
    c.mark_verified_at("0xa", 40_000_000_000);
    assert!(c.is_verified_at("0xa", 69_999_999_999));
    assert!(!c.has_recent_failure_at("0xa", 40_000_000_000));
    assert_eq!(c.stats(), (2, 2, 1));
}
