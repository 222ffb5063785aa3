use base64::Engine;
use inference_super_router::config::{EnvVars, GlobalConfig};
use inference_super_router::endpoints::{EndpointDef, ResolvedEndpoint};
use inference_super_router::erc8128::{Erc8128Error, Erc8128Identity, Erc8128Signer};
use inference_super_router::http::{extract_bearer_token, Body, Headers, HttpRequest, Reply};
use inference_super_router::json::Json;
use inference_super_router::middleware::credits_or_x402::{CreditsOrX402Middleware, CreditsStep};
use inference_super_router::middleware::unified::{
    make_unknown_model, DispatchStep, PayMode, UnifiedDispatchMiddleware,
};
use inference_super_router::middleware::x402::{
    make_payment_response_header, payment_response_json, Moment, PaymentServices, VerifyTask,
    X402Middleware, X402Step,
};
use inference_super_router::payment::EndpointPaymentConfig;
use inference_super_router::routes::{
    balance_session_known, build_registry, credits_balance_handler, credits_session_handler, endpoints_handler,
    health_handler, metrics_handler, root_handler, session_balance_known, session_for,
    show_balance, show_session, AccountStep,
};
use inference_super_router::services::facilitator::VerifyResult;
use inference_super_router::services::nonce_tracker::NonceTracker;
use inference_super_router::services::rate_limiter::RateLimiter;
use inference_super_router::services::session_manager::SessionManager;
use inference_super_router::services::settlement_queue::SettlementQueue;
use inference_super_router::services::settlement_store::{SettlementStatus, SettlementStore};
use inference_super_router::services::settlement_worker::SettlementMetrics;
use inference_super_router::services::verification_cache::VerificationCache;
use serde_json::Value;

const WALLET: &str = "0x1111111111111111111111111111111111111111";
const KEY: &str = "0x4c0883a69102937d6231471b5dbb6204fe5129617082792ae468d01a3f362318";
const NONCE: &str = "123e4567-e89b-42d3-a456-426614174000";
const SIGNER: &str = "0x2c7536e3605d9c16a7a3d7b1898e529396a65c23";

fn config(test_mode: bool) -> GlobalConfig {
    let mut vars = vec![
        ("BOT_WALLET_ADDRESS".to_string(), WALLET.to_string()),
        ("FACILITATOR_URL".to_string(), "https://f".to_string()),
        ("BASE_URL".to_string(), "https://b/".to_string()),
    ];
    if test_mode {
        vars.push(("TEST_MODE".to_string(), "true".to_string()));
    }
    GlobalConfig::from_env(&EnvVars { vars }).unwrap()
}

fn endpoint(name: &str, currency: &str, cost: &str, credit_cost: i64) -> ResolvedEndpoint {
    ResolvedEndpoint {
        def: EndpointDef {
            name: name.to_string(),
            route_prefix: format!("/{}/", name),
            api_endpoint: "https://up".to_string(),
            api_key_env: "KEY".to_string(),
            model: "m".to_string(),
            archetype: "openai".to_string(),
            cost: cost.to_string(),
            payment_currency: currency.to_string(),
            max_input_tokens: 10,
            max_output_tokens: 20,
            system_prompt_file: None,
            description: format!("About {}", name),
            credit_cost,
        },
        api_key: "k".to_string(),
        system_prompt: None,
    }
}

fn x402(test_mode: bool, currency: &str, advertise: bool) -> X402Middleware {
    let c = config(test_mode);
    let p = EndpointPaymentConfig::from_config_and_endpoint(
        &c,
        &endpoint("kimi", currency, "1000", 0).def,
    );
    X402Middleware::new(&c, p, advertise)
}

fn services(max: usize) -> PaymentServices {
    let store = SettlementStore::open_in_memory().unwrap();
    PaymentServices {
        rate_limiter: RateLimiter::new(5),
        nonce_tracker: NonceTracker::new(1000),
        settlement_queue: SettlementQueue::with_store_and_max_size(store, max, 0).unwrap(),
        verification_cache: VerificationCache::with_default_ttl(),
    }
}

fn at(stamp: i64) -> Moment {
    Moment { limiter: 0, nonces: 0, payers: 0, now: 0, stamp }
}

/// The moment some nanoseconds after the first.
fn after(nanos: u128) -> Moment {
    Moment { limiter: nanos, nonces: nanos, payers: nanos, now: nanos as i128, stamp: 0 }
}

fn header(json: &str) -> Option<String> {
    Some(base64::engine::general_purpose::STANDARD.encode(json))
}

fn payment(payer: &str, nonce: &str) -> Option<String> {
    header(&format!(
        "{{\"x402Version\":2,\"payload\":{{\"authorization\":{{\"from\":\"{}\",\"nonce\":\"{}\"}}}}}}",
        payer, nonce
    ))
}

fn text(reply: &Reply) -> &str {
    match &reply.body {
        Body::Text(t) => t,
        Body::Json(_) => panic!("json"),
    }
}

fn body(reply: &Reply) -> Value {
    match &reply.body {
        Body::Json(j) => serde_json::from_str(&j.to_text()).unwrap(),
        Body::Text(_) => panic!("text"),
    }
}

fn error(reply: &Reply) -> (u16, String) {
    (reply.status, body(reply)["error"].as_str().unwrap().to_string())
}

fn decoded(value: &str) -> Value {
    let bytes = base64::engine::general_purpose::STANDARD.decode(value).unwrap();
    serde_json::from_slice(&bytes).unwrap()
}

fn refused(step: X402Step) -> Reply {
    match step {
        X402Step::Refuse(r) => r,
        _ => panic!("not refused"),
    }
}

fn alongside(step: X402Step) -> VerifyTask {
    match step {
        X402Step::VerifyAlongside(t) => t,
        _ => panic!("not verified alongside"),
    }
}

fn valid() -> Result<VerifyResult, String> {
    Ok(VerifyResult { is_valid: true, payer: None, invalid_reason: None })
}

fn invalid(reason: Option<&str>) -> Result<VerifyResult, String> {
    Ok(VerifyResult {
        is_valid: false,
        payer: None,
        invalid_reason: reason.map(|r| r.to_string()),
    })
}

// ---------------------------------------------------------------------------
// Payment by x402
// ---------------------------------------------------------------------------

#[test]
fn test_mode_asks_for_nothing() {
    let mut s = services(10);
    let step = x402(true, "usdc", false).handle_x402_payment(&mut s, "/chat", &None);
    assert!(matches!(step, X402Step::Serve));
}

#[test]
fn an_unpaid_request_is_asked_to_pay() {
    let mut s = services(10);
    let r = refused(x402(false, "usdc", false).handle_x402_payment(&mut s, "/chat", &None));
    assert_eq!(r.status, 402);
    assert_eq!(text(&r), "Payment required. See payment-required header for details.");
    assert_eq!(r.headers.len(), 1);
    assert_eq!(r.headers[0].0, "payment-required");
    assert_eq!(decoded(&r.headers[0].1)["accepts"][0]["resource"], "/chat");
    let r = refused(x402(false, "starkbot", true).handle_at(&mut s, "/chat", &None, at(0)));
    assert_eq!(r.status, 402);
    assert_eq!(body(&r)["accepts"][0]["scheme"], "permit");
    assert!(r.headers.contains(&("x-erc8128-credits".to_string(), "true".to_string())));
}

#[test]
fn an_unreadable_payment_is_refused() {
    let mut s = services(10);
    let m = x402(false, "usdc", false);
    let r = refused(m.handle_at(&mut s, "/", &Some("*".to_string()), at(0)));
    assert_eq!(r.status, 402);
    assert!(text(&r).starts_with("Invalid payment encoding: "));
    let r = refused(m.handle_at(&mut s, "/", &header("{"), at(0)));
    assert_eq!(r.status, 402);
    assert!(text(&r).starts_with("Invalid payment JSON: EOF"));
}

#[test]
fn a_new_payer_is_verified_alongside() {
    let mut s = services(10);
    let m = x402(false, "usdc", false);
    let t = alongside(m.handle_at(&mut s, "/chat", &payment("0xa", "n"), at(0)));
    assert_eq!(t.payer, Some("0xa".to_string()));
    assert_eq!(t.nonce, "n");
    assert_eq!(t.verify_request.get("x402Version").unwrap().as_u64(), Some(2));
    match m.conclude(&mut s, &t, valid(), Some(true), after(7)) {
        X402Step::ServePaid(h) => {
            let v = decoded(&h);
            assert_eq!(v["success"], true);
            assert_eq!(v["error"], Value::Null);
            assert_eq!(v["x402Version"], 2);
        }
        _ => panic!("not served"),
    }
    assert_eq!(s.settlement_queue.len(), 1);
    assert_eq!(s.settlement_queue.store().rows()[0].nonce, "n");
    assert_eq!(s.settlement_queue.store().rows()[0].queued_at, 7);
    // The payer is known now.
    let step = m.handle_at(&mut s, "/chat", &payment("0xa", "n2"), at(0));
    assert!(matches!(step, X402Step::ServePaid(_)));
    assert_eq!(s.settlement_queue.len(), 2);
}

#[test]
fn a_payer_who_failed_is_verified_first() {
    let mut s = services(10);
    let m = x402(false, "usdc", true);
    let t = alongside(m.handle_at(&mut s, "/", &payment("0xa", "1"), at(0)));
    let r = refused(m.conclude(&mut s, &t, invalid(Some("poor")), Some(true), at(0)));
    assert_eq!(r.status, 402);
    assert_eq!(text(&r), "Payment verification failed: poor");
    assert_eq!(r.headers[0].0, "payment-response");
    assert_eq!(decoded(&r.headers[0].1)["error"], "poor");
    assert_eq!(s.settlement_queue.len(), 0);
    let t = match m.handle_at(&mut s, "/", &payment("0xa", "2"), at(0)) {
        X402Step::VerifyFirst(t) => t,
        _ => panic!("not verified first"),
    };
    let r = refused(m.conclude(&mut s, &t, invalid(None), None, at(0)));
    assert_eq!(text(&r), "Payment verification failed: Payment verification failed");
    let r = refused(m.conclude(&mut s, &t, Err("gone".to_string()), None, at(0)));
    assert_eq!((r.status, text(&r)), (502, "Facilitator error: gone"));
    let r = refused(m.conclude(&mut s, &t, invalid(Some("poor")), Some(false), at(0)));
    assert_eq!((r.status, text(&r)), (402, "poor"));
    let step = m.conclude(&mut s, &t, valid(), None, at(0));
    assert!(matches!(step, X402Step::ServePaid(_)));
}

#[test]
fn what_the_cache_says_decides_how_a_payment_is_taken() {
    let m = x402(false, "usdc", false);
    let payload = Json::parse(b"{\"from\":\"0xa\",\"nonce\":\"n\"}").unwrap();
    let task = |s: &mut PaymentServices| m.screen_payment(s, "/", &payload, at(0)).unwrap();
    let mut s = services(1);
    let t = task(&mut s);
    assert_eq!((t.payer.as_deref(), t.nonce.as_str()), (Some("0xa"), "n"));
    assert!(matches!(m.route_known(&mut s, t, at(0), false, true), X402Step::VerifyFirst(_)));
    assert_eq!(s.verification_cache.stats(), (0, 1, 1));
    assert_eq!(m.screen_payment(&mut s, "/", &payload, at(0)).err().unwrap().status, 402);
    let mut s = services(1);
    let t = task(&mut s);
    assert!(matches!(m.route_known(&mut s, t, at(0), false, false), X402Step::VerifyAlongside(_)));
    let mut s = services(1);
    let t = task(&mut s);
    assert!(matches!(m.route_known(&mut s, t, at(0), true, true), X402Step::ServePaid(_)));
    assert_eq!(s.settlement_queue.len(), 1);
    assert_eq!(s.verification_cache.stats(), (1, 0, 0));
}

#[test]
fn a_replayed_payment_is_refused() {
    let mut s = services(10);
    let m = x402(false, "usdc", false);
    alongside(m.handle_at(&mut s, "/", &payment("0xa", "n"), at(0)));
    let r = refused(m.handle_at(&mut s, "/", &payment("0xb", "n"), at(0)));
    assert_eq!((r.status, text(&r)), (402, "Payment rejected: nonce already used"));
}

#[test]
fn a_nonce_is_refused_for_its_life() {
    let mut s = services(10);
    let m = x402(false, "usdc", false);
    alongside(m.handle_at(&mut s, "/", &payment("0xa", "n"), at(0)));
    let r = refused(m.handle_at(&mut s, "/", &payment("0xa", "n"), after(999_999_999)));
    assert_eq!((r.status, text(&r)), (402, "Payment rejected: nonce already used"));
    alongside(m.handle_at(&mut s, "/", &payment("0xa", "n"), after(1_000_000_000)));
    refused(m.handle_at(&mut s, "/", &payment("0xa", "n"), after(1_000_000_001)));
}

#[test]
fn a_payer_is_served_at_once_for_half_a_minute() {
    let mut s = services(10);
    let m = x402(false, "usdc", false);
    let t = alongside(m.handle_at(&mut s, "/", &payment("0xa", "1"), at(0)));
    m.conclude(&mut s, &t, valid(), Some(true), after(5));
    let step = m.handle_at(&mut s, "/", &payment("0xa", "2"), after(30_000_000_004));
    assert!(matches!(step, X402Step::ServePaid(_)));
    alongside(m.handle_at(&mut s, "/", &payment("0xa", "3"), after(30_000_000_005)));
    assert_eq!(s.verification_cache.stats(), (1, 2, 0));
}

#[test]
fn the_services_tell_the_moment() {
    let s = services(10);
    let first = s.now();
    let second = s.now();
    assert!(first.limiter <= second.limiter);
    assert!(first.nonces <= second.nonces);
    assert!(first.payers <= second.payers);
    assert!(first.now > 1_600_000_000_000_000_000);
    assert!(first.stamp > 1_600_000_000_000_000_000);
}

#[test]
fn a_payer_is_limited() {
    let mut s = services(10);
    let m = x402(false, "usdc", false);
    for i in 0..5 {
        alongside(m.handle_at(&mut s, "/", &payment("0xa", &format!("{}", i)), at(0)));
    }
    let r = refused(m.handle_at(&mut s, "/", &payment("0xa", "6"), at(0)));
    assert_eq!(r.status, 429);
    assert_eq!(text(&r), "Rate limit exceeded: maximum 5 requests per second per address");
    assert_eq!(r.headers[0], ("Retry-After".to_string(), "1".to_string()));
}

#[test]
fn a_full_queue_turns_requests_away() {
    let mut s = services(0);
    let m = x402(false, "usdc", false);
    let full = "Service temporarily unavailable: settlement queue full";
    let r = refused(m.handle_at(&mut s, "/", &payment("0xa", "1"), at(0)));
    assert_eq!((r.status, text(&r)), (503, full));
    s.verification_cache.mark_verified("0xa");
    let r = refused(m.handle_at(&mut s, "/", &payment("0xa", "2"), at(0)));
    assert_eq!((r.status, text(&r)), (503, full));
}

#[test]
fn starkbot_is_always_verified_alongside() {
    let mut s = services(0);
    let m = x402(false, "starkbot", false);
    s.verification_cache.mark_verified("0xa");
    let h = header("{\"owner\":\"0xa\",\"nonce\":\"n\"}");
    for _ in 0..7 {
        let t = alongside(m.handle_at(&mut s, "/", &h, at(0)));
        assert_eq!(t.nonce, "n");
    }
    let t = alongside(m.handle_at(&mut s, "/", &header("{}"), at(42)));
    assert_eq!(t.nonce, "gen-42");
    assert_eq!(t.payer, None);
    let t = alongside(m.take_payment(&mut s, "/", &Json::parse(b"{}").unwrap(), at(43)));
    assert_eq!(t.nonce, "gen-43");
}

#[test]
fn a_payment_without_a_nonce_gets_one_from_the_clock() {
    let mut s = services(5);
    let m = x402(false, "starkbot", false);
    let t = alongside(m.handle_x402_payment(&mut s, "/", &header("{}")));
    let stamp: i64 = t.nonce.strip_prefix("gen-").unwrap().parse().unwrap();
    assert!(stamp > 1_600_000_000_000_000_000);
}

#[test]
fn payment_responses_are_written() {
    assert_eq!(
        payment_response_json(false, Some("e")).to_text(),
        "{\"error\":\"e\",\"success\":false,\"x402Version\":2}"
    );
    assert_eq!(decoded(&make_payment_response_header(true, None))["success"], true);
}

// ---------------------------------------------------------------------------
// Credits
// ---------------------------------------------------------------------------

fn get(path: &str, headers: &[(&str, &str)]) -> HttpRequest {
    HttpRequest {
        method: "GET".to_string(),
        path: path.to_string(),
        query_string: "".to_string(),
        headers: Headers {
            entries: headers
                .iter()
                .map(|(k, v)| (k.to_string(), Some(v.to_string())))
                .collect(),
        },
    }
}

fn signed(path: &str, now: i64) -> HttpRequest {
    let signer = Erc8128Signer::from_private_key(KEY, 8453).unwrap();
    let h = signer.sign_request_at("GET", "h", path, None, None, now, NONCE).unwrap();
    get(
        path,
        &[
            ("host", "h"),
            ("signature-input", &h.signature_input),
            ("signature", &h.signature),
        ],
    )
}

#[test]
fn a_signed_request_pays_with_credits() {
    let m = CreditsOrX402Middleware::new(&config(false), 3);
    let wallet = match m.begin(&signed("/chat", 1000), b"", 1000) {
        CreditsStep::AskBalance(w) => w,
        _ => panic!("no balance asked"),
    };
    assert_eq!(wallet, SIGNER);
    match m.balance_known(wallet.clone(), Ok(3)) {
        CreditsStep::Deduct { wallet, delta } => assert_eq!((wallet.as_str(), delta), (SIGNER, -3)),
        _ => panic!("not deducted"),
    }
    assert!(matches!(m.deducted(Ok(0)), CreditsStep::Serve));
    assert!(matches!(m.balance_known(wallet.clone(), Ok(2)), CreditsStep::PayX402));
    assert!(matches!(m.balance_known(wallet, Err("e".to_string())), CreditsStep::PayX402));
    assert!(matches!(m.deducted(Err("e".to_string())), CreditsStep::PayX402));
}

#[test]
fn requests_without_credits_pay_by_x402() {
    let m = CreditsOrX402Middleware::new(&config(false), 3);
    assert!(matches!(m.begin(&get("/", &[]), b"", 0), CreditsStep::PayX402));
    assert!(matches!(m.begin(&signed("/chat", 1000), b"", 2000), CreditsStep::PayX402));
    assert!(matches!(m.verified(Err(Erc8128Error::Expired)), CreditsStep::PayX402));
    let t = CreditsOrX402Middleware::new(&config(true), 3);
    assert!(matches!(t.begin(&get("/", &[]), b"", 0), CreditsStep::Serve));
}

// ---------------------------------------------------------------------------
// Dispatch
// ---------------------------------------------------------------------------

fn endpoints() -> Vec<ResolvedEndpoint> {
    vec![
        endpoint("minimax", "starkbot", "50000", 0),
        endpoint("Kimi", "usdc", "1000", 4),
        endpoint("gpt", "usdc", "x", 9),
    ]
}

fn dispatcher(x402: bool, credits: bool) -> UnifiedDispatchMiddleware {
    let registry = build_registry(&config(false), &endpoints(), credits);
    UnifiedDispatchMiddleware::new(registry, x402, credits)
}

fn turned_away(step: DispatchStep) -> (u16, String) {
    match step {
        DispatchStep::Refuse(r) => error(&r),
        _ => panic!("not refused"),
    }
}

#[test]
fn a_registry_has_its_default() {
    let r = build_registry(&config(false), &endpoints(), true);
    assert_eq!(r.default_model, "Kimi");
    assert_eq!(r.models.len(), 3);
    assert_eq!(r.lookup("KIMI").unwrap().credit_cost, 4);
    assert!(r.lookup("KIMI").unwrap().takes_credits(true));
    assert!(!r.lookup("KIMI").unwrap().takes_credits(false));
    assert!(!r.lookup("minimax").unwrap().takes_credits(true));
    assert!(r.lookup("other").is_none());
    let r = build_registry(&config(false), &endpoints(), false);
    assert_eq!(r.default_model, "minimax");
    assert_eq!(r.lookup("Kimi").unwrap().credit_cost, 0);
    let mut twice = endpoints();
    twice.push(endpoint("gpt", "usdc", "7", 1));
    let r = build_registry(&config(false), &twice, true);
    assert_eq!(r.models.len(), 3);
    assert_eq!(r.lookup("gpt").unwrap().credit_cost, 1);
}

#[test]
fn a_model_is_selected() {
    let m = dispatcher(true, true);
    for body in ["", "{", "[]", "{}", "{\"model\":\"\"}", "{\"model\":\"auto\"}", "{\"model\":5}"] {
        let d = m.dispatch(body.as_bytes()).unwrap();
        assert_eq!(d.model_key, "Kimi");
        assert_eq!(m.registry.models[d.index].0, "Kimi");
        assert_eq!(d.credit_cost, 4);
        assert!(d.credits_available);
        assert!(matches!(d.mode, PayMode::Auto));
    }
    let d = m.dispatch(b"{\"model\":\"GPT\",\"payment_type\":\"x402\"}").unwrap();
    assert_eq!(d.model_key, "GPT");
    assert_eq!(m.registry.models[d.index].0, "gpt");
    assert!(matches!(d.mode, PayMode::X402));
}

#[test]
fn an_unknown_model_is_refused() {
    let m = dispatcher(true, true);
    let r = m.dispatch(b"{\"model\":\"nope\"}").err().unwrap();
    assert_eq!(
        error(&r),
        (
            400,
            "Unknown model: 'nope'. Available models: [\"Kimi\", \"gpt\", \"minimax\", \"auto\"]"
                .to_string()
        )
    );
    assert_eq!(
        body(&r)["available_models"],
        serde_json::from_str::<Value>("[\"Kimi\",\"gpt\",\"minimax\",\"auto\"]").unwrap()
    );
    let r = make_unknown_model("k", &vec!["a".to_string()], "[shown]");
    assert_eq!(error(&r).1, "Unknown model: 'k'. Available models: [shown]");
}

#[test]
fn payment_types_are_checked() {
    let refuse = |m: &UnifiedDispatchMiddleware, body: &str| {
        error(&m.dispatch(body.as_bytes()).err().unwrap())
    };
    let all = dispatcher(true, true);
    assert_eq!(
        refuse(&all, "{\"payment_type\":\"cash\"}"),
        (
            400,
            "Unknown payment_type: 'cash'. Valid values: \"auto\", \"credits\", \"x402\"".to_string()
        )
    );
    assert_eq!(
        refuse(&all, "{\"model\":\"minimax\",\"payment_type\":\"credits\"}"),
        (
            400,
            "Model 'minimax' does not support credits payment. Use payment_type \"x402\" or \"auto\"."
                .to_string()
        )
    );
    assert_eq!(
        refuse(&dispatcher(false, true), "{\"payment_type\":\"x402\"}"),
        (400, "x402 on-chain payment is currently disabled. Please use credits.".to_string())
    );
}

#[test]
fn a_session_pays_with_credits() {
    let m = dispatcher(true, true);
    let mut sessions = SessionManager::new(600);
    let (token, _) = sessions.create_session("0xw", 1);
    let d = m.dispatch(b"{}").unwrap();
    let req = get("/chat", &[("authorization", &format!("Bearer {}", token))]);
    match m.begin(&sessions, &d, &req, b"{}", 0) {
        DispatchStep::AskBalance(w) => assert_eq!(w, "0xw"),
        _ => panic!("no balance asked"),
    }
    match m.balance_known(&d, "0xw".to_string(), Ok(4)) {
        DispatchStep::Deduct { wallet, delta } => assert_eq!((wallet.as_str(), delta), ("0xw", -4)),
        _ => panic!("not deducted"),
    }
    assert!(matches!(m.deducted(&d, Ok(0)), DispatchStep::Serve));
    assert!(matches!(
        m.balance_known(&d, "0xw".to_string(), Ok(3)),
        DispatchStep::PayX402 { advertise_credits: true }
    ));
    assert!(matches!(m.deducted(&d, Err("e".to_string())), DispatchStep::PayX402 { .. }));
}

#[test]
fn a_signature_pays_with_credits() {
    let m = dispatcher(true, true);
    let sessions = SessionManager::new(600);
    let d = m.dispatch(b"").unwrap();
    match m.begin(&sessions, &d, &signed("/chat", 50), b"", 60) {
        DispatchStep::AskBalance(w) => assert_eq!(w, SIGNER),
        _ => panic!("no balance asked"),
    }
    assert!(m.checks_signature(&d, &signed("/chat", 50).headers));
    assert!(!m.checks_signature(&d, &get("/chat", &[]).headers));
    assert!(matches!(
        m.begin(&sessions, &d, &get("/chat", &[]), b"", 60),
        DispatchStep::PayX402 { advertise_credits: true }
    ));
    let d = m.dispatch(b"{\"model\":\"minimax\"}").unwrap();
    assert!(!m.checks_signature(&d, &signed("/chat", 50).headers));
    assert!(matches!(
        m.begin(&sessions, &d, &signed("/chat", 50), b"", 60),
        DispatchStep::PayX402 { advertise_credits: false }
    ));
}

#[test]
fn credits_that_were_asked_for_are_owed() {
    let m = dispatcher(true, true);
    let sessions = SessionManager::new(600);
    let d = m.dispatch(b"{\"payment_type\":\"credits\"}").unwrap();
    assert_eq!(
        turned_away(m.begin(&sessions, &d, &get("/", &[]), b"", 0)),
        (
            400,
            "payment_type \"credits\" requires a Bearer session token or ERC-8128 signed headers."
                .to_string()
        )
    );
    assert_eq!(
        turned_away(m.begin(&sessions, &d, &get("/", &[("authorization", "Bearer x")]), b"", 0)),
        (401, "Invalid or expired session token".to_string())
    );
    assert_eq!(
        turned_away(m.begin(&sessions, &d, &signed("/", 0), b"", 9000)),
        (401, "ERC-8128 signature verification failed: Signature expired".to_string())
    );
    assert_eq!(
        turned_away(m.balance_known(&d, "w".to_string(), Ok(3))),
        (402, "Insufficient credits: have 3, need 4 for model 'Kimi'".to_string())
    );
    assert_eq!(
        turned_away(m.balance_known(&d, "w".to_string(), Err("e".to_string()))),
        (500, "Credits check failed: e".to_string())
    );
    assert_eq!(
        turned_away(m.deducted(&d, Err("e".to_string()))),
        (500, "Credits deduction failed: e".to_string())
    );
    assert_eq!(turned_away(m.session_known(&d, None)).0, 401);
    assert_eq!(turned_away(m.signature_known(&d, Err(Erc8128Error::NotYetValid))).0, 401);
}

#[test]
fn without_x402_only_credits_pay() {
    let m = dispatcher(false, true);
    let d = m.dispatch(b"{}").unwrap();
    let step = m.begin(&SessionManager::new(600), &d, &get("/", &[]), b"", 0);
    assert_eq!(
        turned_away(step),
        (402, "x402 on-chain payment is currently disabled. Please use credits.".to_string())
    );
}

#[test]
fn bearer_tokens_are_found() {
    let token = |v: &str| extract_bearer_token(&get("/", &[("authorization", v)]).headers);
    assert_eq!(token("Bearer abc"), Some("abc".to_string()));
    assert_eq!(token("bearer abc"), None);
    assert_eq!(token("Basic abc"), None);
    assert_eq!(extract_bearer_token(&get("/", &[]).headers), None);
    let odd = Headers { entries: vec![("authorization".to_string(), None)] };
    assert_eq!(extract_bearer_token(&odd), None);
}

// ---------------------------------------------------------------------------
// Pages
// ---------------------------------------------------------------------------

#[test]
fn the_root_page_lists_the_models() {
    let r = build_registry(&config(false), &endpoints(), true);
    let page = root_handler(&r, &config(false), "0.1.0");
    let expected = "inference-super-router\nversion: 0.1.0\n\
wallet: 0x1111111111111111111111111111111111111111\ntest_mode: false\n\
\n--- models ---\n\n\
\x20 gpt                  x usdc       About gpt\n\
\x20 Kimi              1000 usdc       About Kimi\n\
\x20 minimax          50000 starkbot   About minimax\n\
\x20 auto              1000 usdc       About Kimi (default)\n\
\n--- usage ---\n\n\
\x20 POST /chat  {\"model\": \"auto\", \"messages\": [...]}\n\
\x20 POST /api/v1/chat/completions  (OpenAI-compatible)\n\
\n  \"model\" is required. Use \"auto\" for the default (credits-enabled) model.\n\
\n  \"payment_type\" is optional: \"auto\" (default), \"credits\", or \"x402\".\n\
\x20   auto    — try credits first (if ERC-8128 headers present), fall back to x402\n\
\x20   credits — only accept credits (requires ERC-8128 signed request)\n\
\x20   x402    — only accept x402 payment (requires X-PAYMENT header)\n\
\n  https://www.x402.org\n\
\n--- system routes ---\n\n\
\x20 GET /         this page\n\
\x20 GET /health   health check\n\
\x20 GET /metrics  settlement & cache metrics\n";
    assert_eq!(page, expected);
    let empty = build_registry(&config(true), &vec![], true);
    assert_eq!(empty.default_model, "");
    assert!(root_handler(&empty, &config(true), "1").contains("test_mode: true\n\n--- models ---\n\n\n---"));
}

#[test]
fn the_catalog_lists_the_models() {
    let r = build_registry(&config(false), &endpoints(), true);
    let v: Value =
        serde_json::from_str(&endpoints_handler(&r, &config(false)).to_text()).unwrap();
    let ids: Vec<&str> = v.as_array().unwrap().iter().map(|e| e["id"].as_str().unwrap()).collect();
    assert_eq!(ids, vec!["Kimi", "gpt", "minimax"]);
    assert_eq!(
        v[0],
        serde_json::from_str::<Value>(
            "{\"id\":\"Kimi\",\"display_name\":\"About Kimi\",\
             \"endpoint\":\"https://b/Kimi/api/v1/chat/completions\",\
             \"model_archetype\":\"openai\",\"model\":\"Kimi\",\"x402_cost\":1000,\
             \"credit_cost\":4,\"max_input_tokens\":10,\"max_output_tokens\":20}"
        )
        .unwrap()
    );
    assert_eq!(v[1]["x402_cost"], 0);
}

#[test]
fn health_and_metrics_are_shown() {
    let mut s = services(2);
    assert_eq!(
        health_handler(None).to_text(),
        "{\"service\":\"inference-super-router\",\"settlement_queue_depth\":0,\"status\":\"healthy\"}"
    );
    let m = x402(false, "usdc", false);
    s.verification_cache.mark_verified("0xa");
    for n in ["1", "2"] {
        m.handle_at(&mut s, "/", &payment("0xa", n), at(0));
    }
    assert_eq!(
        health_handler(Some(&s.settlement_queue)).get("settlement_queue_depth").unwrap().as_u64(),
        Some(2)
    );
    s.settlement_queue.claim_next_at(0).unwrap();
    let mut w = SettlementMetrics::new();
    w.record_success();
    w.record_retry();
    let j = metrics_handler(&s.settlement_queue, &w, &s.verification_cache, Json::unsigned(1));
    let v: Value = serde_json::from_str(&j.to_text()).unwrap();
    assert_eq!(
        v,
        serde_json::from_str::<Value>(
            "{\"settlement_queue\":{\"pending\":1,\"in_progress\":1,\"max_size\":2,\"is_full\":true},\
             \"settlement_store\":{\"pending\":1,\"in_progress\":1,\"completed\":0,\"failed\":0,\"total\":2},\
             \"settlement_worker\":{\"total_processed\":1,\"success_count\":1,\"failure_count\":0,\"retry_count\":1},\
             \"verification_cache\":{\"hits\":2,\"misses\":0,\"downgrades\":0,\"hit_rate\":1}}"
        )
        .unwrap()
    );
    assert_eq!(s.settlement_queue.store().rows()[0].status, SettlementStatus::InProgress);
}

fn answered(step: AccountStep) -> Reply {
    match step {
        AccountStep::Answer(r) => r,
        _ => panic!("not answered"),
    }
}

#[test]
fn a_balance_is_shown() {
    let mut sessions = SessionManager::new(600);
    let (token, _) = sessions.create_session("0xw", 7);
    let off = credits_balance_handler(false, &sessions, &get("/", &[]), 0);
    assert_eq!(error(&answered(off)), (503, "Credits system not enabled".to_string()));
    let bad = get("/", &[("authorization", "Bearer x")]);
    assert_eq!(
        error(&answered(credits_balance_handler(true, &sessions, &bad, 0))),
        (401, "Invalid or expired session token".to_string())
    );
    assert_eq!(
        error(&answered(credits_balance_handler(true, &sessions, &get("/", &[]), 0))),
        (
            401,
            "Bearer token or ERC-8128 signature required: Missing header: Signature-Input".to_string()
        )
    );
    let good = get("/", &[("authorization", &format!("Bearer {}", token))]);
    match credits_balance_handler(true, &sessions, &good, 0) {
        AccountStep::AskBalance { wallet, .. } => assert_eq!(wallet, "0xw"),
        _ => panic!("no balance asked"),
    }
    match credits_balance_handler(true, &sessions, &signed("/credits/balance", 5), 5) {
        AccountStep::AskBalance { wallet, .. } => assert_eq!(wallet, SIGNER),
        _ => panic!("no balance asked"),
    }
    let known = sessions.validate(&token);
    match balance_session_known(known) {
        AccountStep::AskBalance { wallet, chain_id } => {
            assert_eq!((wallet.as_str(), chain_id), ("0xw", 7))
        }
        _ => panic!("no balance asked"),
    }
    assert_eq!(error(&answered(balance_session_known(None))).0, 401);
    let r = show_balance("0xw", Ok(12));
    assert_eq!(r.status, 200);
    assert_eq!(body(&r)["credits"], 12);
    assert_eq!(body(&r)["address"], "0xw");
    assert_eq!(
        error(&show_balance("0xw", Err("e".to_string()))),
        (500, "Failed to fetch credit balance".to_string())
    );
}

#[test]
fn a_session_is_opened() {
    let off = credits_session_handler(false, &get("/", &[]), b"", 0);
    assert_eq!(error(&answered(off)).0, 503);
    assert_eq!(
        error(&answered(session_for(true, Err(Erc8128Error::Expired)))),
        (401, "ERC-8128 signature required: Signature expired".to_string())
    );
    let id = Erc8128Identity { wallet_address: "0xAB".to_string(), chain_id: 9 };
    match session_for(true, Ok(id)) {
        AccountStep::AskBalance { wallet, chain_id } => {
            assert_eq!((wallet.as_str(), chain_id), ("0xab", 9))
        }
        _ => panic!("no balance asked"),
    }
    match credits_session_handler(true, &signed("/credits/session", 5), b"", 5) {
        AccountStep::AskBalance { wallet, chain_id } => {
            assert_eq!((wallet.as_str(), chain_id), (SIGNER, 8453))
        }
        _ => panic!("no balance asked"),
    }
    match session_balance_known("0xw".to_string(), 9, Ok(1)) {
        AccountStep::CreateSession { wallet, chain_id } => {
            assert_eq!((wallet.as_str(), chain_id), ("0xw", 9))
        }
        _ => panic!("no session"),
    }
    let r = answered(session_balance_known("0xw".to_string(), 9, Ok(0)));
    assert_eq!(error(&r), (402, "No credits available (balance: 0)".to_string()));
    assert_eq!(body(&r)["credits"], 0);
    assert_eq!(body(&r)["address"], "0xw");
    assert_eq!(
        error(&answered(session_balance_known("0xw".to_string(), 9, Err("e".to_string())))),
        (500, "Failed to check credit balance".to_string())
    );
    let r = show_session("t", 77, "0xw");
    assert_eq!(r.status, 200);
    assert_eq!(
        body(&r),
        serde_json::from_str::<Value>(
            "{\"session_token\":\"t\",\"expires_at\":77,\"wallet\":\"0xw\"}"
        )
        .unwrap()
    );
}
