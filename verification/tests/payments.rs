use inference_super_router::config::{CreditsConfig, EnvVars, GlobalConfig};
use inference_super_router::endpoints::{resolve_endpoint, EndpointDef};
use inference_super_router::json::Json;
use inference_super_router::payment::{
    detect_payload_version, human_to_raw, EndpointPaymentConfig,
};
use base64::Engine;
use serde_json::Value;

const WALLET: &str = "0x1111111111111111111111111111111111111111";
const USDC: &str = "0x833589fcd6edb6e08f4c7c32d4f71b54bda02913";

fn env(vars: &[(&str, &str)]) -> EnvVars {
    EnvVars {
        vars: vars.iter().map(|(k, v)| (k.to_string(), v.to_string())).collect(),
    }
}

fn config() -> GlobalConfig {
    GlobalConfig::from_env(&env(&[
        ("BOT_WALLET_ADDRESS", WALLET),
        ("FACILITATOR_URL", "https://f"),
    ]))
    .unwrap()
}

fn def(currency: &str, cost: &str) -> EndpointDef {
    EndpointDef {
        name: "kimi-k2.5".to_string(),
        route_prefix: "/kimi".to_string(),
        api_endpoint: "https://up".to_string(),
        api_key_env: "KIMI_API_KEY".to_string(),
        model: "kimi-k2.5".to_string(),
        archetype: "kimi".to_string(),
        cost: cost.to_string(),
        payment_currency: currency.to_string(),
        max_input_tokens: 10,
        max_output_tokens: 20,
        system_prompt_file: None,
        description: "Kimi".to_string(),
        credit_cost: 0,
    }
}

fn payment(currency: &str, cost: &str) -> EndpointPaymentConfig {
    EndpointPaymentConfig::from_config_and_endpoint(&config(), &def(currency, cost))
}

fn value(j: &Json) -> Value {
    serde_json::from_str(&j.to_text()).unwrap()
}

fn json(text: &str) -> Json {
    Json::parse(text.as_bytes()).unwrap()
}

#[test]
fn the_environment_has_defaults() {
    let c = config();
    assert_eq!(c.port, 8080);
    assert!(!c.test_mode);
    assert_eq!(c.base_url, None);
    assert_eq!(c.endpoints_config_path, "endpoints.ron");
    assert_eq!(c.usdc_network, "eip155:8453");
    assert_eq!(c.usdc_token_address.to_hex(), USDC);
    assert_eq!(c.starkbot_network, "base");
    assert_eq!(c.starkbot_token_address, "0x587Cd533F418825521f3A1daa7CCd1E7339A1B07");
    assert_eq!(c.starkbot_token_symbol, "STARKBOT");
    assert_eq!(c.starkbot_token_decimals, 18);
    assert_eq!(c.starkbot_token_name, "StarkBot");
    assert_eq!(c.starkbot_token_version, "1");
    assert_eq!(c.facilitator_signer, "");
}

#[test]
fn the_environment_is_read() {
    let c = GlobalConfig::from_env(&env(&[
        ("PORT", "81"),
        ("TEST_MODE", "1"),
        ("BOT_WALLET_ADDRESS", WALLET),
        ("FACILITATOR_URL", "https://f"),
        ("BASE_URL", "https://b"),
        ("STARKBOT_TOKEN_DECIMALS", "6"),
    ]))
    .unwrap();
    assert_eq!(c.port, 81);
    assert!(c.test_mode);
    assert_eq!(c.base_url, Some("https://b".to_string()));
    assert_eq!(c.starkbot_token_decimals, 6);
}

#[test]
fn a_bad_environment_is_refused() {
    let url = ("FACILITATOR_URL", "https://f");
    let wallet = ("BOT_WALLET_ADDRESS", WALLET);
    for (vars, message) in [
        (vec![("PORT", "65536"), wallet, url], "PORT must be a valid port number"),
        (vec![url], "BOT_WALLET_ADDRESS is required"),
        (
            vec![("BOT_WALLET_ADDRESS", "0x12"), url],
            "Invalid BOT_WALLET_ADDRESS: Invalid address length: expected 20, got 1",
        ),
        (vec![wallet], "FACILITATOR_URL is required"),
        (
            vec![wallet, url, ("USDC_TOKEN_ADDRESS", "1")],
            "Invalid USDC_TOKEN_ADDRESS: Odd number of digits",
        ),
        (
            vec![wallet, url, ("STARKBOT_TOKEN_DECIMALS", "256")],
            "STARKBOT_TOKEN_DECIMALS must be a valid number",
        ),
    ] {
        assert_eq!(GlobalConfig::from_env(&env(&vars)).unwrap_err(), message);
    }
}

#[test]
fn credits_are_configured_by_their_key() {
    let key = "4c0883a69102937d6231471b5dbb6204fe5129617082792ae468d01a3f362318";
    let name = "CREDITS_ADMIN_PRIVATE_KEY";
    assert!(CreditsConfig::from_env(&env(&[])).is_none());
    assert!(CreditsConfig::from_env(&env(&[(name, "")])).is_none());
    assert!(CreditsConfig::from_env(&env(&[(name, "zz")])).is_none());
    let c = CreditsConfig::from_env(&env(&[(name, key), ("CREDITS_CHAIN_ID", "x")])).unwrap();
    assert_eq!(c.api_url, "https://starkbot.cloud/api");
    assert_eq!(c.signer.address(), "0x2c7536e3605d9c16a7a3d7b1898e529396a65c23");
}

#[test]
fn endpoints_are_resolved() {
    let e = resolve_endpoint(def("usdc", "1"), None, Ok("".to_string())).unwrap_err();
    assert_eq!(e, "Missing env var KIMI_API_KEY for endpoint 'kimi-k2.5'");
    let mut d = def("usdc", "1");
    d.system_prompt_file = Some("p.md".to_string());
    let key = Some("k".to_string());
    let e = resolve_endpoint(d.clone(), key.clone(), Err("gone".to_string())).unwrap_err();
    assert_eq!(e, "Failed to read system prompt 'p.md' for endpoint 'kimi-k2.5': gone");
    let r = resolve_endpoint(d.clone(), key.clone(), Ok("  hi \n".to_string())).unwrap();
    assert_eq!(r.system_prompt, Some("hi".to_string()));
    let r = resolve_endpoint(d, key.clone(), Ok(" \n".to_string())).unwrap();
    assert_eq!(r.system_prompt, None);
    let r = resolve_endpoint(def("usdc", "1"), key, Err("unread".to_string())).unwrap();
    assert_eq!(r.system_prompt, None);
    assert_eq!(r.api_key, "k");
}

#[test]
fn amounts_become_raw_units() {
    assert_eq!(human_to_raw("1000", 18), "1000000000000000000000");
    assert_eq!(human_to_raw(" 1.50 ", 6), "1500000");
    assert_eq!(human_to_raw("0.000001", 6), "1");
    assert_eq!(human_to_raw(".5", 1), "5");
    assert_eq!(human_to_raw(" 12\n", 2), "1200");
    assert_eq!(human_to_raw("0.0000001", 6), "0");
    assert_eq!(human_to_raw("1.100000000", 1), "11");
    assert_eq!(human_to_raw("0", 18), "0");
    assert_eq!(human_to_raw("", 2), "0");
    assert_eq!(human_to_raw("007", 0), "7");
}

#[test]
fn a_usdc_payment_is_asked_for_in_a_header() {
    let p = payment("usdc", "0001000");
    assert!(p.is_v2());
    let h = p.build_402_header("/chat").unwrap();
    let bytes = base64::engine::general_purpose::STANDARD.decode(h).unwrap();
    let v: Value = serde_json::from_slice(&bytes).unwrap();
    assert_eq!(v["x402Version"], 2);
    assert_eq!(v["accepts"][0]["scheme"], "exact");
    assert_eq!(v["accepts"][0]["maxAmountRequired"], "1000");
    assert_eq!(v["accepts"][0]["payToAddress"], WALLET);
    assert_eq!(v["accepts"][0]["asset"], USDC);
    assert_eq!(v["accepts"][0]["resource"], "/chat");
    assert_eq!(v["accepts"][0]["description"], "Kimi");
    assert_eq!(v["accepts"][0]["maxTimeoutSeconds"], 60);
    assert_eq!(v["accepts"][0]["network"], "eip155:8453");
    let body = value(&p.build_402_body("/chat"));
    assert_eq!(body["accepts"][0]["maxAmountRequired"], "0001000");
    assert_eq!(body["accepts"][0]["payToAddress"], WALLET);
    assert_eq!(body["accepts"][0]["asset"], USDC);
    let odd = payment("usdc", "cheap").offer("/").unwrap();
    assert_eq!(value(&odd)["accepts"][0]["maxAmountRequired"], "cheap");
}

#[test]
fn a_starkbot_payment_is_asked_for_in_a_body() {
    let p = payment("starkbot", "50000");
    assert!(!p.is_v2());
    assert_eq!(p.build_402_header("/chat"), None);
    let v = value(&p.build_402_body("/chat"));
    assert_eq!(v["x402Version"], 1);
    assert_eq!(v["error"], Value::Null);
    let a = &v["accepts"][0];
    assert_eq!(a["scheme"], "permit");
    assert_eq!(a["maxAmountRequired"], "50000000000000000000000");
    assert_eq!(a["payTo"], WALLET);
    assert_eq!(a["maxTimeoutSeconds"], 300);
    assert_eq!(a["mimeType"], "application/json");
    assert_eq!(a["extra"]["token"], "STARKBOT");
    assert_eq!(a["extra"]["decimals"], 18);
    assert_eq!(a["extra"]["minimum_amount"], true);
    assert_eq!(a["extra"]["address"], a["asset"]);
}

#[test]
fn versions_are_detected() {
    for (payload, version) in [
        ("{\"x402Version\": 7}", 7),
        ("{\"x402Version\": 4294967297}", 1),
        ("{\"x402Version\": \"1\", \"payload\": {\"authorization\": {}}}", 2),
        ("{\"payload\": {}, \"signature\": \"s\"}", 1),
        ("{}", 2),
        ("[]", 2),
    ] {
        assert_eq!(detect_payload_version(&json(payload)), version);
    }
}

#[test]
fn payers_and_nonces_are_found() {
    let p = payment("usdc", "1");
    let v2 = json(
        "{\"payload\": {\"authorization\": {\"from\": \"0xa\", \"nonce\": \"1\"}}, \"owner\": \"0xb\"}",
    );
    assert_eq!(p.extract_payer(&v2), Some("0xa".to_string()));
    assert_eq!(p.extract_nonce(&v2), Some("1".to_string()));
    let v1 = json("{\"holder\": \"0xc\", \"from\": \"0xd\", \"nonce\": \"2\"}");
    assert_eq!(p.extract_payer(&v1), Some("0xc".to_string()));
    assert_eq!(p.extract_nonce(&v1), Some("2".to_string()));
    let odd = json("{\"owner\": 5, \"from\": \"0xd\"}");
    assert_eq!(p.extract_payer(&odd), None);
    assert_eq!(p.extract_payer(&json("{\"from\": \"0xd\"}")), Some("0xd".to_string()));
    assert_eq!(p.extract_nonce(&json("{\"nonce\": 3}")), None);
}

#[test]
fn facilitator_requests_carry_the_payload() {
    let payload = json("{\"signature\": \"s\"}");
    let v = value(&payment("usdc", "12").build_verify_request(&payload, "/r"));
    assert_eq!(v["x402Version"], 1);
    assert_eq!(v["paymentPayload"]["signature"], "s");
    assert_eq!(v["paymentRequirements"]["amount"], "12");
    assert_eq!(v["paymentRequirements"]["payTo"], WALLET);
    let s = value(&payment("starkbot", "1").build_settle_request(&payload, "/r"));
    assert_eq!(s["paymentRequirements"]["resource"], "/r");
    assert_eq!(s["paymentRequirements"]["maxAmountRequired"], "1000000000000000000");
}
