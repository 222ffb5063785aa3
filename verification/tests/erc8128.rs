use inference_super_router::erc8128::sign::make_signature_header;
use inference_super_router::erc8128::verify::{
    address_of_hash, check_signature_bytes, content_digest_sha256, ecrecover, eip191_hash,
    eip191_message, has_brackets_in_order, has_erc8128_headers, make_digest_header,
    match_identity, parse_signature, parse_signature_input, verify_at, verify_from_request,
};
use inference_super_router::erc8128::{
    apply_checksum, to_checksum_address, Erc8128Error, Erc8128SignedHeaders, Erc8128Signer,
};
use inference_super_router::http::{Headers, HttpRequest};

const KEY: &str = "0x4c0883a69102937d6231471b5dbb6204fe5129617082792ae468d01a3f362318";
const ADDRESS: &str = "0x2c7536e3605d9c16a7a3d7b1898e529396a65c23";
const NONCE: &str = "123e4567-e89b-42d3-a456-426614174000";

fn hex(bytes: &[u8]) -> String {
    bytes.iter().map(|b| format!("{:02x}", b)).collect()
}

fn headers(h: &Erc8128SignedHeaders, host: &str) -> Headers {
    let mut entries = vec![
        ("host".to_string(), Some(host.to_string())),
        ("signature-input".to_string(), Some(h.signature_input.clone())),
        ("signature".to_string(), Some(h.signature.clone())),
    ];
    if let Some(d) = &h.content_digest {
        entries.push(("content-digest".to_string(), Some(d.clone())));
    }
    Headers { entries }
}

fn signed(query: Option<&str>, body: Option<&[u8]>, now: i64) -> HttpRequest {
    let signer = Erc8128Signer::from_private_key(KEY, 8453).unwrap();
    let h = signer
        .sign_request_at("post", "Example.ORG", "/chat", query, body, now, NONCE)
        .unwrap();
    HttpRequest {
        method: "POST".to_string(),
        path: "/chat".to_string(),
        query_string: query.unwrap_or("").to_string(),
        headers: headers(&h, "example.org"),
    }
}

#[test]
fn a_private_key_has_its_address() {
    let s = Erc8128Signer::from_private_key(KEY, 1).unwrap();
    assert_eq!(s.address(), ADDRESS);
    let t = Erc8128Signer::from_private_key(&KEY[2..], 1).unwrap();
    assert_eq!(t.address(), ADDRESS);
}

#[test]
fn bad_private_keys_are_refused() {
    let e = Erc8128Signer::from_private_key("0x123", 1).err().unwrap();
    assert_eq!(e.to_string(), "Signing failed: invalid hex key: Odd number of digits");
    let e = Erc8128Signer::from_private_key("00", 1).err().unwrap();
    assert_eq!(e.to_string(), "Signing failed: invalid private key: signature error");
}

#[test]
fn a_signed_request_is_verified() {
    let req = signed(Some("a=1"), Some(b"{\"x\":1}"), 1_700_000_000);
    for t in [1_700_000_000 - 60, 1_700_000_000, 1_700_000_299] {
        let id = verify_at(&req, b"{\"x\":1}", t).unwrap();
        assert_eq!(id.wallet_address, ADDRESS);
        assert_eq!(id.chain_id, 8453);
    }
    let plain = signed(None, None, 1_700_000_000);
    assert!(verify_at(&plain, b"", 1_700_000_000).is_ok());
    assert!(has_erc8128_headers(&plain.headers));
}

#[test]
fn a_request_signed_now_is_verified_now() {
    let signer = Erc8128Signer::from_private_key(KEY, 10).unwrap();
    let h = signer.sign_request("GET", "h", "/p", None, Some(b"")).unwrap();
    assert_eq!(h.content_digest, None);
    let req = HttpRequest {
        method: "GET".to_string(),
        path: "/p".to_string(),
        query_string: "".to_string(),
        headers: headers(&h, "h"),
    };
    let id = verify_from_request(&req, b"").unwrap();
    assert_eq!(id.chain_id, 10);
    assert_eq!(id.wallet_address, signer.address());
}

#[test]
fn signed_headers_have_their_form() {
    let signer = Erc8128Signer::from_private_key(KEY, 8453).unwrap();
    let h = signer
        .sign_request_at("GET", "h", "/p", None, Some(b"{\"hello\": \"world\"}"), 100, NONCE)
        .unwrap();
    assert_eq!(
        h.signature_input,
        format!(
            "eth=(\"@method\" \"@authority\" \"@path\" \"@query\" \"content-digest\");created=100;expires=400;keyid=\"erc8128:8453:{}\";nonce=\"{}\";alg=\"erc191\"",
            ADDRESS, NONCE
        )
    );
    assert_eq!(
        h.content_digest,
        Some("sha-256=:X48E9qOokqqrvdts8nOJRJN3OWDUoyWxBf7kbu9DBPE=:".to_string())
    );
    assert!(h.signature.starts_with("eth=:"));
    assert_eq!(make_signature_header("QQ=="), "eth=:QQ==:");
}

#[test]
fn times_out_of_range_are_refused() {
    let req = signed(None, None, 1000);
    assert!(matches!(verify_at(&req, b"", 939), Err(Erc8128Error::NotYetValid)));
    assert!(matches!(verify_at(&req, b"", 1300), Err(Erc8128Error::Expired)));
}

#[test]
fn another_body_is_refused() {
    let req = signed(None, Some(b"one"), 1000);
    assert!(matches!(
        verify_at(&req, b"two", 1000),
        Err(Erc8128Error::ContentDigestMismatch)
    ));
    let bare = signed(None, None, 1000);
    assert!(matches!(
        verify_at(&bare, b"two", 1000),
        Err(Erc8128Error::MissingHeader("Content-Digest"))
    ));
}

#[test]
fn another_request_is_signed_by_someone_else() {
    let mut req = signed(None, None, 1000);
    req.path = "/other".to_string();
    match verify_at(&req, b"", 1000) {
        Err(Erc8128Error::AddressMismatch { expected, recovered }) => {
            assert_eq!(expected, ADDRESS);
            assert!(recovered != ADDRESS);
        }
        Err(Erc8128Error::RecoveryFailed(_)) => {}
        _ => panic!("expected a mismatch"),
    }
}

#[test]
fn missing_headers_are_named() {
    let req = HttpRequest {
        method: "GET".to_string(),
        path: "/".to_string(),
        query_string: "".to_string(),
        headers: Headers { entries: vec![] },
    };
    let e = verify_at(&req, b"", 0).err().unwrap();
    assert_eq!(e.to_string(), "Missing header: Signature-Input");
    let half = HttpRequest {
        headers: Headers {
            entries: vec![("signature-input".to_string(), Some("eth=()".to_string()))],
        },
        ..req
    };
    assert!(!has_erc8128_headers(&half.headers));
    let e = verify_at(&half, b"", 0).err().unwrap();
    assert_eq!(e.to_string(), "Missing header: Signature");
}

#[test]
fn a_signature_input_is_read() {
    let p = parse_signature_input(
        "eth=(\"@method\"  \"@path\"); created=5;expires=\"9\";keyid=\"k\";x;nonce=n;nonce=\"m\"",
    )
    .unwrap();
    assert_eq!(p.components, vec!["@method".to_string(), "@path".to_string()]);
    assert_eq!((p.created, p.expires), (5, 9));
    assert_eq!(p.keyid, "k");
    assert_eq!(p.nonce, "m");
    assert!(p.sig_params.starts_with("(\"@method\""));
}

#[test]
fn bad_signature_inputs_are_refused() {
    for (value, message) in [
        ("sig=()", "must start with 'eth='"),
        ("eth=)", "missing '('"),
        ("eth=(", "missing ')'"),
        ("eth=();expires=1;keyid=k;nonce=n", "missing 'created'"),
        ("eth=();created=x;expires=1;keyid=k;nonce=n", "missing 'created'"),
        ("eth=();created=1;keyid=k;nonce=n", "missing 'expires'"),
        ("eth=();created=1;expires=1;nonce=n", "missing 'keyid'"),
        ("eth=();created=1;expires=1;keyid=k", "missing 'nonce'"),
    ] {
        assert!(has_brackets_in_order(value));
        let e = parse_signature_input(value).err().unwrap();
        assert_eq!(e.to_string(), format!("Invalid Signature-Input: {}", message));
    }
    assert!(!has_brackets_in_order("eth=)("));
}

#[test]
fn bad_signatures_are_refused() {
    for (value, message) in [
        ("eth=abc", "must start with 'eth=:'"),
        ("eth=:abc", "must end with ':'"),
        ("eth=:QUJD:", "expected 65 bytes, got 3"),
    ] {
        let e = parse_signature(value).err().unwrap();
        assert_eq!(e.to_string(), format!("Invalid Signature: {}", message));
    }
    let e = parse_signature("eth=:*:").err().unwrap();
    assert!(e.to_string().starts_with("Invalid Signature: base64 decode: "));
    assert!(check_signature_bytes(Ok(vec![7; 65])).is_ok());
    let e = check_signature_bytes(Err("bad".to_string())).err().unwrap();
    assert_eq!(e.to_string(), "Invalid Signature: base64 decode: bad");
}

#[test]
fn key_ids_are_read() {
    let id = match_identity("0xAb".to_string(), "erc8128:7:0xaB").unwrap();
    assert_eq!((id.wallet_address.as_str(), id.chain_id), ("0xAb", 7));
    for keyid in ["erc8128:7", "eip155:7:0xab"] {
        let e = match_identity("0xab".to_string(), keyid).err().unwrap();
        assert_eq!(
            e.to_string(),
            "Invalid Signature-Input: keyid must be 'erc8128:{chain}:{addr}'"
        );
    }
    let e = match_identity("0xab".to_string(), "erc8128:x:0xab").err().unwrap();
    assert_eq!(e.to_string(), "Invalid Signature-Input: invalid chain_id in keyid");
    let e = match_identity("0xab".to_string(), "erc8128:1:0xCD").err().unwrap();
    assert_eq!(e.to_string(), "Address mismatch: expected 0xcd, recovered 0xab");
}

#[test]
fn errors_have_their_messages() {
    assert_eq!(Erc8128Error::Expired.to_string(), "Signature expired");
    assert_eq!(Erc8128Error::NotYetValid.to_string(), "Signature not yet valid");
    assert_eq!(
        Erc8128Error::ContentDigestMismatch.to_string(),
        "Content-Digest does not match body"
    );
    assert_eq!(
        Erc8128Error::RecoveryFailed("x".to_string()).to_string(),
        "EC recovery failed: x"
    );
}

#[test]
fn messages_are_hashed() {
    assert_eq!(eip191_message(b"Hello World"), b"\x19Ethereum Signed Message:\n11Hello World");
    assert_eq!(
        hex(&eip191_hash(b"Hello World")),
        "a1de988600a42c4b4ab089b619297c17d53cffae5d5120d82d8a92d0bb3b78f2"
    );
    assert_eq!(
        content_digest_sha256(b"{\"hello\": \"world\"}"),
        "sha-256=:X48E9qOokqqrvdts8nOJRJN3OWDUoyWxBf7kbu9DBPE=:"
    );
    assert_eq!(make_digest_header("QQ=="), "sha-256=:QQ==:");
}

#[test]
fn no_address_signed_a_signature_of_zeros() {
    let e = ecrecover(&vec![1; 32], &vec![0; 65]).err().unwrap();
    assert_eq!(e.to_string(), "EC recovery failed: invalid signature: signature error");
}

#[test]
fn addresses_have_checksums() {
    let mut bytes = [0u8; 20];
    let lower = "5aaeb6053f3e94c9b9a09f33669435e7ef1beaed";
    for i in 0..20 {
        bytes[i] = u8::from_str_radix(&lower[2 * i..2 * i + 2], 16).unwrap();
    }
    assert_eq!(to_checksum_address(&bytes), "0x5aAeb6053F3E94C9b9A09f33669435E7Ef1BeAed");
    let mut hash = vec![0u8; 32];
    hash[0] = 0x08;
    let shown = apply_checksum("abcdefabcdabcdefabcdabcdefabcdabcdefabcd", &hash);
    assert_eq!(shown, "0xaBcdefabcdabcdefabcdabcdefabcdabcdefabcd");
    let mut key_hash = vec![0u8; 32];
    key_hash[31] = 0xff;
    assert_eq!(address_of_hash(&key_hash), "0x00000000000000000000000000000000000000ff");
}
