//! Signing of outgoing requests.
//!
//! A request is signed by an EIP-191 signature of its RFC 9421 signature base,
//! valid for five minutes.

use vstd::prelude::*;
use vstd::string::*;
use vstd::utf8::*;

use crate::clock::{is_uuid, new_uuid, unix_seconds};
use crate::crypto::{
    keccak256, public_key, secp_is_signature, secp_public_key, secp_recovered, secp_signature,
    sha256, sign_hash,
};
use crate::encoding::{
    base64_bytes, base64_encode, base64_text, hex_bytes, hex_char, hex_decode, hex_digit,
    hex_error, hex_text, lemma_hex_reads_back,
};
use crate::http::{header_text, str_view, text_view};
use crate::models::domains::without_0x;
use crate::text::{
    after_prefix, before_suffix, decimal, decimal_text, find, free_of, is_digit, is_white, is_word,
    law_prefix_and_rest, lemma_decimal, lemma_find_is, lemma_one_word, lemma_signed_decimal,
    lemma_split_append, lemma_unquote, lemma_words_append, lowercase, signed_decimal,
    signed_decimal_text, split, strip_prefix, trim_white, uppercase,
};

use super::types::{
    Erc8128Error, Erc8128SignedHeaders, ErrorView, IdentityView, SignedHeadersView,
};
use super::verify::{
    address_of_key, brackets_in_order, build_signature_base, component_line, component_lines,
    component_names, component_value, content_digest, content_digest_sha256, digest_error,
    eip191_bytes, eip191_hash, key_address, law_component_lines, or_nothing, params_of,
    parsed_input, parsed_keyid, parsed_signature, signature_base, texts_view, verified, with_param,
    y_is_odd, BaseView, ParamsView, SigInputView, SignedRequestView,
};

verus! {

/// Signs outgoing requests with a private key.
#[derive(Clone)]
pub struct Erc8128Signer {
    key: Vec<u8>,
    address: String,
    chain_id: u64,
}

/// A signer: its private key, its address and its chain.
pub struct SignerView {
    pub key: Seq<u8>,
    pub address: Seq<char>,
    pub chain_id: u64,
}

impl View for Erc8128Signer {
    type V = SignerView;

    closed spec fn view(&self) -> SignerView {
        SignerView { key: self.key@, address: self.address@, chain_id: self.chain_id }
    }
}

impl SignerView {
    /// Whether the address is the one of the private key.
    pub open spec fn valid(self) -> bool {
        match secp_public_key(self.key) {
            Some(k) => self.address == key_address(k),
            None => false,
        }
    }
}

/// The signer that a private key in hexadecimal gives, or the message of the
/// error.
pub open spec fn signer_from_hex(key_hex: Seq<char>, chain_id: u64) -> Result<
    SignerView,
    Seq<char>,
> {
    match hex_bytes(without_0x(key_hex)) {
        None => Err("invalid hex key: "@ + hex_error(without_0x(key_hex))),
        Some(key) => match secp_public_key(key) {
            None => Err("invalid private key: "@ + "signature error"@),
            Some(k) => Ok(SignerView { key, address: key_address(k), chain_id }),
        },
    }
}

/// What of a request is signed.
pub struct OutgoingView {
    pub method: Seq<char>,
    pub authority: Seq<char>,
    pub path: Seq<char>,
    pub query: Option<Seq<char>>,
    pub body: Option<Seq<u8>>,
}

/// The bytes of an optional body.
pub open spec fn body_view(body: Option<&[u8]>) -> Option<Seq<u8>> {
    match body {
        Some(b) => Some(b@),
        None => None,
    }
}

impl OutgoingView {
    /// The digest of the body, where there is one that is not empty.
    pub open spec fn digest(self) -> Option<Seq<char>> {
        match self.body {
            Some(b) => if b.len() > 0 {
                Some(content_digest(b))
            } else {
                None
            },
            None => None,
        }
    }

    /// What the signature base is built from.
    pub open spec fn base(self) -> BaseView {
        BaseView {
            method: self.method,
            authority: self.authority,
            path: self.path,
            query: self.query,
            digest: self.digest(),
        }
    }
}

/// The components that are signed.
pub open spec fn signed_components(with_digest: bool) -> Seq<Seq<char>> {
    let names = seq!["@method"@, "@authority"@, "@path"@, "@query"@];
    if with_digest {
        names.push("content-digest"@)
    } else {
        names
    }
}

/// A name in quotes.
pub open spec fn quoted(name: Seq<char>) -> Seq<char> {
    "\""@ + name + "\""@
}

/// Names in quotes, with spaces between them.
pub open spec fn quoted_list(names: Seq<Seq<char>>) -> Seq<char>
    decreases names.len(),
{
    if names.len() == 0 {
        ""@
    } else if names.len() == 1 {
        quoted(names[0])
    } else {
        quoted_list(names.drop_last()) + " "@ + quoted(names.last())
    }
}

/// The key id of a signer.
pub open spec fn key_id(s: SignerView) -> Seq<char> {
    "erc8128:"@ + decimal(s.chain_id as nat) + ":"@ + s.address
}

/// The signature parameters: the components, then each parameter after a
/// semicolon.
pub open spec fn signature_params(
    s: SignerView,
    names: Seq<Seq<char>>,
    now: int,
    nonce: Seq<char>,
) -> Seq<char> {
    "("@ + quoted_list(names) + ")"@ + ";"@ + ("created="@ + signed_decimal(now)) + ";"@ + (
    "expires="@ + signed_decimal(now + 300)) + ";"@ + ("keyid=\""@ + key_id(s) + "\""@) + ";"@ + (
    "nonce=\""@ + nonce + "\""@) + ";"@ + "alg=\"erc191\""@
}

/// The hash that is signed.
pub open spec fn signing_hash(s: SignerView, q: OutgoingView, now: int, nonce: Seq<char>) -> Seq<
    u8,
> {
    let names = signed_components(q.digest() is Some);
    let base = signature_base(q.base(), names, signature_params(s, names, now, nonce));
    keccak256(eip191_bytes(encode_utf8(base)))
}

/// The `Signature` header of a signature in base64.
pub open spec fn signature_header(b64: Seq<char>) -> Seq<char> {
    "eth=:"@ + b64 + ":"@
}

/// The headers that sign a request at the time `now`, in seconds since 1970,
/// with a nonce; or the error.
pub open spec fn signed_headers(
    s: SignerView,
    q: OutgoingView,
    now: int,
    nonce: Seq<char>,
) -> Result<SignedHeadersView, ErrorView> {
    let names = signed_components(q.digest() is Some);
    match secp_signature(s.key, signing_hash(s, q, now, nonce)) {
        None => Err(ErrorView::SigningFailed("sign_prehash: "@ + "signature error"@)),
        Some(sig) => Ok(
            SignedHeadersView {
                signature_input: "eth="@ + signature_params(s, names, now, nonce),
                signature: signature_header(base64_text(sig.0.push((sig.1 + 27) as u8))),
                content_digest: q.digest(),
            },
        ),
    }
}

/// Whether a request that came in is the one that was signed, with the headers
/// of its signature.
pub open spec fn carries(r: SignedRequestView, q: OutgoingView, h: SignedHeadersView) -> bool {
    &&& header_text(r.headers, "signature-input"@) == Some(h.signature_input)
    &&& header_text(r.headers, "signature"@) == Some(h.signature)
    &&& h.content_digest is Some ==> header_text(r.headers, "content-digest"@) == h.content_digest
    &&& lowercase(
        match header_text(r.headers, "host"@) {
            Some(a) => a,
            None => ""@,
        },
    ) == lowercase(q.authority)
    &&& uppercase(r.method) == uppercase(q.method)
    &&& r.path == q.path
    &&& r.query_string == (match q.query {
        Some(t) => t,
        None => ""@,
    })
    &&& r.body == (match q.body {
        Some(b) => b,
        None => seq![],
    })
}

/// What is asked of the recovery id of a signature for its verification: the
/// curve point behind it has its `x` coordinate unreduced.
pub open spec fn is_plain_signature(s: SignerView, hash: Seq<u8>) -> bool {
    secp_signature(s.key, hash) is Some && secp_signature(s.key, hash)->Some_0.1 < 2
}

/// Whether every request that carries the headers is verified as signed by
/// the signer, from a minute before the signing until they expire.
pub open spec fn verifies(s: SignerView, q: OutgoingView, now: int, h: SignedHeadersView) -> bool {
    forall|r: SignedRequestView, t: int|
        carries(r, q, h) && now - 60 <= t < now + 300 ==> #[trigger] verified(r, t) == Ok::<
            IdentityView,
            ErrorView,
        >(IdentityView { wallet_address: s.address, chain_id: s.chain_id })
}

/// What is signed of a request with these parts.
pub open spec fn outgoing(
    method: &str,
    authority: &str,
    path: &str,
    query: Option<&str>,
    body: Option<&[u8]>,
) -> OutgoingView {
    OutgoingView {
        method: method@,
        authority: authority@,
        path: path@,
        query: str_view(query),
        body: body_view(body),
    }
}

/// Whether `r` is what signing a request at a time with a nonce gives: the
/// headers, with which the request is verified, or the error.
pub open spec fn signing_outcome(
    s: SignerView,
    q: OutgoingView,
    now: int,
    nonce: Seq<char>,
    r: Result<Erc8128SignedHeaders, Erc8128Error>,
) -> bool {
    match r {
        Ok(h) => signed_headers(s, q, now, nonce) == Ok::<SignedHeadersView, ErrorView>(h@) && (
        is_plain_signature(s, signing_hash(s, q, now, nonce)) ==> verifies(s, q, now, h@)),
        Err(e) => signed_headers(s, q, now, nonce) == Err::<SignedHeadersView, ErrorView>(e@),
    }
}

// ---------------------------------------------------------------------------
// What was signed is verified
// ---------------------------------------------------------------------------

/// A quoted list of words reads back as these words.
proof fn lemma_components_read_back(names: Seq<Seq<char>>)
    requires
        names.len() > 0,
        forall|i: int|
            0 <= i < names.len() ==> is_word(#[trigger] names[i]) && names[i][0] != '"'
                && names[i].last() != '"',
    ensures
        component_names(quoted_list(names)) == names,
    decreases names.len(),
{
    reveal_strlit("\"");
    reveal_strlit(" ");
    let w = quoted(names.last());
    assert("\""@ =~= seq!['"']);
    assert(" "@ =~= seq![' ']);
    assert(is_word(names.last()));
    assert(is_word(w)) by {
        assert forall|i: int| 0 <= i < w.len() implies !is_white(#[trigger] w[i]) by {
            if 0 < i < w.len() - 1 {
                assert(w[i] == names.last()[i - 1]);
            }
        }
    }
    lemma_unquote(names.last());
    if names.len() == 1 {
        lemma_one_word(w);
    } else {
        lemma_components_read_back(names.drop_last());
        lemma_words_append(quoted_list(names.drop_last()), w);
        assert(component_names(quoted_list(names)) =~= component_names(
            quoted_list(names.drop_last()),
        ).push(names.last()));
    }
    assert(component_names(quoted_list(names)) =~= names);
}

/// A quoted list holds no character but quotes, spaces and those of its names.
proof fn lemma_list_free_of(names: Seq<Seq<char>>, c: char)
    requires
        c != '"',
        c != ' ',
        forall|i: int| 0 <= i < names.len() ==> free_of(#[trigger] names[i], c),
    ensures
        free_of(quoted_list(names), c),
    decreases names.len(),
{
    reveal_strlit("\"");
    reveal_strlit(" ");
    reveal_strlit("");
    if names.len() > 0 {
        assert(free_of(names.last(), c));
        assert(free_of(quoted(names.last()), c));
        if names.len() > 1 {
            lemma_list_free_of(names.drop_last(), c);
        }
    }
}

/// The names of the signed components are words without quotes or brackets.
proof fn lemma_component_names_plain(with_digest: bool)
    ensures
        forall|i: int|
            0 <= i < signed_components(with_digest).len() ==> {
                let n = #[trigger] signed_components(with_digest)[i];
                is_word(n) && n[0] != '"' && n.last() != '"' && free_of(n, '(') && free_of(n, ')')
            },
{
    reveal_strlit("@method");
    reveal_strlit("@authority");
    reveal_strlit("@path");
    reveal_strlit("@query");
    reveal_strlit("content-digest");
}

/// A text whose ends are no white space is not trimmed.
proof fn lemma_not_trimmed(s: Seq<char>)
    requires
        s.len() > 0,
        !is_white(s[0]),
        !is_white(s.last()),
    ensures
        trim_white(s) == s,
{
}

/// One more part after the others.
proof fn lemma_params_push(parts: Seq<Seq<char>>, part: Seq<char>)
    ensures
        params_of(parts.push(part)) == with_param(params_of(parts), part),
{
    assert(parts.push(part).drop_last() =~= parts);
}

/// A part `key=value`.
proof fn lemma_key_value(key: Seq<char>, value: Seq<char>)
    requires
        key.len() > 0,
        !is_white(key[0]),
        free_of(key, '='),
        value.len() > 0,
        !is_white(value.last()),
    ensures
        ({
            let part = key + seq!['='] + value;
            &&& trim_white(part) == part
            &&& find(part, '=') == Some(key.len() as int)
            &&& part.take(key.len() as int) == key
            &&& part.skip(key.len() as int + 1) == value
        }),
{
    let part = key + seq!['='] + value;
    assert(part.last() == value.last());
    assert(part[0] == key[0]);
    lemma_not_trimmed(part);
    assert forall|j: int| 0 <= j < key.len() implies part[j] != '=' by {
        assert(part[j] == key[j]);
    }
    lemma_find_is(part, '=', 0, key.len() as int);
    assert(part.take(key.len() as int) =~= key);
    assert(part.skip(key.len() as int + 1) =~= value);
}

/// Whether a text can stand in quotes among the parameters.
pub open spec fn is_param_text(s: Seq<char>) -> bool {
    s.len() > 0 && s[0] != '"' && s.last() != '"' && free_of(s, ';')
}

/// An identifier is a text for a parameter.
proof fn lemma_uuid_is_param(nonce: Seq<char>)
    requires
        is_uuid(nonce),
    ensures
        is_param_text(nonce),
{
    assert(hex_digit(nonce[0]) is Some);
    assert(hex_digit(nonce[35]) is Some);
    assert forall|i: int| 0 <= i < nonce.len() implies #[trigger] nonce[i] != ';' by {
        assert(nonce[i] == '-' || hex_digit(nonce[i]) is Some);
    }
}

/// A hexadecimal text holds digits and letters up to `f`.
proof fn lemma_hex_plain(bytes: Seq<u8>)
    ensures
        hex_text(bytes).len() == 2 * bytes.len(),
        forall|i: int|
            0 <= i < hex_text(bytes).len() ==> ('0' <= #[trigger] hex_text(bytes)[i] <= '9' || 'a'
                <= hex_text(bytes)[i] <= 'f'),
{
    let s = hex_text(bytes);
    assert forall|i: int| 0 <= i < s.len() implies ('0' <= #[trigger] s[i] <= '9' || 'a' <= s[i]
        <= 'f') by {
        let d = if i % 2 == 0 {
            bytes[i / 2] as int / 16
        } else {
            bytes[i / 2] as int % 16
        };
        assert(0 <= d < 16);
        assert(s[i] == hex_char(d));
    }
}

/// The key id of a signer is a text for a parameter and names its chain and
/// its address.
proof fn lemma_key_id_reads_back(s: SignerView)
    requires
        s.valid(),
    ensures
        is_param_text(key_id(s)),
        parsed_keyid(key_id(s)) == Ok::<(u64, Seq<char>), Seq<char>>(
            (s.chain_id, lowercase(s.address)),
        ),
{
    reveal_strlit("erc8128:");
    reveal_strlit("erc8128");
    reveal_strlit(":");
    reveal_strlit("0x");
    let k = key_id(s);
    let d = decimal(s.chain_id as nat);
    lemma_decimal(s.chain_id as nat);
    let tail = keccak256(secp_public_key(s.key)->0.skip(1)).skip(12);
    lemma_hex_plain(tail);
    assert(s.address == "0x"@ + hex_text(tail));
    let j = 8 + d.len() as int;
    assert(k[7] == ':');
    assert(k[j] == ':');
    assert forall|i: int| 0 <= i < 7 implies k[i] != ':' by {
        assert(k[i] == "erc8128:"@[i]);
    }
    assert forall|i: int| 8 <= i < j implies k[i] != ':' by {
        assert(k[i] == d[i - 8]);
        assert(is_digit(d[i - 8]));
    }
    lemma_find_is(k, ':', 0, 7);
    lemma_find_is(k, ':', 8, j);
    assert(k.take(7) =~= "erc8128"@);
    assert(k.subrange(8, j) =~= d);
    assert(k.skip(j + 1) =~= s.address);
    assert forall|i: int| 0 <= i < k.len() implies #[trigger] k[i] != ';' by {
        if i < 8 {
            assert(k[i] == "erc8128:"@[i]);
        } else if i < j {
            assert(k[i] == d[i - 8]);
            assert(is_digit(d[i - 8]));
        } else if i > j {
            assert(k[i] == s.address[i - j - 1]);
            if i - j - 1 >= 2 {
                assert(s.address[i - j - 1] == hex_text(tail)[i - j - 3]);
            }
        }
    }
    assert(k[0] == 'e');
    assert(k.last() == s.address.last());
    if hex_text(tail).len() > 0 {
        assert(s.address.last() == hex_text(tail).last());
    } else {
        assert(s.address.last() == 'x');
    }
}

/// The part that says when a signature was created.
proof fn lemma_created_part(p: ParamsView, n: int)
    requires
        i64::MIN <= n <= i64::MAX,
    ensures
        free_of("created="@ + signed_decimal(n), ';'),
        with_param(p, "created="@ + signed_decimal(n)) == (ParamsView { created: Some(n as i64), ..p }),
{
    reveal_strlit("created=");
    reveal_strlit("created");
    let v = signed_decimal(n);
    let part = "created="@ + v;
    lemma_signed_decimal(n);
    assert(v.last() == '-' || is_digit(v.last()));
    assert(v[0] == '-' || is_digit(v[0]));
    lemma_key_value("created"@, v);
    assert(part =~= "created"@ + seq!['='] + v);
    lemma_unquote(v);
    assert forall|i: int| 0 <= i < part.len() implies #[trigger] part[i] != ';' by {
        if i >= 8 {
            assert(part[i] == v[i - 8]);
        }
    }
}

/// The part that says when a signature expires.
proof fn lemma_expires_part(p: ParamsView, n: int)
    requires
        i64::MIN <= n <= i64::MAX,
    ensures
        free_of("expires="@ + signed_decimal(n), ';'),
        with_param(p, "expires="@ + signed_decimal(n)) == (ParamsView { expires: Some(n as i64), ..p }),
{
    reveal_strlit("expires=");
    reveal_strlit("expires");
    reveal_strlit("created");
    assert("expires"@[0] != "created"@[0]);
    let v = signed_decimal(n);
    let part = "expires="@ + v;
    lemma_signed_decimal(n);
    assert(v.last() == '-' || is_digit(v.last()));
    assert(v[0] == '-' || is_digit(v[0]));
    lemma_key_value("expires"@, v);
    assert(part =~= "expires"@ + seq!['='] + v);
    lemma_unquote(v);
    assert forall|i: int| 0 <= i < part.len() implies #[trigger] part[i] != ';' by {
        if i >= 8 {
            assert(part[i] == v[i - 8]);
        }
    }
}

/// The part that says who signed.
proof fn lemma_keyid_part(p: ParamsView, s: Seq<char>)
    requires
        is_param_text(s),
    ensures
        free_of("keyid=\""@ + s + "\""@, ';'),
        with_param(p, "keyid=\""@ + s + "\""@) == (ParamsView { keyid: Some(s), ..p }),
{
    reveal_strlit("keyid=\"");
    reveal_strlit("keyid");
    reveal_strlit("\"");
    reveal_strlit("created");
    assert("keyid"@[0] != "created"@[0]);
    reveal_strlit("expires");
    assert("keyid"@[0] != "expires"@[0]);
    let v = seq!['"'] + s + seq!['"'];
    let part = "keyid=\""@ + s + "\""@;
    lemma_key_value("keyid"@, v);
    assert(part =~= "keyid"@ + seq!['='] + v);
    lemma_unquote(s);
    assert forall|i: int| 0 <= i < part.len() implies #[trigger] part[i] != ';' by {
        if 7 <= i < part.len() - 1 {
            assert(part[i] == s[i - 7]);
        }
    }
}

/// The part that says the nonce of a signature.
proof fn lemma_nonce_part(p: ParamsView, s: Seq<char>)
    requires
        is_param_text(s),
    ensures
        free_of("nonce=\""@ + s + "\""@, ';'),
        with_param(p, "nonce=\""@ + s + "\""@) == (ParamsView { nonce: Some(s), ..p }),
{
    reveal_strlit("nonce=\"");
    reveal_strlit("nonce");
    reveal_strlit("\"");
    reveal_strlit("created");
    assert("nonce"@[0] != "created"@[0]);
    reveal_strlit("expires");
    assert("nonce"@[0] != "expires"@[0]);
    reveal_strlit("keyid");
    assert("nonce"@[0] != "keyid"@[0]);
    let v = seq!['"'] + s + seq!['"'];
    let part = "nonce=\""@ + s + "\""@;
    lemma_key_value("nonce"@, v);
    assert(part =~= "nonce"@ + seq!['='] + v);
    lemma_unquote(s);
    assert forall|i: int| 0 <= i < part.len() implies #[trigger] part[i] != ';' by {
        if 7 <= i < part.len() - 1 {
            assert(part[i] == s[i - 7]);
        }
    }
}

/// The part that says how a signature was made changes nothing.
proof fn lemma_alg_part(p: ParamsView)
    ensures
        free_of("alg=\"erc191\""@, ';'),
        with_param(p, "alg=\"erc191\""@) == p,
{
    reveal_strlit("alg=\"erc191\"");
    reveal_strlit("created");
    reveal_strlit("expires");
    reveal_strlit("keyid");
    reveal_strlit("nonce");
    let key = seq!['a', 'l', 'g'];
    let v = seq!['"', 'e', 'r', 'c', '1', '9', '1', '"'];
    lemma_key_value(key, v);
    assert("alg=\"erc191\""@ =~= key + seq!['='] + v);
    assert(key[0] != "created"@[0] && key[0] != "expires"@[0] && key[0] != "keyid"@[0] && key[0]
        != "nonce"@[0]);
}

/// A text with one more part at its end has the parameters of the text and of
/// that part.
proof fn lemma_params_append(s: Seq<char>, part: Seq<char>)
    requires
        free_of(part, ';'),
    ensures
        params_of(split(s + ";"@ + part, ';')) == with_param(params_of(split(s, ';')), part),
{
    reveal_strlit(";");
    assert(";"@ =~= seq![';']);
    lemma_split_append(s, ';', part);
    lemma_params_push(split(s, ';'), part);
}

/// An empty text has no parameters.
proof fn lemma_no_params()
    ensures
        params_of(split(Seq::<char>::empty(), ';')) == (ParamsView {
            created: None,
            expires: None,
            keyid: None,
            nonce: None,
        }),
{
    let none = Seq::<char>::empty();
    let nothing = Seq::<Seq<char>>::empty();
    assert(none.subrange(0, 0) =~= none);
    assert(split(none, ';') =~= nothing.push(none));
    lemma_params_push(nothing, none);
    assert(trim_white(none) =~= none);
    assert(find(none, '=') is None);
}

/// The parameters after the components read back.
proof fn lemma_params_read_back(now: int, keyid: Seq<char>, nonce: Seq<char>)
    requires
        i64::MIN <= now <= i64::MAX - 300,
        is_param_text(keyid),
        is_param_text(nonce),
    ensures
        params_of(split(params_tail(now, keyid, nonce), ';')) == (ParamsView {
            created: Some(now as i64),
            expires: Some((now + 300) as i64),
            keyid: Some(keyid),
            nonce: Some(nonce),
        }),
{
    let none = Seq::<char>::empty();
    let p0 = ParamsView { created: None, expires: None, keyid: None, nonce: None };
    let p1 = ParamsView { created: Some(now as i64), ..p0 };
    let p2 = ParamsView { expires: Some((now + 300) as i64), ..p1 };
    let p3 = ParamsView { keyid: Some(keyid), ..p2 };
    let p4 = ParamsView { nonce: Some(nonce), ..p3 };
    let s1 = none + ";"@ + ("created="@ + signed_decimal(now));
    let s2 = s1 + ";"@ + ("expires="@ + signed_decimal(now + 300));
    let s3 = s2 + ";"@ + ("keyid=\""@ + keyid + "\""@);
    let s4 = s3 + ";"@ + ("nonce=\""@ + nonce + "\""@);
    assert(none + ";"@ =~= ";"@);
    lemma_no_params();
    lemma_created_part(p0, now);
    lemma_params_append(none, "created="@ + signed_decimal(now));
    lemma_expires_part(p1, now + 300);
    lemma_params_append(s1, "expires="@ + signed_decimal(now + 300));
    lemma_keyid_part(p2, keyid);
    lemma_params_append(s2, "keyid=\""@ + keyid + "\""@);
    lemma_nonce_part(p3, nonce);
    lemma_params_append(s3, "nonce=\""@ + nonce + "\""@);
    lemma_alg_part(p4);
    lemma_params_append(s4, "alg=\"erc191\""@);
}

/// What comes after the first of three texts can be put together first.
proof fn lemma_regroup(a: Seq<char>, b: Seq<char>, c: Seq<char>)
    ensures
        a + b + c == a + (b + c),
{
    assert(a + b + c =~= a + (b + c));
}

/// Where the brackets around a list without brackets stand.
proof fn lemma_brackets(list: Seq<char>, tail: Seq<char>)
    requires
        free_of(list, '('),
        free_of(list, ')'),
    ensures
        ({
            let params = "("@ + list + ")"@ + tail;
            let close = 1 + list.len() as int;
            &&& find(params, '(') == Some(0int)
            &&& find(params, ')') == Some(close)
            &&& params.subrange(1, close) == list
            &&& params.skip(close + 1) == tail
        }),
{
    reveal_strlit("(");
    reveal_strlit(")");
    let params = "("@ + list + ")"@ + tail;
    let close = 1 + list.len() as int;
    assert(params[0] == '(');
    assert(params[close] == ')');
    assert forall|j: int| 0 <= j < close implies params[j] != ')' by {
        if j > 0 {
            assert(params[j] == list[j - 1]);
        }
    }
    lemma_find_is(params, '(', 0, 0);
    lemma_find_is(params, ')', 0, close);
    assert(params.subrange(1, close) =~= list);
    assert(params.skip(close + 1) =~= tail);
}

/// The parameters after the components, each after a semicolon.
spec fn params_tail(now: int, keyid: Seq<char>, nonce: Seq<char>) -> Seq<char> {
    ";"@ + ("created="@ + signed_decimal(now)) + ";"@ + ("expires="@ + signed_decimal(now + 300))
        + ";"@ + ("keyid=\""@ + keyid + "\""@) + ";"@ + ("nonce=\""@ + nonce + "\""@) + ";"@
        + "alg=\"erc191\""@
}

/// The signature parameters are the components in brackets and what follows.
proof fn lemma_params_shape(s: SignerView, names: Seq<Seq<char>>, now: int, nonce: Seq<char>)
    ensures
        signature_params(s, names, now, nonce) == "("@ + quoted_list(names) + ")"@ + params_tail(
            now,
            key_id(s),
            nonce,
        ),
{
    let head = "("@ + quoted_list(names) + ")"@;
    let semi = ";"@;
    let p1 = "created="@ + signed_decimal(now);
    let p2 = "expires="@ + signed_decimal(now + 300);
    let p3 = "keyid=\""@ + key_id(s) + "\""@;
    let p4 = "nonce=\""@ + nonce + "\""@;
    lemma_regroup(head, semi, p1);
    lemma_regroup(head, semi + p1, semi);
    lemma_regroup(head, semi + p1 + semi, p2);
    lemma_regroup(head, semi + p1 + semi + p2, semi);
    lemma_regroup(head, semi + p1 + semi + p2 + semi, p3);
    lemma_regroup(head, semi + p1 + semi + p2 + semi + p3, semi);
    lemma_regroup(head, semi + p1 + semi + p2 + semi + p3 + semi, p4);
    lemma_regroup(head, semi + p1 + semi + p2 + semi + p3 + semi + p4, semi);
    lemma_regroup(head, semi + p1 + semi + p2 + semi + p3 + semi + p4 + semi, "alg=\"erc191\""@);
}

/// What follows a prefix that was put in front.
proof fn lemma_after_prefix(p: Seq<char>, s: Seq<char>)
    ensures
        after_prefix(p + s, p) == Some(s),
{
    assert((p + s).subrange(0, p.len() as int) =~= p);
    assert((p + s).skip(p.len() as int) =~= s);
}

/// A `Signature-Input` header that was signed reads back as its parts: the
/// components, the times, the key id, the nonce and the parameters.
pub proof fn law_signature_input_reads_back(
    s: SignerView,
    with_digest: bool,
    now: int,
    nonce: Seq<char>,
)
    requires
        s.valid(),
        i64::MIN <= now <= i64::MAX - 300,
        is_param_text(nonce),
    ensures
        ({
            let names = signed_components(with_digest);
            let params = signature_params(s, names, now, nonce);
            &&& brackets_in_order("eth="@ + params)
            &&& parsed_input("eth="@ + params) == Ok::<SigInputView, Seq<char>>(
                SigInputView {
                    components: names,
                    created: now as i64,
                    expires: (now + 300) as i64,
                    keyid: key_id(s),
                    nonce,
                    sig_params: params,
                },
            )
        }),
{
    let names = signed_components(with_digest);
    let list = quoted_list(names);
    lemma_component_names_plain(with_digest);
    lemma_components_read_back(names);
    lemma_list_free_of(names, '(');
    lemma_list_free_of(names, ')');
    lemma_key_id_reads_back(s);
    lemma_params_read_back(now, key_id(s), nonce);
    lemma_params_shape(s, names, now, nonce);
    let tail = params_tail(now, key_id(s), nonce);
    let params = "("@ + list + ")"@ + tail;
    lemma_after_prefix("eth="@, params);
    lemma_brackets(list, tail);
    lemma_header_reads_back(
        "eth="@ + params,
        params,
        1 + list.len() as int,
        params_of(split(tail, ';')),
        names,
    );
}

/// What a `Signature-Input` header says of its components and parameters.
proof fn lemma_header_reads_back(
    value: Seq<char>,
    params: Seq<char>,
    close: int,
    p: ParamsView,
    names: Seq<Seq<char>>,
)
    requires
        after_prefix(value, "eth="@) == Some(params),
        find(params, '(') == Some(0int),
        find(params, ')') == Some(close),
        close > 0,
        component_names(params.subrange(1, close)) == names,
        params_of(split(params.skip(close + 1), ';')) == p,
        p.created is Some,
        p.expires is Some,
        p.keyid is Some,
        p.nonce is Some,
    ensures
        brackets_in_order(value),
        parsed_input(value) == Ok::<SigInputView, Seq<char>>(
            SigInputView {
                components: names,
                created: p.created->0,
                expires: p.expires->0,
                keyid: p.keyid->0,
                nonce: p.nonce->0,
                sig_params: params,
            },
        ),
{
}

/// The bytes of a signature read back from its `Signature` header.
proof fn lemma_signature_reads_back(bytes: Seq<u8>)
    requires
        bytes.len() == 65,
        base64_bytes(base64_text(bytes)) == Ok::<Seq<u8>, Seq<char>>(bytes),
    ensures
        parsed_signature(signature_header(base64_text(bytes))) == Ok::<Seq<u8>, Seq<char>>(bytes),
{
    let b64 = base64_text(bytes);
    let value = "eth=:"@ + b64 + ":"@;
    reveal_strlit("eth=:");
    reveal_strlit(":");
    assert(value.subrange(0, 5) =~= "eth=:"@);
    let rest = value.skip(5);
    assert(rest =~= b64 + ":"@);
    assert(rest.subrange(rest.len() - 1, rest.len() as int) =~= ":"@);
    assert(rest.take(rest.len() - 1) =~= b64);
}

/// Requests with the same component values have the same signature base.
proof fn lemma_same_lines(a: BaseView, b: BaseView, names: Seq<Seq<char>>)
    requires
        forall|i: int|
            0 <= i < names.len() ==> component_value(a, #[trigger] names[i]) == component_value(
                b,
                names[i],
            ),
    ensures
        component_lines(a, names) == component_lines(b, names),
    decreases names.len(),
{
    if names.len() > 0 {
        lemma_same_lines(a, b, names.drop_last());
        assert(names.last() == names[names.len() - 1]);
    }
}

/// A request that carries the headers of its signature has the signature base
/// that was signed.
proof fn lemma_same_base(
    r: SignedRequestView,
    q: OutgoingView,
    h: SignedHeadersView,
    params: Seq<char>,
)
    requires
        carries(r, q, h),
        h.content_digest == q.digest(),
    ensures
        ({
            let names = signed_components(q.digest() is Some);
            signature_base(r.base(), names, params) == signature_base(q.base(), names, params)
        }),
{
    let names = signed_components(q.digest() is Some);
    reveal_strlit("@method");
    reveal_strlit("@authority");
    reveal_strlit("@path");
    reveal_strlit("@query");
    reveal_strlit("content-digest");
    reveal_strlit("");
    assert("@authority"@ != "@method"@) by {
        assert("@authority"@[1] != "@method"@[1]);
    }
    assert("@path"@ != "@method"@) by {
        assert("@path"@[1] != "@method"@[1]);
    }
    assert("@path"@ != "@authority"@) by {
        assert("@path"@[1] != "@authority"@[1]);
    }
    assert("@query"@ != "@method"@ && "@query"@ != "@authority"@ && "@query"@ != "@path"@) by {
        assert("@query"@[1] == 'q');
        assert("@method"@[1] == 'm' && "@authority"@[1] == 'a' && "@path"@[1] == 'p');
    }
    assert("content-digest"@[0] != '@' && "@method"@[0] == '@' && "@authority"@[0] == '@'
        && "@path"@[0] == '@' && "@query"@[0] == '@');
    if r.query_string.len() == 0 {
        assert(r.query_string =~= ""@);
    }
    assert forall|i: int| 0 <= i < names.len() implies component_value(r.base(), #[trigger] names[i])
        == component_value(q.base(), names[i]) by {
        if i == 4 {
            assert(names[i] == "content-digest"@);
        }
    }
    lemma_same_lines(r.base(), q.base(), names);
}

/// What was signed is verified: a request that carries the headers with which
/// a signer signed it is verified, as signed by the address and for the chain
/// of the signer, from a minute before the signing until the headers expire.
pub proof fn law_signed_request_verifies(
    s: SignerView,
    q: OutgoingView,
    now: int,
    nonce: Seq<char>,
    r: SignedRequestView,
    t: int,
)
    requires
        s.valid(),
        i64::MIN <= now <= i64::MAX - 300,
        is_uuid(nonce),
        is_plain_signature(s, signing_hash(s, q, now, nonce)),
        ({
            let hash = signing_hash(s, q, now, nonce);
            let sig = secp_signature(s.key, hash)->0;
            let bytes = sig.0.push((sig.1 + 27) as u8);
            &&& sig.0.len() == 64
            &&& secp_is_signature(sig.0)
            &&& secp_recovered(hash, sig.0, sig.1 == 1) == secp_public_key(s.key)
            &&& base64_bytes(base64_text(bytes)) == Ok::<Seq<u8>, Seq<char>>(bytes)
        }),
        carries(r, q, signed_headers(s, q, now, nonce)->Ok_0),
        now - 60 <= t < now + 300,
    ensures
        r.in_order(),
        verified(r, t) == Ok::<IdentityView, ErrorView>(
            IdentityView { wallet_address: s.address, chain_id: s.chain_id },
        ),
{
    let h = signed_headers(s, q, now, nonce)->Ok_0;
    let hash = signing_hash(s, q, now, nonce);
    let sig = secp_signature(s.key, hash)->0;
    let bytes = sig.0.push((sig.1 + 27) as u8);
    let names = signed_components(q.digest() is Some);
    let params = signature_params(s, names, now, nonce);
    lemma_uuid_is_param(nonce);
    law_signature_input_reads_back(s, q.digest() is Some, now, nonce);
    lemma_signature_reads_back(bytes);
    lemma_same_base(r, q, h, params);
    lemma_key_id_reads_back(s);
    assert(digest_error(r) is None);
    assert(bytes.take(64) =~= sig.0);
    assert(y_is_odd(bytes[64]) == (sig.1 == 1));
}

// ---------------------------------------------------------------------------
// Signing
// ---------------------------------------------------------------------------

/// A name in quotes.
fn quote(name: &str) -> (r: String)
    ensures
        r@ == quoted(name@),
{
    let mut out = "\"".to_owned();
    out.append(name);
    out.append("\"");
    out
}

/// Names in quotes, with spaces between them.
fn quote_list(names: &Vec<String>) -> (r: String)
    ensures
        r@ == quoted_list(texts_view(names@)),
{
    let ghost views = texts_view(names@);
    let mut out = "".to_owned();
    let mut i: usize = 0;
    assert(views.take(0) =~= seq![]);
    while i < names.len()
        invariant
            i <= names@.len(),
            views == texts_view(names@),
            out@ == quoted_list(views.take(i as int)),
        decreases names@.len() - i,
    {
        let q = quote(names[i].as_str());
        assert(views.take(i + 1).drop_last() =~= views.take(i as int));
        assert(views.take(i + 1).last() == names@[i as int]@);
        if i == 0 {
            out = q;
        } else {
            out.append(" ");
            out.append(q.as_str());
        }
        i += 1;
    }
    assert(views.take(i as int) =~= views);
    out
}

/// The `Signature` header of a signature in base64.
pub fn make_signature_header(b64: &str) -> (r: String)
    ensures
        r@ == signature_header(b64@),
{
    let mut out = "eth=:".to_owned();
    out.append(b64);
    out.append(":");
    out
}

/// A parameter `key="value"`, with `front` up to the first quote.
fn param(front: &str, value: &str) -> (r: String)
    ensures
        r@ == front@ + value@ + "\""@,
{
    let mut out = front.to_owned();
    out.append(value);
    out.append("\"");
    out
}

/// A parameter that is a number.
fn number_param(front: &str, n: i64) -> (r: String)
    ensures
        r@ == front@ + signed_decimal(n as int),
{
    let mut out = front.to_owned();
    out.append(signed_decimal_text(n).as_str());
    out
}

impl Erc8128Signer {
    /// The signer of a private key in hexadecimal, with or without `0x`.
    pub fn from_private_key(key_hex: &str, chain_id: u64) -> (r: Result<Self, Erc8128Error>)
        ensures
            match r {
                Ok(s) => signer_from_hex(key_hex@, chain_id) == Ok::<SignerView, Seq<char>>(s@)
                    && s@.valid(),
                Err(e) => e@ is SigningFailed && signer_from_hex(key_hex@, chain_id) == Err::<
                    SignerView,
                    Seq<char>,
                >(e@->SigningFailed_0),
            },
    {
        let hex = match strip_prefix(key_hex, "0x") {
            Some(rest) => rest,
            None => key_hex.to_owned(),
        };
        let key = match hex_decode(hex.as_str()) {
            Ok(key) => key,
            Err(e) => {
                let mut m = "invalid hex key: ".to_owned();
                m.append(e.as_str());
                return Err(Erc8128Error::SigningFailed(m));
            },
        };
        match public_key(key.as_slice()) {
            Ok(k) => {
                let address = address_of_key(&k);
                Ok(Erc8128Signer { key, address, chain_id })
            },
            Err(e) => {
                let mut m = "invalid private key: ".to_owned();
                m.append(e.as_str());
                Err(Erc8128Error::SigningFailed(m))
            },
        }
    }

    /// The address of the private key.
    pub fn address(&self) -> (r: &str)
        ensures
            r@ == self@.address,
    {
        self.address.as_str()
    }

    /// The key id of this signer.
    fn key_id(&self) -> (r: String)
        ensures
            r@ == key_id(self@),
    {
        let mut out = "erc8128:".to_owned();
        out.append(decimal_text(self.chain_id as u128).as_str());
        out.append(":");
        out.append(self.address.as_str());
        out
    }

    /// The signature parameters for some components.
    fn params(&self, names: &Vec<String>, now: i64, nonce: &str) -> (r: String)
        requires
            now <= i64::MAX - 300,
        ensures
            r@ == signature_params(self@, texts_view(names@), now as int, nonce@),
    {
        let keyid = self.key_id();
        let mut out = "(".to_owned();
        out.append(quote_list(names).as_str());
        out.append(")");
        out.append(";");
        out.append(number_param("created=", now).as_str());
        out.append(";");
        out.append(number_param("expires=", now + 300).as_str());
        out.append(";");
        out.append(param("keyid=\"", keyid.as_str()).as_str());
        out.append(";");
        out.append(param("nonce=\"", nonce).as_str());
        out.append(";");
        out.append("alg=\"erc191\"");
        out
    }

    /// Signs a request at the time `now`, in seconds since 1970, with a nonce.
    pub fn sign_request_at(
        &self,
        method: &str,
        authority: &str,
        path: &str,
        query: Option<&str>,
        body: Option<&[u8]>,
        now: i64,
        nonce: &str,
    ) -> (r: Result<Erc8128SignedHeaders, Erc8128Error>)
        requires
            self@.valid(),
            now <= i64::MAX - 300,
            is_uuid(nonce@),
        ensures
            signing_outcome(
                self@,
                outgoing(method, authority, path, query, body),
                now as int,
                nonce@,
                r,
            ),
    {
        let ghost q = outgoing(method, authority, path, query, body);
        let digest = match body {
            Some(b) => if b.len() > 0 {
                Some(content_digest_sha256(b))
            } else {
                None
            },
            None => None,
        };
        assert(text_view(digest) == q.digest());
        let mut names: Vec<String> = Vec::new();
        names.push("@method".to_owned());
        names.push("@authority".to_owned());
        names.push("@path".to_owned());
        names.push("@query".to_owned());
        if digest.is_some() {
            names.push("content-digest".to_owned());
        }
        assert(texts_view(names@) =~= signed_components(q.digest() is Some));
        let params = self.params(&names, now, nonce);
        let base = build_signature_base(
            method,
            authority,
            path,
            query,
            &digest,
            &names,
            params.as_str(),
        );
        let hash = eip191_hash(base.as_str().as_bytes());
        let (rs, recovery_id) = match sign_hash(self.key.as_slice(), hash.as_slice()) {
            Ok(p) => p,
            Err(e) => {
                let mut m = "sign_prehash: ".to_owned();
                m.append(e.as_str());
                return Err(Erc8128Error::SigningFailed(m));
            },
        };
        let mut sig = rs;
        sig.push(recovery_id + 27);
        let b64 = base64_encode(sig.as_slice());
        let mut signature_input = "eth=".to_owned();
        signature_input.append(params.as_str());
        let signature = make_signature_header(b64.as_str());
        let h = Erc8128SignedHeaders { signature_input, signature, content_digest: digest };
        proof {
            if is_plain_signature(self@, signing_hash(self@, q, now as int, nonce@)) {
                assert forall|r: SignedRequestView, t: int|
                    carries(r, q, h@) && now - 60 <= t < now + 300 implies #[trigger] verified(r, t)
                    == Ok::<IdentityView, ErrorView>(
                    IdentityView { wallet_address: self@.address, chain_id: self@.chain_id },
                ) by {
                    law_signed_request_verifies(self@, q, now as int, nonce@, r, t);
                }
            }
        }
        Ok(h)
    }

    /// Signs a request now, with a fresh nonce.
    pub fn sign_request(
        &self,
        method: &str,
        authority: &str,
        path: &str,
        query: Option<&str>,
        body: Option<&[u8]>,
    ) -> (r: Result<Erc8128SignedHeaders, Erc8128Error>)
        requires
            self@.valid(),
        ensures
            exists|now: int, nonce: Seq<char>|
                0 <= now < 10_000_000_000_000 && is_uuid(nonce) && #[trigger] signing_outcome(
                    self@,
                    outgoing(method, authority, path, query, body),
                    now,
                    nonce,
                    r,
                ),
    {
        let now = unix_seconds();
        let nonce = new_uuid();
        self.sign_request_at(method, authority, path, query, body, now, nonce.as_str())
    }
}

// ---------------------------------------------------------------------------
// Laws
// ---------------------------------------------------------------------------

/// What a signer signs: a line for the method, the authority, the path and the
/// query, one for the digest where there is a body, and the parameters that the
/// `Signature-Input` header gives. The signature is over the EIP-191 message of
/// just that, and the `Content-Digest` header is the digest of the body.
pub proof fn law_signs_the_request(s: SignerView, q: OutgoingView, now: int, nonce: Seq<char>)
    requires
        signed_headers(s, q, now, nonce) is Ok,
    ensures
        ({
            let h = signed_headers(s, q, now, nonce)->Ok_0;
            let params = h.signature_input.skip(4);
            let has_body = q.body is Some && q.body->0.len() > 0;
            let digest = "sha-256=:"@ + base64_text(sha256(q.body->0)) + ":"@;
            let lines = "\"@method\": "@ + uppercase(q.method) + "\n"@ + ("\"@authority\": "@
                + lowercase(q.authority) + "\n"@) + ("\"@path\": "@ + q.path + "\n"@) + (
            "\"@query\": ?"@ + or_nothing(q.query) + "\n"@);
            let base = if has_body {
                lines + ("\"content-digest\": "@ + digest + "\n"@) + "\"@signature-params\": "@
                    + params
            } else {
                lines + "\"@signature-params\": "@ + params
            };
            let sig = secp_signature(s.key, keccak256(eip191_bytes(encode_utf8(base))));
            let made = sig->0;
            &&& h.signature_input == "eth="@ + params
            &&& h.content_digest == if has_body {
                Some(digest)
            } else {
                None
            }
            &&& sig is Some
            &&& h.signature == "eth=:"@ + base64_text(made.0.push((made.1 + 27) as u8)) + ":"@
        }),
{
    reveal_strlit("eth=");
    let with_digest = q.digest() is Some;
    let names = signed_components(with_digest);
    let h = signed_headers(s, q, now, nonce)->Ok_0;
    let params = signature_params(s, names, now, nonce);
    assert(h.signature_input.skip(4) =~= params);
    let b = q.base();
    law_component_lines(b, "@method"@);
    lemma_base_of_the_lines(b, with_digest, params);
    assert(or_nothing(b.query) == or_nothing(q.query));
    if with_digest {
        assert(or_nothing(b.digest) == content_digest(q.body->0));
    }
}

/// The lines of a signature base over the components that are signed.
proof fn lemma_base_of_the_lines(b: BaseView, with_digest: bool, params: Seq<char>)
    ensures
        ({
            let lines = component_line(b, "@method"@) + component_line(b, "@authority"@)
                + component_line(b, "@path"@) + component_line(b, "@query"@);
            let last = "\"@signature-params\": "@;
            signature_base(b, signed_components(with_digest), params) == if with_digest {
                lines + component_line(b, "content-digest"@) + last + params
            } else {
                lines + last + params
            }
        }),
{
    let n0 = Seq::<Seq<char>>::empty();
    let n1 = seq!["@method"@];
    let n2 = n1.push("@authority"@);
    let n3 = n2.push("@path"@);
    let n4 = n3.push("@query"@);
    let n5 = n4.push("content-digest"@);
    reveal_strlit("");
    assert(n1.drop_last() =~= n0);
    assert(n2.drop_last() =~= n1);
    assert(n3.drop_last() =~= n2);
    assert(n4.drop_last() =~= n3);
    assert(n5.drop_last() =~= n4);
    assert(component_lines(b, n0) =~= Seq::<char>::empty());
    assert(component_lines(b, n1) =~= component_line(b, "@method"@));
    assert(component_lines(b, n2) == component_lines(b, n1) + component_line(b, "@authority"@));
    assert(component_lines(b, n3) == component_lines(b, n2) + component_line(b, "@path"@));
    assert(component_lines(b, n4) == component_lines(b, n3) + component_line(b, "@query"@));
    assert(component_lines(b, n5) == component_lines(b, n4) + component_line(b, "content-digest"@));
    assert(signed_components(false) =~= n4);
    assert(signed_components(true) =~= n5);
}

/// The parameters name the components first, in brackets and quotes, and say
/// last that the signature is an EIP-191 one.
pub proof fn law_signature_params(s: SignerView, with_digest: bool, now: int, nonce: Seq<char>)
    ensures
        ({
            let params = signature_params(s, signed_components(with_digest), now, nonce);
            let list = if with_digest {
                "(\"@method\" \"@authority\" \"@path\" \"@query\" \"content-digest\");created="@
            } else {
                "(\"@method\" \"@authority\" \"@path\" \"@query\");created="@
            };
            &&& after_prefix(params, list) is Some
            &&& before_suffix(params, ";alg=\"erc191\""@) is Some
        }),
{
    let names = signed_components(with_digest);
    let params = signature_params(s, names, now, nonce);
    reveal_strlit("(\"@method\" \"@authority\" \"@path\" \"@query\" \"content-digest\");created=");
    reveal_strlit("(\"@method\" \"@authority\" \"@path\" \"@query\");created=");
    reveal_strlit(";alg=\"erc191\"");
    reveal_strlit("alg=\"erc191\"");
    reveal_strlit(";");
    reveal_strlit("(");
    reveal_strlit(")");
    reveal_strlit("\"");
    reveal_strlit(" ");
    reveal_strlit("created=");
    reveal_strlit("@method");
    reveal_strlit("@authority");
    reveal_strlit("@path");
    reveal_strlit("@query");
    reveal_strlit("content-digest");
    let n1 = seq!["@method"@];
    let n2 = n1.push("@authority"@);
    let n3 = n2.push("@path"@);
    let n4 = n3.push("@query"@);
    assert(n2.drop_last() =~= n1);
    assert(n3.drop_last() =~= n2);
    assert(n4.drop_last() =~= n3);
    assert(quoted_list(n1) == quoted("@method"@));
    assert(quoted_list(n2) == quoted_list(n1) + " "@ + quoted("@authority"@));
    assert(quoted_list(n3) == quoted_list(n2) + " "@ + quoted("@path"@));
    let q4 = quoted_list(n4);
    assert(q4 == quoted("@method"@) + " "@ + quoted("@authority"@) + " "@ + quoted("@path"@) + " "@
        + quoted("@query"@));
    assert(signed_components(false) =~= n4);
    let list = if with_digest {
        assert(signed_components(true).drop_last() =~= n4);
        assert(quoted_list(names) == q4 + " "@ + quoted("content-digest"@));
        "(\"@method\" \"@authority\" \"@path\" \"@query\" \"content-digest\");created="@
    } else {
        "(\"@method\" \"@authority\" \"@path\" \"@query\");created="@
    };
    let head = "("@ + quoted_list(names) + ")"@ + ";"@ + "created="@;
    assert(head =~= list);
    assert(params.subrange(0, list.len() as int) =~= list);
    let tail = ";alg=\"erc191\""@;
    assert(params.subrange(params.len() - tail.len(), params.len() as int) =~= tail);
}

/// The key of a signer is read with or without `0x`, and its address is the one
/// of its public key.
pub proof fn law_signer_of_a_key(key: Seq<u8>, chain_id: u64)
    requires
        secp_public_key(key) is Some,
    ensures
        ({
            let s = signer_from_hex("0x"@ + hex_text(key), chain_id);
            &&& s matches Ok(v) && v.key == key && v.chain_id == chain_id && v.address == "0x"@
                + hex_text(keccak256(secp_public_key(key)->0.skip(1)).skip(12))
        }),
{
    reveal_strlit("0x");
    let t = "0x"@ + hex_text(key);
    lemma_after_prefix("0x"@, hex_text(key));
    lemma_hex_reads_back(key);
}

/// Every part of a request is signed as it is given: none is left out.
pub proof fn law_parts_are_signed(
    method: &str,
    authority: &str,
    path: &str,
    query: Option<&str>,
    body: Option<&[u8]>,
)
    ensures
        ({
            let q = outgoing(method, authority, path, query, body);
            &&& q.method == method@
            &&& q.authority == authority@
            &&& q.path == path@
            &&& query matches Some(t) ==> q.query == Some(t@)
            &&& query is None ==> q.query is None
            &&& body matches Some(b) ==> q.body == Some(b@)
            &&& body is None ==> q.body is None
        }),
{
}

/// A request that was signed, and is sent with the headers that came of it, is
/// verified as signed by the signer's wallet for its chain, from a minute before
/// until five minutes after.
pub proof fn law_signing_is_verified(
    s: SignerView,
    q: OutgoingView,
    now: int,
    nonce: Seq<char>,
    r: Result<Erc8128SignedHeaders, Erc8128Error>,
    received: SignedRequestView,
    t: int,
)
    requires
        signing_outcome(s, q, now, nonce, r),
        r is Ok,
        is_plain_signature(s, signing_hash(s, q, now, nonce)),
        carries(received, q, r->Ok_0@),
        now - 60 <= t < now + 300,
    ensures
        verified(received, t) is Ok,
        verified(received, t)->Ok_0.wallet_address == s.address,
        verified(received, t)->Ok_0.chain_id == s.chain_id,
{
}

/// The key id of a signer names the scheme, the chain and the address, in this
/// order, with colons between them.
pub proof fn law_key_id_names_the_signer(s: SignerView)
    ensures
        after_prefix(key_id(s), "erc8128:"@) == Some(
            decimal(s.chain_id as nat) + ":"@ + s.address,
        ),
        before_suffix(key_id(s), ":"@ + s.address) == Some(
            "erc8128:"@ + decimal(s.chain_id as nat),
        ),
{
    let number = decimal(s.chain_id as nat);
    let rest = number + ":"@ + s.address;
    let front = "erc8128:"@ + number;
    assert(key_id(s) =~= "erc8128:"@ + rest);
    assert(key_id(s) =~= front + (":"@ + s.address));
    law_prefix_and_rest(key_id(s), "erc8128:"@, rest);
    law_prefix_and_rest(key_id(s), ":"@ + s.address, front);
}

/// Where the key signs nothing, there are no headers, and the message says so.
pub proof fn law_signing_fails(s: SignerView, q: OutgoingView, now: int, nonce: Seq<char>)
    ensures
        signed_headers(s, q, now, nonce) is Err <==> secp_signature(
            s.key,
            signing_hash(s, q, now, nonce),
        ) is None,
        signed_headers(s, q, now, nonce) matches Err(e) ==> e == ErrorView::SigningFailed(
            "sign_prehash: signature error"@,
        ),
{
    reveal_strlit("sign_prehash: ");
    reveal_strlit("signature error");
    reveal_strlit("sign_prehash: signature error");
    assert("sign_prehash: "@ + "signature error"@ =~= "sign_prehash: signature error"@);
}

} // verus!
