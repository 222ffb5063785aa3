//! Verification of signed requests.
//!
//! A request carries `Signature-Input`, which lists the signed components and
//! the parameters, and `Signature`. The signature base is rebuilt from the
//! request, hashed, and the address that signed it is recovered and compared
//! with the one that the key id names.

use vstd::prelude::*;
use vstd::string::*;
use vstd::utf8::*;

use crate::clock::unix_seconds;
use crate::crypto::{
    check_signature, keccak256, keccak256_digest, recover_key, secp_is_signature, secp_recovered,
    sha256, sha256_digest,
};
use crate::encoding::{
    base64_bytes, base64_decode, base64_encode, base64_text, hex_encode, hex_text,
};
use crate::http::{header_present, header_text, str_view, text_view, Headers, HttpRequest};
use crate::text::{
    after_prefix, before_suffix, char_views, chars_of, decimal, decimal_text, decimal_value, find,
    find_char_from, find_from, free_of, is_digit, is_white, is_word, law_one_piece,
    law_prefix_and_rest, lemma_decimal, lemma_find_from, lemma_find_is, lemma_one_word,
    lemma_split_append, lemma_unquote, lemma_words_append, lowercase, parse_decimal, parse_signed,
    piece, same_text, signed_decimal_value, split, split_chars, split_words, strip_prefix,
    strip_suffix, text_of, to_lowercase, to_uppercase, trim_char, trim_chars_end, trim_chars_start,
    trim_chars_white, trim_white, uppercase, words,
};

use super::types::{Erc8128Error, Erc8128Identity, ErrorView, IdentityView};

verus! {

/// Whether a request has the headers of a signed one.
pub fn has_erc8128_headers(headers: &Headers) -> (r: bool)
    ensures
        r == (header_present(headers@, "signature-input"@) && header_present(
            headers@,
            "signature"@,
        )),
{
    headers.contains_key("signature-input") && headers.contains_key("signature")
}

// ---------------------------------------------------------------------------
// Signature-Input
// ---------------------------------------------------------------------------

/// The fields of a `Signature-Input` header.
pub struct SigInputParsed {
    pub components: Vec<String>,
    pub created: i64,
    pub expires: i64,
    pub keyid: String,
    pub nonce: String,
    /// Everything after `eth=`.
    pub sig_params: String,
}

/// The fields of a `Signature-Input` header.
pub struct SigInputView {
    pub components: Seq<Seq<char>>,
    pub created: i64,
    pub expires: i64,
    pub keyid: Seq<char>,
    pub nonce: Seq<char>,
    pub sig_params: Seq<char>,
}

/// The characters of a list of texts.
pub open spec fn texts_view(v: Seq<String>) -> Seq<Seq<char>> {
    Seq::new(v.len(), |i: int| v[i]@)
}

impl View for SigInputParsed {
    type V = SigInputView;

    open spec fn view(&self) -> SigInputView {
        SigInputView {
            components: texts_view(self.components@),
            created: self.created,
            expires: self.expires,
            keyid: self.keyid@,
            nonce: self.nonce@,
            sig_params: self.sig_params@,
        }
    }
}

/// The parameters found so far.
pub struct ParamsView {
    pub created: Option<i64>,
    pub expires: Option<i64>,
    pub keyid: Option<Seq<char>>,
    pub nonce: Option<Seq<char>>,
}

/// The 64-bit integer that a text writes.
pub open spec fn i64_value(s: Seq<char>) -> Option<i64> {
    match signed_decimal_value(s) {
        Some(n) => if i64::MIN <= n <= i64::MAX {
            Some(n as i64)
        } else {
            None
        },
        None => None,
    }
}

/// The parameters after one more part `key=value`. A part without an equals
/// sign and a key that is not known change nothing; of parts with one key the
/// last one counts.
pub open spec fn with_param(p: ParamsView, part: Seq<char>) -> ParamsView {
    let t = trim_white(part);
    match find(t, '=') {
        Some(k) => {
            let key = t.take(k);
            let v = trim_char(t.skip(k + 1), '"');
            if key == "created"@ {
                ParamsView { created: i64_value(v), ..p }
            } else if key == "expires"@ {
                ParamsView { expires: i64_value(v), ..p }
            } else if key == "keyid"@ {
                ParamsView { keyid: Some(v), ..p }
            } else if key == "nonce"@ {
                ParamsView { nonce: Some(v), ..p }
            } else {
                p
            }
        },
        None => p,
    }
}

/// The parameters that a list of parts gives.
pub open spec fn params_of(parts: Seq<Seq<char>>) -> ParamsView
    decreases parts.len(),
{
    if parts.len() == 0 {
        ParamsView { created: None, expires: None, keyid: None, nonce: None }
    } else {
        with_param(params_of(parts.drop_last()), parts.last())
    }
}

/// The words of a component list, without their quotes.
pub open spec fn component_names(list: Seq<char>) -> Seq<Seq<char>> {
    words(list).map_values(|w: Seq<char>| trim_char(w, '"'))
}

/// What a `Signature-Input` header says, or the message of the error.
pub open spec fn parsed_input(value: Seq<char>) -> Result<SigInputView, Seq<char>> {
    match after_prefix(value, "eth="@) {
        None => Err("must start with 'eth='"@),
        Some(rest) => match find(rest, '(') {
            None => Err("missing '('"@),
            Some(open) => match find(rest, ')') {
                None => Err("missing ')'"@),
                Some(close) => {
                    let p = params_of(split(rest.skip(close + 1), ';'));
                    if p.created is None {
                        Err("missing 'created'"@)
                    } else if p.expires is None {
                        Err("missing 'expires'"@)
                    } else if p.keyid is None {
                        Err("missing 'keyid'"@)
                    } else if p.nonce is None {
                        Err("missing 'nonce'"@)
                    } else {
                        Ok(
                            SigInputView {
                                components: component_names(rest.subrange(open + 1, close)),
                                created: p.created->0,
                                expires: p.expires->0,
                                keyid: p.keyid->0,
                                nonce: p.nonce->0,
                                sig_params: rest,
                            },
                        )
                    }
                },
            },
        },
    }
}

/// Whether the first `)` of a `Signature-Input` header does not stand before
/// its first `(`.
pub open spec fn brackets_in_order(value: Seq<char>) -> bool {
    match after_prefix(value, "eth="@) {
        Some(rest) => match (find(rest, '('), find(rest, ')')) {
            (Some(open), Some(close)) => open < close,
            _ => true,
        },
        None => true,
    }
}

/// Whether the first `)` of a `Signature-Input` header does not stand before
/// its first `(`.
pub fn has_brackets_in_order(value: &str) -> (r: bool)
    ensures
        r == brackets_in_order(value@),
{
    match strip_prefix(value, "eth=") {
        Some(rest) => {
            let v = chars_of(rest.as_str());
            match find_char_from(&v, '(', 0) {
                Some(open) => match find_char_from(&v, ')', 0) {
                    Some(close) => open < close,
                    None => true,
                },
                None => true,
            }
        },
        None => true,
    }
}

/// The characters without the runs of `c` at their ends.
fn trim_chars(v: &Vec<char>, c: char) -> (r: Vec<char>)
    ensures
        r@ == trim_char(v@, c),
{
    let front = trim_chars_start(v, c);
    trim_chars_end(&front, c)
}

/// The names in a component list.
fn read_components(list: &Vec<char>) -> (r: Vec<String>)
    ensures
        texts_view(r@) == component_names(list@),
{
    let ws = split_words(list);
    let mut out: Vec<String> = Vec::new();
    let mut i: usize = 0;
    while i < ws.len()
        invariant
            i <= ws@.len(),
            char_views(ws@) == words(list@),
            out@.len() == i,
            forall|j: int| 0 <= j < i ==> (#[trigger] out@[j])@ == component_names(list@)[j],
        decreases ws@.len() - i,
    {
        let name = text_of(&trim_chars(&ws[i], '"'));
        assert(char_views(ws@)[i as int] == ws@[i as int]@);
        out.push(name);
        i += 1;
    }
    assert(char_views(ws@).len() == ws@.len());
    assert(texts_view(out@) =~= component_names(list@));
    out
}

/// Reads a `Signature-Input` header.
pub fn parse_signature_input(value: &str) -> (r: Result<SigInputParsed, Erc8128Error>)
    requires
        brackets_in_order(value@),
    ensures
        match r {
            Ok(p) => parsed_input(value@) == Ok::<SigInputView, Seq<char>>(p@),
            Err(e) => e@ is InvalidSignatureInput && parsed_input(value@) == Err::<
                SigInputView,
                Seq<char>,
            >(e@->InvalidSignatureInput_0),
        },
{
    let rest = match strip_prefix(value, "eth=") {
        Some(rest) => rest,
        None => return Err(
            Erc8128Error::InvalidSignatureInput("must start with 'eth='".to_owned()),
        ),
    };
    let v = chars_of(rest.as_str());
    let len: usize = v.len();
    let open = match find_char_from(&v, '(', 0) {
        Some(k) => k,
        None => return Err(Erc8128Error::InvalidSignatureInput("missing '('".to_owned())),
    };
    let close = match find_char_from(&v, ')', 0) {
        Some(k) => k,
        None => return Err(Erc8128Error::InvalidSignatureInput("missing ')'".to_owned())),
    };
    let list = piece(&v, open + 1, close);
    let components = read_components(&list);
    let tail = piece(&v, close + 1, len);
    assert(tail@ =~= v@.skip(close + 1));
    let parts = split_chars(&tail, ';');
    let mut created: Option<i64> = None;
    let mut expires: Option<i64> = None;
    let mut keyid: Option<String> = None;
    let mut nonce: Option<String> = None;
    let ghost views = char_views(parts@);
    let mut i: usize = 0;
    assert(views.take(0) =~= seq![]);
    while i < parts.len()
        invariant
            i <= parts@.len(),
            views == char_views(parts@),
            params_of(views.take(i as int)) == (ParamsView {
                created,
                expires,
                keyid: text_view(keyid),
                nonce: text_view(nonce),
            }),
        decreases parts@.len() - i,
    {
        let t = trim_chars_white(&parts[i]);
        let end: usize = t.len();
        assert(views[i as int] == parts@[i as int]@);
        assert(views.take(i + 1).drop_last() =~= views.take(i as int));
        match find_char_from(&t, '=', 0) {
            Some(k) => {
                let key = text_of(&piece(&t, 0, k));
                assert(t@.subrange(0, k as int) =~= t@.take(k as int));
                let after = piece(&t, k + 1, end);
                assert(after@ =~= t@.skip(k + 1));
                let val = text_of(&trim_chars(&after, '"'));
                if same_text(key.as_str(), "created") {
                    created = parse_signed(val.as_str());
                } else if same_text(key.as_str(), "expires") {
                    expires = parse_signed(val.as_str());
                } else if same_text(key.as_str(), "keyid") {
                    keyid = Some(val);
                } else if same_text(key.as_str(), "nonce") {
                    nonce = Some(val);
                }
            },
            None => {},
        }
        i += 1;
    }
    assert(views.take(i as int) =~= views);
    let created = match created {
        Some(n) => n,
        None => return Err(Erc8128Error::InvalidSignatureInput("missing 'created'".to_owned())),
    };
    let expires = match expires {
        Some(n) => n,
        None => return Err(Erc8128Error::InvalidSignatureInput("missing 'expires'".to_owned())),
    };
    let keyid = match keyid {
        Some(s) => s,
        None => return Err(Erc8128Error::InvalidSignatureInput("missing 'keyid'".to_owned())),
    };
    let nonce = match nonce {
        Some(s) => s,
        None => return Err(Erc8128Error::InvalidSignatureInput("missing 'nonce'".to_owned())),
    };
    Ok(SigInputParsed { components, created, expires, keyid, nonce, sig_params: rest })
}

// ---------------------------------------------------------------------------
// Signature and digest
// ---------------------------------------------------------------------------

/// The 65 bytes that the base64 of a signature decodes to, or the message of
/// the error.
pub open spec fn signature_bytes(decoded: Result<Seq<u8>, Seq<char>>) -> Result<
    Seq<u8>,
    Seq<char>,
> {
    match decoded {
        Err(e) => Err("base64 decode: "@ + e),
        Ok(b) => if b.len() == 65 {
            Ok(b)
        } else {
            Err("expected 65 bytes, got "@ + decimal(b.len()))
        },
    }
}

/// The base64 of a `Signature` header, or the message of the error.
pub open spec fn signature_text(value: Seq<char>) -> Result<Seq<char>, Seq<char>> {
    match after_prefix(value, "eth=:"@) {
        None => Err("must start with 'eth=:'"@),
        Some(rest) => match before_suffix(rest, ":"@) {
            None => Err("must end with ':'"@),
            Some(b64) => Ok(b64),
        },
    }
}

/// The 65 bytes of a `Signature` header, or the message of the error.
pub open spec fn parsed_signature(value: Seq<char>) -> Result<Seq<u8>, Seq<char>> {
    match signature_text(value) {
        Err(e) => Err(e),
        Ok(b64) => signature_bytes(base64_bytes(b64)),
    }
}

/// The bytes of a signature, given what its base64 decodes to.
pub fn check_signature_bytes(decoded: Result<Vec<u8>, String>) -> (r: Result<
    Vec<u8>,
    Erc8128Error,
>)
    ensures
        ({
            let d = match decoded {
                Ok(b) => Ok::<Seq<u8>, Seq<char>>(b@),
                Err(e) => Err::<Seq<u8>, Seq<char>>(e@),
            };
            match r {
                Ok(b) => signature_bytes(d) == Ok::<Seq<u8>, Seq<char>>(b@) && b@.len() == 65,
                Err(e) => e@ is InvalidSignature && signature_bytes(d) == Err::<
                    Seq<u8>,
                    Seq<char>,
                >(e@->InvalidSignature_0),
            }
        }),
{
    match decoded {
        Err(e) => {
            let mut m = "base64 decode: ".to_owned();
            m.append(e.as_str());
            Err(Erc8128Error::InvalidSignature(m))
        },
        Ok(b) => {
            if b.len() == 65 {
                Ok(b)
            } else {
                let mut m = "expected 65 bytes, got ".to_owned();
                m.append(decimal_text(b.len() as u128).as_str());
                Err(Erc8128Error::InvalidSignature(m))
            }
        },
    }
}

/// Reads a `Signature` header.
pub fn parse_signature(value: &str) -> (r: Result<Vec<u8>, Erc8128Error>)
    ensures
        match r {
            Ok(b) => parsed_signature(value@) == Ok::<Seq<u8>, Seq<char>>(b@) && b@.len() == 65,
            Err(e) => e@ is InvalidSignature && parsed_signature(value@) == Err::<
                Seq<u8>,
                Seq<char>,
            >(e@->InvalidSignature_0),
        },
{
    let rest = match strip_prefix(value, "eth=:") {
        Some(rest) => rest,
        None => return Err(Erc8128Error::InvalidSignature("must start with 'eth=:'".to_owned())),
    };
    let b64 = match strip_suffix(rest.as_str(), ":") {
        Some(b64) => b64,
        None => return Err(Erc8128Error::InvalidSignature("must end with ':'".to_owned())),
    };
    check_signature_bytes(base64_decode(b64.as_str()))
}

/// The `Content-Digest` header of a hash in base64.
pub open spec fn digest_header(b64: Seq<char>) -> Seq<char> {
    "sha-256=:"@ + b64 + ":"@
}

/// The `Content-Digest` of a body.
pub open spec fn content_digest(body: Seq<u8>) -> Seq<char> {
    digest_header(base64_text(sha256(body)))
}

/// The `Content-Digest` header of a hash in base64.
pub fn make_digest_header(b64: &str) -> (r: String)
    ensures
        r@ == digest_header(b64@),
{
    let mut out = "sha-256=:".to_owned();
    out.append(b64);
    out.append(":");
    out
}

/// The `Content-Digest` of a body.
pub fn content_digest_sha256(body: &[u8]) -> (r: String)
    ensures
        r@ == content_digest(body@),
{
    let hash = sha256_digest(body);
    make_digest_header(base64_encode(hash.as_slice()).as_str())
}

// ---------------------------------------------------------------------------
// Signature base, hash and address
// ---------------------------------------------------------------------------

/// What a signature base is built from.
pub struct BaseView {
    pub method: Seq<char>,
    pub authority: Seq<char>,
    pub path: Seq<char>,
    pub query: Option<Seq<char>>,
    pub digest: Option<Seq<char>>,
}

/// The value that a component has in the signature base.
pub open spec fn component_value(b: BaseView, name: Seq<char>) -> Seq<char> {
    if name == "@method"@ {
        uppercase(b.method)
    } else if name == "@authority"@ {
        lowercase(b.authority)
    } else if name == "@path"@ {
        b.path
    } else if name == "@query"@ {
        "?"@ + match b.query {
            Some(q) => q,
            None => ""@,
        }
    } else if name == "content-digest"@ {
        match b.digest {
            Some(d) => d,
            None => ""@,
        }
    } else {
        ""@
    }
}

/// The line of a component in the signature base.
pub open spec fn component_line(b: BaseView, name: Seq<char>) -> Seq<char> {
    "\""@ + name + "\": "@ + component_value(b, name) + "\n"@
}

/// The lines of the first components.
pub open spec fn component_lines(b: BaseView, names: Seq<Seq<char>>) -> Seq<char>
    decreases names.len(),
{
    if names.len() == 0 {
        ""@
    } else {
        component_lines(b, names.drop_last()) + component_line(b, names.last())
    }
}

/// The signature base: a line for each component and one for the parameters.
pub open spec fn signature_base(b: BaseView, names: Seq<Seq<char>>, params: Seq<char>) -> Seq<
    char,
> {
    component_lines(b, names) + "\"@signature-params\": "@ + params
}

/// Builds the signature base.
pub(crate) fn build_signature_base(
    method: &str,
    authority: &str,
    path: &str,
    query: Option<&str>,
    digest: &Option<String>,
    names: &Vec<String>,
    params: &str,
) -> (r: String)
    ensures
        r@ == signature_base(
            BaseView {
                method: method@,
                authority: authority@,
                path: path@,
                query: str_view(query),
                digest: text_view(*digest),
            },
            texts_view(names@),
            params@,
        ),
{
    let ghost b = BaseView {
        method: method@,
        authority: authority@,
        path: path@,
        query: str_view(query),
        digest: text_view(*digest),
    };
    let ghost views = texts_view(names@);
    let mut out = "".to_owned();
    let mut i: usize = 0;
    assert(views.take(0) =~= seq![]);
    while i < names.len()
        invariant
            i <= names@.len(),
            views == texts_view(names@),
            b == (BaseView {
                method: method@,
                authority: authority@,
                path: path@,
                query: str_view(query),
                digest: text_view(*digest),
            }),
            out@ == component_lines(b, views.take(i as int)),
        decreases names@.len() - i,
    {
        let name = names[i].as_str();
        let value = if same_text(name, "@method") {
            to_uppercase(method)
        } else if same_text(name, "@authority") {
            to_lowercase(authority)
        } else if same_text(name, "@path") {
            path.to_owned()
        } else if same_text(name, "@query") {
            let mut q = "?".to_owned();
            match query {
                Some(t) => q.append(t),
                None => q.append(""),
            }
            q
        } else if same_text(name, "content-digest") {
            match digest {
                Some(d) => d.clone(),
                None => "".to_owned(),
            }
        } else {
            "".to_owned()
        };
        assert(value@ == component_value(b, name@));
        let mut line = "\"".to_owned();
        line.append(name);
        line.append("\": ");
        line.append(value.as_str());
        line.append("\n");
        out.append(line.as_str());
        assert(views.take(i + 1).drop_last() =~= views.take(i as int));
        assert(views.take(i + 1).last() == name@);
        i += 1;
    }
    assert(views.take(i as int) =~= views);
    out.append("\"@signature-params\": ");
    out.append(params);
    out
}

/// The bytes that EIP-191 hashes for a message.
pub open spec fn eip191_bytes(message: Seq<u8>) -> Seq<u8> {
    encode_utf8("\x19Ethereum Signed Message:\n"@ + decimal(message.len())) + message
}

/// The bytes that EIP-191 hashes for a message.
pub fn eip191_message(message: &[u8]) -> (r: Vec<u8>)
    ensures
        r@ == eip191_bytes(message@),
{
    let mut prefix = "\x19Ethereum Signed Message:\n".to_owned();
    prefix.append(decimal_text(message.len() as u128).as_str());
    let mut data: Vec<u8> = Vec::new();
    data.extend_from_slice(prefix.as_str().as_bytes());
    data.extend_from_slice(message);
    assert(data@ =~= eip191_bytes(message@));
    data
}

/// The EIP-191 hash of a message.
pub fn eip191_hash(message: &[u8]) -> (r: Vec<u8>)
    ensures
        r@ == keccak256(eip191_bytes(message@)),
        r@.len() == 32,
{
    keccak256_digest(eip191_message(message).as_slice())
}

/// The address that ends the hash of a public key.
pub open spec fn hash_address(hash: Seq<u8>) -> Seq<char> {
    "0x"@ + hex_text(hash.skip(12))
}

/// The address of an uncompressed public key.
pub open spec fn key_address(key: Seq<u8>) -> Seq<char> {
    hash_address(keccak256(key.skip(1)))
}

/// The bytes from `from` on.
fn bytes_from(b: &Vec<u8>, from: usize) -> (r: Vec<u8>)
    requires
        from <= b@.len(),
    ensures
        r@ == b@.skip(from as int),
{
    let mut out: Vec<u8> = Vec::new();
    let mut i: usize = from;
    while i < b.len()
        invariant
            from <= i <= b@.len(),
            out@ == b@.subrange(from as int, i as int),
        decreases b@.len() - i,
    {
        out.push(b[i]);
        i += 1;
        assert(out@ =~= b@.subrange(from as int, i as int));
    }
    assert(out@ =~= b@.skip(from as int));
    out
}

/// The address that ends the hash of a public key.
pub fn address_of_hash(hash: &Vec<u8>) -> (r: String)
    requires
        hash@.len() == 32,
    ensures
        r@ == hash_address(hash@),
{
    let tail = bytes_from(hash, 12);
    let mut out = "0x".to_owned();
    out.append(hex_encode(tail.as_slice()).as_str());
    out
}

/// The address of an uncompressed public key.
pub(crate) fn address_of_key(key: &Vec<u8>) -> (r: String)
    requires
        key@.len() == 65,
    ensures
        r@ == key_address(key@),
{
    let hash = keccak256_digest(bytes_from(key, 1).as_slice());
    address_of_hash(&hash)
}

/// Whether the recovery byte of a signature says that `y` is odd.
pub open spec fn y_is_odd(v: u8) -> bool {
    if v >= 27 {
        v != 27
    } else {
        v != 0
    }
}

/// The address that signed a hash with a 65-byte signature, or the message of
/// the error.
pub open spec fn recovered_address(hash: Seq<u8>, sig: Seq<u8>) -> Result<Seq<char>, Seq<char>> {
    if !secp_is_signature(sig.take(64)) {
        Err("invalid signature: "@ + "signature error"@)
    } else {
        match secp_recovered(hash, sig.take(64), y_is_odd(sig[64])) {
            Some(key) => Ok(key_address(key)),
            None => Err("recovery: "@ + "signature error"@),
        }
    }
}

/// Recovers the address that signed a hash.
pub fn ecrecover(hash: &Vec<u8>, sig: &Vec<u8>) -> (r: Result<String, Erc8128Error>)
    requires
        hash@.len() == 32,
        sig@.len() == 65,
    ensures
        match r {
            Ok(a) => recovered_address(hash@, sig@) == Ok::<Seq<char>, Seq<char>>(a@),
            Err(e) => e@ is RecoveryFailed && recovered_address(hash@, sig@) == Err::<
                Seq<char>,
                Seq<char>,
            >(e@->RecoveryFailed_0),
        },
{
    let mut rs: Vec<u8> = Vec::new();
    let mut i: usize = 0;
    while i < 64
        invariant
            i <= 64,
            sig@.len() == 65,
            rs@ == sig@.take(i as int),
        decreases 64 - i,
    {
        rs.push(sig[i]);
        i += 1;
        assert(rs@ =~= sig@.take(i as int));
    }
    match check_signature(rs.as_slice()) {
        Ok(_) => {},
        Err(e) => {
            let mut m = "invalid signature: ".to_owned();
            m.append(e.as_str());
            return Err(Erc8128Error::RecoveryFailed(m));
        },
    }
    let v = if sig[64] >= 27 {
        sig[64] - 27
    } else {
        sig[64]
    };
    match recover_key(hash.as_slice(), rs.as_slice(), v != 0) {
        Ok(key) => Ok(address_of_key(&key)),
        Err(e) => {
            let mut m = "recovery: ".to_owned();
            m.append(e.as_str());
            Err(Erc8128Error::RecoveryFailed(m))
        },
    }
}

// ---------------------------------------------------------------------------
// Key id
// ---------------------------------------------------------------------------

/// The chain and the lower-case address that a key id names, or the message of
/// the error.
pub open spec fn parsed_keyid(keyid: Seq<char>) -> Result<(u64, Seq<char>), Seq<char>> {
    match find(keyid, ':') {
        None => Err("keyid must be 'erc8128:{chain}:{addr}'"@),
        Some(i) => match find_from(keyid, ':', i + 1) {
            None => Err("keyid must be 'erc8128:{chain}:{addr}'"@),
            Some(j) => if keyid.take(i) != "erc8128"@ {
                Err("keyid must be 'erc8128:{chain}:{addr}'"@)
            } else {
                match decimal_value(keyid.subrange(i + 1, j)) {
                    Some(n) => if n <= u64::MAX {
                        Ok((n as u64, lowercase(keyid.skip(j + 1))))
                    } else {
                        Err("invalid chain_id in keyid"@)
                    },
                    None => Err("invalid chain_id in keyid"@),
                }
            },
        },
    }
}

/// Reads a key id.
fn parse_keyid(keyid: &str) -> (r: Result<(u64, String), Erc8128Error>)
    ensures
        match r {
            Ok(p) => parsed_keyid(keyid@) == Ok::<(u64, Seq<char>), Seq<char>>((p.0, p.1@)),
            Err(e) => e@ is InvalidSignatureInput && parsed_keyid(keyid@) == Err::<
                (u64, Seq<char>),
                Seq<char>,
            >(e@->InvalidSignatureInput_0),
        },
{
    let v = chars_of(keyid);
    let len: usize = v.len();
    if let Some(i) = find_char_from(&v, ':', 0) {
        if let Some(j) = find_char_from(&v, ':', i + 1) {
            let scheme = text_of(&piece(&v, 0, i));
            assert(v@.subrange(0, i as int) =~= v@.take(i as int));
            if same_text(scheme.as_str(), "erc8128") {
                let chain = text_of(&piece(&v, i + 1, j));
                let rest = text_of(&piece(&v, j + 1, len));
                assert(v@.subrange(j + 1, v@.len() as int) =~= v@.skip(j + 1));
                return match parse_decimal(chain.as_str(), 0xffff_ffff_ffff_ffff) {
                    Some(n) => Ok((n as u64, to_lowercase(rest.as_str()))),
                    None => Err(
                        Erc8128Error::InvalidSignatureInput("invalid chain_id in keyid".to_owned()),
                    ),
                };
            }
        }
    }
    Err(
        Erc8128Error::InvalidSignatureInput(
            "keyid must be 'erc8128:{chain}:{addr}'".to_owned(),
        ),
    )
}

// ---------------------------------------------------------------------------
// Verification
// ---------------------------------------------------------------------------

/// What verification reads of a request.
pub struct SignedRequestView {
    pub method: Seq<char>,
    pub path: Seq<char>,
    pub query_string: Seq<char>,
    pub headers: Seq<(Seq<char>, Option<Seq<char>>)>,
    pub body: Seq<u8>,
}

/// What verification reads of a request.
pub open spec fn signed_request(req: HttpRequest, body: Seq<u8>) -> SignedRequestView {
    SignedRequestView {
        method: req.method@,
        path: req.path@,
        query_string: req.query_string@,
        headers: req.headers@,
        body,
    }
}

impl SignedRequestView {
    /// What the signature base of the request is built from.
    pub open spec fn base(self) -> BaseView {
        BaseView {
            method: self.method,
            authority: match header_text(self.headers, "host"@) {
                Some(h) => h,
                None => ""@,
            },
            path: self.path,
            query: if self.query_string.len() == 0 {
                None
            } else {
                Some(self.query_string)
            },
            digest: header_text(self.headers, "content-digest"@),
        }
    }

    /// Whether the brackets of the `Signature-Input` header stand in order,
    /// where there is one and a `Signature` header beside it.
    pub open spec fn in_order(self) -> bool {
        match header_text(self.headers, "signature-input"@) {
            Some(v) => header_text(self.headers, "signature"@) is Some ==> brackets_in_order(v),
            None => true,
        }
    }
}

/// Who signed, given the address that did and the key id that must name it, or
/// the error.
pub open spec fn named_identity(address: Seq<char>, keyid: Seq<char>) -> Result<
    IdentityView,
    ErrorView,
> {
    match parsed_keyid(keyid) {
        Err(e) => Err(ErrorView::InvalidSignatureInput(e)),
        Ok(named) => if lowercase(address) != named.1 {
            Err(ErrorView::AddressMismatch { expected: named.1, recovered: address })
        } else {
            Ok(IdentityView { wallet_address: address, chain_id: named.0 })
        },
    }
}

/// Who signed, given the address that did and the key id that must name it.
pub fn match_identity(recovered: String, keyid: &str) -> (r: Result<Erc8128Identity, Erc8128Error>)
    ensures
        match r {
            Ok(id) => named_identity(recovered@, keyid@) == Ok::<IdentityView, ErrorView>(id@),
            Err(e) => named_identity(recovered@, keyid@) == Err::<IdentityView, ErrorView>(e@),
        },
{
    let (chain_id, expected) = match parse_keyid(keyid) {
        Ok(p) => p,
        Err(e) => return Err(e),
    };
    let lower = to_lowercase(recovered.as_str());
    if !same_text(lower.as_str(), expected.as_str()) {
        return Err(Erc8128Error::AddressMismatch { expected, recovered });
    }
    Ok(Erc8128Identity { wallet_address: recovered, chain_id })
}

/// Who signed the request as far as its signature and its key id say, or the
/// error.
pub open spec fn signer_of(r: SignedRequestView, input: SigInputView, sig: Seq<u8>) -> Result<
    IdentityView,
    ErrorView,
> {
    let base = signature_base(r.base(), input.components, input.sig_params);
    let hash = keccak256(eip191_bytes(encode_utf8(base)));
    match recovered_address(hash, sig) {
        Err(e) => Err(ErrorView::RecoveryFailed(e)),
        Ok(address) => named_identity(address, input.keyid),
    }
}

/// The error of a request whose body does not have the digest that it states.
pub open spec fn digest_error(r: SignedRequestView) -> Option<ErrorView> {
    if r.body.len() == 0 {
        None
    } else {
        match header_text(r.headers, "content-digest"@) {
            None => Some(ErrorView::MissingHeader("Content-Digest"@)),
            Some(d) => if d != content_digest(r.body) {
                Some(ErrorView::ContentDigestMismatch)
            } else {
                None
            },
        }
    }
}

/// The outcome of verifying a request at the time `now`, in seconds since
/// 1970.
pub open spec fn verified(r: SignedRequestView, now: int) -> Result<IdentityView, ErrorView> {
    match header_text(r.headers, "signature-input"@) {
        None => Err(ErrorView::MissingHeader("Signature-Input"@)),
        Some(si) => match header_text(r.headers, "signature"@) {
            None => Err(ErrorView::MissingHeader("Signature"@)),
            Some(sv) => match parsed_input(si) {
                Err(e) => Err(ErrorView::InvalidSignatureInput(e)),
                Ok(input) => match parsed_signature(sv) {
                    Err(e) => Err(ErrorView::InvalidSignature(e)),
                    Ok(sig) => if digest_error(r) is Some {
                        Err(digest_error(r)->0)
                    } else if input.created > now + 60 {
                        Err(ErrorView::NotYetValid)
                    } else if input.expires <= now {
                        Err(ErrorView::Expired)
                    } else {
                        signer_of(r, input, sig)
                    },
                },
            },
        },
    }
}

/// Verifies a signed request at the time `now`, in seconds since 1970.
pub fn verify_at(req: &HttpRequest, body: &[u8], now: i64) -> (r: Result<
    Erc8128Identity,
    Erc8128Error,
>)
    requires
        signed_request(*req, body@).in_order(),
        now <= i64::MAX - 60,
    ensures
        match r {
            Ok(id) => verified(signed_request(*req, body@), now as int) == Ok::<
                IdentityView,
                ErrorView,
            >(id@),
            Err(e) => verified(signed_request(*req, body@), now as int) == Err::<
                IdentityView,
                ErrorView,
            >(e@),
        },
{
    let sig_input_value = match req.headers.text("signature-input") {
        Some(v) => v,
        None => return Err(Erc8128Error::MissingHeader("Signature-Input")),
    };
    let sig_value = match req.headers.text("signature") {
        Some(v) => v,
        None => return Err(Erc8128Error::MissingHeader("Signature")),
    };
    let input = match parse_signature_input(sig_input_value.as_str()) {
        Ok(input) => input,
        Err(e) => return Err(e),
    };
    let sig = match parse_signature(sig_value.as_str()) {
        Ok(sig) => sig,
        Err(e) => return Err(e),
    };
    let digest = req.headers.text("content-digest");
    if body.len() != 0 {
        match &digest {
            Some(d) => {
                let expected = content_digest_sha256(body);
                if !same_text(expected.as_str(), d.as_str()) {
                    return Err(Erc8128Error::ContentDigestMismatch);
                }
            },
            None => return Err(Erc8128Error::MissingHeader("Content-Digest")),
        }
    }
    if input.created > now + 60 {
        return Err(Erc8128Error::NotYetValid);
    }
    if input.expires <= now {
        return Err(Erc8128Error::Expired);
    }
    let authority = match req.headers.text("host") {
        Some(h) => h,
        None => "".to_owned(),
    };
    let query = if req.query_string.as_str().is_empty() {
        None
    } else {
        Some(req.query_string.as_str())
    };
    let base = build_signature_base(
        req.method.as_str(),
        authority.as_str(),
        req.path.as_str(),
        query,
        &digest,
        &input.components,
        input.sig_params.as_str(),
    );
    let hash = eip191_hash(base.as_str().as_bytes());
    let recovered = match ecrecover(&hash, &sig) {
        Ok(a) => a,
        Err(e) => return Err(e),
    };
    match_identity(recovered, input.keyid.as_str())
}

/// Verifies a signed request now.
pub fn verify_from_request(req: &HttpRequest, body: &[u8]) -> (r: Result<
    Erc8128Identity,
    Erc8128Error,
>)
    requires
        signed_request(*req, body@).in_order(),
    ensures
        exists|now: int|
            0 <= now < 10_000_000_000_000 && match r {
                Ok(id) => #[trigger] verified(signed_request(*req, body@), now) == Ok::<
                    IdentityView,
                    ErrorView,
                >(id@),
                Err(e) => verified(signed_request(*req, body@), now) == Err::<
                    IdentityView,
                    ErrorView,
                >(e@),
            },
{
    verify_at(req, body, unix_seconds())
}

// ---------------------------------------------------------------------------
// Laws
// ---------------------------------------------------------------------------

/// The names of the components differ.
proof fn lemma_component_names_differ()
    ensures
        "@method"@.len() == 7,
        "@authority"@.len() == 10,
        "@path"@.len() == 5,
        "@query"@.len() == 6,
        "content-digest"@.len() == 14,
{
    reveal_strlit("@method");
    reveal_strlit("@authority");
    reveal_strlit("@path");
    reveal_strlit("@query");
    reveal_strlit("content-digest");
}

/// The characters of an optional text, or none.
pub open spec fn or_nothing(s: Option<Seq<char>>) -> Seq<char> {
    match s {
        Some(t) => t,
        None => Seq::empty(),
    }
}

/// The lines of a signature base: for each component its name in quotes and
/// its value. The method is in upper case, the authority in lower case, the
/// path as it is, the query in full after a question mark, and the digest as
/// the header states it; any other component has no value.
pub proof fn law_component_lines(b: BaseView, name: Seq<char>)
    ensures
        component_line(b, "@method"@) == "\"@method\": "@ + uppercase(b.method) + "\n"@,
        component_line(b, "@authority"@) == "\"@authority\": "@ + lowercase(b.authority) + "\n"@,
        component_line(b, "@path"@) == "\"@path\": "@ + b.path + "\n"@,
        component_line(b, "@query"@) == "\"@query\": ?"@ + or_nothing(b.query) + "\n"@,
        component_line(b, "content-digest"@) == "\"content-digest\": "@ + or_nothing(b.digest)
            + "\n"@,
        name != "@method"@ && name != "@authority"@ && name != "@path"@ && name != "@query"@ && name
            != "content-digest"@ ==> component_line(b, name) == "\""@ + name + "\": \n"@,
{
    lemma_component_names_differ();
    reveal_strlit("@method");
    reveal_strlit("@authority");
    reveal_strlit("@path");
    reveal_strlit("@query");
    reveal_strlit("content-digest");
    reveal_strlit("\"");
    reveal_strlit("\": ");
    reveal_strlit("\": \n");
    reveal_strlit("\n");
    reveal_strlit("?");
    reveal_strlit("");
    reveal_strlit("\"@method\": ");
    reveal_strlit("\"@authority\": ");
    reveal_strlit("\"@path\": ");
    reveal_strlit("\"@query\": ?");
    reveal_strlit("\"content-digest\": ");
    assert("\"@method\": "@ =~= "\""@ + "@method"@ + "\": "@);
    assert("\"@authority\": "@ =~= "\""@ + "@authority"@ + "\": "@);
    assert("\"@path\": "@ =~= "\""@ + "@path"@ + "\": "@);
    assert("\"content-digest\": "@ =~= "\""@ + "content-digest"@ + "\": "@);
    lemma_quoted_name("@method"@, "\"@method\": "@, uppercase(b.method));
    lemma_quoted_name("@authority"@, "\"@authority\": "@, lowercase(b.authority));
    lemma_quoted_name("@path"@, "\"@path\": "@, b.path);
    lemma_quoted_name("content-digest"@, "\"content-digest\": "@, or_nothing(b.digest));
    assert(component_value(b, "content-digest"@) =~= or_nothing(b.digest));
    assert(component_value(b, "@query"@) =~= "?"@ + or_nothing(b.query));
    assert(component_line(b, "@query"@) =~= "\"@query\": ?"@ + or_nothing(b.query) + "\n"@);
    if name != "@method"@ && name != "@authority"@ && name != "@path"@ && name != "@query"@ && name
        != "content-digest"@ {
        assert(component_line(b, name) =~= "\""@ + name + "\": \n"@);
    }
}

/// A name in quotes, a colon and a value, with what comes before the value put
/// together.
proof fn lemma_quoted_name(name: Seq<char>, head: Seq<char>, value: Seq<char>)
    requires
        head == "\""@ + name + "\": "@,
    ensures
        "\""@ + name + "\": "@ + value + "\n"@ == head + value + "\n"@,
{
}

/// A signature base is the lines of its components in their order, and a last
/// line with the parameters.
pub proof fn law_signature_base_lines(
    b: BaseView,
    names: Seq<Seq<char>>,
    name: Seq<char>,
    params: Seq<char>,
)
    ensures
        signature_base(b, Seq::<Seq<char>>::empty(), params) == "\"@signature-params\": "@ + params,
        signature_base(b, seq![name] + names, params) == component_line(b, name) + signature_base(
            b,
            names,
            params,
        ),
    decreases names.len(),
{
    reveal_strlit("");
    let last = "\"@signature-params\": "@;
    assert(component_lines(b, Seq::<Seq<char>>::empty()) =~= Seq::<char>::empty());
    assert(signature_base(b, Seq::<Seq<char>>::empty(), params) =~= last + params);
    lemma_lines_front(b, names, name);
    assert(signature_base(b, seq![name] + names, params) =~= component_line(b, name)
        + signature_base(b, names, params));
}

/// The line of the first component comes first.
proof fn lemma_lines_front(b: BaseView, names: Seq<Seq<char>>, name: Seq<char>)
    ensures
        component_lines(b, seq![name] + names) == component_line(b, name) + component_lines(
            b,
            names,
        ),
    decreases names.len(),
{
    reveal_strlit("");
    let all = seq![name] + names;
    if names.len() == 0 {
        assert(all.drop_last() =~= Seq::<Seq<char>>::empty());
        assert(all.last() == name);
        assert(component_lines(b, all.drop_last()) =~= Seq::<char>::empty());
        assert(component_lines(b, names) =~= Seq::<char>::empty());
        assert(component_lines(b, all) =~= component_line(b, name) + component_lines(b, names));
    } else {
        lemma_lines_front(b, names.drop_last(), name);
        assert(all.drop_last() =~= seq![name] + names.drop_last());
        assert(all.last() == names.last());
        assert(component_lines(b, all) =~= component_line(b, name) + component_lines(b, names));
    }
}

/// Whether the parts of a request hold no line break.
pub open spec fn one_line(b: BaseView) -> bool {
    &&& free_of(uppercase(b.method), '\n')
    &&& free_of(lowercase(b.authority), '\n')
    &&& free_of(b.path, '\n')
    &&& free_of(or_nothing(b.query), '\n')
    &&& free_of(or_nothing(b.digest), '\n')
}

/// A component without its line break.
spec fn bare_line(b: BaseView, name: Seq<char>) -> Seq<char> {
    "\""@ + name + "\": "@ + component_value(b, name)
}

/// The lines of a signature base are the pieces between its line breaks.
proof fn lemma_base_splits(b: BaseView, names: Seq<Seq<char>>, rest: Seq<char>)
    requires
        one_line(b),
        forall|i: int| 0 <= i < names.len() ==> free_of(#[trigger] names[i], '\n'),
        free_of(rest, '\n'),
    ensures
        split(component_lines(b, names) + rest, '\n') == names.map_values(
            |n: Seq<char>| bare_line(b, n),
        ).push(rest),
    decreases names.len(),
{
    reveal_strlit("");
    reveal_strlit("\n");
    reveal_strlit("\"");
    reveal_strlit("\": ");
    reveal_strlit("?");
    let pieces = names.map_values(|n: Seq<char>| bare_line(b, n));
    let all = component_lines(b, names) + rest;
    if names.len() == 0 {
        assert(all =~= rest);
        lemma_find_from(rest, '\n', 0);
        assert(rest.subrange(0, rest.len() as int) =~= rest);
        assert(split(rest, '\n') =~= pieces.push(rest));
    } else {
        let front = names.drop_last();
        let line = bare_line(b, names.last());
        assert(free_of(names.last(), '\n'));
        assert(free_of(component_value(b, names.last()), '\n'));
        assert(free_of(line, '\n'));
        assert forall|i: int| 0 <= i < front.len() implies free_of(#[trigger] front[i], '\n') by {
            assert(front[i] == names[i]);
        }
        lemma_base_splits(b, front, line);
        assert("\n"@ =~= seq!['\n']);
        let before = component_lines(b, front) + line;
        assert(all =~= before + seq!['\n'] + rest);
        lemma_split_append(before, '\n', rest);
        assert(pieces =~= front.map_values(|n: Seq<char>| bare_line(b, n)).push(line));
    }
}

/// A signature base determines what it was built from: of two requests without
/// line breaks, over whose listed components the bases are the same, the
/// parameters are the same, and so are the method and the authority up to
/// their case, the path, the query and the digest, each where it is listed. A
/// signature for one request is thus none for another.
pub proof fn law_base_determines_request(
    a: BaseView,
    b: BaseView,
    names: Seq<Seq<char>>,
    p: Seq<char>,
    q: Seq<char>,
)
    requires
        one_line(a),
        one_line(b),
        forall|i: int| 0 <= i < names.len() ==> free_of(#[trigger] names[i], '\n'),
        free_of(p, '\n'),
        free_of(q, '\n'),
        signature_base(a, names, p) == signature_base(b, names, q),
    ensures
        p == q,
        names.contains("@method"@) ==> uppercase(a.method) == uppercase(b.method),
        names.contains("@authority"@) ==> lowercase(a.authority) == lowercase(b.authority),
        names.contains("@path"@) ==> a.path == b.path,
        names.contains("@query"@) ==> or_nothing(a.query) == or_nothing(b.query),
        names.contains("content-digest"@) ==> or_nothing(a.digest) == or_nothing(b.digest),
{
    reveal_strlit("");
    reveal_strlit("?");
    reveal_strlit("\"@signature-params\": ");
    lemma_component_names_differ();
    let last = "\"@signature-params\": "@;
    assert(signature_base(a, names, p) =~= component_lines(a, names) + (last + p));
    assert(signature_base(b, names, q) =~= component_lines(b, names) + (last + q));
    lemma_base_splits(a, names, last + p);
    lemma_base_splits(b, names, last + q);
    let xs = names.map_values(|n: Seq<char>| bare_line(a, n));
    let ys = names.map_values(|n: Seq<char>| bare_line(b, n));
    assert(xs.push(last + p) == ys.push(last + q));
    assert(xs.push(last + p).last() == ys.push(last + q).last());
    assert((last + p).skip(last.len() as int) =~= p);
    assert((last + q).skip(last.len() as int) =~= q);
    assert forall|i: int| 0 <= i < names.len() implies component_value(a, #[trigger] names[i])
        == component_value(b, names[i]) by {
        assert(xs.push(last + p)[i] == ys.push(last + q)[i]);
        let head = "\""@ + names[i] + "\": "@;
        assert(bare_line(a, names[i]).skip(head.len() as int) =~= component_value(a, names[i]));
        assert(bare_line(b, names[i]).skip(head.len() as int) =~= component_value(b, names[i]));
    }
    if names.contains("@method"@) {
        let i = choose|i: int| 0 <= i < names.len() && names[i] == "@method"@;
    }
    if names.contains("@authority"@) {
        let i = choose|i: int| 0 <= i < names.len() && names[i] == "@authority"@;
    }
    if names.contains("@path"@) {
        let i = choose|i: int| 0 <= i < names.len() && names[i] == "@path"@;
    }
    if names.contains("@query"@) {
        let i = choose|i: int| 0 <= i < names.len() && names[i] == "@query"@;
        assert(component_value(a, names[i]).skip(1) =~= or_nothing(a.query));
        assert(component_value(b, names[i]).skip(1) =~= or_nothing(b.query));
    }
    if names.contains("content-digest"@) {
        let i = choose|i: int| 0 <= i < names.len() && names[i] == "content-digest"@;
        assert(component_value(a, names[i]) =~= or_nothing(a.digest));
        assert(component_value(b, names[i]) =~= or_nothing(b.digest));
    }
}

/// The bytes that EIP-191 hashes begin with the byte 25, the words of the
/// standard and a line break, go on with the length of the message in decimal,
/// and end with the message.
pub proof fn law_eip191_bytes(message: Seq<u8>)
    ensures
        ({
            let b = eip191_bytes(message);
            let head = "\x19Ethereum Signed Message:\n"@;
            let n = decimal(message.len());
            &&& b.len() == 26 + n.len() + message.len()
            &&& b[0] == 25
            &&& forall|i: int| 0 <= i < 26 ==> #[trigger] b[i] == head[i] as u8
            &&& forall|i: int| 26 <= i < 26 + n.len() ==> #[trigger] b[i] == n[i - 26] as u8
            &&& b.skip(26 + n.len() as int) == message
            &&& decimal_value(n) == Some(message.len())
        }),
{
    reveal_strlit("\x19Ethereum Signed Message:\n");
    let head = "\x19Ethereum Signed Message:\n"@;
    let n = decimal(message.len());
    let b = eip191_bytes(message);
    lemma_decimal(message.len());
    assert(is_ascii_chars(head + n)) by {
        assert forall|i: int| 0 <= i < (head + n).len() implies '\0' <= #[trigger] (head + n)[i]
            <= '\u{7f}' by {
            if i >= 26 {
                assert(is_digit(n[i - 26]));
            }
        }
    }
    is_ascii_chars_encode_utf8(head + n);
    let front = encode_utf8(head + n);
    assert forall|i: int| 0 <= i < 26 implies #[trigger] b[i] == head[i] as u8 by {
        assert((head + n)[i] == head[i]);
        assert(front[i] == b[i]);
    }
    assert forall|i: int| 26 <= i < 26 + n.len() implies #[trigger] b[i] == n[i - 26] as u8 by {
        assert((head + n)[i] == n[i - 26]);
        assert(front[i] == b[i]);
    }
    assert(b.skip(26 + n.len() as int) =~= message);
}

/// The address of a public key is `0x` and the last 20 bytes of the hash of the
/// key without its first byte, in lower-case hexadecimal.
pub proof fn law_address_of_a_key(key: Seq<u8>)
    requires
        keccak256(key.skip(1)).len() == 32,
    ensures
        ({
            let hash = keccak256(key.skip(1));
            let a = key_address(key);
            &&& a.len() == 42
            &&& a[0] == '0'
            &&& a[1] == 'x'
            &&& a.skip(2) == hex_text(hash.subrange(12, 32))
        }),
{
    reveal_strlit("0x");
    let hash = keccak256(key.skip(1));
    assert(hash.skip(12) =~= hash.subrange(12, 32));
    assert(key_address(key).skip(2) =~= hex_text(hash.subrange(12, 32)));
}

/// The recovery byte of a signature counts from 0 or from 27: the parity of
/// `y` is the same, and only the first of each says that `y` is even.
pub proof fn law_recovery_byte(v: u8)
    requires
        v < 27,
    ensures
        y_is_odd(v) == y_is_odd((v + 27) as u8),
        y_is_odd(v) <==> v != 0,
{
}

/// A key id names a chain and an address; the address is read in lower case.
pub proof fn law_key_id_is_read(chain: u64, address: Seq<char>)
    ensures
        parsed_keyid("erc8128:"@ + decimal(chain as nat) + ":"@ + address) == Ok::<
            (u64, Seq<char>),
            Seq<char>,
        >((chain, lowercase(address))),
{
    reveal_strlit("erc8128:");
    reveal_strlit("erc8128");
    reveal_strlit(":");
    let d = decimal(chain as nat);
    let k = "erc8128:"@ + d + ":"@ + address;
    lemma_decimal(chain as nat);
    let j = 8 + d.len() as int;
    assert(k[7] == ':');
    assert(k[j] == ':');
    assert forall|i: int| 0 <= i < 7 implies k[i] != ':' by {
        assert(k[i] == "erc8128:"@[i]);
    }
    assert forall|i: int| 8 <= i < j implies k[i] != ':' by {
        assert(k[i] == d[i - 8]);
        assert(is_digit(d[i - 8]));
    }
    lemma_find_is(k, ':', 0, 7);
    lemma_find_is(k, ':', 8, j);
    assert(k.take(7) =~= "erc8128"@);
    assert(k.subrange(8, j) =~= d);
    assert(k.skip(j + 1) =~= address);
}

/// A key id that is read begins with `erc8128:`.
pub proof fn law_other_schemes_are_refused(keyid: Seq<char>)
    requires
        parsed_keyid(keyid) is Ok,
    ensures
        after_prefix(keyid, "erc8128:"@) is Some,
{
    reveal_strlit("erc8128:");
    reveal_strlit("erc8128");
    lemma_find_from(keyid, ':', 0);
    let i = find(keyid, ':')->0;
    assert(keyid.take(i) == "erc8128"@);
    assert(keyid.take(i).len() == i);
    assert(keyid.subrange(0, 8) =~= "erc8128:"@) by {
        assert forall|j: int| 0 <= j < 7 implies keyid[j] == "erc8128"@[j] by {
            assert(keyid.take(i)[j] == keyid[j]);
        }
    }
}

/// The identity of a signer is the address that was recovered, as it is, and
/// the chain that the key id names; it is given only where the key id names
/// that address, in whatever case.
pub proof fn law_key_id_must_match(address: Seq<char>, chain: u64, named: Seq<char>)
    ensures
        ({
            let keyid = "erc8128:"@ + decimal(chain as nat) + ":"@ + named;
            let r = named_identity(address, keyid);
            &&& r is Ok <==> lowercase(address) == lowercase(named)
            &&& r matches Ok(id) ==> id.wallet_address == address && id.chain_id == chain
            &&& r is Err ==> r->Err_0 == (ErrorView::AddressMismatch {
                expected: lowercase(named),
                recovered: address,
            })
        }),
{
    law_key_id_is_read(chain, named);
}

/// What a request that is verified is sure to be: it carries the two headers;
/// its time has come, but for a minute, and is not over; a body that is not
/// empty has the SHA-256 digest that it states; and the address that is given
/// is the one of the key that signed the EIP-191 message of the request's
/// signature base, which the key id names.
pub proof fn law_verified_means_signed(r: SignedRequestView, now: int)
    requires
        verified(r, now) is Ok,
    ensures
        ({
            let id = verified(r, now)->Ok_0;
            let si = header_text(r.headers, "signature-input"@);
            let sv = header_text(r.headers, "signature"@);
            let input = parsed_input(si->0)->Ok_0;
            let sig = parsed_signature(sv->0)->Ok_0;
            let base = signature_base(r.base(), input.components, input.sig_params);
            let hash = keccak256(eip191_bytes(encode_utf8(base)));
            let key = secp_recovered(hash, sig.take(64), y_is_odd(sig[64]));
            &&& si is Some
            &&& sv is Some
            &&& parsed_input(si->0) is Ok
            &&& parsed_signature(sv->0) is Ok
            &&& sig.len() == 65
            &&& input.created <= now + 60
            &&& now < input.expires
            &&& r.body.len() > 0 ==> header_text(r.headers, "content-digest"@) == Some(
                "sha-256=:"@ + base64_text(sha256(r.body)) + ":"@,
            )
            &&& secp_is_signature(sig.take(64))
            &&& key is Some
            &&& id.wallet_address == "0x"@ + hex_text(keccak256(key->0.skip(1)).skip(12))
            &&& parsed_keyid(input.keyid) == Ok::<(u64, Seq<char>), Seq<char>>(
                (id.chain_id, lowercase(id.wallet_address)),
            )
        }),
{
}

/// What the signature base of a request is built from: its method, its `Host`
/// header, its path, its query where it has one, and its `Content-Digest`
/// header.
pub proof fn law_base_of_a_request(r: SignedRequestView)
    ensures
        ({
            let b = r.base();
            &&& b.method == r.method
            &&& b.authority == or_nothing(header_text(r.headers, "host"@))
            &&& b.path == r.path
            &&& or_nothing(b.query) == r.query_string
            &&& b.digest == header_text(r.headers, "content-digest"@)
        }),
{
    reveal_strlit("");
    assert(""@ =~= Seq::<char>::empty());
    if r.query_string.len() == 0 {
        assert(r.query_string =~= Seq::<char>::empty());
    }
}

/// A request that is verified at one time is verified at any other one from a
/// minute before its signature was created until it expires, as signed by the
/// same address, and at no time before or after.
pub proof fn law_verified_for_its_time(r: SignedRequestView, now: int, later: int)
    requires
        verified(r, now) is Ok,
    ensures
        ({
            let input = parsed_input(header_text(r.headers, "signature-input"@)->0)->Ok_0;
            &&& input.created - 60 <= later < input.expires ==> verified(r, later) == verified(
                r,
                now,
            )
            &&& later < input.created - 60 ==> verified(r, later) == Err::<IdentityView, ErrorView>(
                ErrorView::NotYetValid,
            )
            &&& input.created - 60 <= later && input.expires <= later ==> verified(r, later)
                == Err::<IdentityView, ErrorView>(ErrorView::Expired)
        }),
{
}

/// A request that was verified is not verified with another body, unless the
/// two bodies have one digest.
pub proof fn law_body_is_signed(r: SignedRequestView, other: Seq<u8>, now: int)
    requires
        verified(r, now) is Ok,
        r.body.len() > 0,
        other.len() > 0,
        content_digest(other) != content_digest(r.body),
    ensures
        verified(SignedRequestView { body: other, ..r }, now) == Err::<IdentityView, ErrorView>(
            ErrorView::ContentDigestMismatch,
        ),
{
}

/// A request without the headers of a signature is refused for the one that is
/// missing; one with a body but without a digest, for that.
pub proof fn law_missing_headers(r: SignedRequestView, now: int)
    ensures
        header_text(r.headers, "signature-input"@) is None ==> verified(r, now) == Err::<
            IdentityView,
            ErrorView,
        >(ErrorView::MissingHeader("Signature-Input"@)),
        header_text(r.headers, "signature-input"@) is Some && header_text(
            r.headers,
            "signature"@,
        ) is None ==> verified(r, now) == Err::<IdentityView, ErrorView>(
            ErrorView::MissingHeader("Signature"@),
        ),
        r.body.len() > 0 && header_text(r.headers, "content-digest"@) is None ==> verified(r, now)
            is Err,
{
}

/// What is asked of a `Signature-Input` header: it begins with `eth=`, has a
/// list in brackets, and gives all four parameters. What is signed of it is
/// everything after `eth=`.
pub proof fn law_signature_input(value: Seq<char>, rest: Seq<char>)
    ensures
        parsed_input(value) matches Ok(i) ==> value == "eth="@ + i.sig_params,
        after_prefix(value, "eth="@) is None ==> parsed_input(value) is Err,
        (forall|k: int| 0 <= k < rest.len() ==> rest[k] != '(') ==> parsed_input("eth="@ + rest)
            is Err,
        (forall|k: int| 0 <= k < rest.len() ==> rest[k] != ')') ==> parsed_input("eth="@ + rest)
            is Err,
{
    reveal_strlit("eth=");
    let v = "eth="@ + rest;
    assert(v.subrange(0, 4) =~= "eth="@);
    assert(v.skip(4) =~= rest);
    lemma_find_from(rest, '(', 0);
    lemma_find_from(rest, ')', 0);
    if parsed_input(value) is Ok {
        let t = parsed_input(value)->Ok_0.sig_params;
        assert(value =~= "eth="@ + t) by {
            assert(value.subrange(0, 4) == "eth="@);
            assert forall|k: int| 0 <= k < value.len() implies value[k] == ("eth="@ + t)[k] by {
                if k < 4 {
                    assert(value.subrange(0, 4)[k] == value[k]);
                }
            }
        }
    }
}

/// A parameter of a `Signature-Input` header is the one that its key says, and
/// leaves the others as they were. Quotes around its value do not count.
pub proof fn law_parameters_are_read(p: ParamsView, key: Seq<char>, value: Seq<char>)
    requires
        key.len() > 0,
        !is_white(key[0]),
        free_of(key, '='),
        value.len() > 0,
        value[0] != '"',
        value.last() != '"',
        !is_white(value.last()),
    ensures
        ({
            let plain = with_param(p, key + seq!['='] + value);
            let quoted = with_param(p, key + seq!['=', '"'] + value + seq!['"']);
            &&& plain == quoted
            &&& key == "keyid"@ ==> plain == (ParamsView { keyid: Some(value), ..p })
            &&& key == "nonce"@ ==> plain == (ParamsView { nonce: Some(value), ..p })
            &&& key == "created"@ ==> plain.created == i64_value(value) && plain == (ParamsView {
                created: plain.created,
                ..p
            })
            &&& key == "expires"@ ==> plain.expires == i64_value(value) && plain == (ParamsView {
                expires: plain.expires,
                ..p
            })
            &&& key != "keyid"@ && key != "nonce"@ && key != "created"@ && key != "expires"@
                ==> plain == p
        }),
{
    reveal_strlit("created");
    reveal_strlit("expires");
    reveal_strlit("keyid");
    reveal_strlit("nonce");
    assert("created"@[0] == 'c' && "expires"@[0] == 'e' && "keyid"@[0] == 'k' && "nonce"@[0]
        == 'n');
    let n = key.len() as int;
    let a = key + seq!['='] + value;
    let q = seq!['"'] + value + seq!['"'];
    let b = key + seq!['=', '"'] + value + seq!['"'];
    assert(b =~= key + seq!['='] + q);
    lemma_unquote(value);
    assert forall|j: int| 0 <= j < n implies a[j] != '=' && b[j] != '=' by {
        assert(a[j] == key[j] && b[j] == key[j]);
    }
    lemma_find_is(a, '=', 0, n);
    lemma_find_is(b, '=', 0, n);
    assert(a[0] == key[0] && b[0] == key[0]);
    assert(a.last() == value.last() && b.last() == '"');
    assert(trim_white(a) == a && trim_white(b) == b);
    assert(a.take(n) =~= key && b.take(n) =~= key);
    assert(a.skip(n + 1) =~= value && b.skip(n + 1) =~= q);
}

/// A `Signature` header holds 65 bytes in base64 between colons after `eth=`;
/// anything else is refused.
pub proof fn law_signature_header_is_read(value: Seq<char>, b64: Seq<char>)
    ensures
        ({
            let r = parsed_signature("eth=:"@ + b64 + ":"@);
            match base64_bytes(b64) {
                Ok(bytes) => if bytes.len() == 65 {
                    r == Ok::<Seq<u8>, Seq<char>>(bytes)
                } else {
                    r is Err
                },
                Err(_) => r is Err,
            }
        }),
        after_prefix(value, "eth=:"@) is None ==> parsed_signature(value) is Err,
{
    reveal_strlit("eth=:");
    reveal_strlit(":");
    let v = "eth=:"@ + b64 + ":"@;
    assert(v.subrange(0, 5) =~= "eth=:"@);
    let rest = v.skip(5);
    assert(rest =~= b64 + ":"@);
    assert(rest.subrange(rest.len() - 1, rest.len() as int) =~= ":"@);
    assert(rest.take(rest.len() - 1) =~= b64);
}

/// What is verified of a request is what it holds: its method, its path, its
/// query, its headers and its body.
pub proof fn law_reads_the_request(req: HttpRequest, body: Seq<u8>)
    ensures
        ({
            let r = signed_request(req, body);
            &&& r.method == req.method@
            &&& r.path == req.path@
            &&& r.query_string == req.query_string@
            &&& r.headers == req.headers@
            &&& r.body == body
        }),
{
}

/// How a `Signature-Input` header is read that has its list in brackets behind
/// `eth=`: the components are those of the list, the parameters those behind
/// the brackets, and the first one that is missing is told. Without `eth=` or
/// without a bracket the message says so.
pub proof fn law_input_in_full(value: Seq<char>, list: Seq<char>, tail: Seq<char>)
    requires
        free_of(list, ')'),
    ensures
        after_prefix(value, "eth="@) is None ==> parsed_input(value) == Err::<
            SigInputView,
            Seq<char>,
        >("must start with 'eth='"@),
        after_prefix(value, "eth="@) matches Some(rest) ==> free_of(rest, '(') ==> parsed_input(
            value,
        ) == Err::<SigInputView, Seq<char>>("missing '('"@),
        after_prefix(value, "eth="@) matches Some(rest) ==> !free_of(rest, '(') && free_of(rest, ')')
            ==> parsed_input(value) == Err::<SigInputView, Seq<char>>("missing ')'"@),
        ({
            let read = parsed_input("eth="@ + (seq!['('] + list + seq![')'] + tail));
            let p = params_of(split(tail, ';'));
            &&& p.created is None ==> read == Err::<SigInputView, Seq<char>>("missing 'created'"@)
            &&& p.created is Some && p.expires is None ==> read == Err::<SigInputView, Seq<char>>(
                "missing 'expires'"@,
            )
            &&& p.created is Some && p.expires is Some && p.keyid is None ==> read == Err::<
                SigInputView,
                Seq<char>,
            >("missing 'keyid'"@)
            &&& p.created is Some && p.expires is Some && p.keyid is Some && p.nonce is None
                ==> read == Err::<SigInputView, Seq<char>>("missing 'nonce'"@)
            &&& p.created is Some && p.expires is Some && p.keyid is Some && p.nonce is Some ==> {
                &&& read is Ok
                &&& read->Ok_0.components == component_names(list)
                &&& read->Ok_0.created == p.created->0
                &&& read->Ok_0.expires == p.expires->0
                &&& read->Ok_0.keyid == p.keyid->0
                &&& read->Ok_0.nonce == p.nonce->0
            }
        }),
{
    if after_prefix(value, "eth="@) is Some {
        let rest = after_prefix(value, "eth="@)->0;
        lemma_find_from(rest, '(', 0);
        lemma_find_from(rest, ')', 0);
    }
    let rest = seq!['('] + list + seq![')'] + tail;
    let n = list.len() as int;
    law_prefix_and_rest("eth="@ + rest, "eth="@, rest);
    assert(rest[0] == '(' && rest[n + 1] == ')');
    assert forall|j: int| 0 <= j < n + 1 implies rest[j] != ')' by {
        if j > 0 {
            assert(rest[j] == list[j - 1]);
        }
    }
    lemma_find_is(rest, '(', 0, 0);
    lemma_find_is(rest, ')', 0, n + 1);
    assert(rest.subrange(1, n + 1) =~= list);
    assert(rest.skip(n + 2) =~= tail);
}

/// One more parameter is read after all the others: where it gives one that was
/// given before, it is the one that counts.
pub proof fn law_last_parameter_counts(tail: Seq<char>, part: Seq<char>)
    requires
        free_of(part, ';'),
    ensures
        params_of(split(tail + seq![';'] + part, ';')) == with_param(
            params_of(split(tail, ';')),
            part,
        ),
        params_of(split(part, ';')) == with_param(
            (ParamsView { created: None, expires: None, keyid: None, nonce: None }),
            part,
        ),
{
    lemma_split_append(tail, ';', part);
    law_one_piece(part, ';');
    let parts = split(tail, ';');
    assert(parts.push(part).drop_last() =~= parts);
    assert(seq![part].drop_last() =~= Seq::<Seq<char>>::empty());
    assert(params_of(Seq::<Seq<char>>::empty()) == (ParamsView {
        created: None,
        expires: None,
        keyid: None,
        nonce: None,
    }));
}

/// The components of a list are its words in their order, without the quotes
/// around them.
pub proof fn law_components_are_read(list: Seq<char>, name: Seq<char>)
    requires
        is_word(name),
        name[0] != '"',
        name.last() != '"',
    ensures
        ({
            let quoted = seq!['"'] + name + seq!['"'];
            &&& component_names(quoted) == seq![name]
            &&& component_names(list + seq![' '] + quoted) == component_names(list).push(name)
            &&& component_names(list + seq![' '] + name) == component_names(list).push(name)
        }),
{
    let quoted = seq!['"'] + name + seq!['"'];
    lemma_unquote(name);
    assert forall|i: int| 0 <= i < quoted.len() implies !is_white(#[trigger] quoted[i]) by {
        if 0 < i < quoted.len() - 1 {
            assert(quoted[i] == name[i - 1]);
        }
    }
    lemma_one_word(quoted);
    lemma_words_append(list, quoted);
    lemma_words_append(list, name);
    assert(component_names(quoted) =~= seq![name]);
    assert(component_names(list + seq![' '] + quoted) =~= component_names(list).push(name));
    assert(component_names(list + seq![' '] + name) =~= component_names(list).push(name));
}

/// The wallet of a signature is the one of the key that its first 64 bytes and
/// the parity in its last byte recover from the hash; where they are no
/// signature, or recover no key, the message says which.
pub proof fn law_recovered_wallet(hash: Seq<u8>, sig: Seq<u8>)
    requires
        sig.len() == 65,
    ensures
        ({
            let r = recovered_address(hash, sig);
            let odd = sig[64] != 0 && sig[64] != 27;
            let key = secp_recovered(hash, sig.take(64), odd);
            let known = secp_is_signature(sig.take(64));
            &&& !known ==> r == Err::<Seq<char>, Seq<char>>("invalid signature: signature error"@)
            &&& known && key is None ==> r == Err::<Seq<char>, Seq<char>>(
                "recovery: signature error"@,
            )
            &&& known && key is Some ==> r == Ok::<Seq<char>, Seq<char>>(
                "0x"@ + hex_text(keccak256(key->0.skip(1)).skip(12)),
            )
        }),
{
    reveal_strlit("invalid signature: ");
    reveal_strlit("recovery: ");
    reveal_strlit("signature error");
    reveal_strlit("invalid signature: signature error");
    reveal_strlit("recovery: signature error");
    assert("invalid signature: "@ + "signature error"@ =~= "invalid signature: signature error"@);
    assert("recovery: "@ + "signature error"@ =~= "recovery: signature error"@);
}

} // verus!
