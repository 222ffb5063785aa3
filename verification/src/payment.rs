//! What a request costs, and the x402 payment requests and requirements.
//!
//! Endpoints paid in USDC speak version 2 of the protocol, those paid in
//! Starkbot version 1.

use vstd::arithmetic::power::{lemma_pow0, lemma_pow1, lemma_pow_adds, pow};
use vstd::prelude::*;
use vstd::string::*;
use vstd::utf8::*;

use crate::config::{number_up_to, GlobalConfig};
use crate::encoding::{base64_bytes, base64_encode, base64_text, hex_text};
use crate::endpoints::EndpointDef;
use crate::http::text_view;
use crate::json::{
    field_of, is_plain, json_parsed, json_text, list_content, number, text_in, unsigned_in, Json,
    JsonObject, JsonView,
};
use crate::models::chat::json_list;
use crate::models::{DomainEthAddress, DomainUint256};
use crate::text::{
    all_digits, chars_of, decimal, decimal_value, digit_char, digits_value, find, find_char_from,
    is_digit, lemma_decimal, lemma_find_from, lemma_find_is, piece, same_text, text_of, trim,
    trim_chars_end, trim_chars_start, trim_end_char, trim_start_char, trim_white,
};

verus! {

/// What an endpoint is paid in.
#[derive(Debug, Clone)]
pub enum PaymentCurrency {
    /// Version 2 of the protocol: the `exact` scheme, CAIP-2 network ids.
    Usdc { network: String, asset: DomainEthAddress },
    /// Version 1 of the protocol: the `permit` scheme, plain network names.
    Starkbot {
        network: String,
        asset: String,
        symbol: String,
        decimals: u8,
        name: String,
        version: String,
        facilitator_signer: String,
    },
}

/// How a request to an endpoint is paid.
#[derive(Debug, Clone)]
pub struct EndpointPaymentConfig {
    pub currency: PaymentCurrency,
    pub cost: String,
    pub pay_to: DomainEthAddress,
    pub description: String,
}

/// What an endpoint is paid in.
pub enum CurrencyView {
    Usdc { network: Seq<char>, asset: Seq<u8> },
    Starkbot {
        network: Seq<char>,
        asset: Seq<char>,
        symbol: Seq<char>,
        decimals: u8,
        name: Seq<char>,
        version: Seq<char>,
        facilitator_signer: Seq<char>,
    },
}

/// How a request to an endpoint is paid.
pub struct PaymentView {
    pub currency: CurrencyView,
    pub cost: Seq<char>,
    pub pay_to: Seq<u8>,
    pub description: Seq<char>,
}

impl View for PaymentCurrency {
    type V = CurrencyView;

    open spec fn view(&self) -> CurrencyView {
        match self {
            PaymentCurrency::Usdc { network, asset } => CurrencyView::Usdc {
                network: network@,
                asset: asset.0@,
            },
            PaymentCurrency::Starkbot {
                network,
                asset,
                symbol,
                decimals,
                name,
                version,
                facilitator_signer,
            } => CurrencyView::Starkbot {
                network: network@,
                asset: asset@,
                symbol: symbol@,
                decimals: *decimals,
                name: name@,
                version: version@,
                facilitator_signer: facilitator_signer@,
            },
        }
    }
}

impl View for EndpointPaymentConfig {
    type V = PaymentView;

    open spec fn view(&self) -> PaymentView {
        PaymentView {
            currency: self.currency@,
            cost: self.cost@,
            pay_to: self.pay_to.0@,
            description: self.description@,
        }
    }
}

// ---------------------------------------------------------------------------
// Amounts
// ---------------------------------------------------------------------------

/// A run of zeros.
pub open spec fn zeros(n: nat) -> Seq<char> {
    Seq::new(n, |i: int| '0')
}

/// The integer part and the fraction of an amount; the fraction comes without
/// the zeros at its end.
pub open spec fn amount_parts(amount: Seq<char>) -> (Seq<char>, Seq<char>) {
    let s = trim_white(amount);
    match find(s, '.') {
        Some(k) => (s.take(k), trim_end_char(s.skip(k + 1), '0')),
        None => (s, seq![]),
    }
}

/// An amount of whole tokens in raw units of `10^-decimals` tokens: the point
/// moved to the right by `decimals` places. `0` where the fraction is longer
/// than that.
pub open spec fn raw_amount(amount: Seq<char>, decimals: nat) -> Seq<char> {
    let (int_part, frac) = amount_parts(amount);
    let width = encode_utf8(frac).len();
    if width > decimals {
        "0"@
    } else {
        let raw = trim_start_char(int_part + frac + zeros((decimals - width) as nat), '0');
        if raw.len() == 0 {
            "0"@
        } else {
            raw
        }
    }
}

/// An amount of whole tokens in raw units.
pub fn human_to_raw(amount: &str, decimals: u8) -> (r: String)
    ensures
        r@ == raw_amount(amount@, decimals as nat),
{
    let s = trim(amount);
    let v = chars_of(s.as_str());
    let len: usize = v.len();
    let (int_part, frac) = match find_char_from(&v, '.', 0) {
        Some(k) => {
            let head = piece(&v, 0, k);
            assert(head@ =~= v@.take(k as int));
            let tail = piece(&v, k + 1, len);
            assert(tail@ =~= v@.skip(k + 1));
            (head, trim_chars_end(&tail, '0'))
        },
        None => {
            let whole = piece(&v, 0, len);
            assert(whole@ =~= v@);
            let none: Vec<char> = Vec::new();
            (whole, none)
        },
    };
    assert(frac@ =~= amount_parts(amount@).1);
    let width: usize = text_of(&frac).as_str().as_bytes().len();
    if width > decimals as usize {
        return "0".to_owned();
    }
    let mut raw: Vec<char> = int_part;
    let mut i: usize = 0;
    while i < frac.len()
        invariant
            i <= frac@.len(),
            raw@ == int_part@ + frac@.take(i as int),
        decreases frac@.len() - i,
    {
        raw.push(frac[i]);
        i += 1;
        assert(raw@ =~= int_part@ + frac@.take(i as int));
    }
    assert(frac@.take(i as int) =~= frac@);
    let padding: usize = decimals as usize - width;
    let mut j: usize = 0;
    assert(raw@ =~= int_part@ + frac@ + zeros(0));
    while j < padding
        invariant
            j <= padding,
            raw@ == int_part@ + frac@ + zeros(j as nat),
        decreases padding - j,
    {
        raw.push('0');
        j += 1;
        assert(raw@ =~= int_part@ + frac@ + zeros(j as nat));
    }
    let shown = trim_chars_start(&raw, '0');
    if shown.len() == 0 {
        "0".to_owned()
    } else {
        text_of(&shown)
    }
}

// ---------------------------------------------------------------------------
// What an amount in raw units is worth
// ---------------------------------------------------------------------------

/// Whether a text holds digits alone.
pub open spec fn only_digits(s: Seq<char>) -> bool {
    forall|i: int| 0 <= i < s.len() ==> is_digit(#[trigger] s[i])
}

/// The number that two runs of digits write together.
proof fn lemma_digits_concat(a: Seq<char>, b: Seq<char>)
    requires
        only_digits(b),
    ensures
        digits_value(a + b) == digits_value(a) * pow(10, b.len()) + digits_value(b),
    decreases b.len(),
{
    if b.len() == 0 {
        assert(a + b =~= a);
        lemma_pow0(10);
    } else {
        let front = b.drop_last();
        assert forall|i: int| 0 <= i < front.len() implies is_digit(#[trigger] front[i]) by {
            assert(front[i] == b[i]);
        }
        lemma_digits_concat(a, front);
        assert((a + b).drop_last() =~= a + front);
        assert(is_digit(b[b.len() - 1]));
        lemma_pow_adds(10, front.len(), 1);
        lemma_pow1(10);
        let x = digits_value(a) as int;
        let p = pow(10, front.len());
        assert((x * p) * 10 == x * (p * 10)) by (nonlinear_arith);
    }
}

/// A run of zeros writes 0.
proof fn lemma_zeros(n: nat)
    ensures
        only_digits(zeros(n)),
        digits_value(zeros(n)) == 0,
    decreases n,
{
    if n > 0 {
        lemma_zeros((n - 1) as nat);
        assert(zeros(n).drop_last() =~= zeros((n - 1) as nat));
    }
}

/// Leading zeros do not count.
proof fn lemma_trim_start_zeros(s: Seq<char>)
    requires
        only_digits(s),
    ensures
        only_digits(trim_start_char(s, '0')),
        digits_value(trim_start_char(s, '0')) == digits_value(s),
        trim_start_char(s, '0').len() > 0 ==> trim_start_char(s, '0')[0] != '0',
    decreases s.len(),
{
    if s.len() > 0 && s[0] == '0' {
        let rest = s.skip(1);
        assert forall|i: int| 0 <= i < rest.len() implies is_digit(#[trigger] rest[i]) by {
            assert(rest[i] == s[i + 1]);
        }
        lemma_trim_start_zeros(rest);
        assert(s =~= zeros(1) + rest);
        lemma_zeros(1);
        lemma_digits_concat(zeros(1), rest);
        let p = pow(10, rest.len());
        assert(0 * p == 0) by (nonlinear_arith);
    }
}

/// A text is what is left of it without the zeros at its end, and those zeros.
proof fn lemma_trim_end_zeros(s: Seq<char>)
    ensures
        trim_end_char(s, '0').len() <= s.len(),
        s == trim_end_char(s, '0') + zeros((s.len() - trim_end_char(s, '0').len()) as nat),
    decreases s.len(),
{
    let t = trim_end_char(s, '0');
    if s.len() > 0 && s.last() == '0' {
        lemma_trim_end_zeros(s.drop_last());
        assert(s =~= s.drop_last().push('0'));
        assert(s =~= t + zeros((s.len() - t.len()) as nat));
    } else {
        assert(s =~= t + zeros(0));
    }
}

/// Digits without a leading zero are the decimal text of the number they
/// write.
proof fn lemma_decimal_text(s: Seq<char>)
    requires
        all_digits(s),
        s.len() == 1 || s[0] != '0',
    ensures
        s == decimal(digits_value(s)),
    decreases s.len(),
{
    let n = digits_value(s);
    let front = s.drop_last();
    assert(is_digit(s[s.len() - 1]));
    assert(digit_char((s.last() as nat - 48) as nat) == s.last());
    if s.len() == 1 {
        assert(digits_value(front) == 0);
        assert(s =~= decimal(n));
    } else {
        assert forall|i: int| 0 <= i < front.len() implies is_digit(#[trigger] front[i]) by {
            assert(front[i] == s[i]);
        }
        assert(front[0] == s[0]);
        lemma_positive(front);
        lemma_decimal_text(front);
        assert(n / 10 == digits_value(front));
        assert(n % 10 == s.last() as nat - 48);
        assert(s =~= front.push(s.last()));
    }
}

/// Digits without a leading zero write a positive number.
proof fn lemma_positive(s: Seq<char>)
    requires
        all_digits(s),
        s[0] != '0',
    ensures
        digits_value(s) > 0,
    decreases s.len(),
{
    if s.len() == 1 {
        assert(digits_value(s.drop_last()) == 0);
        assert(is_digit(s[0]));
    } else {
        let front = s.drop_last();
        assert forall|i: int| 0 <= i < front.len() implies is_digit(#[trigger] front[i]) by {
            assert(front[i] == s[i]);
        }
        lemma_positive(front);
    }
}

/// Digits without their leading zeros, or `0` where nothing is left, are the
/// decimal text of the number that they write.
proof fn lemma_shown(s: Seq<char>)
    requires
        only_digits(s),
    ensures
        ({
            let t = trim_start_char(s, '0');
            decimal(digits_value(s)) == if t.len() == 0 {
                "0"@
            } else {
                t
            }
        }),
{
    lemma_trim_start_zeros(s);
    let t = trim_start_char(s, '0');
    if t.len() == 0 {
        reveal_strlit("0");
        assert(digits_value(t) == 0);
        assert("0"@ =~= decimal(0));
    } else {
        lemma_decimal_text(t);
    }
}

/// A whole number of tokens, with or without white space around it, is worth
/// that number of times `10^decimals` raw units.
pub proof fn law_whole_amount(amount: Seq<char>, decimals: nat)
    requires
        only_digits(trim_white(amount)),
    ensures
        raw_amount(amount, decimals) == decimal(
            (digits_value(trim_white(amount)) * pow(10, decimals)) as nat,
        ),
{
    let s = trim_white(amount);
    lemma_find_from(s, '.', 0);
    if let Some(k) = find(s, '.') {
        assert(is_digit(s[k]));
    }
    let frac = Seq::<char>::empty();
    assert(encode_utf8(frac).len() == 0);
    let raw = s + frac + zeros(decimals);
    assert(raw =~= s + zeros(decimals));
    lemma_zeros(decimals);
    lemma_digits_concat(s, zeros(decimals));
    assert forall|i: int| 0 <= i < raw.len() implies is_digit(#[trigger] raw[i]) by {
        if i < s.len() {
            assert(raw[i] == s[i]);
        }
    }
    lemma_shown(raw);
}

/// An amount with a fraction, with or without white space around it and digits
/// before the point, is worth its whole tokens and its fraction, in raw units:
/// with `n` digits after the point, the raw amount is `10^decimals` times what
/// all the digits write, over `10^n`. The fraction must fit into `decimals`
/// places without the zeros at its end.
pub proof fn law_fractional_amount(
    amount: Seq<char>,
    whole: Seq<char>,
    frac: Seq<char>,
    decimals: nat,
)
    requires
        trim_white(amount) == whole + seq!['.'] + frac,
        only_digits(whole),
        only_digits(frac),
        trim_end_char(frac, '0').len() <= decimals,
    ensures
        ({
            let raw = raw_amount(amount, decimals);
            &&& raw == decimal(digits_value(raw))
            &&& digits_value(raw) * pow(10, frac.len()) == (digits_value(whole) * pow(
                10,
                frac.len(),
            ) + digits_value(frac)) * pow(10, decimals)
        }),
{
    let s = trim_white(amount);
    let n = whole.len() as int;
    assert forall|j: int| 0 <= j < n implies s[j] != '.' by {
        assert(s[j] == whole[j]);
        assert(is_digit(whole[j]));
    }
    lemma_find_is(s, '.', 0, n);
    assert(s.take(n) =~= whole);
    assert(s.skip(n + 1) =~= frac);
    let g = trim_end_char(frac, '0');
    lemma_trim_end_zeros(frac);
    let k = (frac.len() - g.len()) as nat;
    assert forall|i: int| 0 <= i < g.len() implies is_digit(#[trigger] g[i]) by {
        assert((g + zeros(k))[i] == g[i]);
        assert(frac[i] == g[i]);
        assert(is_digit(frac[i]));
    }
    assert(is_ascii_chars(g)) by {
        assert forall|i: int| 0 <= i < g.len() implies '\0' <= #[trigger] g[i] <= '\u{7f}' by {
            assert(is_digit(g[i]));
        }
    }
    is_ascii_chars_encode_utf8(g);
    let pad = (decimals - g.len()) as nat;
    let digits = whole + g + zeros(pad);
    lemma_zeros(pad);
    lemma_zeros(k);
    lemma_digits_concat(whole + g, zeros(pad));
    lemma_digits_concat(whole, g);
    lemma_digits_concat(g, zeros(k));
    assert forall|i: int| 0 <= i < digits.len() implies is_digit(#[trigger] digits[i]) by {
        if i < n {
            assert(digits[i] == whole[i]);
        } else if i < n + g.len() {
            assert(digits[i] == g[i - n]);
        }
    }
    lemma_shown(digits);
    lemma_decimal(digits_value(digits));
    let a = digits_value(whole) as int;
    let b = digits_value(g) as int;
    let p1 = pow(10, pad);
    let p2 = pow(10, g.len());
    let p3 = pow(10, k);
    lemma_pow_adds(10, pad, g.len());
    lemma_pow_adds(10, g.len(), k);
    assert(((a * p2 + b) * p1) * (p2 * p3) == (a * (p2 * p3) + b * p3) * (p1 * p2))
        by (nonlinear_arith);
}

// ---------------------------------------------------------------------------
// Requirements and requests
// ---------------------------------------------------------------------------

/// The text of an address.
pub open spec fn address_text(bytes: Seq<u8>) -> Seq<char> {
    "0x"@ + hex_text(bytes)
}

/// A list of one JSON value.
pub open spec fn one(j: JsonView) -> JsonView {
    JsonView::List(seq![j])
}

/// What a Starkbot payment says of its token.
pub open spec fn token_json(c: CurrencyView) -> JsonView {
    JsonView::Object(
        map![
            "token"@ => JsonView::Text(c->symbol),
            "address"@ => JsonView::Text(c->Starkbot_asset),
            "decimals"@ => number(c->decimals as int),
            "name"@ => JsonView::Text(c->name),
            "version"@ => JsonView::Text(c->version),
            "facilitatorSigner"@ => JsonView::Text(c->facilitator_signer),
            "minimum_amount"@ => JsonView::Bool(true),
        ],
    )
}

/// The requirements of a Starkbot payment.
pub open spec fn permit_requirements(p: PaymentView, resource: Seq<char>) -> JsonView {
    JsonView::Object(
        map![
            "scheme"@ => JsonView::Text("permit"@),
            "network"@ => JsonView::Text(p.currency->Starkbot_network),
            "maxAmountRequired"@ => JsonView::Text(
                raw_amount(p.cost, p.currency->decimals as nat),
            ),
            "resource"@ => JsonView::Text(resource),
            "description"@ => JsonView::Text(p.description),
            "mimeType"@ => JsonView::Text("application/json"@),
            "payTo"@ => JsonView::Text(address_text(p.pay_to)),
            "maxTimeoutSeconds"@ => number(300),
            "asset"@ => JsonView::Text(p.currency->Starkbot_asset),
            "extra"@ => token_json(p.currency),
        ],
    )
}

/// What a reply that asks for a USDC payment accepts.
pub open spec fn exact_offer(
    p: PaymentView,
    amount: Seq<char>,
    resource: Seq<char>,
) -> JsonView {
    JsonView::Object(
        map![
            "x402Version"@ => number(2),
            "accepts"@ => one(
                JsonView::Object(
                    map![
                        "x402Version"@ => number(2),
                        "scheme"@ => JsonView::Text("exact"@),
                        "network"@ => JsonView::Text(p.currency->Usdc_network),
                        "maxAmountRequired"@ => JsonView::Text(amount),
                        "resource"@ => JsonView::Text(resource),
                        "description"@ => JsonView::Text(p.description),
                        "payToAddress"@ => JsonView::Text(address_text(p.pay_to)),
                        "asset"@ => JsonView::Text(address_text(p.currency->Usdc_asset)),
                        "maxTimeoutSeconds"@ => number(60),
                    ],
                ),
            ),
        ],
    )
}

/// The body of a reply that asks for payment.
pub open spec fn payment_body(p: PaymentView, resource: Seq<char>) -> JsonView {
    match p.currency {
        CurrencyView::Usdc { .. } => exact_offer(p, p.cost, resource),
        CurrencyView::Starkbot { .. } => JsonView::Object(
            map![
                "x402Version"@ => number(1),
                "accepts"@ => one(permit_requirements(p, resource)),
                "error"@ => JsonView::Null,
            ],
        ),
    }
}

/// The cost of a request as a reply states it: in decimal without leading
/// zeros, where it is a number of at most 128 bits.
pub open spec fn stated_cost(cost: Seq<char>) -> Seq<char> {
    match number_up_to(cost, u128::MAX as nat) {
        Some(n) => decimal(n),
        None => cost,
    }
}

/// What the `payment-required` header of a reply says.
pub open spec fn payment_offer(p: PaymentView, resource: Seq<char>) -> JsonView {
    exact_offer(p, stated_cost(p.cost), resource)
}

/// The version of the protocol that a payment payload speaks.
pub open spec fn payload_version(payload: JsonView) -> u32 {
    match unsigned_in(payload.field("x402Version"@)) {
        Some(v) => (v as int % 0x1_0000_0000) as u32,
        None => if field_of(payload.field("payload"@), "authorization"@) is Some {
            2
        } else if payload.field("signature"@) is Some {
            1
        } else {
            2
        },
    }
}

/// The request that has a facilitator verify or settle a payment.
pub open spec fn facilitator_request(p: PaymentView, payload: JsonView, resource: Seq<char>) -> JsonView {
    JsonView::Object(
        map![
            "x402Version"@ => number(payload_version(payload) as int),
            "paymentPayload"@ => payload,
            "paymentRequirements"@ => match p.currency {
                CurrencyView::Usdc { network, asset } => JsonView::Object(
                    map![
                        "scheme"@ => JsonView::Text("exact"@),
                        "network"@ => JsonView::Text(network),
                        "amount"@ => JsonView::Text(p.cost),
                        "payTo"@ => JsonView::Text(address_text(p.pay_to)),
                        "asset"@ => JsonView::Text(address_text(asset)),
                        "maxTimeoutSeconds"@ => number(60),
                    ],
                ),
                CurrencyView::Starkbot { .. } => permit_requirements(p, resource),
            },
        ],
    )
}

/// Who pays, as far as a payload says: `payload.authorization.from`, or else
/// the first of `owner`, `holder` and `from` that is there.
pub open spec fn payload_payer(payload: JsonView) -> Option<Seq<char>> {
    let v2 = text_in(
        field_of(field_of(payload.field("payload"@), "authorization"@), "from"@),
    );
    if v2 is Some {
        v2
    } else if payload.field("owner"@) is Some {
        text_in(payload.field("owner"@))
    } else if payload.field("holder"@) is Some {
        text_in(payload.field("holder"@))
    } else {
        text_in(payload.field("from"@))
    }
}

/// The nonce of a payment, as far as a payload says:
/// `payload.authorization.nonce`, or else `nonce`.
pub open spec fn payload_nonce(payload: JsonView) -> Option<Seq<char>> {
    let v2 = text_in(
        field_of(field_of(payload.field("payload"@), "authorization"@), "nonce"@),
    );
    if v2 is Some {
        v2
    } else {
        text_in(payload.field("nonce"@))
    }
}

/// The version of the protocol that a payment payload speaks.
pub fn detect_payload_version(raw_payload: &Json) -> (r: u32)
    ensures
        r == payload_version(raw_payload@),
{
    if let Some(j) = raw_payload.get("x402Version") {
        if let Some(v) = j.as_u64() {
            return (v % 0x1_0000_0000) as u32;
        }
    }
    if let Some(p) = raw_payload.get("payload") {
        if p.get("authorization").is_some() {
            return 2;
        }
    }
    if raw_payload.get("signature").is_some() {
        return 1;
    }
    2
}

/// The text of an optional value, where it is text.
fn text_at(v: Option<&Json>) -> (r: Option<String>)
    ensures
        text_view(r) == text_in(
            match v {
                Some(j) => Some(j@),
                None => None,
            },
        ),
{
    match v {
        Some(j) => match j.as_str() {
            Some(s) => Some(s.to_owned()),
            None => None,
        },
        None => None,
    }
}

/// The text at `payload.authorization.{key}`, where it is text.
fn authorization_text(payload: &Json, key: &str) -> (r: Option<String>)
    ensures
        text_view(r) == text_in(
            field_of(field_of(payload@.field("payload"@), "authorization"@), key@),
        ),
{
    match payload.get("payload") {
        Some(p) => match p.get("authorization") {
            Some(a) => text_at(a.get(key)),
            None => None,
        },
        None => None,
    }
}

/// A list of one JSON value.
fn list_of_one(j: Json) -> (r: Json)
    ensures
        r@ == one(j@),
{
    let mut v: Vec<Json> = Vec::new();
    v.push(j);
    let r = json_list(v);
    assert(list_content(v@) =~= seq![j@]);
    r
}

/// What a payment asks of its payer is JSON that reads back.
proof fn lemma_offer_is_plain(p: PaymentView, resource: Seq<char>)
    ensures
        is_plain(payment_offer(p, resource), 127),
{
    reveal_with_fuel(is_plain, 5);
}

impl EndpointPaymentConfig {
    /// How a request to an endpoint is paid.
    pub fn from_config_and_endpoint(config: &GlobalConfig, endpoint: &EndpointDef) -> (r: Self)
        ensures
            r@ == (PaymentView {
                currency: if endpoint.payment_currency@ == "starkbot"@ {
                    CurrencyView::Starkbot {
                        network: config@.starkbot_network,
                        asset: config@.starkbot_token_address,
                        symbol: config@.starkbot_token_symbol,
                        decimals: config@.starkbot_token_decimals,
                        name: config@.starkbot_token_name,
                        version: config@.starkbot_token_version,
                        facilitator_signer: config@.facilitator_signer,
                    }
                } else {
                    CurrencyView::Usdc {
                        network: config@.usdc_network,
                        asset: config@.usdc_token_address,
                    }
                },
                cost: endpoint.cost@,
                pay_to: config@.bot_wallet_address,
                description: endpoint.description@,
            }),
    {
        let currency = if same_text(endpoint.payment_currency.as_str(), "starkbot") {
            PaymentCurrency::Starkbot {
                network: config.starkbot_network.clone(),
                asset: config.starkbot_token_address.clone(),
                symbol: config.starkbot_token_symbol.clone(),
                decimals: config.starkbot_token_decimals,
                name: config.starkbot_token_name.clone(),
                version: config.starkbot_token_version.clone(),
                facilitator_signer: config.facilitator_signer.clone(),
            }
        } else {
            PaymentCurrency::Usdc {
                network: config.usdc_network.clone(),
                asset: config.usdc_token_address,
            }
        };
        EndpointPaymentConfig {
            currency,
            cost: endpoint.cost.clone(),
            pay_to: config.bot_wallet_address,
            description: endpoint.description.clone(),
        }
    }

    /// What a USDC payment asks of its payer.
    fn exact_offer(
        &self,
        network: &String,
        asset: &DomainEthAddress,
        amount: &str,
        resource: &str,
    ) -> (r: Json)
        requires
            self@.currency == (CurrencyView::Usdc { network: network@, asset: asset.0@ }),
        ensures
            r@ == exact_offer(self@, amount@, resource@),
    {
        let mut a = JsonObject::new();
        a.put("x402Version", Json::unsigned(2));
        a.put("scheme", Json::str("exact"));
        a.put("network", Json::str(network.as_str()));
        a.put("maxAmountRequired", Json::str(amount));
        a.put("resource", Json::str(resource));
        a.put("description", Json::str(self.description.as_str()));
        a.put("payToAddress", Json::str(self.pay_to.to_hex().as_str()));
        a.put("asset", Json::str(asset.to_hex().as_str()));
        a.put("maxTimeoutSeconds", Json::unsigned(60));
        let mut o = JsonObject::new();
        o.put("x402Version", Json::unsigned(2));
        o.put("accepts", list_of_one(Json::Object(a)));
        Json::Object(o)
    }

    /// The requirements of a Starkbot payment.
    fn permit_requirements(
        &self,
        network: &String,
        asset: &String,
        symbol: &String,
        decimals: u8,
        name: &String,
        version: &String,
        facilitator_signer: &String,
        resource: &str,
    ) -> (r: Json)
        requires
            self@.currency == (CurrencyView::Starkbot {
                network: network@,
                asset: asset@,
                symbol: symbol@,
                decimals,
                name: name@,
                version: version@,
                facilitator_signer: facilitator_signer@,
            }),
        ensures
            r@ == permit_requirements(self@, resource@),
    {
        let mut e = JsonObject::new();
        e.put("token", Json::str(symbol.as_str()));
        e.put("address", Json::str(asset.as_str()));
        e.put("decimals", Json::unsigned(decimals as u64));
        e.put("name", Json::str(name.as_str()));
        e.put("version", Json::str(version.as_str()));
        e.put("facilitatorSigner", Json::str(facilitator_signer.as_str()));
        e.put("minimum_amount", Json::Bool(true));
        let mut o = JsonObject::new();
        o.put("scheme", Json::str("permit"));
        o.put("network", Json::str(network.as_str()));
        o.put("maxAmountRequired", Json::str(human_to_raw(self.cost.as_str(), decimals).as_str()));
        o.put("resource", Json::str(resource));
        o.put("description", Json::str(self.description.as_str()));
        o.put("mimeType", Json::str("application/json"));
        o.put("payTo", Json::str(self.pay_to.to_hex().as_str()));
        o.put("maxTimeoutSeconds", Json::unsigned(300));
        o.put("asset", Json::str(asset.as_str()));
        o.put("extra", Json::Object(e));
        Json::Object(o)
    }

    /// The body of a reply that asks for payment.
    pub fn build_402_body(&self, resource: &str) -> (r: Json)
        ensures
            r@ == payment_body(self@, resource@),
    {
        match &self.currency {
            PaymentCurrency::Usdc { network, asset } => self.exact_offer(
                network,
                asset,
                self.cost.as_str(),
                resource,
            ),
            PaymentCurrency::Starkbot {
                network,
                asset,
                symbol,
                decimals,
                name,
                version,
                facilitator_signer,
            } => {
                let required = self.permit_requirements(
                    network,
                    asset,
                    symbol,
                    *decimals,
                    name,
                    version,
                    facilitator_signer,
                    resource,
                );
                let mut o = JsonObject::new();
                o.put("x402Version", Json::unsigned(1));
                o.put("accepts", list_of_one(required));
                o.put("error", Json::Null);
                Json::Object(o)
            },
        }
    }

    /// What the `payment-required` header of a reply says. A Starkbot payment
    /// has none.
    pub fn offer(&self, resource: &str) -> (r: Option<Json>)
        ensures
            match r {
                Some(j) => self@.currency is Usdc && j@ == payment_offer(self@, resource@),
                None => self@.currency is Starkbot,
            },
    {
        match &self.currency {
            PaymentCurrency::Usdc { network, asset } => {
                let amount = match DomainUint256::from_str(self.cost.as_str()) {
                    Ok(v) => v.to_string(),
                    Err(_) => self.cost.clone(),
                };
                Some(self.exact_offer(network, asset, amount.as_str(), resource))
            },
            PaymentCurrency::Starkbot { .. } => None,
        }
    }

    /// The `payment-required` header of a reply that asks for a USDC payment,
    /// in base64. It decodes to JSON that says what is asked for. A Starkbot
    /// payment has none.
    pub fn build_402_header(&self, resource: &str) -> (r: Option<String>)
        ensures
            match r {
                Some(h) => {
                    let json = encode_utf8(json_text(payment_offer(self@, resource@)));
                    &&& self@.currency is Usdc
                    &&& h@ == base64_text(json)
                    &&& base64_bytes(h@) == Ok::<Seq<u8>, Seq<char>>(json)
                    &&& json_parsed(json) == Ok::<JsonView, Seq<char>>(
                        payment_offer(self@, resource@),
                    )
                },
                None => self@.currency is Starkbot,
            },
    {
        match self.offer(resource) {
            Some(offer) => {
                proof {
                    lemma_offer_is_plain(self@, resource@);
                }
                let json = offer.to_text();
                Some(base64_encode(json.as_str().as_bytes()))
            },
            None => None,
        }
    }

    /// The request that has a facilitator verify a payment. Its version is the
    /// one that the payload speaks.
    pub fn build_verify_request(&self, raw_payload: &Json, resource: &str) -> (r: Json)
        ensures
            r@ == facilitator_request(self@, raw_payload@, resource@),
    {
        let version: u32 = detect_payload_version(raw_payload);
        let required = match &self.currency {
            PaymentCurrency::Usdc { network, asset } => {
                let mut o = JsonObject::new();
                o.put("scheme", Json::str("exact"));
                o.put("network", Json::str(network.as_str()));
                o.put("amount", Json::str(self.cost.as_str()));
                o.put("payTo", Json::str(self.pay_to.to_hex().as_str()));
                o.put("asset", Json::str(asset.to_hex().as_str()));
                o.put("maxTimeoutSeconds", Json::unsigned(60));
                Json::Object(o)
            },
            PaymentCurrency::Starkbot {
                network,
                asset,
                symbol,
                decimals,
                name,
                version,
                facilitator_signer,
            } => self.permit_requirements(
                network,
                asset,
                symbol,
                *decimals,
                name,
                version,
                facilitator_signer,
                resource,
            ),
        };
        let mut o = JsonObject::new();
        o.put("x402Version", Json::unsigned(version as u64));
        o.put("paymentPayload", raw_payload.copy());
        o.put("paymentRequirements", required);
        Json::Object(o)
    }

    /// The request that has a facilitator settle a payment: the same as the
    /// one that verifies it.
    pub fn build_settle_request(&self, raw_payload: &Json, resource: &str) -> (r: Json)
        ensures
            r@ == facilitator_request(self@, raw_payload@, resource@),
    {
        self.build_verify_request(raw_payload, resource)
    }

    /// Whether the endpoint speaks version 2 of the protocol.
    pub fn is_v2(&self) -> (r: bool)
        ensures
            r == (self@.currency is Usdc),
    {
        match &self.currency {
            PaymentCurrency::Usdc { .. } => true,
            PaymentCurrency::Starkbot { .. } => false,
        }
    }

    /// Who pays, as far as a payload says. Payloads of both versions are read,
    /// whatever the endpoint speaks.
    pub fn extract_payer(&self, raw_payload: &Json) -> (r: Option<String>)
        ensures
            text_view(r) == payload_payer(raw_payload@),
    {
        let v2 = authorization_text(raw_payload, "from");
        if v2.is_some() {
            return v2;
        }
        match raw_payload.get("owner") {
            Some(j) => text_at(Some(j)),
            None => match raw_payload.get("holder") {
                Some(j) => text_at(Some(j)),
                None => text_at(raw_payload.get("from")),
            },
        }
    }

    /// The nonce of a payment, as far as a payload says. Payloads of both
    /// versions are read, whatever the endpoint speaks.
    pub fn extract_nonce(&self, raw_payload: &Json) -> (r: Option<String>)
        ensures
            text_view(r) == payload_nonce(raw_payload@),
    {
        let v2 = authorization_text(raw_payload, "nonce");
        if v2.is_some() {
            return v2;
        }
        text_at(raw_payload.get("nonce"))
    }
}

/// Whoever pays is told to pay the wallet of the endpoint: in the body and in
/// the header of a reply that asks for payment, and in what the facilitator
/// holds the payment against.
pub proof fn law_payments_go_to_the_wallet(p: PaymentView, payload: JsonView, resource: Seq<char>)
    ensures
        ({
            let wallet = JsonView::Text(address_text(p.pay_to));
            let body = payment_body(p, resource).field("accepts"@)->0->List_0[0];
            let offer = payment_offer(p, resource).field("accepts"@)->0->List_0[0];
            let required = facilitator_request(p, payload, resource).field(
                "paymentRequirements"@,
            )->0;
            &&& p.currency is Usdc ==> body.field("payToAddress"@) == Some(wallet)
            &&& p.currency is Starkbot ==> body.field("payTo"@) == Some(wallet)
            &&& offer.field("payToAddress"@) == Some(wallet)
            &&& required.field("payTo"@) == Some(wallet)
        }),
{
    reveal_strlit("x402Version");
    reveal_strlit("accepts");
    reveal_strlit("error");
    reveal_strlit("payToAddress");
    reveal_strlit("payTo");
    reveal_strlit("asset");
    reveal_strlit("maxTimeoutSeconds");
    reveal_strlit("extra");
    reveal_strlit("paymentRequirements");
    assert("accepts"@.len() == 7 && "error"@.len() == 5 && "x402Version"@.len() == 11);
    assert("payToAddress"@.len() == 12 && "maxTimeoutSeconds"@.len() == 17);
    assert("payTo"@.len() == 5 && "asset"@.len() == 5 && "extra"@.len() == 5);
    assert("payTo"@[0] == 'p' && "asset"@[0] == 'a' && "extra"@[0] == 'e');
}

/// The names that payments use differ.
proof fn lemma_payment_names()
    ensures
        "x402Version"@.len() == 11,
        "accepts"@.len() == 7,
        "error"@.len() == 5,
        "scheme"@.len() == 6,
        "network"@.len() == 7,
        "maxAmountRequired"@.len() == 17,
        "resource"@.len() == 8,
        "description"@.len() == 11,
        "payToAddress"@.len() == 12,
        "payTo"@.len() == 5,
        "asset"@.len() == 5,
        "maxTimeoutSeconds"@.len() == 17,
        "mimeType"@.len() == 8,
        "extra"@.len() == 5,
        "token"@.len() == 5,
        "address"@.len() == 7,
        "decimals"@.len() == 8,
        "name"@.len() == 4,
        "version"@.len() == 7,
        "facilitatorSigner"@.len() == 17,
        "minimum_amount"@.len() == 14,
        "paymentPayload"@.len() == 14,
        "paymentRequirements"@.len() == 19,
        "amount"@.len() == 6,
        "payload"@.len() == 7,
        "authorization"@.len() == 13,
        "signature"@.len() == 9,
        "from"@.len() == 4,
        "owner"@.len() == 5,
        "holder"@.len() == 6,
        "nonce"@.len() == 5,
        "name"@[0] == 'n',
        "from"@[0] == 'f',
        "error"@[0] == 'e',
        "error"@[1] == 'r',
        "payTo"@[0] == 'p',
        "payTo"@[1] == 'a',
        "asset"@[0] == 'a',
        "asset"@[1] == 's',
        "extra"@[0] == 'e',
        "extra"@[1] == 'x',
        "token"@[0] == 't',
        "token"@[1] == 'o',
        "owner"@[0] == 'o',
        "owner"@[1] == 'w',
        "nonce"@[0] == 'n',
        "nonce"@[1] == 'o',
        "scheme"@[0] == 's',
        "amount"@[0] == 'a',
        "holder"@[0] == 'h',
        "accepts"@[2] == 'c',
        "network"@[2] == 't',
        "address"@[2] == 'd',
        "version"@[2] == 'r',
        "payload"@[2] == 'y',
        "resource"@[0] == 'r',
        "mimeType"@[0] == 'm',
        "decimals"@[0] == 'd',
        "x402Version"@[0] == 'x',
        "description"@[0] == 'd',
        "minimum_amount"@[0] == 'm',
        "paymentPayload"@[0] == 'p',
        "maxAmountRequired"@[3] == 'A',
        "maxTimeoutSeconds"@[3] == 'T',
        "facilitatorSigner"@[3] == 'i',
{
    reveal_strlit("x402Version");
    reveal_strlit("accepts");
    reveal_strlit("error");
    reveal_strlit("scheme");
    reveal_strlit("network");
    reveal_strlit("maxAmountRequired");
    reveal_strlit("resource");
    reveal_strlit("description");
    reveal_strlit("payToAddress");
    reveal_strlit("payTo");
    reveal_strlit("asset");
    reveal_strlit("maxTimeoutSeconds");
    reveal_strlit("mimeType");
    reveal_strlit("extra");
    reveal_strlit("token");
    reveal_strlit("address");
    reveal_strlit("decimals");
    reveal_strlit("name");
    reveal_strlit("version");
    reveal_strlit("facilitatorSigner");
    reveal_strlit("minimum_amount");
    reveal_strlit("paymentPayload");
    reveal_strlit("paymentRequirements");
    reveal_strlit("amount");
    reveal_strlit("payload");
    reveal_strlit("authorization");
    reveal_strlit("signature");
    reveal_strlit("from");
    reveal_strlit("owner");
    reveal_strlit("holder");
    reveal_strlit("nonce");
}

/// Whether a value is what a USDC payment asks of its payer: one way to pay,
/// the `exact` one, of an amount for a resource, to the endpoint's wallet and
/// in its token, within a minute.
pub open spec fn asks_for_usdc(
    j: JsonView,
    p: PaymentView,
    amount: Seq<char>,
    resource: Seq<char>,
) -> bool {
    &&& j.field("x402Version"@) == Some(number(2))
    &&& j.field("accepts"@) matches Some(JsonView::List(ways))
    &&& ways.len() == 1
    &&& ways[0].field("x402Version"@) == Some(number(2))
    &&& ways[0].field("scheme"@) == Some(JsonView::Text("exact"@))
    &&& ways[0].field("network"@) == Some(JsonView::Text(p.currency->Usdc_network))
    &&& ways[0].field("maxAmountRequired"@) == Some(JsonView::Text(amount))
    &&& ways[0].field("resource"@) == Some(JsonView::Text(resource))
    &&& ways[0].field("description"@) == Some(JsonView::Text(p.description))
    &&& ways[0].field("payToAddress"@) == Some(JsonView::Text("0x"@ + hex_text(p.pay_to)))
    &&& ways[0].field("asset"@) == Some(
        JsonView::Text("0x"@ + hex_text(p.currency->Usdc_asset)),
    )
    &&& ways[0].field("maxTimeoutSeconds"@) == Some(number(60))
}

/// A reply that asks for a USDC payment asks for the cost of the endpoint: its
/// body as it is configured, and its header as the same number without a sign
/// or leading zeros, or as it is configured where that is no number of 128
/// bits.
pub proof fn law_usdc_is_asked_for(p: PaymentView, resource: Seq<char>)
    requires
        p.currency is Usdc,
    ensures
        asks_for_usdc(payment_body(p, resource), p, p.cost, resource),
        match decimal_value(p.cost) {
            Some(n) => if n <= u128::MAX {
                asks_for_usdc(payment_offer(p, resource), p, decimal(n), resource)
            } else {
                asks_for_usdc(payment_offer(p, resource), p, p.cost, resource)
            },
            None => asks_for_usdc(payment_offer(p, resource), p, p.cost, resource),
        },
{
    lemma_payment_names();
}

/// Whether a value is what a Starkbot payment requires: the `permit` scheme, on
/// the network and in the token of the endpoint, of its cost in raw units, to
/// its wallet, for a resource, within five minutes; with what is known of the
/// token.
pub open spec fn requires_starkbot(j: JsonView, p: PaymentView, resource: Seq<char>) -> bool {
    let c = p.currency;
    let extra = j.field("extra"@)->0;
    &&& j.field("scheme"@) == Some(JsonView::Text("permit"@))
    &&& j.field("network"@) == Some(JsonView::Text(c->Starkbot_network))
    &&& j.field("maxAmountRequired"@) == Some(
        JsonView::Text(raw_amount(p.cost, c->decimals as nat)),
    )
    &&& j.field("resource"@) == Some(JsonView::Text(resource))
    &&& j.field("description"@) == Some(JsonView::Text(p.description))
    &&& j.field("mimeType"@) == Some(JsonView::Text("application/json"@))
    &&& j.field("payTo"@) == Some(JsonView::Text("0x"@ + hex_text(p.pay_to)))
    &&& j.field("maxTimeoutSeconds"@) == Some(number(300))
    &&& j.field("asset"@) == Some(JsonView::Text(c->Starkbot_asset))
    &&& j.field("extra"@) is Some
    &&& extra.field("token"@) == Some(JsonView::Text(c->symbol))
    &&& extra.field("address"@) == Some(JsonView::Text(c->Starkbot_asset))
    &&& extra.field("decimals"@) == Some(number(c->decimals as int))
    &&& extra.field("name"@) == Some(JsonView::Text(c->name))
    &&& extra.field("version"@) == Some(JsonView::Text(c->version))
    &&& extra.field("facilitatorSigner"@) == Some(JsonView::Text(c->facilitator_signer))
    &&& extra.field("minimum_amount"@) == Some(JsonView::Bool(true))
}

/// A reply that asks for a Starkbot payment names one way to pay, which is what
/// such a payment requires.
pub proof fn law_starkbot_is_asked_for(p: PaymentView, resource: Seq<char>)
    requires
        p.currency is Starkbot,
    ensures
        ({
            let j = payment_body(p, resource);
            &&& j.field("x402Version"@) == Some(number(1))
            &&& j.field("error"@) == Some(JsonView::Null)
            &&& j.field("accepts"@) matches Some(JsonView::List(ways)) && ways.len() == 1
                && requires_starkbot(ways[0], p, resource)
        }),
{
    lemma_payment_names();
}

/// A facilitator is given the payment as the client sent it, and beside it what
/// the endpoint requires: its cost, its wallet, its token and its network. The
/// client has no say in the latter.
pub proof fn law_facilitator_is_given(p: PaymentView, payload: JsonView, resource: Seq<char>)
    ensures
        ({
            let j = facilitator_request(p, payload, resource);
            let required = j.field("paymentRequirements"@)->0;
            &&& j.field("paymentPayload"@) == Some(payload)
            &&& j.field("paymentRequirements"@) is Some
            &&& p.currency is Usdc ==> {
                &&& required.field("scheme"@) == Some(JsonView::Text("exact"@))
                &&& required.field("network"@) == Some(JsonView::Text(p.currency->Usdc_network))
                &&& required.field("amount"@) == Some(JsonView::Text(p.cost))
                &&& required.field("payTo"@) == Some(JsonView::Text("0x"@ + hex_text(p.pay_to)))
                &&& required.field("asset"@) == Some(
                    JsonView::Text("0x"@ + hex_text(p.currency->Usdc_asset)),
                )
                &&& required.field("maxTimeoutSeconds"@) == Some(number(60))
            }
            &&& p.currency is Starkbot ==> requires_starkbot(required, p, resource)
            &&& forall|k: Seq<char>| #[trigger]
                j.field(k) is Some ==> k == "x402Version"@ || k == "paymentPayload"@ || k
                    == "paymentRequirements"@
        }),
{
    lemma_payment_names();
}

/// The version that a facilitator is told is the one that the payment states;
/// one that states none speaks version 1 where it has a signature but no
/// authorization in its payload, and version 2 otherwise.
pub proof fn law_version_of_a_payment(p: PaymentView, payload: JsonView, resource: Seq<char>)
    ensures
        ({
            let v = facilitator_request(p, payload, resource).field("x402Version"@);
            let stated = payload.field("x402Version"@);
            let states_one = stated is Some && stated->0.unsigned() is Some;
            let inner = payload.field("payload"@);
            let authorized = inner is Some && inner->0.field("authorization"@) is Some;
            &&& states_one && stated->0.unsigned()->0 <= u32::MAX ==> v == stated
            &&& !states_one && authorized ==> v == Some(number(2))
            &&& !states_one && !authorized && payload.field("signature"@) is Some ==> v == Some(
                number(1),
            )
            &&& !states_one && !authorized && payload.field("signature"@) is None ==> v == Some(
                number(2),
            )
        }),
{
    lemma_payment_names();
}

/// Who pays is who has authorized the payment; a payment of the older form says
/// it under `owner`, or else under `holder`, or else under `from`.
pub proof fn law_payer_of_a_payment(payload: JsonView, who: Seq<char>)
    ensures
        ({
            let inner = payload.field("payload"@);
            let auth = if inner is Some {
                inner->0.field("authorization"@)
            } else {
                None
            };
            let from = if auth is Some {
                auth->0.field("from"@)
            } else {
                None
            };
            let authorized = from is Some && from->0 is Text;
            let payer = payload_payer(payload);
            &&& from == Some(JsonView::Text(who)) ==> payer == Some(who)
            &&& !authorized && payload.field("owner"@) == Some(JsonView::Text(who)) ==> payer
                == Some(who)
            &&& !authorized && payload.field("owner"@) is None && payload.field("holder"@) == Some(
                JsonView::Text(who),
            ) ==> payer == Some(who)
            &&& !authorized && payload.field("owner"@) is None && payload.field("holder"@) is None
                && payload.field("from"@) == Some(JsonView::Text(who)) ==> payer == Some(who)
            &&& payer == Some(who) ==> from == Some(JsonView::Text(who)) || payload.field(
                "owner"@,
            ) == Some(JsonView::Text(who)) || payload.field("holder"@) == Some(
                JsonView::Text(who),
            ) || payload.field("from"@) == Some(JsonView::Text(who))
        }),
{
}

/// The nonce of a payment is the one of its authorization; a payment of the
/// older form has it under `nonce`.
pub proof fn law_nonce_of_a_payment(payload: JsonView, nonce: Seq<char>)
    ensures
        ({
            let inner = payload.field("payload"@);
            let auth = if inner is Some {
                inner->0.field("authorization"@)
            } else {
                None
            };
            let stated = if auth is Some {
                auth->0.field("nonce"@)
            } else {
                None
            };
            let authorized = stated is Some && stated->0 is Text;
            let n = payload_nonce(payload);
            &&& stated == Some(JsonView::Text(nonce)) ==> n == Some(nonce)
            &&& !authorized && payload.field("nonce"@) == Some(JsonView::Text(nonce)) ==> n
                == Some(nonce)
            &&& n == Some(nonce) ==> stated == Some(JsonView::Text(nonce)) || payload.field(
                "nonce"@,
            ) == Some(JsonView::Text(nonce))
        }),
{
}

/// An amount with a longer fraction than the token has decimals is worth
/// nothing.
pub proof fn law_too_fine_an_amount(
    amount: Seq<char>,
    whole: Seq<char>,
    frac: Seq<char>,
    decimals: nat,
)
    requires
        trim_white(amount) == whole + seq!['.'] + frac,
        only_digits(whole),
        only_digits(frac),
        trim_end_char(frac, '0').len() > decimals,
    ensures
        raw_amount(amount, decimals) == seq!['0'],
{
    reveal_strlit("0");
    let s = trim_white(amount);
    let n = whole.len() as int;
    assert forall|j: int| 0 <= j < n implies s[j] != '.' by {
        assert(s[j] == whole[j]);
        assert(is_digit(whole[j]));
    }
    lemma_find_is(s, '.', 0, n);
    assert(s.skip(n + 1) =~= frac);
    let g = trim_end_char(frac, '0');
    lemma_trim_end_zeros(frac);
    let k = (frac.len() - g.len()) as nat;
    assert(is_ascii_chars(g)) by {
        assert forall|i: int| 0 <= i < g.len() implies '\0' <= #[trigger] g[i] <= '\u{7f}' by {
            assert((g + zeros(k))[i] == g[i]);
            assert(is_digit(frac[i]));
        }
    }
    is_ascii_chars_encode_utf8(g);
    assert("0"@ =~= seq!['0']);
}

} // verus!
