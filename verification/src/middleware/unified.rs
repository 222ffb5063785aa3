//! Dispatch of chat requests by model and by way of payment.
//!
//! The model and the way of payment that a request asks for are read from its
//! body. The model is looked up in the registry; then the request is paid with
//! credits, by x402, or with credits first and by x402 otherwise.

use vstd::prelude::*;
use vstd::string::*;

use crate::endpoints::ResolvedEndpoint;
use crate::erc8128::types::{error_message, ErrorView, IdentityView};
use crate::erc8128::verify::{
    has_erc8128_headers, signed_request, verified, verify_at, SignedRequestView,
};
use crate::erc8128::{Erc8128Error, Erc8128Identity};
use crate::http::{
    bearer_token, error_reply, extract_bearer_token, header_present, json_reply, text_view, Headers,
    HttpRequest, Reply, ReplyView,
};
use crate::json::{
    field_of, json_parsed, json_view, list_content, text_in, Json, JsonObject, JsonView,
};
use crate::middleware::credits_or_x402::{balance_view, is_signed};
use crate::models::chat::json_list;
use crate::order::{
    keys_view, law_sorted, lemma_sorted_len, positions_view, sort_positions, sorted_positions,
};
use crate::payment::EndpointPaymentConfig;
use crate::services::facilitator::field_text;
use crate::services::session_manager::{SessionManager, SessionView};
use crate::services::InferenceClient;
use crate::text::{lowercase, same_text, signed_decimal, signed_decimal_text, to_lowercase};

verus! {

/// An endpoint with all that is needed to serve a request.
#[derive(Clone)]
pub struct RegisteredEndpoint {
    pub endpoint: ResolvedEndpoint,
    pub client: InferenceClient,
    pub payment_config: EndpointPaymentConfig,
    /// The credits that a request costs; 0 where credits are not accepted.
    pub credit_cost: i64,
}

impl RegisteredEndpoint {
    /// Whether requests to this endpoint can be paid with credits.
    pub fn takes_credits(&self, credits_enabled: bool) -> (r: bool)
        ensures
            r == (self.credit_cost > 0 && credits_enabled),
    {
        self.credit_cost > 0 && credits_enabled
    }
}

/// The endpoints by model name, and the model of requests that name none.
pub struct EndpointRegistry {
    pub models: Vec<(String, RegisteredEndpoint)>,
    pub default_model: String,
}

/// The model names of a registry.
pub open spec fn model_names(models: Seq<(String, RegisteredEndpoint)>) -> Seq<Seq<char>> {
    Seq::new(models.len(), |i: int| models[i].0@)
}

/// The first position from `i` on with a name.
pub open spec fn exact_from(names: Seq<Seq<char>>, key: Seq<char>, i: int) -> Option<int>
    decreases names.len() - i,
{
    if i < 0 || i >= names.len() {
        None
    } else if names[i] == key {
        Some(i)
    } else {
        exact_from(names, key, i + 1)
    }
}

/// The first position from `i` on with a name, whatever the case.
pub open spec fn caseless_from(names: Seq<Seq<char>>, key: Seq<char>, i: int) -> Option<int>
    decreases names.len() - i,
{
    if i < 0 || i >= names.len() {
        None
    } else if lowercase(names[i]) == lowercase(key) {
        Some(i)
    } else {
        caseless_from(names, key, i + 1)
    }
}

/// The position of a model: the one with exactly this name, or else the first
/// one with this name in another case.
pub open spec fn lookup_in(names: Seq<Seq<char>>, key: Seq<char>) -> Option<int> {
    match exact_from(names, key, 0) {
        Some(i) => Some(i),
        None => caseless_from(names, key, 0),
    }
}

/// Whether no name occurs twice.
pub open spec fn distinct_names(names: Seq<Seq<char>>) -> bool {
    forall|i: int, j: int| 0 <= i < j < names.len() ==> names[i] != names[j]
}

impl EndpointRegistry {
    /// The model names.
    pub open spec fn names(&self) -> Seq<Seq<char>> {
        model_names(self.models@)
    }

    /// The position of a model.
    pub fn position(&self, key: &str) -> (r: Option<usize>)
        ensures
            match r {
                Some(i) => i < self.models@.len() && lookup_in(self.names(), key@) == Some(
                    i as int,
                ),
                None => lookup_in(self.names(), key@) is None,
            },
    {
        let mut i: usize = 0;
        while i < self.models.len()
            invariant
                i <= self.models@.len(),
                exact_from(self.names(), key@, 0) == exact_from(self.names(), key@, i as int),
            decreases self.models@.len() - i,
        {
            if same_text(self.models[i].0.as_str(), key) {
                return Some(i);
            }
            i += 1;
        }
        let lower = to_lowercase(key);
        let mut j: usize = 0;
        while j < self.models.len()
            invariant
                j <= self.models@.len(),
                lower@ == lowercase(key@),
                exact_from(self.names(), key@, 0) is None,
                caseless_from(self.names(), key@, 0) == caseless_from(
                    self.names(),
                    key@,
                    j as int,
                ),
            decreases self.models@.len() - j,
        {
            let name = to_lowercase(self.models[j].0.as_str());
            if same_text(name.as_str(), lower.as_str()) {
                return Some(j);
            }
            j += 1;
        }
        None
    }

    /// The endpoint of a model: the one with exactly this name, or else one
    /// with this name in another case.
    pub fn lookup(&self, key: &str) -> (r: Option<&RegisteredEndpoint>)
        ensures
            match r {
                Some(e) => lookup_in(self.names(), key@) is Some && *e == self.models@[lookup_in(
                    self.names(),
                    key@,
                )->0].1,
                None => lookup_in(self.names(), key@) is None,
            },
    {
        match self.position(key) {
            Some(i) => Some(&self.models[i].1),
            None => None,
        }
    }

    /// The model names in alphabetical order.
    fn sorted_names(&self) -> (r: Vec<String>)
        ensures
            keys_view(r@) == sorted_names(self.names()),
    {
        let mut names: Vec<String> = Vec::new();
        let mut i: usize = 0;
        while i < self.models.len()
            invariant
                i <= self.models@.len(),
                names@.len() == i,
                forall|j: int| 0 <= j < i ==> (#[trigger] names@[j])@ == self.names()[j],
            decreases self.models@.len() - i,
        {
            names.push(self.models[i].0.clone());
            i += 1;
        }
        assert(keys_view(names@) =~= self.names());
        let order = sort_positions(&names);
        let mut out: Vec<String> = Vec::new();
        let mut k: usize = 0;
        while k < order.len()
            invariant
                k <= order@.len(),
                keys_view(names@) == self.names(),
                positions_view(order@) == sorted_positions(self.names(), self.names().len()),
                forall|j: int| 0 <= j < order@.len() ==> #[trigger] order@[j] < names@.len(),
                out@.len() == k,
                forall|j: int|
                    0 <= j < k ==> (#[trigger] out@[j])@ == sorted_names(self.names())[j],
            decreases order@.len() - k,
        {
            let p: usize = order[k];
            assert(positions_view(order@)[k as int] == p);
            assert(keys_view(names@)[p as int] == names@[p as int]@);
            out.push(names[p].clone());
            k += 1;
        }
        assert(positions_view(order@).len() == order@.len());
        assert(keys_view(out@) =~= sorted_names(self.names()));
        out
    }
}

/// The model names in alphabetical order.
pub open spec fn sorted_names(names: Seq<Seq<char>>) -> Seq<Seq<char>> {
    sorted_positions(names, names.len()).map_values(|i: int| names[i])
}

// ---------------------------------------------------------------------------
// What a request asks for
// ---------------------------------------------------------------------------

/// How a request is to be paid.
#[derive(Clone, Copy, PartialEq, Eq, Structural)]
pub enum PayMode {
    Auto,
    Credits,
    X402,
}

/// The text of a field of a body, where the body is JSON and has it.
pub open spec fn body_text(body: Option<JsonView>, key: Seq<char>) -> Option<Seq<char>> {
    match body {
        Some(j) => text_in(j.field(key)),
        None => None,
    }
}

/// The model that a body asks for: the default one, where it names none or
/// `auto`.
pub open spec fn asked_model(body: Option<JsonView>, default_model: Seq<char>) -> Seq<char> {
    match body_text(body, "model"@) {
        Some(name) => if name == ""@ || name == "auto"@ {
            default_model
        } else {
            name
        },
        None => default_model,
    }
}

/// What `Debug` shows of a list of texts.
pub uninterp spec fn list_shown(texts: Seq<Seq<char>>) -> Seq<char>;

/// `format!` with `{:?}` of a list of texts. How `Debug` quotes and escapes
/// them stays a name.
#[verifier::external_body]
fn show_list(texts: &Vec<String>) -> (r: String)
    ensures
        r@ == list_shown(keys_view(texts@)),
{
    format!("{:?}", texts)
}

/// The names that a request may ask for: the models in alphabetical order,
/// then `auto`.
pub open spec fn available(names: Seq<Seq<char>>) -> Seq<Seq<char>> {
    sorted_names(names).push("auto"@)
}

/// The reply to a request for a model that is not there; `shown` is how the
/// names that are there are shown.
pub open spec fn unknown_model(
    key: Seq<char>,
    names: Seq<Seq<char>>,
    shown: Seq<char>,
) -> ReplyView {
    json_reply(
        400,
        JsonView::Object(
            map![
                "error"@ => JsonView::Text(
                    "Unknown model: '"@ + key + "'. Available models: "@ + shown,
                ),
                "available_models"@ => JsonView::List(
                    names.map_values(|n: Seq<char>| JsonView::Text(n)),
                ),
            ],
        ),
    )
}

/// The message where x402 is switched off.
pub open spec fn x402_disabled() -> Seq<char> {
    "x402 on-chain payment is currently disabled. Please use credits."@
}

/// How a body wants to pay, or the message of the error.
pub open spec fn asked_mode(body: Option<JsonView>, x402_enabled: bool) -> Result<
    PayMode,
    Seq<char>,
> {
    match body_text(body, "payment_type"@) {
        None => Ok(PayMode::Auto),
        Some(t) => if t == ""@ || t == "auto"@ {
            Ok(PayMode::Auto)
        } else if t == "credits"@ {
            Ok(PayMode::Credits)
        } else if t == "x402"@ {
            if x402_enabled {
                Ok(PayMode::X402)
            } else {
                Err(x402_disabled())
            }
        } else {
            Err(
                "Unknown payment_type: '"@ + t
                    + "'. Valid values: \"auto\", \"credits\", \"x402\""@,
            )
        },
    }
}

// ---------------------------------------------------------------------------
// The flow
// ---------------------------------------------------------------------------

/// A request on its way: the model it asks for, the position of its endpoint,
/// how it is to be paid, what it costs in credits, and whether credits are
/// accepted.
pub struct Dispatch {
    pub model_key: String,
    pub index: usize,
    pub mode: PayMode,
    pub credit_cost: i64,
    pub credits_available: bool,
}

/// A request on its way.
pub struct DispatchView {
    pub model_key: Seq<char>,
    pub index: int,
    pub mode: PayMode,
    pub credit_cost: i64,
    pub credits_available: bool,
}

impl View for Dispatch {
    type V = DispatchView;

    open spec fn view(&self) -> DispatchView {
        DispatchView {
            model_key: self.model_key@,
            index: self.index as int,
            mode: self.mode,
            credit_cost: self.credit_cost,
            credits_available: self.credits_available,
        }
    }
}

/// What is to be done with a request.
pub enum DispatchStep {
    /// Do not serve it, and reply this.
    Refuse(Reply),
    /// Ask for the balance of a wallet.
    AskBalance(String),
    /// Adjust the balance of a wallet.
    Deduct { wallet: String, delta: i64 },
    /// Serve it.
    Serve,
    /// Have it paid by x402; whether replies that ask for payment tell of
    /// credits.
    PayX402 { advertise_credits: bool },
}

/// What is to be done with a request.
pub enum DispatchStepView {
    Refuse(ReplyView),
    AskBalance(Seq<char>),
    Deduct { wallet: Seq<char>, delta: i64 },
    Serve,
    PayX402 { advertise_credits: bool },
}

impl View for DispatchStep {
    type V = DispatchStepView;

    open spec fn view(&self) -> DispatchStepView {
        match self {
            DispatchStep::Refuse(r) => DispatchStepView::Refuse(r@),
            DispatchStep::AskBalance(w) => DispatchStepView::AskBalance(w@),
            DispatchStep::Deduct { wallet, delta } => DispatchStepView::Deduct {
                wallet: wallet@,
                delta: *delta,
            },
            DispatchStep::Serve => DispatchStepView::Serve,
            DispatchStep::PayX402 { advertise_credits } => DispatchStepView::PayX402 {
                advertise_credits: *advertise_credits,
            },
        }
    }
}

/// Who a request says it is from.
pub enum Credentials {
    /// The session of a token, where it has one.
    Session(Option<Seq<char>>),
    /// What the signature of the request gives.
    Signature(Result<IdentityView, ErrorView>),
    /// Nothing.
    Missing,
}

/// What is done with a request that is not paid with credits.
pub open spec fn fall_through(d: DispatchView, x402_enabled: bool) -> DispatchStepView {
    if x402_enabled {
        DispatchStepView::PayX402 { advertise_credits: d.credits_available }
    } else {
        DispatchStepView::Refuse(error_reply(402, x402_disabled()))
    }
}

/// What is done with a request that cannot be paid with credits: it is refused
/// where the client insists on credits.
pub open spec fn refuse_or_fall(
    d: DispatchView,
    x402_enabled: bool,
    status: u16,
    message: Seq<char>,
) -> DispatchStepView {
    if d.mode == PayMode::Credits {
        DispatchStepView::Refuse(error_reply(status, message))
    } else {
        fall_through(d, x402_enabled)
    }
}

/// What follows from who a request is from.
pub open spec fn identified(d: DispatchView, x402_enabled: bool, c: Credentials) -> DispatchStepView {
    match c {
        Credentials::Session(Some(wallet)) => DispatchStepView::AskBalance(wallet),
        Credentials::Session(None) => refuse_or_fall(
            d,
            x402_enabled,
            401,
            "Invalid or expired session token"@,
        ),
        Credentials::Signature(Ok(id)) => DispatchStepView::AskBalance(
            lowercase(id.wallet_address),
        ),
        Credentials::Signature(Err(e)) => refuse_or_fall(
            d,
            x402_enabled,
            401,
            "ERC-8128 signature verification failed: "@ + error_message(e),
        ),
        Credentials::Missing => refuse_or_fall(
            d,
            x402_enabled,
            400,
            "payment_type \"credits\" requires a Bearer session token or ERC-8128 signed headers."@,
        ),
    }
}

/// The request on its way, or the reply to one that asks for what is not
/// there. `shown` is how the names of the models are shown.
pub open spec fn selected(
    u: UnifiedView,
    body: Option<JsonView>,
    shown: Seq<char>,
) -> Result<DispatchView, ReplyView> {
    let key = asked_model(body, u.default_model);
    match lookup_in(u.names, key) {
        None => Err(unknown_model(key, available(u.names), shown)),
        Some(i) => match asked_mode(body, u.x402_enabled) {
            Err(m) => Err(error_reply(400, m)),
            Ok(mode) => {
                let d = DispatchView {
                    model_key: key,
                    index: i,
                    mode,
                    credit_cost: u.costs[i],
                    credits_available: u.costs[i] > 0 && u.credits_enabled,
                };
                if mode == PayMode::Credits && !d.credits_available {
                    Err(
                        error_reply(
                            400,
                            "Model '"@ + key
                                + "' does not support credits payment. Use payment_type \"x402\" or \"auto\"."@,
                        ),
                    )
                } else {
                    Ok(d)
                }
            },
        },
    }
}

/// Whether credits are tried: they are accepted, and the client insists on
/// them or brings credentials and leaves the choice.
pub open spec fn tries_credits(d: DispatchView, has_credentials: bool) -> bool {
    d.credits_available && (d.mode == PayMode::Credits || (d.mode == PayMode::Auto
        && has_credentials))
}

/// Who a request is from: its session token counts before its signature.
/// `session` is the wallet of the session of its token, where there is one.
pub open spec fn credentials_of(r: SignedRequestView, now: int, session: Option<Seq<char>>) -> Credentials {
    if bearer_token(r.headers) is Some {
        Credentials::Session(session)
    } else if is_signed(r.headers) {
        Credentials::Signature(verified(r, now))
    } else {
        Credentials::Missing
    }
}

/// Whether the signature of a request is verified: credits are tried, and the
/// request is signed and carries no session token.
pub open spec fn asks_signature(d: DispatchView, headers: Seq<(Seq<char>, Option<Seq<char>>)>) -> bool {
    &&& is_signed(headers)
    &&& bearer_token(headers) is None
    &&& tries_credits(d, true)
}

/// What is done first with a request on its way.
pub open spec fn first_step(
    d: DispatchView,
    x402_enabled: bool,
    r: SignedRequestView,
    now: int,
    session: Option<Seq<char>>,
) -> DispatchStepView {
    if tries_credits(d, bearer_token(r.headers) is Some || is_signed(r.headers)) {
        identified(d, x402_enabled, credentials_of(r, now, session))
    } else {
        fall_through(d, x402_enabled)
    }
}

/// What follows from the balance of a wallet, or the error of asking for it.
pub open spec fn balance_step(
    d: DispatchView,
    x402_enabled: bool,
    wallet: Seq<char>,
    balance: Result<i64, Seq<char>>,
) -> DispatchStepView {
    match balance {
        Ok(n) => if n >= d.credit_cost {
            DispatchStepView::Deduct { wallet, delta: (-d.credit_cost) as i64 }
        } else {
            refuse_or_fall(
                d,
                x402_enabled,
                402,
                "Insufficient credits: have "@ + signed_decimal(n as int) + ", need "@
                    + signed_decimal(d.credit_cost as int) + " for model '"@ + d.model_key + "'"@,
            )
        },
        Err(e) => refuse_or_fall(d, x402_enabled, 500, "Credits check failed: "@ + e),
    }
}

/// What follows from deducting credits.
pub open spec fn deduction_step(
    d: DispatchView,
    x402_enabled: bool,
    result: Result<i64, Seq<char>>,
) -> DispatchStepView {
    match result {
        Ok(_) => DispatchStepView::Serve,
        Err(e) => refuse_or_fall(d, x402_enabled, 500, "Credits deduction failed: "@ + e),
    }
}

/// The dispatcher: its registry, and which ways of payment are switched on.
pub struct UnifiedDispatchMiddleware {
    pub registry: EndpointRegistry,
    pub x402_enabled: bool,
    pub credits_enabled: bool,
}

/// The dispatcher: the model names, what each costs in credits, the default
/// model, and which ways of payment are switched on.
pub struct UnifiedView {
    pub names: Seq<Seq<char>>,
    pub costs: Seq<i64>,
    pub default_model: Seq<char>,
    pub x402_enabled: bool,
    pub credits_enabled: bool,
}

impl View for UnifiedDispatchMiddleware {
    type V = UnifiedView;

    open spec fn view(&self) -> UnifiedView {
        UnifiedView {
            names: self.registry.names(),
            costs: Seq::new(
                self.registry.models@.len(),
                |i: int| self.registry.models@[i].1.credit_cost,
            ),
            default_model: self.registry.default_model@,
            x402_enabled: self.x402_enabled,
            credits_enabled: self.credits_enabled,
        }
    }
}

/// The text of a field of a body.
fn read_body_text(body: &Option<Json>, key: &str) -> (r: Option<String>)
    ensures
        text_view(r) == body_text(json_view(*body), key@),
{
    match body {
        Some(j) => field_text(j, key),
        None => None,
    }
}

/// A message made of three parts.
fn message(a: &str, b: &str, c: &str) -> (r: String)
    ensures
        r@ == a@ + b@ + c@,
{
    let mut m = a.to_owned();
    m.append(b);
    m.append(c);
    m
}

/// A message made of two parts.
fn message2(a: &str, b: &str) -> (r: String)
    ensures
        r@ == a@ + b@,
{
    let mut m = a.to_owned();
    m.append(b);
    m
}

/// The reply to a request for a model that is not there.
pub fn make_unknown_model(key: &str, names: &Vec<String>, shown: &str) -> (r: Reply)
    ensures
        r@ == unknown_model(key@, keys_view(names@), shown@),
{
    let mut list: Vec<Json> = Vec::new();
    let mut i: usize = 0;
    while i < names.len()
        invariant
            i <= names@.len(),
            list@.len() == i,
            forall|j: int| 0 <= j < i ==> (#[trigger] list@[j])@ == JsonView::Text(names@[j]@),
        decreases names@.len() - i,
    {
        list.push(Json::str(names[i].as_str()));
        i += 1;
    }
    assert(list_content(list@) =~= keys_view(names@).map_values(
        |n: Seq<char>| JsonView::Text(n),
    ));
    let mut m = "Unknown model: '".to_owned();
    m.append(key);
    m.append("'. Available models: ");
    m.append(shown);
    let mut o = JsonObject::new();
    o.put("error", Json::str(m.as_str()));
    o.put("available_models", json_list(list));
    Reply::json(400, Json::Object(o))
}

impl UnifiedDispatchMiddleware {
    /// A dispatcher over a registry.
    pub fn new(registry: EndpointRegistry, x402_enabled: bool, credits_enabled: bool) -> (r: Self)
        ensures
            r.registry == registry,
            r.x402_enabled == x402_enabled,
            r.credits_enabled == credits_enabled,
    {
        UnifiedDispatchMiddleware { registry, x402_enabled, credits_enabled }
    }

    /// What is done with a request that is not paid with credits.
    fn fall(&self, d: &Dispatch) -> (r: DispatchStep)
        ensures
            r@ == fall_through(d@, self.x402_enabled),
    {
        if self.x402_enabled {
            DispatchStep::PayX402 { advertise_credits: d.credits_available }
        } else {
            DispatchStep::Refuse(
                Reply::error(
                    402,
                    "x402 on-chain payment is currently disabled. Please use credits.",
                ),
            )
        }
    }

    /// What is done with a request that cannot be paid with credits.
    fn refuse(&self, d: &Dispatch, status: u16, message: &str) -> (r: DispatchStep)
        ensures
            r@ == refuse_or_fall(d@, self.x402_enabled, status, message@),
    {
        if d.mode == PayMode::Credits {
            DispatchStep::Refuse(Reply::error(status, message))
        } else {
            self.fall(d)
        }
    }

    /// The way of payment that a body asks for.
    fn read_mode(&self, body: &Option<Json>) -> (r: Result<PayMode, String>)
        ensures
            match r {
                Ok(m) => asked_mode(json_view(*body), self.x402_enabled) == Ok::<
                    PayMode,
                    Seq<char>,
                >(m),
                Err(e) => asked_mode(json_view(*body), self.x402_enabled) == Err::<
                    PayMode,
                    Seq<char>,
                >(e@),
            },
    {
        match read_body_text(body, "payment_type") {
            None => Ok(PayMode::Auto),
            Some(t) => {
                if same_text(t.as_str(), "") || same_text(t.as_str(), "auto") {
                    Ok(PayMode::Auto)
                } else if same_text(t.as_str(), "credits") {
                    Ok(PayMode::Credits)
                } else if same_text(t.as_str(), "x402") {
                    if self.x402_enabled {
                        Ok(PayMode::X402)
                    } else {
                        Err(
                            "x402 on-chain payment is currently disabled. Please use credits.".to_owned(),
                        )
                    }
                } else {
                    Err(
                        message(
                            "Unknown payment_type: '",
                            t.as_str(),
                            "'. Valid values: \"auto\", \"credits\", \"x402\"",
                        ),
                    )
                }
            },
        }
    }

    /// Finds the endpoint and the way of payment that a body asks for, given
    /// what the body reads as.
    pub fn select(&self, body: &Option<Json>) -> (r: Result<Dispatch, Reply>)
        ensures
            ({
                let s = selected(
                    self@,
                    json_view(*body),
                    list_shown(available(self@.names)),
                );
                match r {
                    Ok(d) => s == Ok::<DispatchView, ReplyView>(d@) && d.index
                        < self.registry.models@.len(),
                    Err(reply) => s == Err::<DispatchView, ReplyView>(reply@),
                }
            }),
    {
        let model_key = match read_body_text(body, "model") {
            Some(name) => if same_text(name.as_str(), "") || same_text(name.as_str(), "auto") {
                self.registry.default_model.clone()
            } else {
                name
            },
            None => self.registry.default_model.clone(),
        };
        let index: usize = match self.registry.position(model_key.as_str()) {
            Some(i) => i,
            None => {
                let mut names = self.registry.sorted_names();
                let ghost before = names@;
                names.push("auto".to_owned());
                assert(keys_view(names@) =~= keys_view(before).push("auto"@));
                let shown = show_list(&names);
                return Err(make_unknown_model(model_key.as_str(), &names, shown.as_str()));
            },
        };
        let mode = match self.read_mode(body) {
            Ok(m) => m,
            Err(e) => return Err(Reply::error(400, e.as_str())),
        };
        let credit_cost: i64 = self.registry.models[index].1.credit_cost;
        let credits_available = self.registry.models[index].1.takes_credits(self.credits_enabled);
        if mode == PayMode::Credits && !credits_available {
            return Err(
                Reply::error(
                    400,
                    message(
                        "Model '",
                        model_key.as_str(),
                        "' does not support credits payment. Use payment_type \"x402\" or \"auto\".",
                    ).as_str(),
                ),
            );
        }
        Ok(Dispatch { model_key, index, mode, credit_cost, credits_available })
    }

    /// Finds the endpoint and the way of payment that the bytes of a body ask
    /// for. A body that is no JSON asks for nothing.
    pub fn dispatch(&self, body: &[u8]) -> (r: Result<Dispatch, Reply>)
        ensures
            ({
                let parsed = match json_parsed(body@) {
                    Ok(j) => Some(j),
                    Err(_) => None,
                };
                let s = selected(self@, parsed, list_shown(available(self@.names)));
                match r {
                    Ok(d) => s == Ok::<DispatchView, ReplyView>(d@) && d.index
                        < self.registry.models@.len(),
                    Err(reply) => s == Err::<DispatchView, ReplyView>(reply@),
                }
            }),
    {
        let parsed = match Json::parse(body) {
            Ok(j) => Some(j),
            Err(_) => None,
        };
        self.select(&parsed)
    }

    /// Decides on the session of a token.
    pub fn session_known(&self, d: &Dispatch, wallet: Option<String>) -> (r: DispatchStep)
        ensures
            r@ == identified(d@, self.x402_enabled, Credentials::Session(text_view(wallet))),
    {
        match wallet {
            Some(w) => DispatchStep::AskBalance(w),
            None => self.refuse(d, 401, "Invalid or expired session token"),
        }
    }

    /// Decides on what the signature of a request gives.
    pub fn signature_known(
        &self,
        d: &Dispatch,
        identity: Result<Erc8128Identity, Erc8128Error>,
    ) -> (r: DispatchStep)
        ensures
            r@ == identified(
                d@,
                self.x402_enabled,
                Credentials::Signature(
                    match identity {
                        Ok(id) => Ok::<IdentityView, ErrorView>(id@),
                        Err(e) => Err::<IdentityView, ErrorView>(e@),
                    },
                ),
            ),
    {
        match identity {
            Ok(id) => DispatchStep::AskBalance(to_lowercase(id.wallet_address.as_str())),
            Err(e) => {
                let shown = e.to_string();
                self.refuse(
                    d,
                    401,
                    message2("ERC-8128 signature verification failed: ", shown.as_str()).as_str(),
                )
            },
        }
    }

    /// Whether the signature of a request on its way is verified.
    pub fn checks_signature(&self, d: &Dispatch, headers: &Headers) -> (r: bool)
        ensures
            r == asks_signature(d@, headers@),
    {
        has_erc8128_headers(headers) && extract_bearer_token(headers).is_none()
            && d.credits_available && (d.mode == PayMode::Credits || d.mode == PayMode::Auto)
    }

    /// Decides what is done first with a request on its way, at a time in
    /// seconds.
    pub fn begin(
        &self,
        sessions: &SessionManager,
        d: &Dispatch,
        req: &HttpRequest,
        body: &[u8],
        now: i64,
    ) -> (r: DispatchStep)
        requires
            asks_signature(d@, req.headers@) ==> signed_request(*req, body@).in_order(),
            now <= i64::MAX - 60,
        ensures
            exists|session: Option<Seq<char>>|
                session_may_be(
                    sessions@.created,
                    bearer_token(req.headers@),
                    session,
                ) && r@ == #[trigger] first_step(
                    d@,
                    self.x402_enabled,
                    signed_request(*req, body@),
                    now as int,
                    session,
                ),
    {
        let token = extract_bearer_token(&req.headers);
        let signed = has_erc8128_headers(&req.headers);
        let ghost r0 = signed_request(*req, body@);
        let ghost none: Option<Seq<char>> = None;
        let tried = d.credits_available && (d.mode == PayMode::Credits || (d.mode == PayMode::Auto
            && (token.is_some() || signed)));
        if !tried {
            let step = self.fall(d);
            assert(step@ == first_step(d@, self.x402_enabled, r0, now as int, none));
            return step;
        }
        match token {
            Some(t) => {
                let wallet = match sessions.validate(t.as_str()) {
                    Some(info) => Some(info.wallet_address),
                    None => None,
                };
                let ghost session = text_view(wallet);
                let step = self.session_known(d, wallet);
                assert(step@ == first_step(d@, self.x402_enabled, r0, now as int, session));
                step
            },
            None => {
                let step = if signed {
                    self.signature_known(d, verify_at(req, body, now))
                } else {
                    self.refuse(
                        d,
                        400,
                        "payment_type \"credits\" requires a Bearer session token or ERC-8128 signed headers.",
                    )
                };
                assert(step@ == first_step(d@, self.x402_enabled, r0, now as int, none));
                step
            },
        }
    }

    /// Decides on the balance of a wallet.
    pub fn balance_known(
        &self,
        d: &Dispatch,
        wallet: String,
        balance: Result<i64, String>,
    ) -> (r: DispatchStep)
        requires
            d.credit_cost > i64::MIN,
        ensures
            r@ == balance_step(d@, self.x402_enabled, wallet@, balance_view(balance)),
    {
        match balance {
            Ok(n) => {
                if n >= d.credit_cost {
                    DispatchStep::Deduct { wallet, delta: -d.credit_cost }
                } else {
                    let mut m = "Insufficient credits: have ".to_owned();
                    m.append(signed_decimal_text(n).as_str());
                    m.append(", need ");
                    m.append(signed_decimal_text(d.credit_cost).as_str());
                    m.append(" for model '");
                    m.append(d.model_key.as_str());
                    m.append("'");
                    self.refuse(d, 402, m.as_str())
                }
            },
            Err(e) => self.refuse(d, 500, message2("Credits check failed: ", e.as_str()).as_str()),
        }
    }

    /// Decides on whether the credits were deducted.
    pub fn deducted(&self, d: &Dispatch, result: Result<i64, String>) -> (r: DispatchStep)
        ensures
            r@ == deduction_step(d@, self.x402_enabled, balance_view(result)),
    {
        match result {
            Ok(_) => DispatchStep::Serve,
            Err(e) => self.refuse(
                d,
                500,
                message2("Credits deduction failed: ", e.as_str()).as_str(),
            ),
        }
    }
}

/// Whether a wallet can be that of the session of a token: there is no session
/// for a token that none was created for, and the wallet is the one that the
/// session was created for.
pub open spec fn session_may_be(
    created: Map<Seq<char>, SessionView>,
    token: Option<Seq<char>>,
    session: Option<Seq<char>>,
) -> bool {
    session is Some ==> token is Some && created.contains_key(token->0) && session->0
        == created[token->0].wallet_address
}

// ---------------------------------------------------------------------------
// Laws
// ---------------------------------------------------------------------------

/// `exact_from` finds a name that is there.
proof fn lemma_exact(names: Seq<Seq<char>>, key: Seq<char>, i: int, k: int)
    requires
        0 <= i <= k < names.len(),
        names[k] == key,
    ensures
        exact_from(names, key, i) is Some,
        i <= exact_from(names, key, i)->0 < names.len(),
        names[exact_from(names, key, i)->0] == key,
    decreases k - i,
{
    if names[i] != key {
        lemma_exact(names, key, i + 1, k);
    }
}

/// A model that is there is found by its name.
pub proof fn law_model_is_found(names: Seq<Seq<char>>, k: int)
    requires
        0 <= k < names.len(),
    ensures
        lookup_in(names, names[k]) is Some,
        names[lookup_in(names, names[k])->0] == names[k],
{
    lemma_exact(names, names[k], 0, k);
}

/// `caseless_from` gives a position with the name in some case.
proof fn lemma_caseless(names: Seq<Seq<char>>, key: Seq<char>, i: int)
    requires
        0 <= i <= names.len(),
    ensures
        match caseless_from(names, key, i) {
            Some(k) => i <= k < names.len() && lowercase(names[k]) == lowercase(key),
            None => forall|k: int|
                i <= k < names.len() ==> lowercase(#[trigger] names[k]) != lowercase(key),
        },
    decreases names.len() - i,
{
    if i < names.len() && lowercase(names[i]) != lowercase(key) {
        lemma_caseless(names, key, i + 1);
    }
}

/// `exact_from` gives a position with the name.
proof fn lemma_exact_found(names: Seq<Seq<char>>, key: Seq<char>, i: int)
    requires
        0 <= i <= names.len(),
    ensures
        match exact_from(names, key, i) {
            Some(k) => i <= k < names.len() && names[k] == key,
            None => true,
        },
    decreases names.len() - i,
{
    if i < names.len() && names[i] != key {
        lemma_exact_found(names, key, i + 1);
    }
}

/// The case of a model's name does not matter: what is found has the name that
/// was asked for in some case, and where nothing is found nothing has it.
pub proof fn law_lookup_ignores_case(names: Seq<Seq<char>>, key: Seq<char>)
    ensures
        match lookup_in(names, key) {
            Some(k) => 0 <= k < names.len() && lowercase(names[k]) == lowercase(key),
            None => forall|k: int|
                0 <= k < names.len() ==> lowercase(#[trigger] names[k]) != lowercase(key),
        },
{
    lemma_exact_found(names, key, 0);
    lemma_caseless(names, key, 0);
}

/// A client that insists on credits is never sent on to x402, and one that
/// insists on x402 is never asked for credits.
pub proof fn law_payment_type_is_kept(
    d: DispatchView,
    x402_enabled: bool,
    r: SignedRequestView,
    now: int,
    session: Option<Seq<char>>,
    wallet: Seq<char>,
    balance: Result<i64, Seq<char>>,
    result: Result<i64, Seq<char>>,
)
    requires
        d.mode == PayMode::Credits ==> d.credits_available,
    ensures
        d.mode == PayMode::Credits ==> {
            &&& !(first_step(d, x402_enabled, r, now, session) is PayX402)
            &&& !(balance_step(d, x402_enabled, wallet, balance) is PayX402)
            &&& !(deduction_step(d, x402_enabled, result) is PayX402)
        },
        d.mode == PayMode::X402 ==> first_step(d, x402_enabled, r, now, session) == fall_through(
            d,
            x402_enabled,
        ),
{
}

/// Where x402 is switched off, no request is sent on to it.
pub proof fn law_x402_can_be_switched_off(
    d: DispatchView,
    r: SignedRequestView,
    now: int,
    session: Option<Seq<char>>,
    wallet: Seq<char>,
    balance: Result<i64, Seq<char>>,
    result: Result<i64, Seq<char>>,
)
    ensures
        !(first_step(d, false, r, now, session) is PayX402),
        !(balance_step(d, false, wallet, balance) is PayX402),
        !(deduction_step(d, false, result) is PayX402),
{
}

/// A request is served for credits only once they were deducted; they are
/// deducted only where the balance covers the cost, and exactly the cost is.
pub proof fn law_credits_are_deducted_first(
    d: DispatchView,
    x402_enabled: bool,
    r: SignedRequestView,
    now: int,
    session: Option<Seq<char>>,
    wallet: Seq<char>,
    balance: Result<i64, Seq<char>>,
    result: Result<i64, Seq<char>>,
)
    requires
        d.credit_cost > i64::MIN,
    ensures
        !(first_step(d, x402_enabled, r, now, session) is Serve),
        !(first_step(d, x402_enabled, r, now, session) is Deduct),
        !(balance_step(d, x402_enabled, wallet, balance) is Serve),
        deduction_step(d, x402_enabled, result) is Serve <==> result is Ok,
        match balance_step(d, x402_enabled, wallet, balance) {
            DispatchStepView::Deduct { wallet: w, delta } => w == wallet && delta
                == -d.credit_cost && balance is Ok && balance->Ok_0 + delta >= 0,
            _ => balance is Err || balance->Ok_0 < d.credit_cost,
        },
{
}

/// Only a wallet that a session was created for, or that has signed the
/// request, is asked to pay.
pub proof fn law_only_the_caller_pays(
    d: DispatchView,
    x402_enabled: bool,
    r: SignedRequestView,
    now: int,
    created: Map<Seq<char>, SessionView>,
    session: Option<Seq<char>>,
)
    requires
        session_may_be(created, bearer_token(r.headers), session),
    ensures
        match first_step(d, x402_enabled, r, now, session) {
            DispatchStepView::AskBalance(w) => {
                ||| bearer_token(r.headers) is Some && created.contains_key(
                    bearer_token(r.headers)->0,
                ) && w == created[bearer_token(r.headers)->0].wallet_address
                ||| verified(r, now) is Ok && w == lowercase(
                    verified(r, now)->Ok_0.wallet_address,
                )
            },
            _ => true,
        },
{
}

/// The names that requests and replies use differ.
proof fn lemma_dispatch_names()
    ensures
        "auto"@.len() == 4,
        "credits"@.len() == 7,
        "x402"@.len() == 4,
        ""@.len() == 0,
        "payment_type"@.len() == 12,
        "model"@.len() == 5,
        "error"@.len() == 5,
        "available_models"@.len() == 16,
        "auto"@[0] == 'a',
        "x402"@[0] == 'x',
        "model"@[0] == 'm',
        "error"@[0] == 'e',
{
    reveal_strlit("auto");
    reveal_strlit("credits");
    reveal_strlit("x402");
    reveal_strlit("");
    reveal_strlit("payment_type");
    reveal_strlit("model");
    reveal_strlit("error");
    reveal_strlit("available_models");
}

/// The way of payment that a body names is the one that is taken: `auto` and
/// no text at all leave the choice, `credits` asks for credits alone and
/// `x402` for x402 alone, which is refused where it is switched off. Any other
/// text is refused.
pub proof fn law_payment_types(body: Option<JsonView>, x402_enabled: bool)
    ensures
        ({
            let t = field_of(body, "payment_type"@);
            let mode = asked_mode(body, x402_enabled);
            let names_one = t is Some && t->0 is Text && t->0->Text_0.len() > 0;
            &&& mode == Ok::<PayMode, Seq<char>>(PayMode::Credits) <==> t == Some(
                JsonView::Text("credits"@),
            )
            &&& mode == Ok::<PayMode, Seq<char>>(PayMode::X402) <==> t == Some(
                JsonView::Text("x402"@),
            ) && x402_enabled
            &&& mode == Ok::<PayMode, Seq<char>>(PayMode::Auto) <==> t == Some(
                JsonView::Text("auto"@),
            ) || !names_one
            &&& mode is Err <==> names_one && t != Some(JsonView::Text("auto"@)) && t != Some(
                JsonView::Text("credits"@),
            ) && (t != Some(JsonView::Text("x402"@)) || !x402_enabled)
        }),
{
    lemma_dispatch_names();
    if body_text(body, "payment_type"@) is Some {
        let t = body_text(body, "payment_type"@)->0;
        if t.len() == 0 {
            assert(t =~= ""@);
        }
    }
}

/// A body that asks for `auto` is dispatched as the same body that asks for
/// nothing, and so is one whose way of payment is empty or no text; the model
/// `auto` is the default model in the same way.
pub proof fn law_auto_is_the_default(
    u: UnifiedView,
    with: JsonView,
    without: JsonView,
    shown: Seq<char>,
)
    requires
        with.field("model"@) == without.field("model"@) || (with.field("model"@) == Some(
            JsonView::Text("auto"@),
        ) && without.field("model"@) is None),
        with.field("payment_type"@) == without.field("payment_type"@) || (with.field(
            "payment_type"@,
        ) == Some(JsonView::Text("auto"@)) && without.field("payment_type"@) is None),
    ensures
        selected(u, Some(with), shown) == selected(u, Some(without), shown),
{
    lemma_dispatch_names();
}

/// Only the model and the way of payment of a body decide how its request is
/// dispatched.
pub proof fn law_two_fields_decide(
    u: UnifiedView,
    a: Option<JsonView>,
    b: Option<JsonView>,
    shown: Seq<char>,
)
    requires
        field_of(a, "model"@) == field_of(b, "model"@),
        field_of(a, "payment_type"@) == field_of(b, "payment_type"@),
    ensures
        selected(u, a, shown) == selected(u, b, shown),
{
}

/// What is dispatched: the endpoint has the model's name in some case, the
/// exact one where there is one; the model is the one that the body names, or
/// the default one; the cost is the endpoint's, and credits are accepted where
/// it has one and they are switched on.
pub proof fn law_dispatched_as_asked(
    u: UnifiedView,
    body: Option<JsonView>,
    shown: Seq<char>,
)
    requires
        u.costs.len() == u.names.len(),
        selected(u, body, shown) is Ok,
    ensures
        ({
            let d = selected(u, body, shown)->Ok_0;
            let m = field_of(body, "model"@);
            let named = m is Some && m->0 is Text && m->0->Text_0.len() > 0 && m != Some(
                JsonView::Text("auto"@),
            );
            &&& named ==> d.model_key == m->0->Text_0
            &&& !named ==> d.model_key == u.default_model
            &&& 0 <= d.index < u.names.len()
            &&& lowercase(u.names[d.index]) == lowercase(d.model_key)
            &&& u.names.contains(d.model_key) ==> u.names[d.index] == d.model_key
            &&& d.credit_cost == u.costs[d.index]
            &&& d.credits_available <==> u.costs[d.index] > 0 && u.credits_enabled
            &&& d.mode == PayMode::Credits ==> d.credits_available
            &&& d.mode == PayMode::X402 ==> u.x402_enabled
            &&& asked_mode(body, u.x402_enabled) == Ok::<PayMode, Seq<char>>(d.mode)
        }),
{
    lemma_dispatch_names();
    let key = asked_model(body, u.default_model);
    law_lookup_ignores_case(u.names, key);
    if body_text(body, "model"@) is Some {
        let t = body_text(body, "model"@)->0;
        if t.len() == 0 {
            assert(t =~= ""@);
        }
    }
    if u.names.contains(key) {
        let k = choose|k: int| 0 <= k < u.names.len() && u.names[k] == key;
        law_model_is_found(u.names, k);
    }
}

/// A request is refused at once, with status 400, exactly where its model is
/// not there, its way of payment is not known or switched off, or it insists
/// on credits that the model does not take.
pub proof fn law_refused_at_once(u: UnifiedView, body: Option<JsonView>, shown: Seq<char>)
    ensures
        ({
            let key = asked_model(body, u.default_model);
            let there = exists|k: int|
                0 <= k < u.names.len() && lowercase(#[trigger] u.names[k]) == lowercase(key);
            let mode = asked_mode(body, u.x402_enabled);
            let s = selected(u, body, shown);
            let i = lookup_in(u.names, key);
            &&& s is Err ==> s->Err_0.status == 400 && s->Err_0.headers.len() == 0 && s->Err_0.body
                is Json && s->Err_0.body->Json_0.field("error"@) is Some
            &&& s is Err <==> !there || mode is Err || (mode->Ok_0 == PayMode::Credits && !(
            u.costs[i->0] > 0 && u.credits_enabled))
            &&& !there ==> {
                let body = s->Err_0.body->Json_0;
                &&& body.field("error"@) == Some(
                    JsonView::Text("Unknown model: '"@ + key + "'. Available models: "@ + shown),
                )
                &&& body.field("available_models"@) matches Some(JsonView::List(items))
                    && items.len() == u.names.len() + 1 && items.last() == JsonView::Text(
                    "auto"@,
                ) && forall|n: Seq<char>|
                    #[trigger] u.names.contains(n) ==> items.contains(JsonView::Text(n))
            }
        }),
{
    lemma_dispatch_names();
    let key = asked_model(body, u.default_model);
    law_lookup_ignores_case(u.names, key);
    if lookup_in(u.names, key) is None {
        lemma_available(u.names);
        let items = available(u.names).map_values(|n: Seq<char>| JsonView::Text(n));
        assert forall|n: Seq<char>| #[trigger] u.names.contains(n) implies items.contains(
            JsonView::Text(n),
        ) by {
            assert(available(u.names).contains(n));
            let k = choose|k: int| 0 <= k < available(u.names).len() && available(u.names)[k] == n;
            assert(items[k] == JsonView::Text(n));
        }
    }
}

/// All names are among those that a request may ask for, and `auto` comes
/// last.
proof fn lemma_available(names: Seq<Seq<char>>)
    ensures
        available(names).len() == names.len() + 1,
        available(names).last() == "auto"@,
        forall|n: Seq<char>| #[trigger] names.contains(n) ==> available(names).contains(n),
{
    law_sorted(names, names.len());
    let order = sorted_positions(names, names.len());
    lemma_sorted_len(names, names.len());
    assert forall|n: Seq<char>| #[trigger] names.contains(n) implies available(names).contains(
        n,
    ) by {
        let i = choose|i: int| 0 <= i < names.len() && names[i] == n;
        assert(order.contains(i)) by {
            broadcast use vstd::seq_lib::group_to_multiset_ensures;

            let all = Seq::new(names.len(), |i: int| i);
            assert(all[i] == i);
            assert(all.contains(i));
            assert(all.to_multiset().count(i) > 0);
        }
        let k = choose|k: int| 0 <= k < order.len() && order[k] == i;
        assert(available(names)[k] == n);
    }
}

/// Whether a step is a refusal with a status and an error.
pub open spec fn refuses_with(step: DispatchStepView, status: u16, error: Seq<char>) -> bool {
    &&& step matches DispatchStepView::Refuse(reply)
    &&& reply.status == status
    &&& reply.body is Json
    &&& reply.body->Json_0.field("error"@) == Some(JsonView::Text(error))
}

/// What is done with a request first. Credits are tried where they are
/// accepted and the client insists on them, or leaves the choice and brings a
/// token or a signature; the token counts before the signature. Where they are
/// not tried, the request is paid by x402.
pub proof fn law_first_step(
    d: DispatchView,
    x402_enabled: bool,
    r: SignedRequestView,
    now: int,
    session: Option<Seq<char>>,
)
    ensures
        ({
            let step = first_step(d, x402_enabled, r, now, session);
            let token = bearer_token(r.headers);
            let signed = header_present(r.headers, "signature-input"@) && header_present(
                r.headers,
                "signature"@,
            );
            let tried = d.credits_available && (d.mode == PayMode::Credits || (d.mode
                == PayMode::Auto && (token is Some || signed)));
            let insists = d.mode == PayMode::Credits;
            let by_x402 = if x402_enabled {
                step == (DispatchStepView::PayX402 { advertise_credits: d.credits_available })
            } else {
                refuses_with(
                    step,
                    402,
                    "x402 on-chain payment is currently disabled. Please use credits."@,
                )
            };
            &&& !tried ==> by_x402
            &&& tried && token is Some && session is Some ==> step == DispatchStepView::AskBalance(
                session->0,
            )
            &&& tried && token is Some && session is None && insists ==> refuses_with(
                step,
                401,
                "Invalid or expired session token"@,
            )
            &&& tried && token is Some && session is None && !insists ==> by_x402
            &&& tried && token is None && signed ==> match verified(r, now) {
                Ok(id) => step == DispatchStepView::AskBalance(lowercase(id.wallet_address)),
                Err(e) => if insists {
                    refuses_with(
                        step,
                        401,
                        "ERC-8128 signature verification failed: "@ + error_message(e),
                    )
                } else {
                    by_x402
                },
            }
            &&& tried && token is None && !signed ==> refuses_with(
                step,
                400,
                "payment_type \"credits\" requires a Bearer session token or ERC-8128 signed headers."@,
            )
        }),
{
    lemma_dispatch_names();
}

/// What a balance leads to. A wallet with enough credits has the cost deducted.
/// A client who insists on credits is told what is wrong; any other one pays by
/// x402.
pub proof fn law_balance_decides(
    d: DispatchView,
    x402_enabled: bool,
    wallet: Seq<char>,
    balance: Result<i64, Seq<char>>,
)
    requires
        d.credit_cost > i64::MIN,
    ensures
        ({
            let step = balance_step(d, x402_enabled, wallet, balance);
            let insists = d.mode == PayMode::Credits;
            let by_x402 = if x402_enabled {
                step == (DispatchStepView::PayX402 { advertise_credits: d.credits_available })
            } else {
                refuses_with(
                    step,
                    402,
                    "x402 on-chain payment is currently disabled. Please use credits."@,
                )
            };
            match balance {
                Ok(n) => {
                    &&& n >= d.credit_cost ==> step is Deduct && step->wallet == wallet && step->delta
                        + d.credit_cost == 0
                    &&& n < d.credit_cost && insists ==> refuses_with(
                        step,
                        402,
                        "Insufficient credits: have "@ + signed_decimal(n as int) + ", need "@
                            + signed_decimal(d.credit_cost as int) + " for model '"@ + d.model_key
                            + "'"@,
                    )
                    &&& n < d.credit_cost && !insists ==> by_x402
                },
                Err(e) => if insists {
                    refuses_with(step, 500, "Credits check failed: "@ + e)
                } else {
                    by_x402
                },
            }
        }),
{
    lemma_dispatch_names();
}

/// A request is served once its credits were deducted. Where they could not
/// be, a client who insists on credits is told so, and any other one pays by
/// x402.
pub proof fn law_deduction_decides(
    d: DispatchView,
    x402_enabled: bool,
    result: Result<i64, Seq<char>>,
)
    ensures
        ({
            let step = deduction_step(d, x402_enabled, result);
            match result {
                Ok(_) => step is Serve,
                Err(e) => if d.mode == PayMode::Credits {
                    refuses_with(step, 500, "Credits deduction failed: "@ + e)
                } else if x402_enabled {
                    step == (DispatchStepView::PayX402 { advertise_credits: d.credits_available })
                } else {
                    refuses_with(
                        step,
                        402,
                        "x402 on-chain payment is currently disabled. Please use credits."@,
                    )
                },
            }
        }),
{
    lemma_dispatch_names();
}

/// A signature is verified where credits can be taken and are not switched off
/// by the payment type, the request carries both headers of a signature, and it
/// carries no session token.
pub proof fn law_signature_is_asked_for(
    d: DispatchView,
    headers: Seq<(Seq<char>, Option<Seq<char>>)>,
)
    ensures
        asks_signature(d, headers) <==> {
            &&& d.credits_available
            &&& d.mode != PayMode::X402
            &&& header_present(headers, "signature-input"@)
            &&& header_present(headers, "signature"@)
            &&& bearer_token(headers) is None
        },
{
}

} // verus!
