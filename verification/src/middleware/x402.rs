//! The x402 payment flow.
//!
//! A request without a payment is told what to pay. A payment is read, held
//! against the limits and the nonces that were used, and then verified by the
//! facilitator: before the request is served, alongside, or not at all for a
//! payer who was verified a short while ago. What was paid is queued for
//! settlement.

use vstd::prelude::*;
use vstd::string::*;
use vstd::utf8::*;

use crate::clock::{counts, now_nanos, unix_nanos};
use crate::config::GlobalConfig;
use crate::encoding::{base64_bytes, base64_decode, base64_encode, base64_text, hex_text};
use crate::http::{json_reply, str_view, text_reply, text_view, BodyView, Reply, ReplyView};
use crate::json::{json_parsed, json_text, number, Json, JsonObject, JsonView};
use crate::payment::{
    facilitator_request, law_facilitator_is_given, payload_nonce, payload_payer, payment_body,
    payment_offer, requires_starkbot, EndpointPaymentConfig, PaymentView,
};
use crate::services::facilitator::{VerifyResult, VerifyView};
use crate::services::nonce_tracker::{NonceTracker, NonceView};
use crate::services::rate_limiter::{LimiterView, RateLimiter};
use crate::services::settlement_queue::{active, PendingSettlement, QueueView, SettlementQueue};
use crate::services::settlement_store::{SettlementStatus, StoreView};
use crate::services::verification_cache::{counted, CacheView, VerificationCache};
use crate::text::{signed_decimal, signed_decimal_text};

verus! {

/// The services that a payment goes through.
pub struct PaymentServices {
    pub rate_limiter: RateLimiter,
    pub nonce_tracker: NonceTracker,
    pub settlement_queue: SettlementQueue,
    pub verification_cache: VerificationCache,
}

/// The services that a payment goes through.
pub struct ServicesView {
    pub limiter: LimiterView,
    pub nonces: NonceView,
    pub queue: QueueView,
    pub cache: CacheView,
}

impl View for PaymentServices {
    type V = ServicesView;

    open spec fn view(&self) -> ServicesView {
        ServicesView {
            limiter: self.rate_limiter@,
            nonces: self.nonce_tracker@,
            queue: self.settlement_queue@,
            cache: self.verification_cache@,
        }
    }
}

impl PaymentServices {
    /// Whether the services hold what they promise.
    pub open spec fn valid(&self) -> bool {
        self.rate_limiter.valid() && self.nonce_tracker.valid()
            && self.settlement_queue@.store.valid()
    }

    /// This moment, on the clocks of the services.
    pub fn now(&self) -> (r: Moment)
        ensures
            0 <= r.now,
            0 <= r.stamp,
    {
        Moment {
            limiter: self.rate_limiter.now(),
            nonces: self.nonce_tracker.now(),
            payers: self.verification_cache.now(),
            now: now_nanos(),
            stamp: match unix_nanos() {
                Some(n) => n,
                None => 0,
            },
        }
    }
}

/// Whether two states of the services keep payers equally long and equally
/// many of them.
pub open spec fn same_limits(a: PaymentServices, b: PaymentServices) -> bool {
    a.verification_cache.limits() == b.verification_cache.limits()
}

/// A moment, on the clocks that a payment is held against: those of the
/// limiter, of the nonces and of the payers, the time since 1970 in
/// nanoseconds, and the same as far as 64 bits hold it.
#[derive(Clone, Copy)]
pub struct Moment {
    pub limiter: u128,
    pub nonces: u128,
    pub payers: u128,
    pub now: i128,
    pub stamp: i64,
}

/// How payments of one endpoint are taken.
pub struct X402Middleware {
    pub test_mode: bool,
    pub payment_config: EndpointPaymentConfig,
    /// Whether replies that ask for payment tell that credits are taken too.
    pub advertise_credits: bool,
}

/// How payments of one endpoint are taken.
pub struct X402View {
    pub test_mode: bool,
    pub payment: PaymentView,
    pub advertise_credits: bool,
}

impl View for X402Middleware {
    type V = X402View;

    open spec fn view(&self) -> X402View {
        X402View {
            test_mode: self.test_mode,
            payment: self.payment_config@,
            advertise_credits: self.advertise_credits,
        }
    }
}

/// A payment that the facilitator is asked about: who pays, the request that
/// verifies it, the one that settles it, and the nonce by which it is queued.
pub struct VerifyTask {
    pub payer: Option<String>,
    pub verify_request: Json,
    pub settle_request: Json,
    pub nonce: String,
}

/// A payment that the facilitator is asked about.
pub struct TaskView {
    pub payer: Option<Seq<char>>,
    pub verify_request: JsonView,
    pub settle_request: JsonView,
    pub nonce: Seq<char>,
}

impl View for VerifyTask {
    type V = TaskView;

    open spec fn view(&self) -> TaskView {
        TaskView {
            payer: text_view(self.payer),
            verify_request: self.verify_request@,
            settle_request: self.settle_request@,
            nonce: self.nonce@,
        }
    }
}

/// What is to be done with a request.
pub enum X402Step {
    /// Serve it.
    Serve,
    /// Serve it, and add this `payment-response` header.
    ServePaid(String),
    /// Do not serve it, and reply this.
    Refuse(Reply),
    /// Have the payment verified; what came of it decides.
    VerifyFirst(VerifyTask),
    /// Serve it and have the payment verified meanwhile; what came of both
    /// decides what is replied.
    VerifyAlongside(VerifyTask),
}

/// What is to be done with a request.
pub enum StepView {
    Serve,
    ServePaid(Seq<char>),
    Refuse(ReplyView),
    VerifyFirst(TaskView),
    VerifyAlongside(TaskView),
}

impl View for X402Step {
    type V = StepView;

    open spec fn view(&self) -> StepView {
        match self {
            X402Step::Serve => StepView::Serve,
            X402Step::ServePaid(h) => StepView::ServePaid(h@),
            X402Step::Refuse(r) => StepView::Refuse(r@),
            X402Step::VerifyFirst(t) => StepView::VerifyFirst(t@),
            X402Step::VerifyAlongside(t) => StepView::VerifyAlongside(t@),
        }
    }
}

// ---------------------------------------------------------------------------
// Replies
// ---------------------------------------------------------------------------

/// A reply with one header field more.
pub open spec fn with_header(r: ReplyView, name: Seq<char>, value: Seq<char>) -> ReplyView {
    ReplyView { headers: r.headers.push((name, value)), ..r }
}

/// What the `payment-response` header says: whether the payment was taken, and
/// what was wrong with it.
pub open spec fn payment_response(success: bool, error: Option<Seq<char>>) -> JsonView {
    JsonView::Object(
        map![
            "x402Version"@ => number(2),
            "success"@ => JsonView::Bool(success),
            "error"@ => match error {
                Some(e) => JsonView::Text(e),
                None => JsonView::Null,
            },
        ],
    )
}

/// The `payment-response` header, in base64.
pub open spec fn payment_response_header(success: bool, error: Option<Seq<char>>) -> Seq<char> {
    base64_text(encode_utf8(json_text(payment_response(success, error))))
}

/// What the `payment-response` header says.
pub fn payment_response_json(success: bool, error: Option<&str>) -> (r: Json)
    ensures
        r@ == payment_response(success, str_view(error)),
{
    let mut o = JsonObject::new();
    o.put("x402Version", Json::unsigned(2));
    o.put("success", Json::Bool(success));
    match error {
        Some(e) => o.put("error", Json::str(e)),
        None => o.put("error", Json::Null),
    }
    Json::Object(o)
}

/// The `payment-response` header, in base64.
pub fn make_payment_response_header(success: bool, error: Option<&str>) -> (r: String)
    ensures
        r@ == payment_response_header(success, str_view(error)),
{
    let json = payment_response_json(success, error).to_text();
    base64_encode(json.as_str().as_bytes())
}

impl X402View {
    /// A reply as it is sent: one that asks for payment tells of credits,
    /// where they are taken.
    pub open spec fn advertised(self, r: ReplyView) -> ReplyView {
        if self.advertise_credits && r.status == 402 {
            with_header(r, "x-erc8128-credits"@, "true"@)
        } else {
            r
        }
    }

    /// The reply to a request without a payment.
    pub open spec fn payment_required(self, resource: Seq<char>) -> ReplyView {
        if self.payment.currency is Usdc {
            with_header(
                text_reply(402, "Payment required. See payment-required header for details."@),
                "payment-required"@,
                base64_text(encode_utf8(json_text(payment_offer(self.payment, resource)))),
            )
        } else {
            json_reply(402, payment_body(self.payment, resource))
        }
    }
}

/// The reply to a payer over the limit.
pub open spec fn too_many_requests() -> ReplyView {
    with_header(
        text_reply(429, "Rate limit exceeded: maximum 5 requests per second per address"@),
        "Retry-After"@,
        "1"@,
    )
}

/// The reply to a payment whose nonce was used.
pub open spec fn nonce_used() -> ReplyView {
    text_reply(402, "Payment rejected: nonce already used"@)
}

/// The reply where no more settlements are taken.
pub open spec fn queue_full() -> ReplyView {
    text_reply(503, "Service temporarily unavailable: settlement queue full"@)
}

// ---------------------------------------------------------------------------
// The flow
// ---------------------------------------------------------------------------

/// What a payment header holds.
pub enum PaymentRead {
    /// The payload of the payment.
    Payload(JsonView),
    /// It cannot be read; this is replied.
    Unreadable(ReplyView),
}

/// What a payment header holds, given what its base64 decodes to and what the
/// bytes read as.
pub open spec fn payment_read(
    decoded: Result<Seq<u8>, Seq<char>>,
    parsed: Result<JsonView, Seq<char>>,
) -> PaymentRead {
    match decoded {
        Err(e) => PaymentRead::Unreadable(text_reply(402, "Invalid payment encoding: "@ + e)),
        Ok(_) => match parsed {
            Err(e) => PaymentRead::Unreadable(text_reply(402, "Invalid payment JSON: "@ + e)),
            Ok(j) => PaymentRead::Payload(j),
        },
    }
}

/// What a payment header holds.
pub open spec fn read_header(header: Seq<char>) -> PaymentRead {
    payment_read(base64_bytes(header), json_parsed(base64_bytes(header)->Ok_0))
}

/// The refusal of a payment that is over the limit or replayed, if it is, and
/// the services afterwards. Only payments in USDC are held against these.
pub open spec fn admission(
    p: PaymentView,
    payload: JsonView,
    s: ServicesView,
    t: Moment,
) -> (Option<ReplyView>, ServicesView) {
    let payer = payload_payer(payload);
    let nonce = payload_nonce(payload);
    if p.currency is Usdc {
        let limited = payer is Some && !s.limiter.lets_through(payer->0, t.limiter as nat);
        let s1 = if payer is Some {
            ServicesView { limiter: s.limiter.after(payer->0, t.limiter as nat), ..s }
        } else {
            s
        };
        if limited {
            (Some(too_many_requests()), s1)
        } else if nonce is Some {
            let s2 = ServicesView { nonces: s1.nonces.after(nonce->0, t.nonces), ..s1 };
            if s1.nonces.remembers(nonce->0, t.nonces) {
                (Some(nonce_used()), s2)
            } else {
                (None, s2)
            }
        } else {
            (None, s1)
        }
    } else {
        (None, s)
    }
}

/// The payment that the facilitator is asked about.
pub open spec fn payment_task(
    p: PaymentView,
    payload: JsonView,
    resource: Seq<char>,
    t: Moment,
) -> TaskView {
    TaskView {
        payer: payload_payer(payload),
        verify_request: facilitator_request(p, payload, resource),
        settle_request: facilitator_request(p, payload, resource),
        nonce: match payload_nonce(payload) {
            Some(n) => n,
            None => "gen-"@ + signed_decimal(t.stamp as int),
        },
    }
}

/// The services after a payment was queued for settlement, or refused.
pub open spec fn queued(s: ServicesView, task: TaskView, now: int) -> ServicesView {
    ServicesView { queue: s.queue.pushed(task.nonce, task.settle_request, now), ..s }
}

/// How a payment that was admitted is taken, and the services afterwards.
/// `cached` and `failing` are what the cache says of the payer: whether they
/// were verified, or refused, a short while ago.
pub open spec fn routing(
    p: PaymentView,
    task: TaskView,
    s: ServicesView,
    t: Moment,
    cached: bool,
    failing: bool,
) -> (StepView, ServicesView) {
    if p.currency is Usdc && task.payer is Some {
        if cached {
            let s1 = ServicesView { cache: s.cache.looked_up(true), ..s };
            if s.queue.refuses() {
                (StepView::Refuse(queue_full()), s1)
            } else {
                (
                    StepView::ServePaid(payment_response_header(true, None)),
                    queued(s1, task, t.now as int),
                )
            }
        } else {
            let s1 = ServicesView { cache: s.cache.looked_up(false), ..s };
            if s.queue.full() {
                (StepView::Refuse(queue_full()), s1)
            } else if failing {
                let s2 = ServicesView { cache: s1.cache.failure_looked_up(true), ..s1 };
                (StepView::VerifyFirst(task), s2)
            } else {
                (StepView::VerifyAlongside(task), s1)
            }
        }
    } else {
        (StepView::VerifyAlongside(task), s)
    }
}

/// What is done with a payment, and the services afterwards.
pub open spec fn payment_outcome(
    m: X402View,
    resource: Seq<char>,
    payload: JsonView,
    s: ServicesView,
    t: Moment,
    cached: bool,
    failing: bool,
) -> (StepView, ServicesView) {
    match admission(m.payment, payload, s, t) {
        (Some(reply), s1) => (StepView::Refuse(m.advertised(reply)), s1),
        (None, s1) => match routing(
            m.payment,
            payment_task(m.payment, payload, resource, t),
            s1,
            t,
            cached,
            failing,
        ) {
            (StepView::Refuse(reply), s2) => (StepView::Refuse(m.advertised(reply)), s2),
            other => other,
        },
    }
}

/// Whether what the cache says of a payer at a moment can be so: it names no
/// payer as verified whose verification does not count, nor one as refused
/// whose refusal does not.
pub open spec fn cache_may_say(
    c: CacheView,
    payer: Option<Seq<char>>,
    t: Moment,
    cached: bool,
    failing: bool,
) -> bool {
    &&& cached ==> payer is Some && c.recently_verified(payer->0, t.payers)
    &&& failing ==> payer is Some && c.recently_failed(payer->0, t.payers)
}

/// Whether a step and the services afterwards are what taking a payment gives,
/// for something that the cache can say of the payer.
pub open spec fn takes_payment(
    m: X402View,
    resource: Seq<char>,
    payload: JsonView,
    s: ServicesView,
    t: Moment,
    r: StepView,
    after: ServicesView,
) -> bool {
    exists|cached: bool, failing: bool|
        cache_may_say(s.cache, payload_payer(payload), t, cached, failing) && (r, after)
            == #[trigger] payment_outcome(m, resource, payload, s, t, cached, failing)
}

/// What came of verifying a payment: the facilitator's answer, or the error of
/// the call.
pub open spec fn answer_view(r: Result<VerifyResult, String>) -> Result<VerifyView, Seq<char>> {
    match r {
        Ok(v) => Ok(v@),
        Err(e) => Err(e@),
    }
}

/// What is wrong with a payment that the facilitator refused.
pub open spec fn refusal_reason(v: VerifyView) -> Seq<char> {
    match v.invalid_reason {
        Some(e) => e,
        None => "Payment verification failed"@,
    }
}

/// What is done with a request once its payment was verified or refused, and
/// the services afterwards. `served` says, for a request that was served
/// meanwhile, whether that went well.
pub open spec fn conclusion(
    m: X402View,
    task: TaskView,
    answer: Result<VerifyView, Seq<char>>,
    served: Option<bool>,
    s: ServicesView,
    t: Moment,
) -> (StepView, ServicesView) {
    match answer {
        Ok(v) => if v.is_valid {
            let s1 = match task.payer {
                Some(p) => ServicesView { cache: s.cache.with_verified(p, t.payers), ..s },
                None => s,
            };
            (
                StepView::ServePaid(payment_response_header(true, None)),
                queued(s1, task, t.now as int),
            )
        } else {
            let s1 = match task.payer {
                Some(p) => ServicesView { cache: s.cache.with_failed(p, t.payers), ..s },
                None => s,
            };
            let e = refusal_reason(v);
            let reply = if served == Some(false) {
                text_reply(402, e)
            } else {
                with_header(
                    text_reply(402, "Payment verification failed: "@ + e),
                    "payment-response"@,
                    payment_response_header(false, Some(e)),
                )
            };
            (StepView::Refuse(m.advertised(reply)), s1)
        },
        Err(e) => (StepView::Refuse(m.advertised(text_reply(502, "Facilitator error: "@ + e))), s),
    }
}

/// A message made of two parts.
fn message(front: &str, e: &str) -> (r: String)
    ensures
        r@ == front@ + e@,
{
    let mut m = front.to_owned();
    m.append(e);
    m
}

impl X402Middleware {
    /// How payments of an endpoint are taken.
    pub fn new(
        global_config: &GlobalConfig,
        payment_config: EndpointPaymentConfig,
        advertise_credits: bool,
    ) -> (r: Self)
        ensures
            r@ == (X402View {
                test_mode: global_config@.test_mode,
                payment: payment_config@,
                advertise_credits,
            }),
    {
        X402Middleware { test_mode: global_config.test_mode, payment_config, advertise_credits }
    }

    /// A reply as it is sent.
    fn advertise(&self, reply: Reply) -> (r: Reply)
        ensures
            r@ == self@.advertised(reply@),
    {
        let mut out = reply;
        if self.advertise_credits && out.status == 402 {
            out.add_header("x-erc8128-credits", "true");
        }
        out
    }

    /// The reply to a request without a payment.
    fn ask_for_payment(&self, resource: &str) -> (r: Reply)
        ensures
            r@ == self@.payment_required(resource@),
    {
        match self.payment_config.build_402_header(resource) {
            Some(h) => {
                let mut reply = Reply::text(
                    402,
                    "Payment required. See payment-required header for details.",
                );
                reply.add_header("payment-required", h.as_str());
                reply
            },
            None => Reply::json(402, self.payment_config.build_402_body(resource)),
        }
    }

    /// Holds a payment against the limits and the nonces that were used.
    fn screen(
        &self,
        services: &mut PaymentServices,
        payload: &Json,
        payer: &Option<String>,
        nonce: &Option<String>,
        t: Moment,
    ) -> (r: Option<Reply>)
        requires
            old(services).valid(),
            text_view(*payer) == payload_payer(payload@),
            text_view(*nonce) == payload_nonce(payload@),
        ensures
            final(services).valid(),
            ({
                let (reply, after) = admission(self@.payment, payload@, old(services)@, t);
                &&& final(services)@ == after
                &&& match r {
                    Some(x) => reply == Some(x@),
                    None => reply is None,
                }
            }),
            same_limits(*old(services), *final(services)),
    {
        if !self.payment_config.is_v2() {
            return None;
        }
        if let Some(p) = payer {
            if !services.rate_limiter.check_rate_limit_at(p.as_str(), t.limiter) {
                let mut reply = Reply::text(
                    429,
                    "Rate limit exceeded: maximum 5 requests per second per address",
                );
                reply.add_header("Retry-After", "1");
                return Some(reply);
            }
        }
        if let Some(n) = nonce {
            if !services.nonce_tracker.try_use_nonce_at(n.as_str(), t.nonces) {
                return Some(Reply::text(402, "Payment rejected: nonce already used"));
            }
        }
        None
    }

    /// Takes a payment that was admitted, given what the cache says of its
    /// payer: a payer in USDC who was verified a short while ago is served at
    /// once, one who was refused is verified first, and any other payment is
    /// verified alongside.
    pub fn route_known(
        &self,
        services: &mut PaymentServices,
        task: VerifyTask,
        t: Moment,
        cached: bool,
        failing: bool,
    ) -> (r: X402Step)
        requires
            old(services).valid(),
        ensures
            final(services).valid(),
            (r@, final(services)@) == routing(
                self@.payment,
                task@,
                old(services)@,
                t,
                cached,
                failing,
            ),
            same_limits(*old(services), *final(services)),
    {
        if !self.payment_config.is_v2() || task.payer.is_none() {
            return X402Step::VerifyAlongside(task);
        }
        if services.verification_cache.lookup_found(cached) {
            let pending = PendingSettlement::new(task.settle_request, task.nonce);
            return match services.settlement_queue.push_at(pending, t.now) {
                Ok(_) => X402Step::ServePaid(make_payment_response_header(true, None)),
                Err(_) => X402Step::Refuse(
                    Reply::text(503, "Service temporarily unavailable: settlement queue full"),
                ),
            };
        }
        if services.settlement_queue.is_full() {
            return X402Step::Refuse(
                Reply::text(503, "Service temporarily unavailable: settlement queue full"),
            );
        }
        if services.verification_cache.failure_found(failing) {
            return X402Step::VerifyFirst(task);
        }
        X402Step::VerifyAlongside(task)
    }

    /// Takes a payment that was admitted: looks its payer up in the cache, and
    /// goes by what is found. Refusals are looked up only where that decides.
    fn route(&self, services: &mut PaymentServices, task: VerifyTask, t: Moment) -> (r: X402Step)
        requires
            old(services).valid(),
        ensures
            final(services).valid(),
            exists|cached: bool, failing: bool|
                cache_may_say(old(services)@.cache, task@.payer, t, cached, failing) && (
                r@,
                final(services)@,
                ) == #[trigger] routing(
                    self@.payment,
                    task@,
                    old(services)@,
                    t,
                    cached,
                    failing,
                ),
            same_limits(*old(services), *final(services)),
    {
        let mut cached = false;
        let mut failing = false;
        if self.payment_config.is_v2() {
            if let Some(payer) = &task.payer {
                cached = services.verification_cache.holds_verified(payer.as_str(), t.payers);
                if !cached && !services.settlement_queue.is_full() {
                    failing = services.verification_cache.holds_failure(payer.as_str(), t.payers);
                }
            }
        }
        assert(cache_may_say(services@.cache, task@.payer, t, cached, failing));
        self.route_known(services, task, t, cached, failing)
    }

    /// Holds a payment against the limits and the nonces that were used. One
    /// that is let through becomes the payment that the facilitator is asked
    /// about; any other is refused.
    pub fn screen_payment(
        &self,
        services: &mut PaymentServices,
        resource: &str,
        payload: &Json,
        t: Moment,
    ) -> (r: Result<VerifyTask, Reply>)
        requires
            old(services).valid(),
        ensures
            final(services).valid(),
            ({
                let (reply, after) = admission(self@.payment, payload@, old(services)@, t);
                &&& final(services)@ == after
                &&& match r {
                    Ok(task) => reply is None && task@ == payment_task(
                        self@.payment,
                        payload@,
                        resource@,
                        t,
                    ),
                    Err(shown) => reply is Some && shown@ == self@.advertised(reply->0),
                }
            }),
            same_limits(*old(services), *final(services)),
    {
        let payer = self.payment_config.extract_payer(payload);
        let nonce = self.payment_config.extract_nonce(payload);
        if let Some(reply) = self.screen(services, payload, &payer, &nonce, t) {
            return Err(self.advertise(reply));
        }
        let shown_nonce = match nonce {
            Some(n) => n,
            None => message("gen-", signed_decimal_text(t.stamp).as_str()),
        };
        Ok(
            VerifyTask {
                payer,
                verify_request: self.payment_config.build_verify_request(payload, resource),
                settle_request: self.payment_config.build_settle_request(payload, resource),
                nonce: shown_nonce,
            },
        )
    }

    /// Takes a payment, given its payload.
    pub fn take_payment(
        &self,
        services: &mut PaymentServices,
        resource: &str,
        payload: &Json,
        t: Moment,
    ) -> (r: X402Step)
        requires
            old(services).valid(),
        ensures
            final(services).valid(),
            takes_payment(
                self@,
                resource@,
                payload@,
                old(services)@,
                t,
                r@,
                final(services)@,
            ),
            same_limits(*old(services), *final(services)),
    {
        let ghost s = services@;
        let task = match self.screen_payment(services, resource, payload, t) {
            Ok(task) => task,
            Err(reply) => {
                proof {
                    let out = payment_outcome(self@, resource@, payload@, s, t, false, false);
                    assert((StepView::Refuse(reply@), services@) == out);
                }
                return X402Step::Refuse(reply);
            },
        };
        let ghost mid = services@;
        let step = self.route(services, task, t);
        let ghost (cached, failing) = choose|cached: bool, failing: bool|
            cache_may_say(mid.cache, task@.payer, t, cached, failing) && (step@, services@)
                == #[trigger] routing(self@.payment, task@, mid, t, cached, failing);
        assert(mid.cache == s.cache);
        match step {
            X402Step::Refuse(reply) => {
                let shown = self.advertise(reply);
                assert((StepView::Refuse(shown@), services@) == payment_outcome(
                    self@,
                    resource@,
                    payload@,
                    s,
                    t,
                    cached,
                    failing,
                ));
                X402Step::Refuse(shown)
            },
            other => {
                assert((other@, services@) == payment_outcome(
                    self@,
                    resource@,
                    payload@,
                    s,
                    t,
                    cached,
                    failing,
                ));
                other
            },
        }
    }

    /// Decides what is done with a request at a moment.
    pub fn handle_at(
        &self,
        services: &mut PaymentServices,
        resource: &str,
        payment_header: &Option<String>,
        t: Moment,
    ) -> (r: X402Step)
        requires
            old(services).valid(),
        ensures
            final(services).valid(),
            handles(
                self@,
                resource@,
                text_view(*payment_header),
                old(services)@,
                t,
                r@,
                final(services)@,
            ),
            same_limits(*old(services), *final(services)),
    {
        if self.test_mode {
            return X402Step::Serve;
        }
        let header = match payment_header {
            None => return X402Step::Refuse(self.advertise(self.ask_for_payment(resource))),
            Some(h) => h,
        };
        let bytes = match base64_decode(header.as_str()) {
            Ok(b) => b,
            Err(e) => return X402Step::Refuse(
                self.advertise(
                    Reply::text(402, message("Invalid payment encoding: ", e.as_str()).as_str()),
                ),
            ),
        };
        let payload = match Json::parse(bytes.as_slice()) {
            Ok(j) => j,
            Err(e) => return X402Step::Refuse(
                self.advertise(
                    Reply::text(402, message("Invalid payment JSON: ", e.as_str()).as_str()),
                ),
            ),
        };
        self.take_payment(services, resource, &payload, t)
    }

    /// Decides what is done with a request now.
    pub fn handle_x402_payment(
        &self,
        services: &mut PaymentServices,
        resource: &str,
        payment_header: &Option<String>,
    ) -> (r: X402Step)
        requires
            old(services).valid(),
        ensures
            final(services).valid(),
            exists|t: Moment|
                0 <= t.now && 0 <= t.stamp && #[trigger] handles(
                    self@,
                    resource@,
                    text_view(*payment_header),
                    old(services)@,
                    t,
                    r@,
                    final(services)@,
                ),
            same_limits(*old(services), *final(services)),
    {
        let t = services.now();
        self.handle_at(services, resource, payment_header, t)
    }

    /// Decides what is done with a request once its payment was verified or
    /// refused. `served` says, for a request that was served meanwhile,
    /// whether that went well.
    pub fn conclude(
        &self,
        services: &mut PaymentServices,
        task: &VerifyTask,
        answer: Result<VerifyResult, String>,
        served: Option<bool>,
        t: Moment,
    ) -> (r: X402Step)
        requires
            old(services).valid(),
        ensures
            final(services).valid(),
            (r@, final(services)@) == conclusion(
                self@,
                task@,
                answer_view(answer),
                served,
                old(services)@,
                t,
            ),
            same_limits(*old(services), *final(services)),
    {
        match answer {
            Ok(v) => {
                if v.is_valid {
                    if let Some(p) = &task.payer {
                        services.verification_cache.mark_verified_at(p.as_str(), t.payers);
                    }
                    let pending = PendingSettlement::new(
                        task.settle_request.copy(),
                        task.nonce.clone(),
                    );
                    let _ = services.settlement_queue.push_at(pending, t.now);
                    X402Step::ServePaid(make_payment_response_header(true, None))
                } else {
                    let e = match v.invalid_reason {
                        Some(e) => e,
                        None => "Payment verification failed".to_owned(),
                    };
                    if let Some(p) = &task.payer {
                        services.verification_cache.record_failure_at(p.as_str(), t.payers);
                    }
                    let served_badly = match served {
                        Some(ok) => !ok,
                        None => false,
                    };
                    if served_badly {
                        X402Step::Refuse(self.advertise(Reply::text(402, e.as_str())))
                    } else {
                        let mut reply = Reply::text(
                            402,
                            message("Payment verification failed: ", e.as_str()).as_str(),
                        );
                        reply.add_header(
                            "payment-response",
                            make_payment_response_header(false, Some(e.as_str())).as_str(),
                        );
                        X402Step::Refuse(self.advertise(reply))
                    }
                }
            },
            Err(e) => X402Step::Refuse(
                self.advertise(
                    Reply::text(502, message("Facilitator error: ", e.as_str()).as_str()),
                ),
            ),
        }
    }
}

/// Whether a step and the services afterwards are what handling a request
/// gives, for something that the cache can say of the payer.
pub open spec fn handles(
    m: X402View,
    resource: Seq<char>,
    header: Option<Seq<char>>,
    s: ServicesView,
    t: Moment,
    r: StepView,
    after: ServicesView,
) -> bool {
    if m.test_mode {
        r == StepView::Serve && after == s
    } else {
        match header {
            None => r == StepView::Refuse(m.advertised(m.payment_required(resource))) && after == s,
            Some(h) => match read_header(h) {
                PaymentRead::Unreadable(reply) => r == StepView::Refuse(m.advertised(reply))
                    && after == s,
                PaymentRead::Payload(j) => takes_payment(m, resource, j, s, t, r, after),
            },
        }
    }
}

// ---------------------------------------------------------------------------
// Laws
// ---------------------------------------------------------------------------

/// A request without a payment is told what to pay, and nothing else happens.
pub proof fn law_unpaid_is_asked_to_pay(
    m: X402View,
    resource: Seq<char>,
    s: ServicesView,
    t: Moment,
    r: StepView,
    after: ServicesView,
)
    requires
        !m.test_mode,
        handles(m, resource, None, s, t, r, after),
    ensures
        r is Refuse,
        r->Refuse_0.status == 402,
        after == s,
{
}

/// A request is served before its payment is verified only in test mode, or
/// for a payer in USDC who was verified before and whose verification still
/// counts; the payment is queued for settlement then.
pub proof fn law_served_at_once_only_when_known(
    m: X402View,
    resource: Seq<char>,
    header: Option<Seq<char>>,
    s: ServicesView,
    t: Moment,
    r: StepView,
    after: ServicesView,
)
    requires
        handles(m, resource, header, s, t, r, after),
    ensures
        r is Serve ==> m.test_mode,
        r is ServePaid ==> {
            &&& m.payment.currency is Usdc
            &&& header is Some
            &&& read_header(header->0) is Payload
            &&& ({
                let j = read_header(header->0)->Payload_0;
                let task = payment_task(m.payment, j, resource, t);
                &&& payload_payer(j) is Some
                &&& s.cache.recently_verified(payload_payer(j)->0, t.payers)
                &&& after.queue.store.has_nonce(task.nonce)
            })
        },
{
    if r is ServePaid {
        let j = read_header(header->0)->Payload_0;
        let task = payment_task(m.payment, j, resource, t);
        let (cached, failing) = choose|cached: bool, failing: bool|
            cache_may_say(s.cache, payload_payer(j), t, cached, failing) && (r, after)
                == #[trigger] payment_outcome(m, resource, j, s, t, cached, failing);
        let mid = admission(m.payment, j, s, t).1;
        law_queued_has_nonce(mid.queue, task, t.now as int);
    }
}

/// A payment that the queue does not refuse is in it once it was queued.
pub proof fn law_queued_has_nonce(q: QueueView, task: TaskView, now: int)
    requires
        !q.refuses(),
    ensures
        q.pushed(task.nonce, task.settle_request, now).store.has_nonce(task.nonce),
{
    if !q.store.has_nonce(task.nonce) {
        let t = q.pushed(task.nonce, task.settle_request, now).store;
        assert(t.rows[q.store.rows.len() as int].nonce == task.nonce);
    }
}

/// Once the facilitator was asked, a request is answered with the service's
/// response exactly where the facilitator says that the payment is valid; the
/// payment is queued for settlement then, unless the queue refuses it.
pub proof fn law_answer_decides(
    m: X402View,
    task: TaskView,
    answer: Result<VerifyView, Seq<char>>,
    served: Option<bool>,
    s: ServicesView,
    t: Moment,
)
    ensures
        ({
            let (step, after) = conclusion(m, task, answer, served, s, t);
            &&& step is ServePaid <==> answer is Ok && answer->Ok_0.is_valid
            &&& step is ServePaid || step is Refuse
            &&& step is ServePaid ==> after.queue.store.has_nonce(task.nonce) || s.queue.refuses()
            &&& answer is Ok && !answer->Ok_0.is_valid ==> step->Refuse_0.status == 402
            &&& answer is Err ==> step->Refuse_0.status == 502 && after == s
        }),
{
    if answer is Ok && answer->Ok_0.is_valid && !s.queue.refuses() {
        law_queued_has_nonce(s.queue, task, t.now as int);
    }
}

/// A payer who was verified counts as verified for as long as verifications
/// do, and no longer as refused; one who was refused counts as refused for a
/// minute.
pub proof fn law_answer_is_remembered(
    m: X402View,
    task: TaskView,
    answer: Result<VerifyView, Seq<char>>,
    served: Option<bool>,
    s: ServicesView,
    t: Moment,
    u: u128,
)
    requires
        task.payer is Some,
        answer is Ok,
        t.payers <= u,
    ensures
        ({
            let after = conclusion(m, task, answer, served, s, t).1;
            let payer = task.payer->0;
            if answer->Ok_0.is_valid {
                &&& after.cache.recently_verified(payer, u) == (u - t.payers < s.cache.ttl)
                &&& !after.cache.recently_failed(payer, u)
            } else {
                after.cache.recently_failed(payer, u) == (u - t.payers < 60_000_000_000)
            }
        }),
{
}

/// A payment in USDC is taken once: where a payment with a nonce was held
/// against the nonces that were used, any payment with that nonce is refused
/// for as long as the nonce counts as used, for whatever resource and at
/// whatever endpoint that takes USDC. For a nonce that did not count as used,
/// that is from the first payment on.
pub proof fn law_replay_is_refused(
    m: X402View,
    resource: Seq<char>,
    payload: JsonView,
    s: ServicesView,
    t: Moment,
    r: StepView,
    after: ServicesView,
    m2: X402View,
    resource2: Seq<char>,
    again: JsonView,
    t2: Moment,
    r2: StepView,
    after2: ServicesView,
)
    requires
        m.payment.currency is Usdc,
        m2.payment.currency is Usdc,
        payload_nonce(payload) is Some,
        payload_nonce(again) == payload_nonce(payload),
        payload_payer(payload) is Some ==> s.limiter.lets_through(
            payload_payer(payload)->0,
            t.limiter as nat,
        ),
        takes_payment(m, resource, payload, s, t, r, after),
        takes_payment(m2, resource2, again, after, t2, r2, after2),
        counts(
            Some(after.nonces.used[payload_nonce(payload)->0]),
            t2.nonces,
            s.nonces.ttl,
        ),
    ensures
        r2 is Refuse,
        !s.nonces.remembers(payload_nonce(payload)->0, t.nonces)
            ==> after.nonces.used[payload_nonce(payload)->0] == t.nonces,
{
    let n = payload_nonce(payload)->0;
    assert(admission(m.payment, payload, s, t).1.nonces.used.contains_key(n));
    assert(after.nonces == s.nonces.after(n, t.nonces));
    assert(after.nonces.remembers(n, t2.nonces));
}

/// A nonce that counts as used at a later time still does then, whatever
/// requests are handled and however their payments are verified.
pub proof fn law_nonces_are_kept(
    m: X402View,
    resource: Seq<char>,
    header: Option<Seq<char>>,
    s: ServicesView,
    t: Moment,
    r: StepView,
    after: ServicesView,
    task: TaskView,
    answer: Result<VerifyView, Seq<char>>,
    served: Option<bool>,
    nonce: Seq<char>,
    u: u128,
)
    requires
        handles(m, resource, header, s, t, r, after),
        s.nonces.remembers(nonce, u),
        t.nonces <= u,
    ensures
        after.nonces.remembers(nonce, u),
        conclusion(m, task, answer, served, s, t).1.nonces == s.nonces,
{
}

/// A payer in USDC over the limit is refused, and nothing but the count of
/// requests changes.
pub proof fn law_limit_is_enforced(
    m: X402View,
    resource: Seq<char>,
    payload: JsonView,
    s: ServicesView,
    t: Moment,
    r: StepView,
    after: ServicesView,
)
    requires
        m.payment.currency is Usdc,
        payload_payer(payload) is Some,
        !s.limiter.lets_through(payload_payer(payload)->0, t.limiter as nat),
        takes_payment(m, resource, payload, s, t, r, after),
    ensures
        r == StepView::Refuse(too_many_requests()),
        after == (ServicesView {
            limiter: s.limiter.after(payload_payer(payload)->0, t.limiter as nat),
            ..s
        }),
{
}

/// A payment in Starkbot is always verified alongside, and changes nothing
/// before that.
pub proof fn law_starkbot_is_always_verified(
    m: X402View,
    resource: Seq<char>,
    payload: JsonView,
    s: ServicesView,
    t: Moment,
    r: StepView,
    after: ServicesView,
)
    requires
        m.payment.currency is Starkbot,
        takes_payment(m, resource, payload, s, t, r, after),
    ensures
        r == StepView::VerifyAlongside(payment_task(m.payment, payload, resource, t)),
        after == s,
{
}

/// The names in the `payment-response` header differ.
proof fn lemma_response_names()
    ensures
        "x402Version"@.len() == 11,
        "success"@.len() == 7,
        "error"@.len() == 5,
{
    reveal_strlit("x402Version");
    reveal_strlit("success");
    reveal_strlit("error");
}

/// Whether a request has a facilitator settle this payment of this endpoint:
/// it holds the payment as the client sent it, and requires the endpoint's
/// cost, to its wallet and in its token.
pub open spec fn settles(j: JsonView, p: PaymentView, payload: JsonView, resource: Seq<char>) -> bool {
    let required = j.field("paymentRequirements"@)->0;
    &&& j.field("paymentPayload"@) == Some(payload)
    &&& j.field("paymentRequirements"@) is Some
    &&& required.field("payTo"@) == Some(JsonView::Text("0x"@ + hex_text(p.pay_to)))
    &&& p.currency is Usdc ==> required.field("amount"@) == Some(JsonView::Text(p.cost))
        && required.field("asset"@) == Some(
        JsonView::Text("0x"@ + hex_text(p.currency->Usdc_asset)),
    )
    &&& p.currency is Starkbot ==> requires_starkbot(required, p, resource)
}

/// What is settled is what was verified: the request that settles a payment is
/// the one that verifies it, and both hold the client's payment and require the
/// endpoint's cost, wallet and token. The payer and the nonce are the
/// payment's; a payment without a nonce is given one from the clock.
pub proof fn law_settled_as_verified(
    p: PaymentView,
    payload: JsonView,
    resource: Seq<char>,
    t: Moment,
)
    ensures
        ({
            let task = payment_task(p, payload, resource, t);
            &&& task.settle_request == task.verify_request
            &&& settles(task.settle_request, p, payload, resource)
            &&& task.payer == payload_payer(payload)
            &&& payload_nonce(payload) is Some ==> task.nonce == payload_nonce(payload)->0
            &&& payload_nonce(payload) is None ==> task.nonce == "gen-"@ + signed_decimal(
                t.stamp as int,
            )
        }),
{
    law_facilitator_is_given(p, payload, resource);
}

/// Whether a table has got one new row, at its end, for a nonce: a pending one
/// with the text of a request, queued at a time and never sent.
pub open spec fn queues_row(
    before: StoreView,
    after: StoreView,
    nonce: Seq<char>,
    request: JsonView,
    now: int,
) -> bool {
    let row = after.rows.last();
    &&& after.rows.len() == before.rows.len() + 1
    &&& after.rows.drop_last() == before.rows
    &&& row.nonce == nonce
    &&& row.settle_request_json == json_text(request)
    &&& row.status == SettlementStatus::Pending
    &&& row.queued_at == now
    &&& row.retry_count == 0
    &&& row.last_error is None
    &&& row.tx_hash is None
}

/// A payment whose payer is served at once, and one that the facilitator is
/// asked about, is the client's payment to this endpoint: the row that is
/// queued, or the request that is sent, settles just that.
pub proof fn law_taken_as_paid(
    m: X402View,
    resource: Seq<char>,
    payload: JsonView,
    s: ServicesView,
    t: Moment,
    r: StepView,
    after: ServicesView,
)
    requires
        takes_payment(m, resource, payload, s, t, r, after),
    ensures
        ({
            let task = payment_task(m.payment, payload, resource, t);
            &&& settles(task.settle_request, m.payment, payload, resource)
            &&& r matches StepView::VerifyFirst(asked) ==> asked == task && after.queue == s.queue
            &&& r matches StepView::VerifyAlongside(asked) ==> asked == task && after.queue
                == s.queue
            &&& r is Refuse ==> after.queue == s.queue
            &&& r is ServePaid && !s.queue.store.has_nonce(task.nonce) ==> queues_row(
                s.queue.store,
                after.queue.store,
                task.nonce,
                task.settle_request,
                t.now as int,
            )
            &&& r is ServePaid && s.queue.store.has_nonce(task.nonce) ==> after.queue.store.rows
                == s.queue.store.rows
        }),
{
    law_facilitator_is_given(m.payment, payload, resource);
    let task = payment_task(m.payment, payload, resource, t);
    if r is ServePaid && !s.queue.store.has_nonce(task.nonce) {
        assert(after.queue.store.rows.drop_last() =~= s.queue.store.rows);
    }
}

/// What the answer of the facilitator leads to. A payment that is valid is
/// queued for settlement, with the request of its task, and the response tells
/// that it was taken. One that is not valid is refused with the reason, and
/// nothing is queued; so is one about which the facilitator could not be asked.
pub proof fn law_answer_in_full(
    m: X402View,
    task: TaskView,
    answer: Result<VerifyView, Seq<char>>,
    served: Option<bool>,
    s: ServicesView,
    t: Moment,
)
    ensures
        ({
            let (step, after) = conclusion(m, task, answer, served, s, t);
            let valid = answer is Ok && answer->Ok_0.is_valid;
            let why = if answer->Ok_0.invalid_reason is Some {
                answer->Ok_0.invalid_reason->0
            } else {
                "Payment verification failed"@
            };
            &&& after.limiter == s.limiter
            &&& after.nonces == s.nonces
            &&& valid ==> step == StepView::ServePaid(payment_response_header(true, None))
            &&& valid && !s.queue.refuses() && !s.queue.store.has_nonce(task.nonce) ==> queues_row(
                s.queue.store,
                after.queue.store,
                task.nonce,
                task.settle_request,
                t.now as int,
            )
            &&& valid && (s.queue.refuses() || s.queue.store.has_nonce(task.nonce))
                ==> after.queue.store.rows == s.queue.store.rows
            &&& !valid ==> step is Refuse && after.queue == s.queue
            &&& answer is Ok && !valid && served == Some(false) ==> step->Refuse_0.status == 402
                && step->Refuse_0.body == BodyView::Text(why)
            &&& answer is Ok && !valid && served != Some(false) ==> {
                &&& step->Refuse_0.status == 402
                &&& step->Refuse_0.body == BodyView::Text("Payment verification failed: "@ + why)
                &&& step->Refuse_0.headers[0] == (
                    "payment-response"@,
                    payment_response_header(false, Some(why)),
                )
            }
            &&& answer matches Err(e) ==> step->Refuse_0.status == 502 && step->Refuse_0.body
                == BodyView::Text("Facilitator error: "@ + e) && after == s
            &&& answer is Ok && task.payer is None ==> after.cache == s.cache
            &&& forall|other: Seq<char>, u: u128|
                task.payer != Some(other) ==> after.cache.recently_verified(other, u)
                    == s.cache.recently_verified(other, u) && #[trigger] after.cache.recently_failed(
                    other,
                    u,
                ) == s.cache.recently_failed(other, u)
        }),
{
    let after = conclusion(m, task, answer, served, s, t).1;
    if answer is Ok && answer->Ok_0.is_valid && !s.queue.refuses() && !s.queue.store.has_nonce(
        task.nonce,
    ) {
        assert(after.queue.store.rows.drop_last() =~= s.queue.store.rows);
    }
}

/// What the `payment-response` header tells: whether the payment was taken, and
/// what was wrong with it. Two headers that tell different things differ in
/// what they hold.
pub proof fn law_payment_response(success: bool, error: Option<Seq<char>>)
    ensures
        ({
            let j = payment_response(success, error);
            &&& j.field("x402Version"@) == Some(number(2))
            &&& j.field("success"@) == Some(JsonView::Bool(success))
            &&& j.field("error"@) == Some(
                if error is Some {
                    JsonView::Text(error->0)
                } else {
                    JsonView::Null
                },
            )
            &&& payment_response_header(success, error) == base64_text(encode_utf8(json_text(j)))
        }),
{
    lemma_response_names();
}

/// A reply keeps its status, its body and its headers when it is sent; one that
/// asks for payment tells besides that credits are taken, where they are.
pub proof fn law_credits_are_advertised(m: X402View, r: ReplyView)
    ensures
        ({
            let sent = m.advertised(r);
            let told = m.advertise_credits && r.status == 402;
            &&& sent.status == r.status
            &&& sent.body == r.body
            &&& told ==> sent.headers == r.headers.push(("x-erc8128-credits"@, "true"@))
            &&& !told ==> sent.headers == r.headers
        }),
{
}

/// A request without a payment is told what to pay: for USDC in the
/// `payment-required` header, for Starkbot in the body.
pub proof fn law_unpaid_in_full(
    m: X402View,
    resource: Seq<char>,
    s: ServicesView,
    t: Moment,
    r: StepView,
    after: ServicesView,
)
    requires
        !m.test_mode,
        handles(m, resource, None, s, t, r, after),
    ensures
        r is Refuse,
        r->Refuse_0.status == 402,
        m.payment.currency is Usdc ==> r->Refuse_0.body == BodyView::Text(
            "Payment required. See payment-required header for details."@,
        ) && r->Refuse_0.headers[0] == (
            "payment-required"@,
            base64_text(encode_utf8(json_text(payment_offer(m.payment, resource)))),
        ),
        m.payment.currency is Starkbot ==> r->Refuse_0.body == BodyView::Json(
            payment_body(m.payment, resource),
        ),
        m.advertise_credits ==> r->Refuse_0.headers.last() == ("x-erc8128-credits"@, "true"@),
{
}

/// A payment that cannot be read is refused with the reason, and nothing else
/// happens.
pub proof fn law_unreadable_is_refused(
    m: X402View,
    resource: Seq<char>,
    header: Seq<char>,
    s: ServicesView,
    t: Moment,
    r: StepView,
    after: ServicesView,
)
    requires
        !m.test_mode,
        handles(m, resource, Some(header), s, t, r, after),
    ensures
        match base64_bytes(header) {
            Err(e) => r is Refuse && r->Refuse_0.status == 402 && r->Refuse_0.body
                == BodyView::Text("Invalid payment encoding: "@ + e) && after == s,
            Ok(b) => match json_parsed(b) {
                Err(e) => r is Refuse && r->Refuse_0.status == 402 && r->Refuse_0.body
                    == BodyView::Text("Invalid payment JSON: "@ + e) && after == s,
                Ok(j) => takes_payment(m, resource, j, s, t, r, after),
            },
        },
{
}

/// How a payment in USDC is admitted: a payer over the limit is told to wait,
/// and a nonce that was used is refused; the request counts for the limit, and
/// the nonce as used. Without a payer nothing is counted, and without a nonce
/// none is used.
pub proof fn law_admission_in_full(p: PaymentView, payload: JsonView, s: ServicesView, t: Moment)
    requires
        p.currency is Usdc,
    ensures
        ({
            let (reply, after) = admission(p, payload, s, t);
            let payer = payload_payer(payload);
            let nonce = payload_nonce(payload);
            let over = payer is Some && !s.limiter.lets_through(payer->0, t.limiter as nat);
            let used = nonce is Some && s.nonces.remembers(nonce->0, t.nonces);
            &&& reply is None <==> !over && !used
            &&& over ==> {
                &&& reply->0.status == 429
                &&& reply->0.body == BodyView::Text(
                    "Rate limit exceeded: maximum 5 requests per second per address"@,
                )
                &&& reply->0.headers == seq![("Retry-After"@, "1"@)]
                &&& after.nonces == s.nonces
            }
            &&& !over && used ==> {
                &&& reply->0.status == 402
                &&& reply->0.body == BodyView::Text("Payment rejected: nonce already used"@)
                &&& reply->0.headers.len() == 0
            }
            &&& !over && nonce is Some ==> after.nonces.remembers(nonce->0, t.nonces)
                || s.nonces.ttl == 0
            &&& nonce is None ==> after.nonces == s.nonces
            &&& payer is Some ==> after.limiter == s.limiter.after(payer->0, t.limiter as nat)
            &&& payer is None ==> after.limiter == s.limiter
            &&& after.queue == s.queue
            &&& after.cache == s.cache
        }),
{
    let (reply, after) = admission(p, payload, s, t);
    assert(too_many_requests().headers =~= seq![("Retry-After"@, "1"@)]);
}

/// How a payment in USDC that was admitted is taken. A payer who counts as
/// verified is served at once, unless the queue refuses the settlement. Any
/// other one is turned away while the queue is full, is verified first where a
/// refusal counts, and alongside otherwise. Each lookup is counted.
pub proof fn law_routing_in_full(
    p: PaymentView,
    task: TaskView,
    s: ServicesView,
    t: Moment,
    cached: bool,
    failing: bool,
)
    requires
        p.currency is Usdc,
        task.payer is Some,
    ensures
        ({
            let (step, after) = routing(p, task, s, t, cached, failing);
            let full = active(s.queue.store) >= s.queue.max_size;
            let turned_away = step is Refuse && step->Refuse_0.status == 503
                && step->Refuse_0.body == BodyView::Text(
                "Service temporarily unavailable: settlement queue full"@,
            );
            &&& cached && s.queue.refuses() ==> turned_away
            &&& cached && !s.queue.refuses() ==> step == StepView::ServePaid(
                payment_response_header(true, None),
            )
            &&& !cached && full ==> turned_away
            &&& !cached && !full && failing ==> step == StepView::VerifyFirst(task)
            &&& !cached && !full && !failing ==> step == StepView::VerifyAlongside(task)
            &&& after.cache.hits == counted(s.cache.hits) <==> cached
            &&& after.cache.misses == counted(s.cache.misses) <==> !cached
            &&& after.cache.downgrades == counted(s.cache.downgrades) <==> !cached && !full
                && failing
            &&& after.cache.verified == s.cache.verified
            &&& after.cache.failed == s.cache.failed
            &&& after.limiter == s.limiter
            &&& after.nonces == s.nonces
        }),
{
}

/// In test mode every request is served, whatever it brings, and nothing is
/// noted. In any other mode none is served unpaid.
pub proof fn law_test_mode_serves(
    m: X402View,
    resource: Seq<char>,
    header: Option<Seq<char>>,
    s: ServicesView,
    t: Moment,
    r: StepView,
    after: ServicesView,
)
    requires
        handles(m, resource, header, s, t, r, after),
    ensures
        m.test_mode ==> r == StepView::Serve && after == s,
        !m.test_mode ==> r != StepView::Serve,
{
}

} // verus!
