//! Calls to the x402 facilitator, which verifies and settles payments.
//!
//! A call is sent until it is answered or fails for good. What came of a send
//! is a [`CallEvent`]; the client decides on it whether the call is answered,
//! has failed, or may be sent again after a pause.

use vstd::prelude::*;
use vstd::string::*;

use crate::error::{AppError, AppErrorView};
use crate::http::text_view;
use crate::json::{text_in, Json, JsonView};
use crate::text::{trim_end_char, trim_end_of};

verus! {

/// How often a call is sent again.
pub const MAX_RETRIES: u32 = 3;

/// How calls are made. Times are in milliseconds.
#[derive(Clone)]
pub struct FacilitatorConfig {
    pub max_retries: u32,
    pub initial_interval: u64,
    pub max_interval: u64,
    pub request_timeout: u64,
}

impl Default for FacilitatorConfig {
    fn default() -> (r: Self)
        ensures
            r == (FacilitatorConfig {
                max_retries: 3,
                initial_interval: 100,
                max_interval: 2000,
                request_timeout: 30000,
            }),
    {
        FacilitatorConfig {
            max_retries: MAX_RETRIES,
            initial_interval: 100,
            max_interval: 2000,
            request_timeout: 30000,
        }
    }
}

/// The facilitator's address, and how it is called.
pub struct FacilitatorClient {
    pub base_url: String,
    pub config: FacilitatorConfig,
}

/// The answer to a verify request.
#[derive(Debug, Clone)]
pub struct VerifyResult {
    pub is_valid: bool,
    pub payer: Option<String>,
    pub invalid_reason: Option<String>,
}

/// The answer to a settle request.
#[derive(Debug, Clone)]
pub struct SettleResult {
    pub success: bool,
    pub transaction: Option<String>,
    pub payer: Option<String>,
    pub error_reason: Option<String>,
}

/// The answer to a verify request.
pub struct VerifyView {
    pub is_valid: bool,
    pub payer: Option<Seq<char>>,
    pub invalid_reason: Option<Seq<char>>,
}

/// The answer to a settle request.
pub struct SettleView {
    pub success: bool,
    pub transaction: Option<Seq<char>>,
    pub payer: Option<Seq<char>>,
    pub error_reason: Option<Seq<char>>,
}

impl View for VerifyResult {
    type V = VerifyView;

    open spec fn view(&self) -> VerifyView {
        VerifyView {
            is_valid: self.is_valid,
            payer: text_view(self.payer),
            invalid_reason: text_view(self.invalid_reason),
        }
    }
}

impl View for SettleResult {
    type V = SettleView;

    open spec fn view(&self) -> SettleView {
        SettleView {
            success: self.success,
            transaction: text_view(self.transaction),
            payer: text_view(self.payer),
            error_reason: text_view(self.error_reason),
        }
    }
}

/// How long is waited before a call is sent again, in milliseconds: at first,
/// at most, and how long after the first attempt it is given up.
#[derive(Clone, Copy, PartialEq, Eq, Structural)]
pub struct RetryIntervals {
    pub initial_interval: u64,
    pub max_interval: u64,
    pub max_elapsed_time: u64,
}

/// What came of sending a call.
pub enum CallEvent {
    /// A reply with a success status, with its JSON body or the error of
    /// reading it.
    Answered(Result<Json, String>),
    /// A reply with another status: its code, its text and the body.
    Refused { code: u16, status: String, body: String },
    /// No reply, and whether it took too long, the connection failed or the
    /// request could not be sent.
    Failed { timeout: bool, connect: bool, request: bool, error: String },
}

/// What came of sending a call.
pub enum CallEventView {
    Answered(Result<JsonView, Seq<char>>),
    Refused { code: u16, status: Seq<char>, body: Seq<char> },
    Failed { timeout: bool, connect: bool, request: bool, error: Seq<char> },
}

impl View for CallEvent {
    type V = CallEventView;

    open spec fn view(&self) -> CallEventView {
        match self {
            CallEvent::Answered(Ok(j)) => CallEventView::Answered(Ok(j@)),
            CallEvent::Answered(Err(e)) => CallEventView::Answered(Err(e@)),
            CallEvent::Refused { code, status, body } => CallEventView::Refused {
                code: *code,
                status: status@,
                body: body@,
            },
            CallEvent::Failed { timeout, connect, request, error } => CallEventView::Failed {
                timeout: *timeout,
                connect: *connect,
                request: *request,
                error: error@,
            },
        }
    }
}

/// What a call asks the facilitator for.
#[derive(Clone, Copy, PartialEq, Eq, Structural)]
pub enum CallKind {
    Verify,
    Settle,
}

/// A call under way: how often it was sent, and the last error that may pass.
pub struct FacilitatorCall {
    pub attempts: u32,
    pub last_error: Option<String>,
}

/// A call under way.
pub struct CallView {
    pub attempts: u32,
    pub last_error: Option<Seq<char>>,
}

impl View for FacilitatorCall {
    type V = CallView;

    open spec fn view(&self) -> CallView {
        CallView { attempts: self.attempts, last_error: text_view(self.last_error) }
    }
}

/// What follows from an event.
pub enum CallStep<T> {
    /// The call is answered.
    Done(T),
    /// The call has failed for good.
    GiveUp(AppError),
    /// The call may be sent again after a pause. Where no pause is left, it
    /// has failed for good with this error.
    MayRetry(AppError),
}

/// What follows from an event.
pub enum StepView<T> {
    Done(T),
    GiveUp(Seq<char>),
    MayRetry(Seq<char>),
}

/// Whether a status may pass: a server error, or too many requests.
pub open spec fn transient_status(code: u16) -> bool {
    500 <= code < 600 || code == 429
}

/// Whether a failure to send may pass: it took too long, the connection failed
/// or the request could not be sent.
pub open spec fn transient_error(timeout: bool, connect: bool, request: bool) -> bool {
    timeout || connect || request
}

/// The message for an answer that could not be read.
pub open spec fn invalid_message(kind: CallKind, e: Seq<char>) -> Seq<char> {
    match kind {
        CallKind::Verify => "Invalid response: "@ + e,
        CallKind::Settle => "Invalid settlement response: "@ + e,
    }
}

/// The message for a reply with another status than success.
pub open spec fn refused_message(kind: CallKind, status: Seq<char>, body: Seq<char>) -> Seq<char> {
    match kind {
        CallKind::Verify => "Facilitator returned "@ + status + ": "@ + body,
        CallKind::Settle => "Settlement failed with "@ + status + ": "@ + body,
    }
}

/// The message for a call without a reply.
pub open spec fn failed_message(kind: CallKind, e: Seq<char>) -> Seq<char> {
    match kind {
        CallKind::Verify => "Connection failed: "@ + e,
        CallKind::Settle => "Settlement connection failed: "@ + e,
    }
}

/// What follows from an event of a call that may be sent again `max_retries`
/// times.
pub open spec fn call_step(
    kind: CallKind,
    call: CallView,
    max_retries: u32,
    event: CallEventView,
) -> StepView<JsonView> {
    match event {
        CallEventView::Answered(Ok(j)) => StepView::Done(j),
        CallEventView::Answered(Err(e)) => StepView::GiveUp(invalid_message(kind, e)),
        CallEventView::Refused { code, status, body } => {
            let m = refused_message(kind, status, body);
            if transient_status(code) && call.attempts <= max_retries {
                StepView::MayRetry(m)
            } else {
                StepView::GiveUp(m)
            }
        },
        CallEventView::Failed { timeout, connect, request, error } => {
            let m = failed_message(kind, error);
            if transient_error(timeout, connect, request) && call.attempts <= max_retries {
                StepView::MayRetry(m)
            } else {
                StepView::GiveUp(
                    match call.last_error {
                        Some(e) => e,
                        None => m,
                    },
                )
            }
        },
    }
}

/// The call after an event: an error that may pass is kept.
pub open spec fn call_after(
    kind: CallKind,
    call: CallView,
    max_retries: u32,
    event: CallEventView,
) -> CallView {
    match call_step(kind, call, max_retries, event) {
        StepView::MayRetry(m) => CallView { last_error: Some(m), ..call },
        _ => call,
    }
}

/// The answer to a verify request that a body holds.
pub open spec fn verify_answer(body: JsonView) -> VerifyView {
    VerifyView {
        is_valid: match body.field("isValid"@) {
            Some(v) => v.truth() == Some(true),
            None => false,
        },
        payer: text_in(body.field("payer"@)),
        invalid_reason: text_in(body.field("invalidReason"@)),
    }
}

/// The answer to a settle request that a body holds.
pub open spec fn settle_answer(body: JsonView) -> SettleView {
    SettleView {
        success: match body.field("success"@) {
            Some(v) => v.truth() == Some(true),
            None => false,
        },
        transaction: text_in(body.field("transaction"@)),
        payer: text_in(body.field("payer"@)),
        error_reason: text_in(body.field("errorReason"@)),
    }
}

/// The truth value of a field, where it is a boolean, or false.
fn flag_at(body: &Json, key: &str) -> (r: bool)
    ensures
        r == (match body@.field(key@) {
            Some(v) => v.truth() == Some(true),
            None => false,
        }),
{
    match body.get(key) {
        Some(j) => match j.as_bool() {
            Some(b) => b,
            None => false,
        },
        None => false,
    }
}

/// The text of a field, where it is text.
pub(crate) fn field_text(body: &Json, key: &str) -> (r: Option<String>)
    ensures
        text_view(r) == text_in(body@.field(key@)),
{
    match body.get(key) {
        Some(j) => match j.as_str() {
            Some(s) => Some(s.to_owned()),
            None => None,
        },
        None => None,
    }
}

/// A facilitator error with a message made of two parts.
fn facilitator_error(front: &str, e: &str) -> (r: AppError)
    ensures
        r@ == AppErrorView::Facilitator(front@ + e@),
{
    let mut m = front.to_owned();
    m.append(e);
    AppError::Facilitator(m)
}

/// The message for a reply with another status than success.
fn refusal(kind: CallKind, status: &str, body: &str) -> (r: String)
    ensures
        r@ == refused_message(kind, status@, body@),
{
    let mut m = match kind {
        CallKind::Verify => "Facilitator returned ".to_owned(),
        CallKind::Settle => "Settlement failed with ".to_owned(),
    };
    m.append(status);
    m.append(": ");
    m.append(body);
    m
}

/// The message for a call without a reply.
fn failure(kind: CallKind, e: &str) -> (r: String)
    ensures
        r@ == failed_message(kind, e@),
{
    let mut m = match kind {
        CallKind::Verify => "Connection failed: ".to_owned(),
        CallKind::Settle => "Settlement connection failed: ".to_owned(),
    };
    m.append(e);
    m
}

/// Whether a step of a call is the one that the model gives.
pub open spec fn step_is(s: CallStep<Json>, v: StepView<JsonView>) -> bool {
    match (s, v) {
        (CallStep::Done(j), StepView::Done(w)) => j@ == w,
        (CallStep::GiveUp(e), StepView::GiveUp(m)) => e@ == AppErrorView::Facilitator(m),
        (CallStep::MayRetry(e), StepView::MayRetry(m)) => e@ == AppErrorView::Facilitator(m),
        _ => false,
    }
}

impl FacilitatorCall {
    /// A call that is sent for the first time.
    pub fn start() -> (r: Self)
        ensures
            r@ == (CallView { attempts: 1, last_error: None }),
    {
        FacilitatorCall { attempts: 1, last_error: None }
    }

    /// The call is sent again.
    pub fn again(&mut self)
        requires
            old(self).attempts < u32::MAX,
        ensures
            final(self)@ == (CallView { attempts: (old(self).attempts + 1) as u32, ..old(self)@ }),
    {
        self.attempts = self.attempts + 1;
    }

    /// Decides on an event.
    fn step(&mut self, kind: CallKind, max_retries: u32, event: CallEvent) -> (r: CallStep<Json>)
        ensures
            step_is(r, call_step(kind, old(self)@, max_retries, event@)),
            final(self)@ == call_after(kind, old(self)@, max_retries, event@),
    {
        match event {
            CallEvent::Answered(Ok(j)) => CallStep::Done(j),
            CallEvent::Answered(Err(e)) => CallStep::GiveUp(
                match kind {
                    CallKind::Verify => facilitator_error("Invalid response: ", e.as_str()),
                    CallKind::Settle => facilitator_error(
                        "Invalid settlement response: ",
                        e.as_str(),
                    ),
                },
            ),
            CallEvent::Refused { code, status, body } => {
                let m = refusal(kind, status.as_str(), body.as_str());
                if FacilitatorClient::is_transient_status(code) && self.attempts <= max_retries {
                    self.last_error = Some(m.clone());
                    CallStep::MayRetry(AppError::Facilitator(m))
                } else {
                    CallStep::GiveUp(AppError::Facilitator(m))
                }
            },
            CallEvent::Failed { timeout, connect, request, error } => {
                let m = failure(kind, error.as_str());
                if FacilitatorClient::is_transient_error(timeout, connect, request)
                    && self.attempts <= max_retries {
                    self.last_error = Some(m.clone());
                    CallStep::MayRetry(AppError::Facilitator(m))
                } else {
                    match &self.last_error {
                        Some(e) => CallStep::GiveUp(AppError::Facilitator(e.clone())),
                        None => CallStep::GiveUp(AppError::Facilitator(m)),
                    }
                }
            },
        }
    }
}

impl FacilitatorClient {
    /// A client for the facilitator at a URL, with the default settings.
    pub fn new(base_url: &str) -> (r: Self)
        ensures
            r.base_url@ == trim_end_char(base_url@, '/'),
            r.config == (FacilitatorConfig {
                max_retries: 3,
                initial_interval: 100,
                max_interval: 2000,
                request_timeout: 30000,
            }),
    {
        Self::with_config(base_url, FacilitatorConfig::default())
    }

    /// A client for the facilitator at a URL; slashes at its end are dropped.
    pub fn with_config(base_url: &str, config: FacilitatorConfig) -> (r: Self)
        ensures
            r.base_url@ == trim_end_char(base_url@, '/'),
            r.config == config,
    {
        FacilitatorClient { base_url: trim_end_of(base_url, '/'), config }
    }

    /// Where verify requests are sent.
    pub fn verify_url(&self) -> (r: String)
        ensures
            r@ == self.base_url@ + "/verify"@,
    {
        let mut u = self.base_url.clone();
        u.append("/verify");
        u
    }

    /// Where settle requests are sent.
    pub fn settle_url(&self) -> (r: String)
        ensures
            r@ == self.base_url@ + "/settle"@,
    {
        let mut u = self.base_url.clone();
        u.append("/settle");
        u
    }

    /// How long is waited between the attempts of a call, and in all.
    pub fn create_backoff(&self) -> (r: RetryIntervals)
        ensures
            r == (RetryIntervals {
                initial_interval: self.config.initial_interval,
                max_interval: self.config.max_interval,
                max_elapsed_time: 10_000,
            }),
    {
        RetryIntervals {
            initial_interval: self.config.initial_interval,
            max_interval: self.config.max_interval,
            max_elapsed_time: 10_000,
        }
    }

    /// Whether a failure to send may pass: it took too long, the connection
    /// failed or the request could not be sent.
    pub fn is_transient_error(timeout: bool, connect: bool, request: bool) -> (r: bool)
        ensures
            r == transient_error(timeout, connect, request),
    {
        timeout || connect || request
    }

    /// Whether a status may pass: a server error, or too many requests.
    pub fn is_transient_status(code: u16) -> (r: bool)
        ensures
            r == transient_status(code),
    {
        (500 <= code && code < 600) || code == 429
    }

    /// Decides on an event of a verify call.
    pub fn verify_raw(&self, call: &mut FacilitatorCall, event: CallEvent) -> (r: CallStep<
        VerifyResult,
    >)
        ensures
            final(call)@ == call_after(
                CallKind::Verify,
                old(call)@,
                self.config.max_retries,
                event@,
            ),
            match (
                r,
                call_step(CallKind::Verify, old(call)@, self.config.max_retries, event@),
            ) {
                (CallStep::Done(v), StepView::Done(body)) => v@ == verify_answer(body),
                (CallStep::GiveUp(e), StepView::GiveUp(m)) => e@ == AppErrorView::Facilitator(m),
                (CallStep::MayRetry(e), StepView::MayRetry(m)) => e@ == AppErrorView::Facilitator(
                    m,
                ),
                _ => false,
            },
    {
        match call.step(CallKind::Verify, self.config.max_retries, event) {
            CallStep::Done(body) => CallStep::Done(
                VerifyResult {
                    is_valid: flag_at(&body, "isValid"),
                    payer: field_text(&body, "payer"),
                    invalid_reason: field_text(&body, "invalidReason"),
                },
            ),
            CallStep::GiveUp(e) => CallStep::GiveUp(e),
            CallStep::MayRetry(e) => CallStep::MayRetry(e),
        }
    }

    /// Decides on an event of a settle call.
    pub fn settle_raw(&self, call: &mut FacilitatorCall, event: CallEvent) -> (r: CallStep<
        SettleResult,
    >)
        ensures
            final(call)@ == call_after(
                CallKind::Settle,
                old(call)@,
                self.config.max_retries,
                event@,
            ),
            match (
                r,
                call_step(CallKind::Settle, old(call)@, self.config.max_retries, event@),
            ) {
                (CallStep::Done(v), StepView::Done(body)) => v@ == settle_answer(body),
                (CallStep::GiveUp(e), StepView::GiveUp(m)) => e@ == AppErrorView::Facilitator(m),
                (CallStep::MayRetry(e), StepView::MayRetry(m)) => e@ == AppErrorView::Facilitator(
                    m,
                ),
                _ => false,
            },
    {
        match call.step(CallKind::Settle, self.config.max_retries, event) {
            CallStep::Done(body) => CallStep::Done(
                SettleResult {
                    success: flag_at(&body, "success"),
                    transaction: field_text(&body, "transaction"),
                    payer: field_text(&body, "payer"),
                    error_reason: field_text(&body, "errorReason"),
                },
            ),
            CallStep::GiveUp(e) => CallStep::GiveUp(e),
            CallStep::MayRetry(e) => CallStep::MayRetry(e),
        }
    }
}

/// A call is sent `max_retries + 1` times at most: after that many attempts no
/// event lets it be sent again. Only a failure that may pass ever does.
pub proof fn law_attempts_are_bounded(
    kind: CallKind,
    call: CallView,
    max_retries: u32,
    event: CallEventView,
)
    ensures
        call.attempts > max_retries ==> !(call_step(kind, call, max_retries, event) is MayRetry),
        call_step(kind, call, max_retries, event) is MayRetry ==> match event {
            CallEventView::Answered(_) => false,
            CallEventView::Refused { code, .. } => transient_status(code),
            CallEventView::Failed { timeout, connect, request, .. } => transient_error(
                timeout,
                connect,
                request,
            ),
        },
{
}

/// What follows from each event. An answer that was read ends the call, and one
/// that could not be read makes it fail. A server error, too many requests, a
/// timeout, a failed connection and a request that could not be sent may be
/// tried again while attempts are left; any other failure is final. A call that
/// fails without a reply fails with the last error that may pass, where there
/// was one.
pub proof fn law_events_decide(
    kind: CallKind,
    call: CallView,
    max_retries: u32,
    event: CallEventView,
)
    ensures
        ({
            let step = call_step(kind, call, max_retries, event);
            let after = call_after(kind, call, max_retries, event);
            let left = call.attempts <= max_retries;
            let is_verify = kind == CallKind::Verify;
            &&& after.attempts == call.attempts
            &&& match event {
                CallEventView::Answered(Ok(j)) => step == StepView::Done(j),
                CallEventView::Answered(Err(e)) => step == StepView::<JsonView>::GiveUp(
                    if is_verify {
                        "Invalid response: "@ + e
                    } else {
                        "Invalid settlement response: "@ + e
                    },
                ),
                CallEventView::Refused { code, status, body } => {
                    let m = if is_verify {
                        "Facilitator returned "@ + status + ": "@ + body
                    } else {
                        "Settlement failed with "@ + status + ": "@ + body
                    };
                    let passes = code == 429 || (code >= 500 && code <= 599);
                    &&& passes && left ==> step == StepView::<JsonView>::MayRetry(m)
                        && after.last_error == Some(m)
                    &&& !passes || !left ==> step == StepView::<JsonView>::GiveUp(m)
                        && after.last_error == call.last_error
                },
                CallEventView::Failed { timeout, connect, request, error } => {
                    let m = if is_verify {
                        "Connection failed: "@ + error
                    } else {
                        "Settlement connection failed: "@ + error
                    };
                    let passes = timeout || connect || request;
                    &&& passes && left ==> step == StepView::<JsonView>::MayRetry(m)
                        && after.last_error == Some(m)
                    &&& (!passes || !left) && call.last_error is None ==> step == StepView::<
                        JsonView,
                    >::GiveUp(m)
                    &&& (!passes || !left) && call.last_error is Some ==> step == StepView::<
                        JsonView,
                    >::GiveUp(call.last_error->0)
                },
            }
        }),
{
}

/// A payment counts as valid only where the facilitator says `true` under
/// `isValid`; who pays and what is wrong are the texts that it gives.
pub proof fn law_verify_answer(body: JsonView, text: Seq<char>)
    ensures
        ({
            let v = verify_answer(body);
            &&& v.is_valid <==> body.field("isValid"@) == Some(JsonView::Bool(true))
            &&& v.payer == Some(text) <==> body.field("payer"@) == Some(JsonView::Text(text))
            &&& v.invalid_reason == Some(text) <==> body.field("invalidReason"@) == Some(
                JsonView::Text(text),
            )
        }),
{
}

/// A payment counts as settled only where the facilitator says `true` under
/// `success`; the transaction, who paid and what went wrong are the texts that
/// it gives.
pub proof fn law_settle_answer(body: JsonView, text: Seq<char>)
    ensures
        ({
            let v = settle_answer(body);
            &&& v.success <==> body.field("success"@) == Some(JsonView::Bool(true))
            &&& v.transaction == Some(text) <==> body.field("transaction"@) == Some(
                JsonView::Text(text),
            )
            &&& v.payer == Some(text) <==> body.field("payer"@) == Some(JsonView::Text(text))
            &&& v.error_reason == Some(text) <==> body.field("errorReason"@) == Some(
                JsonView::Text(text),
            )
        }),
{
}

} // verus!
