//! What becomes of a chat request before it is sent upstream.

use vstd::prelude::*;
use vstd::string::*;

use crate::endpoints::{EndpointDef, ResolvedEndpoint};
use crate::error::{AppError, AppErrorView};
use crate::json::JsonView;
use crate::models::chat::{
    law_request_is_written, messages_view, request_fields, text_message, ChatMessage, ChatRequest,
    MessageView, RequestView,
};
use crate::services::inference_client::{law_openai_request, upstream_request, ClientView};
use crate::text::{chars_of, decimal, decimal_text, same_text};

verus! {

/// The estimated tokens of a text: one for every four characters, in 32 bits.
pub open spec fn text_tokens(s: Seq<char>) -> u32 {
    ((s.len() as int / 4) % 0x1_0000_0000) as u32
}

/// The estimated tokens of a message: those of its role and of its content.
pub open spec fn message_tokens(m: MessageView) -> nat {
    text_tokens(m.role) as nat + match m.content {
        Some(c) => text_tokens(c) as nat,
        None => 0,
    }
}

/// The estimated tokens of some messages.
pub open spec fn messages_tokens(ms: Seq<MessageView>) -> nat
    decreases ms.len(),
{
    if ms.len() == 0 {
        0
    } else {
        messages_tokens(ms.drop_last()) + message_tokens(ms.last())
    }
}

/// The estimated tokens of a text.
pub fn estimate_tokens(text: &str) -> (r: u32)
    ensures
        r == text_tokens(text@),
{
    let n: usize = chars_of(text).len();
    ((n as u64 / 4) % 0x1_0000_0000) as u32
}

/// The estimated tokens of the first messages are no more than those of all.
proof fn lemma_tokens_grow(ms: Seq<MessageView>, i: int)
    requires
        0 <= i <= ms.len(),
    ensures
        messages_tokens(ms.take(i)) <= messages_tokens(ms),
    decreases ms.len() - i,
{
    if i < ms.len() {
        lemma_tokens_grow(ms, i + 1);
        assert(ms.take(i + 1).drop_last() =~= ms.take(i));
    } else {
        assert(ms.take(i) =~= ms);
    }
}

/// The estimated tokens of a request, where 32 bits hold them.
pub fn request_tokens(messages: &Vec<ChatMessage>) -> (r: Option<u32>)
    ensures
        match r {
            Some(n) => n == messages_tokens(messages_view(messages@)),
            None => messages_tokens(messages_view(messages@)) > u32::MAX,
        },
{
    let ghost views = messages_view(messages@);
    let mut n: u64 = 0;
    let mut i: usize = 0;
    assert(views.take(0) =~= seq![]);
    while i < messages.len()
        invariant
            i <= messages@.len(),
            views == messages_view(messages@),
            n == messages_tokens(views.take(i as int)),
            n <= u32::MAX,
        decreases messages@.len() - i,
    {
        let role: u32 = estimate_tokens(messages[i].role.as_str());
        let content: u32 = match &messages[i].content {
            Some(c) => estimate_tokens(c.as_str()),
            None => 0,
        };
        proof {
            assert(views.take(i + 1).drop_last() =~= views.take(i as int));
            assert(views.take(i + 1).last() == messages@[i as int]@);
            lemma_tokens_grow(views, i + 1);
        }
        n = n + role as u64 + content as u64;
        i += 1;
        if n > 0xffff_ffff {
            return None;
        }
    }
    assert(views.take(i as int) =~= views);
    Some(n as u32)
}

/// The estimated tokens of a request.
pub fn estimate_request_tokens(request: &ChatRequest) -> (r: u32)
    requires
        messages_tokens(request@.messages) <= u32::MAX,
    ensures
        r == messages_tokens(request@.messages),
{
    match request_tokens(&request.messages) {
        Some(n) => n,
        None => 0,
    }
}

/// Whether there is a system message.
pub open spec fn has_system_message(ms: Seq<MessageView>) -> bool {
    exists|i: int| 0 <= i < ms.len() && (#[trigger] ms[i]).role == "system"@
}

/// A request as an endpoint sends it upstream: with the endpoint's system
/// prompt in front, where it has one and the request has no system message,
/// and with the endpoint's limit of tokens, where the request sets none.
pub open spec fn prepared(e: ResolvedEndpoint, r: RequestView) -> RequestView {
    RequestView {
        messages: match e.system_prompt {
            Some(p) => if has_system_message(r.messages) {
                r.messages
            } else {
                seq![text_message("system"@, p@)] + r.messages
            },
            None => r.messages,
        },
        max_tokens: match r.max_tokens {
            Some(n) => Some(n),
            None => Some(e.def.max_output_tokens),
        },
        ..r
    }
}

/// Whether there is a system message.
fn find_system_message(messages: &Vec<ChatMessage>) -> (r: bool)
    ensures
        r == has_system_message(messages_view(messages@)),
{
    let ghost views = messages_view(messages@);
    let mut i: usize = 0;
    while i < messages.len()
        invariant
            i <= messages@.len(),
            views == messages_view(messages@),
            forall|j: int| 0 <= j < i ==> (#[trigger] views[j]).role != "system"@,
        decreases messages@.len() - i,
    {
        if same_text(messages[i].role.as_str(), "system") {
            assert(views[i as int].role == "system"@);
            return true;
        }
        i += 1;
    }
    false
}

/// A request as an endpoint sends it upstream.
pub fn prepare_request(endpoint: &ResolvedEndpoint, request: ChatRequest) -> (r: ChatRequest)
    ensures
        r@ == prepared(*endpoint, request@),
{
    let mut out = request;
    if let Some(prompt) = &endpoint.system_prompt {
        if !find_system_message(&out.messages) {
            let ghost before = out.messages@;
            let m = ChatMessage::system(prompt.as_str());
            out.messages.insert(0, m);
            assert(messages_view(out.messages@) =~= seq![m@] + messages_view(before));
        }
    }
    if out.max_tokens.is_none() {
        out.max_tokens = Some(endpoint.def.max_output_tokens);
    }
    out
}

/// Whether a request is too large for an endpoint once it was prepared.
pub open spec fn too_large(e: ResolvedEndpoint, r: RequestView) -> bool {
    messages_tokens(prepared(e, r).messages) > e.def.max_input_tokens
}

/// The request that is sent upstream for a chat request, or the error of one
/// that is too large for the endpoint.
pub fn chat_handler(endpoint: &ResolvedEndpoint, request: ChatRequest) -> (r: Result<
    ChatRequest,
    AppError,
>)
    requires
        messages_tokens(prepared(*endpoint, request@).messages) <= u32::MAX,
    ensures
        r is Err <==> too_large(*endpoint, request@),
        ({
            let p = prepared(*endpoint, request@);
            let n = messages_tokens(p.messages);
            match r {
                Ok(q) => n <= endpoint.def.max_input_tokens && q@ == p,
                Err(e) => n > endpoint.def.max_input_tokens && e@ == AppErrorView::InputTooLarge(
                    "Estimated "@ + decimal(n) + " input tokens exceeds maximum of "@ + decimal(
                        endpoint.def.max_input_tokens as nat,
                    ),
                ),
            }
        }),
{
    let out = prepare_request(endpoint, request);
    let tokens: u32 = estimate_request_tokens(&out);
    if tokens > endpoint.def.max_input_tokens {
        let mut m = "Estimated ".to_owned();
        m.append(decimal_text(tokens as u128).as_str());
        m.append(" input tokens exceeds maximum of ");
        m.append(decimal_text(endpoint.def.max_input_tokens as u128).as_str());
        return Err(AppError::InputTooLarge(m));
    }
    Ok(out)
}

// ---------------------------------------------------------------------------
// Laws
// ---------------------------------------------------------------------------

/// A request that was prepared has a system message first or somewhere, where
/// the endpoint has a system prompt, and states a limit of tokens. Preparing
/// it again changes nothing.
pub proof fn law_prepared_once(e: ResolvedEndpoint, r: RequestView)
    ensures
        e.system_prompt is Some ==> has_system_message(prepared(e, r).messages),
        prepared(e, r).max_tokens is Some,
        prepared(e, prepared(e, r)) == prepared(e, r),
{
    if e.system_prompt is Some && !has_system_message(r.messages) {
        assert(prepared(e, r).messages[0].role == "system"@);
    }
}

/// The messages of the client all stay, in their order, at the end.
pub proof fn law_messages_stay(e: ResolvedEndpoint, r: RequestView)
    ensures
        ({
            let ms = prepared(e, r).messages;
            &&& ms.len() >= r.messages.len()
            &&& ms.skip(ms.len() - r.messages.len()) == r.messages
        }),
{
    let ms = prepared(e, r).messages;
    assert(ms.skip(ms.len() - r.messages.len()) =~= r.messages);
}

/// Preparing a request changes nothing but its messages and its limit of
/// tokens: the model, the temperature, the streaming, the tools, the choice
/// among them and the way of payment are the client's.
pub proof fn law_the_rest_stays(e: ResolvedEndpoint, r: RequestView)
    ensures
        ({
            let p = prepared(e, r);
            &&& p.model == r.model
            &&& p.temperature == r.temperature
            &&& p.stream == r.stream
            &&& p.tools == r.tools
            &&& p.tool_choice == r.tool_choice
            &&& p.payment_type == r.payment_type
        }),
{
}

/// The limit of tokens of a prepared request is the client's, where the client
/// has set one, and the endpoint's otherwise.
pub proof fn law_client_limit_counts(e: ResolvedEndpoint, r: RequestView)
    ensures
        r.max_tokens is Some ==> prepared(e, r).max_tokens == r.max_tokens,
        r.max_tokens is None ==> prepared(e, r).max_tokens == Some(e.def.max_output_tokens),
{
}

/// The system prompt of the endpoint stands in front of the messages of a
/// client who brings no system message, once and as it is; it does not stand
/// in front of those of any other client.
pub proof fn law_system_prompt_comes_first(e: ResolvedEndpoint, r: RequestView)
    ensures
        ({
            let ms = prepared(e, r).messages;
            let brings_one = exists|i: int|
                0 <= i < r.messages.len() && (#[trigger] r.messages[i]).role == "system"@;
            &&& e.system_prompt is Some && !brings_one ==> {
                &&& ms.len() == r.messages.len() + 1
                &&& ms[0].role == "system"@
                &&& ms[0].content == Some(e.system_prompt->0@)
                &&& ms[0].tool_calls is None
                &&& ms[0].tool_call_id is None
            }
            &&& e.system_prompt is None || brings_one ==> ms == r.messages
        }),
{
}

/// The body that an upstream API in OpenAI's format is sent for a client's
/// request holds the client's tools, the choice among them, the temperature
/// and the streaming.
pub proof fn law_upstream_gets_what_was_asked(e: ResolvedEndpoint, c: ClientView, r: RequestView)
    requires
        c.archetype != "anthropic"@,
    ensures
        ({
            let b = upstream_request(c, prepared(e, r)).body;
            let sent = JsonView::Object(request_fields(r));
            &&& b.field("tools"@) == sent.field("tools"@)
            &&& b.field("tool_choice"@) == r.tool_choice
            &&& b.field("temperature"@) == r.temperature
            &&& b.field("stream"@) == sent.field("stream"@)
        }),
{
    let p = prepared(e, r);
    law_openai_request(c, p);
    law_request_is_written(p);
    law_request_is_written(r);
    let a = JsonView::Object(request_fields(p)).field("tools"@);
    let b = JsonView::Object(request_fields(r)).field("tools"@);
    if r.tools is Some {
        assert(a->0->List_0 =~= b->0->List_0);
    }
}

/// The estimate of a request counts every message: that of two lists of
/// messages together is the sum of those of the two.
pub proof fn law_estimate_adds_up(a: Seq<MessageView>, b: Seq<MessageView>)
    ensures
        messages_tokens(a + b) == messages_tokens(a) + messages_tokens(b),
    decreases b.len(),
{
    if b.len() == 0 {
        assert(a + b =~= a);
    } else {
        law_estimate_adds_up(a, b.drop_last());
        assert((a + b).drop_last() =~= a + b.drop_last());
    }
}

/// The estimate of one message is a token for every four characters of its
/// role, and one for every four of its content.
pub proof fn law_estimate_of_a_message(m: MessageView)
    requires
        m.role.len() <= u32::MAX,
        m.content is Some ==> m.content->0.len() <= u32::MAX,
    ensures
        ({
            let n = messages_tokens(seq![m]);
            let content: nat = if m.content is Some {
                m.content->0.len()
            } else {
                0
            };
            &&& 4 * n <= m.role.len() + content
            &&& m.role.len() + content <= 4 * n + 6
            &&& m.role.len() % 4 == 0 && content % 4 == 0 ==> 4 * n == m.role.len() + content
        }),
{
    assert(seq![m].drop_last() =~= seq![]);
    assert(messages_tokens(seq![]) == 0);
}

/// A request is let through up to the endpoint's limit of input, and refused
/// above it: of two endpoints that differ in the limit alone, one whose limit
/// is at least the estimate takes the request, and one whose limit is below it
/// does not. What the client sets as limit of output does not matter.
pub proof fn law_input_limit(
    e: ResolvedEndpoint,
    r: RequestView,
    limit: u32,
    output: Option<u32>,
)
    ensures
        ({
            let n = messages_tokens(prepared(e, r).messages);
            let other = ResolvedEndpoint {
                def: EndpointDef { max_input_tokens: limit, ..e.def },
                ..e
            };
            &&& n <= limit ==> !too_large(other, r)
            &&& limit < n ==> too_large(other, r)
            &&& too_large(e, RequestView { max_tokens: output, ..r }) == too_large(e, r)
        }),
{
}

} // verus!
