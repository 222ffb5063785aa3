//! Requests to the upstream inference APIs, and what their replies say.
//!
//! Most upstream APIs speak OpenAI's chat format, with small differences by
//! archetype. Anthropic's Messages API has a format of its own; requests are
//! converted to it and its responses back.

use vstd::prelude::*;
use vstd::string::*;
use vstd::utf8::*;

use crate::error::{AppError, AppErrorView};
use crate::http::{pairs_view, text_view};
use crate::json::{
    field_of, json_parsed, json_text, list_content, number, text_in, unsigned_in, with_field, Json,
    JsonObject, JsonView,
};
use crate::models::chat::{
    calls_view, copy_json, json_list, law_request_is_written, messages_view, request_fields,
    tools_view, ChatChoice, ChatMessage, ChatRequest, ChatResponse, ChatUsage, ChoiceView,
    FunctionCall, MessageView, RequestView, ResponseMessage, ResponseView, Tool, ToolCall,
    ToolCallView, ToolView,
};
use crate::services::facilitator::field_text;
use crate::text::same_text;

verus! {

/// An upstream API: where it is, its key, the model it is asked for, and the
/// archetype of its protocol.
#[derive(Clone)]
pub struct InferenceClient {
    endpoint: String,
    api_key: String,
    default_model: String,
    archetype: String,
}

/// An upstream API.
pub struct ClientView {
    pub endpoint: Seq<char>,
    pub api_key: Seq<char>,
    pub default_model: Seq<char>,
    pub archetype: Seq<char>,
}

impl View for InferenceClient {
    type V = ClientView;

    closed spec fn view(&self) -> ClientView {
        ClientView {
            endpoint: self.endpoint@,
            api_key: self.api_key@,
            default_model: self.default_model@,
            archetype: self.archetype@,
        }
    }
}

/// A request that is posted to an upstream API.
pub struct UpstreamRequest {
    pub url: String,
    pub headers: Vec<(String, String)>,
    pub body: Json,
}

/// A request that is posted to an upstream API.
pub struct UpstreamView {
    pub url: Seq<char>,
    pub headers: Seq<(Seq<char>, Seq<char>)>,
    pub body: JsonView,
}

impl View for UpstreamRequest {
    type V = UpstreamView;

    open spec fn view(&self) -> UpstreamView {
        UpstreamView { url: self.url@, headers: pairs_view(self.headers@), body: self.body@ }
    }
}

/// What came of a request to an upstream API.
pub enum UpstreamReply {
    /// No reply, with the error.
    Failed(String),
    /// A reply with another status than success: the status and the body.
    Refused { status: String, body: String },
    /// A successful reply whose body could not be read, with the error.
    Unread(String),
    /// The body of a successful reply.
    Body(String),
}

/// What came of a request to an upstream API.
pub enum UpstreamReplyView {
    Failed(Seq<char>),
    Refused { status: Seq<char>, body: Seq<char> },
    Unread(Seq<char>),
    Body(Seq<char>),
}

impl View for UpstreamReply {
    type V = UpstreamReplyView;

    open spec fn view(&self) -> UpstreamReplyView {
        match self {
            UpstreamReply::Failed(e) => UpstreamReplyView::Failed(e@),
            UpstreamReply::Refused { status, body } => UpstreamReplyView::Refused {
                status: status@,
                body: body@,
            },
            UpstreamReply::Unread(e) => UpstreamReplyView::Unread(e@),
            UpstreamReply::Body(b) => UpstreamReplyView::Body(b@),
        }
    }
}

/// The body of a successful reply, or the message of the error.
pub open spec fn reply_body(reply: UpstreamReplyView) -> Result<Seq<char>, Seq<char>> {
    match reply {
        UpstreamReplyView::Failed(e) => Err("Connection failed: "@ + e),
        UpstreamReplyView::Refused { status, body } => Err(
            "API returned "@ + status + ": "@ + body,
        ),
        UpstreamReplyView::Unread(e) => Err("Failed to read response: "@ + e),
        UpstreamReplyView::Body(b) => Ok(b),
    }
}

// ---------------------------------------------------------------------------
// Requests in OpenAI's format
// ---------------------------------------------------------------------------

/// An object with one field `type`.
pub open spec fn of_type(t: Seq<char>) -> JsonView {
    JsonView::Object(map!["type"@ => JsonView::Text(t)])
}

/// The fields that an API in OpenAI's format is sent: those of the request
/// with the configured model, without the way of payment. OpenAI itself takes
/// the token limit under another name, and Kimi is told not to think.
pub open spec fn openai_fields(c: ClientView, r: RequestView) -> Map<Seq<char>, JsonView> {
    let o = request_fields(r).insert("model"@, JsonView::Text(c.default_model));
    let o = if c.archetype == "openai"@ {
        match r.max_tokens {
            Some(n) => o.insert("max_completion_tokens"@, number(n as int)).remove("max_tokens"@),
            None => o,
        }
    } else if c.archetype == "kimi"@ {
        o.insert("thinking"@, of_type("disabled"@))
    } else {
        o
    };
    o.remove("payment_type"@)
}

// ---------------------------------------------------------------------------
// Requests in Anthropic's format
// ---------------------------------------------------------------------------

/// The characters of a text, or none.
pub open spec fn text_or_empty(s: Option<Seq<char>>) -> Seq<char> {
    match s {
        Some(t) => t,
        None => ""@,
    }
}

/// What the arguments of a tool call read as; an empty object where they are
/// no JSON.
pub open spec fn tool_input(parsed: Result<JsonView, Seq<char>>) -> JsonView {
    match parsed {
        Ok(j) => j,
        Err(_) => JsonView::Object(Map::empty()),
    }
}

/// A text block.
pub open spec fn text_block(text: Seq<char>) -> JsonView {
    JsonView::Object(map!["type"@ => JsonView::Text("text"@), "text"@ => JsonView::Text(text)])
}

/// The block of a tool call.
pub open spec fn tool_use_block(c: ToolCallView) -> JsonView {
    JsonView::Object(
        map![
            "type"@ => JsonView::Text("tool_use"@),
            "id"@ => JsonView::Text(c.id),
            "name"@ => JsonView::Text(c.name),
            "input"@ => tool_input(json_parsed(encode_utf8(c.arguments))),
        ],
    )
}

/// The blocks of a message of the model that calls tools: its text, where
/// there is any, then the calls.
pub open spec fn call_blocks(content: Option<Seq<char>>, calls: Seq<ToolCallView>) -> Seq<JsonView> {
    let front = match content {
        Some(t) => if t.len() > 0 {
            seq![text_block(t)]
        } else {
            seq![]
        },
        None => seq![],
    };
    front + calls.map_values(|c: ToolCallView| tool_use_block(c))
}

/// The block of a tool result.
pub open spec fn tool_result_block(m: MessageView) -> JsonView {
    JsonView::Object(
        map![
            "type"@ => JsonView::Text("tool_result"@),
            "tool_use_id"@ => JsonView::Text(text_or_empty(m.tool_call_id)),
            "content"@ => JsonView::Text(text_or_empty(m.content)),
        ],
    )
}

/// A message with a role and a content.
pub open spec fn role_message(role: Seq<char>, content: JsonView) -> JsonView {
    JsonView::Object(map!["role"@ => JsonView::Text(role), "content"@ => content])
}

/// A message that is not a system message, in Anthropic's format: a tool
/// result is a block of a user message, tool calls are blocks of a message of
/// the model, and other messages are text.
pub open spec fn anthropic_message(m: MessageView) -> JsonView {
    if m.role == "tool"@ {
        role_message("user"@, JsonView::List(seq![tool_result_block(m)]))
    } else if m.role == "assistant"@ && m.tool_calls is Some {
        role_message("assistant"@, JsonView::List(call_blocks(m.content, m.tool_calls->0)))
    } else {
        role_message(m.role, JsonView::Text(text_or_empty(m.content)))
    }
}

/// The messages that are not system messages, in Anthropic's format.
pub open spec fn anthropic_messages(ms: Seq<MessageView>) -> Seq<JsonView>
    decreases ms.len(),
{
    if ms.len() == 0 {
        seq![]
    } else if ms.last().role == "system"@ {
        anthropic_messages(ms.drop_last())
    } else {
        anthropic_messages(ms.drop_last()).push(anthropic_message(ms.last()))
    }
}

/// The texts of the system messages.
pub open spec fn system_parts(ms: Seq<MessageView>) -> Seq<Seq<char>>
    decreases ms.len(),
{
    if ms.len() == 0 {
        seq![]
    } else if ms.last().role == "system"@ && ms.last().content is Some {
        system_parts(ms.drop_last()).push(ms.last().content->0)
    } else {
        system_parts(ms.drop_last())
    }
}

/// Texts with a separator between them.
pub open spec fn joined(parts: Seq<Seq<char>>, sep: Seq<char>) -> Seq<char>
    decreases parts.len(),
{
    if parts.len() == 0 {
        ""@
    } else if parts.len() == 1 {
        parts[0]
    } else {
        joined(parts.drop_last(), sep) + sep + parts.last()
    }
}

/// A tool in Anthropic's format.
pub open spec fn anthropic_tool(t: ToolView) -> JsonView {
    JsonView::Object(
        map![
            "name"@ => JsonView::Text(t.name),
            "description"@ => JsonView::Text(t.description),
            "input_schema"@ => t.parameters,
        ],
    )
}

/// The choice of a tool in Anthropic's format.
pub open spec fn anthropic_choice(tc: JsonView) -> JsonView {
    match tc {
        JsonView::Text(s) => if s == "none"@ || s == "required"@ {
            of_type("any"@)
        } else {
            of_type("auto"@)
        },
        JsonView::Object(_) => match text_in(field_of(tc.field("function"@), "name"@)) {
            Some(name) => JsonView::Object(
                map!["type"@ => JsonView::Text("tool"@), "name"@ => JsonView::Text(name)],
            ),
            None => of_type("auto"@),
        },
        _ => of_type("auto"@),
    }
}

/// The system prompt, where there are system messages with a text.
pub open spec fn system_prompt(ms: Seq<MessageView>) -> Option<JsonView> {
    if system_parts(ms).len() == 0 {
        None
    } else {
        Some(JsonView::Text(joined(system_parts(ms), "\n\n"@)))
    }
}

/// The fields that Anthropic's API is sent.
pub open spec fn anthropic_fields(c: ClientView, r: RequestView) -> Map<Seq<char>, JsonView> {
    let o = map!["model"@ => JsonView::Text(c.default_model)];
    let o = with_field(o, "system"@, system_prompt(r.messages));
    let o = o.insert("messages"@, JsonView::List(anthropic_messages(r.messages)));
    let o = o.insert(
        "max_tokens"@,
        number(
            match r.max_tokens {
                Some(n) => n as int,
                None => 8192,
            },
        ),
    );
    let o = with_field(o, "temperature"@, r.temperature);
    match r.tools {
        Some(ts) => {
            let o = o.insert(
                "tools"@,
                JsonView::List(ts.map_values(|t: ToolView| anthropic_tool(t))),
            );
            match r.tool_choice {
                Some(tc) => o.insert("tool_choice"@, anthropic_choice(tc)),
                None => o,
            }
        },
        None => o,
    }
}

/// The request that an upstream API is sent for a chat request.
pub open spec fn upstream_request(c: ClientView, r: RequestView) -> UpstreamView {
    if c.archetype == "anthropic"@ {
        UpstreamView {
            url: c.endpoint,
            headers: seq![
                ("x-api-key"@, c.api_key),
                ("anthropic-version"@, "2023-06-01"@),
                ("Content-Type"@, "application/json"@),
            ],
            body: JsonView::Object(anthropic_fields(c, r)),
        }
    } else {
        UpstreamView {
            url: c.endpoint,
            headers: seq![
                ("Authorization"@, "Bearer "@ + c.api_key),
                ("Content-Type"@, "application/json"@),
            ],
            body: JsonView::Object(openai_fields(c, r)),
        }
    }
}

// ---------------------------------------------------------------------------
// Responses in Anthropic's format
// ---------------------------------------------------------------------------

/// The text of a field, or a default.
pub open spec fn text_field_or(j: JsonView, key: Seq<char>, default: Seq<char>) -> Seq<char> {
    match text_in(j.field(key)) {
        Some(s) => s,
        None => default,
    }
}

/// The texts of the text blocks.
pub open spec fn block_texts(blocks: Seq<JsonView>) -> Seq<Seq<char>>
    decreases blocks.len(),
{
    if blocks.len() == 0 {
        seq![]
    } else {
        let rest = block_texts(blocks.drop_last());
        let b = blocks.last();
        if text_in(b.field("type"@)) == Some("text"@) && text_in(b.field("text"@)) is Some {
            rest.push(text_in(b.field("text"@))->0)
        } else {
            rest
        }
    }
}

/// The tool call of a tool block.
pub open spec fn block_call(b: JsonView) -> ToolCallView {
    ToolCallView {
        id: text_field_or(b, "id"@, "call_unknown"@),
        call_type: "function"@,
        name: text_field_or(b, "name"@, ""@),
        arguments: json_text(
            match b.field("input"@) {
                Some(j) => j,
                None => JsonView::Object(Map::empty()),
            },
        ),
    }
}

/// The tool calls of the tool blocks.
pub open spec fn block_calls(blocks: Seq<JsonView>) -> Seq<ToolCallView>
    decreases blocks.len(),
{
    if blocks.len() == 0 {
        seq![]
    } else {
        let rest = block_calls(blocks.drop_last());
        if text_in(blocks.last().field("type"@)) == Some("tool_use"@) {
            rest.push(block_call(blocks.last()))
        } else {
            rest
        }
    }
}

/// The blocks of a response.
pub open spec fn response_blocks(resp: JsonView) -> Seq<JsonView> {
    match resp.field("content"@) {
        Some(c) => match c.items() {
            Some(v) => v,
            None => seq![],
        },
        None => seq![],
    }
}

/// Why a response ended, in OpenAI's words.
pub open spec fn finish_reason(stop: Option<Seq<char>>) -> Option<Seq<char>> {
    match stop {
        Some(s) => if s == "end_turn"@ || s == "stop_sequence"@ {
            Some("stop"@)
        } else if s == "tool_use"@ {
            Some("tool_calls"@)
        } else if s == "max_tokens"@ {
            Some("length"@)
        } else {
            Some(s)
        },
        None => None,
    }
}

/// A number of tokens, or 0.
pub open spec fn tokens_in(usage: JsonView, key: Seq<char>) -> u64 {
    match unsigned_in(usage.field(key)) {
        Some(n) => n,
        None => 0,
    }
}

/// The lower 32 bits of a number.
pub open spec fn low32(n: int) -> u32 {
    (n % 0x1_0000_0000) as u32
}

/// The tokens of a response, where it states any.
pub open spec fn response_usage(resp: JsonView) -> Option<ChatUsage> {
    match resp.field("usage"@) {
        Some(u) => Some(
            ChatUsage {
                prompt_tokens: low32(tokens_in(u, "input_tokens"@) as int),
                completion_tokens: low32(tokens_in(u, "output_tokens"@) as int),
                total_tokens: low32(
                    tokens_in(u, "input_tokens"@) + tokens_in(u, "output_tokens"@),
                ),
            },
        ),
        None => None,
    }
}

/// A response of Anthropic's API in OpenAI's format.
pub open spec fn openai_response(c: ClientView, resp: JsonView) -> ResponseView {
    let texts = block_texts(response_blocks(resp));
    let calls = block_calls(response_blocks(resp));
    ResponseView {
        id: text_field_or(resp, "id"@, "msg_unknown"@),
        object: "chat.completion"@,
        created: 0,
        model: text_field_or(resp, "model"@, c.default_model),
        choices: seq![
            ChoiceView {
                index: 0,
                role: "assistant"@,
                content: if texts.len() == 0 {
                    None
                } else {
                    Some(joined(texts, ""@))
                },
                tool_calls: if calls.len() == 0 {
                    None
                } else {
                    Some(calls)
                },
                finish_reason: finish_reason(text_in(resp.field("stop_reason"@))),
            },
        ],
        usage: response_usage(resp),
    }
}

// ---------------------------------------------------------------------------
// The client
// ---------------------------------------------------------------------------

/// The characters of a list of texts.
spec fn parts_view(v: Seq<String>) -> Seq<Seq<char>> {
    Seq::new(v.len(), |i: int| v[i]@)
}

/// Texts with a separator between them.
fn join(parts: &Vec<String>, sep: &str) -> (r: String)
    ensures
        r@ == joined(parts_view(parts@), sep@),
{
    let ghost views = parts_view(parts@);
    let mut out = "".to_owned();
    let mut i: usize = 0;
    assert(views.take(0) =~= seq![]);
    while i < parts.len()
        invariant
            i <= parts@.len(),
            views == parts_view(parts@),
            out@ == joined(views.take(i as int), sep@),
        decreases parts@.len() - i,
    {
        assert(views.take(i + 1).drop_last() =~= views.take(i as int));
        assert(views.take(i + 1).last() == parts@[i as int]@);
        if i == 0 {
            out = parts[i].clone();
        } else {
            out.append(sep);
            out.append(parts[i].as_str());
        }
        i += 1;
    }
    assert(views.take(i as int) =~= views);
    out
}

/// An object with one field `type`.
fn type_object(t: &str) -> (r: Json)
    ensures
        r@ == of_type(t@),
{
    let mut o = JsonObject::new();
    o.put("type", Json::str(t));
    Json::Object(o)
}

/// A message with a role and a content.
fn message_object(role: &str, content: Json) -> (r: Json)
    ensures
        r@ == role_message(role@, content@),
{
    let mut o = JsonObject::new();
    o.put("role", Json::str(role));
    o.put("content", content);
    Json::Object(o)
}

/// The characters of an optional text, or none.
fn or_empty(s: &Option<String>) -> (r: Json)
    ensures
        r@ == JsonView::Text(text_or_empty(text_view(*s))),
{
    match s {
        Some(t) => Json::str(t.as_str()),
        None => Json::str(""),
    }
}

/// The input of a tool call, given what its arguments read as.
pub fn input_or_empty(parsed: Result<Json, String>) -> (r: Json)
    ensures
        r@ == tool_input(
            match parsed {
                Ok(j) => Ok::<JsonView, Seq<char>>(j@),
                Err(e) => Err::<JsonView, Seq<char>>(e@),
            },
        ),
{
    match parsed {
        Ok(j) => j,
        Err(_) => Json::Object(JsonObject::new()),
    }
}

/// What the arguments of a tool call read as.
fn read_input(arguments: &str) -> (r: Json)
    ensures
        r@ == tool_input(json_parsed(encode_utf8(arguments@))),
{
    input_or_empty(Json::parse(arguments.as_bytes()))
}

/// The blocks of a message of the model that calls tools.
fn build_call_blocks(content: &Option<String>, calls: &Vec<ToolCall>) -> (r: Json)
    ensures
        r@ == JsonView::List(call_blocks(text_view(*content), calls_view(calls@))),
{
    let mut out: Vec<Json> = Vec::new();
    match content {
        Some(t) => {
            if !t.as_str().is_empty() {
                let mut o = JsonObject::new();
                o.put("type", Json::str("text"));
                o.put("text", Json::str(t.as_str()));
                out.push(Json::Object(o));
            }
        },
        None => {},
    }
    let ghost front = list_content(out@);
    let ghost blocks = calls_view(calls@).map_values(|c: ToolCallView| tool_use_block(c));
    assert(front + blocks.take(0) =~= front);
    let mut i: usize = 0;
    while i < calls.len()
        invariant
            i <= calls@.len(),
            blocks == calls_view(calls@).map_values(|c: ToolCallView| tool_use_block(c)),
            list_content(out@) == front + blocks.take(i as int),
        decreases calls@.len() - i,
    {
        let c = &calls[i];
        let mut o = JsonObject::new();
        o.put("type", Json::str("tool_use"));
        o.put("id", Json::str(c.id.as_str()));
        o.put("name", Json::str(c.function.name.as_str()));
        o.put("input", read_input(c.function.arguments.as_str()));
        let ghost before = out@;
        let block = Json::Object(o);
        assert(block@ == blocks[i as int]);
        out.push(block);
        assert(list_content(out@) =~= list_content(before).push(block@));
        i += 1;
        assert(front + blocks.take(i as int) =~= (front + blocks.take(i - 1)).push(
            blocks[i - 1],
        ));
    }
    assert(blocks.take(i as int) =~= blocks);
    assert(list_content(out@) =~= call_blocks(text_view(*content), calls_view(calls@)));
    json_list(out)
}

/// A message that is not a system message, in Anthropic's format.
fn build_message(m: &ChatMessage) -> (r: Json)
    ensures
        r@ == anthropic_message(m@),
{
    if same_text(m.role.as_str(), "tool") {
        let mut o = JsonObject::new();
        o.put("type", Json::str("tool_result"));
        o.put("tool_use_id", or_empty(&m.tool_call_id));
        o.put("content", or_empty(&m.content));
        let mut v: Vec<Json> = Vec::new();
        v.push(Json::Object(o));
        assert(list_content(v@) =~= seq![tool_result_block(m@)]);
        return message_object("user", json_list(v));
    }
    if same_text(m.role.as_str(), "assistant") {
        if let Some(calls) = &m.tool_calls {
            return message_object("assistant", build_call_blocks(&m.content, calls));
        }
    }
    message_object(m.role.as_str(), or_empty(&m.content))
}

/// The texts of the system messages, and the other messages in Anthropic's
/// format.
fn split_messages(ms: &Vec<ChatMessage>) -> (r: (Vec<String>, Vec<Json>))
    ensures
        parts_view(r.0@) == system_parts(messages_view(ms@)),
        list_content(r.1@) == anthropic_messages(messages_view(ms@)),
{
    let ghost views = messages_view(ms@);
    let mut system: Vec<String> = Vec::new();
    let mut others: Vec<Json> = Vec::new();
    assert(views.take(0) =~= seq![]);
    assert(parts_view(system@) =~= seq![]);
    assert(list_content(others@) =~= seq![]);
    let mut i: usize = 0;
    while i < ms.len()
        invariant
            i <= ms@.len(),
            views == messages_view(ms@),
            parts_view(system@) == system_parts(views.take(i as int)),
            list_content(others@) == anthropic_messages(views.take(i as int)),
        decreases ms@.len() - i,
    {
        let m = &ms[i];
        let ghost s = system@;
        let ghost o = others@;
        assert(views.take(i + 1).drop_last() =~= views.take(i as int));
        assert(views.take(i + 1).last() == m@);
        if same_text(m.role.as_str(), "system") {
            if let Some(t) = &m.content {
                system.push(t.clone());
                assert(parts_view(system@) =~= parts_view(s).push(t@));
            }
        } else {
            let j = build_message(m);
            others.push(j);
            assert(list_content(others@) =~= list_content(o).push(j@));
        }
        i += 1;
    }
    assert(views.take(i as int) =~= views);
    (system, others)
}

/// The tools in Anthropic's format.
fn build_tools(ts: &Vec<Tool>) -> (r: Json)
    ensures
        r@ == JsonView::List(tools_view(ts@).map_values(|t: ToolView| anthropic_tool(t))),
{
    let mut out: Vec<Json> = Vec::new();
    let mut i: usize = 0;
    while i < ts.len()
        invariant
            i <= ts@.len(),
            out@.len() == i,
            forall|j: int| 0 <= j < i ==> (#[trigger] out@[j])@ == anthropic_tool(ts@[j]@),
        decreases ts@.len() - i,
    {
        let t = &ts[i];
        let mut o = JsonObject::new();
        o.put("name", Json::str(t.function.name.as_str()));
        o.put("description", Json::str(t.function.description.as_str()));
        o.put("input_schema", t.function.parameters.copy());
        out.push(Json::Object(o));
        i += 1;
    }
    assert(list_content(out@) =~= tools_view(ts@).map_values(|t: ToolView| anthropic_tool(t)));
    json_list(out)
}

/// The choice of a tool in Anthropic's format.
fn build_choice(tc: &Json) -> (r: Json)
    ensures
        r@ == anthropic_choice(tc@),
{
    match tc {
        Json::Text(s) => {
            if same_text(s.as_str(), "none") || same_text(s.as_str(), "required") {
                type_object("any")
            } else {
                type_object("auto")
            }
        },
        Json::Object(_) => {
            let name = match tc.get("function") {
                Some(f) => field_text(f, "name"),
                None => None,
            };
            match name {
                Some(n) => {
                    let mut o = JsonObject::new();
                    o.put("type", Json::str("tool"));
                    o.put("name", Json::str(n.as_str()));
                    Json::Object(o)
                },
                None => type_object("auto"),
            }
        },
        _ => type_object("auto"),
    }
}

/// A header field.
fn header(name: &str, value: &str) -> (r: (String, String))
    ensures
        r.0@ == name@,
        r.1@ == value@,
{
    (name.to_owned(), value.to_owned())
}

/// A text, or a default.
fn text_or(s: Option<String>, default: &str) -> (r: String)
    ensures
        r@ == (match text_view(s) {
            Some(t) => t,
            None => default@,
        }),
{
    match s {
        Some(t) => t,
        None => default.to_owned(),
    }
}

/// A number of tokens, or 0.
fn read_tokens(usage: &Json, key: &str) -> (r: u64)
    ensures
        r == tokens_in(usage@, key@),
{
    match usage.get(key) {
        Some(j) => match j.as_u64() {
            Some(n) => n,
            None => 0,
        },
        None => 0,
    }
}

/// The error of a backend with a message made of two parts.
fn backend_error(front: &str, e: &str) -> (r: AppError)
    ensures
        r@ == AppErrorView::InferenceBackend(front@ + e@),
{
    let mut m = front.to_owned();
    m.append(e);
    AppError::InferenceBackend(m)
}

/// The texts and the tool calls of the blocks of a response.
fn read_blocks(blocks: &Vec<Json>) -> (r: (Vec<String>, Vec<ToolCall>))
    ensures
        parts_view(r.0@) == block_texts(list_content(blocks@)),
        calls_view(r.1@) == block_calls(list_content(blocks@)),
{
    let ghost views = list_content(blocks@);
    let mut texts: Vec<String> = Vec::new();
    let mut calls: Vec<ToolCall> = Vec::new();
    assert(views.take(0) =~= seq![]);
    assert(parts_view(texts@) =~= seq![]);
    assert(calls_view(calls@) =~= seq![]);
    proof {
        lemma_types_differ();
    }
    let mut i: usize = 0;
    while i < blocks.len()
        invariant
            i <= blocks@.len(),
            views == list_content(blocks@),
            "text"@ != "tool_use"@,
            parts_view(texts@) == block_texts(views.take(i as int)),
            calls_view(calls@) == block_calls(views.take(i as int)),
        decreases blocks@.len() - i,
    {
        let b = &blocks[i];
        let ghost t = texts@;
        let ghost c = calls@;
        assert(views.take(i + 1).drop_last() =~= views.take(i as int));
        assert(views.take(i + 1).last() == b@);
        if let Some(kind) = field_text(b, "type") {
            if same_text(kind.as_str(), "text") {
                if let Some(text) = field_text(b, "text") {
                    let ghost shown = text@;
                    texts.push(text);
                    assert(parts_view(texts@) =~= parts_view(t).push(shown));
                }
            } else if same_text(kind.as_str(), "tool_use") {
                let id = text_or(field_text(b, "id"), "call_unknown");
                let name = text_or(field_text(b, "name"), "");
                let arguments = match b.get("input") {
                    Some(j) => j.to_text(),
                    None => Json::Object(JsonObject::new()).to_text(),
                };
                let call = ToolCall {
                    id,
                    call_type: "function".to_owned(),
                    function: FunctionCall { name, arguments },
                };
                let ghost shown = call@;
                assert(shown == block_call(b@));
                calls.push(call);
                assert(calls_view(calls@) =~= calls_view(c).push(shown));
            }
        }
        i += 1;
    }
    assert(views.take(i as int) =~= views);
    (texts, calls)
}

/// The two kinds of blocks have different names.
proof fn lemma_types_differ()
    ensures
        "text"@ != "tool_use"@,
{
    reveal_strlit("text");
    reveal_strlit("tool_use");
    assert("text"@.len() != "tool_use"@.len());
}

impl InferenceClient {
    /// A client for an upstream API.
    pub fn new(endpoint: &str, api_key: &str, default_model: &str, archetype: &str) -> (r: Self)
        ensures
            r@ == (ClientView {
                endpoint: endpoint@,
                api_key: api_key@,
                default_model: default_model@,
                archetype: archetype@,
            }),
    {
        InferenceClient {
            endpoint: endpoint.to_owned(),
            api_key: api_key.to_owned(),
            default_model: default_model.to_owned(),
            archetype: archetype.to_owned(),
        }
    }

    /// A copy of this client.
    pub fn copy(&self) -> (r: Self)
        ensures
            r@ == self@,
    {
        InferenceClient {
            endpoint: self.endpoint.clone(),
            api_key: self.api_key.clone(),
            default_model: self.default_model.clone(),
            archetype: self.archetype.clone(),
        }
    }

    /// Whether the API speaks Anthropic's format.
    pub fn is_anthropic(&self) -> (r: bool)
        ensures
            r == (self@.archetype == "anthropic"@),
    {
        same_text(self.archetype.as_str(), "anthropic")
    }

    /// The fields that an API in OpenAI's format is sent.
    fn openai_body(&self, request: &ChatRequest) -> (r: Json)
        ensures
            r@ == JsonView::Object(openai_fields(self@, request@)),
    {
        let mut o = request.to_fields();
        o.put("model", Json::str(self.default_model.as_str()));
        if same_text(self.archetype.as_str(), "openai") {
            if let Some(n) = request.max_tokens {
                o.put("max_completion_tokens", Json::unsigned(n as u64));
                o.remove("max_tokens");
            }
        } else if same_text(self.archetype.as_str(), "kimi") {
            o.put("thinking", type_object("disabled"));
        }
        o.remove("payment_type");
        Json::Object(o)
    }

    /// The fields that Anthropic's API is sent.
    fn anthropic_body(&self, request: &ChatRequest) -> (r: Json)
        ensures
            r@ == JsonView::Object(anthropic_fields(self@, request@)),
    {
        let (system, messages) = split_messages(&request.messages);
        let mut o = JsonObject::new();
        o.put("model", Json::str(self.default_model.as_str()));
        assert(parts_view(system@).len() == system@.len());
        if system.len() > 0 {
            o.put("system", Json::str(join(&system, "\n\n").as_str()));
        }
        o.put("messages", json_list(messages));
        let max_tokens: u32 = match request.max_tokens {
            Some(n) => n,
            None => 8192,
        };
        o.put("max_tokens", Json::unsigned(max_tokens as u64));
        o.put_some("temperature", copy_json(&request.temperature));
        if let Some(ts) = &request.tools {
            o.put("tools", build_tools(ts));
            if let Some(tc) = &request.tool_choice {
                o.put("tool_choice", build_choice(tc));
            }
        }
        Json::Object(o)
    }

    /// The request that the API is sent for a chat request.
    pub fn chat_request(&self, request: &ChatRequest) -> (r: UpstreamRequest)
        ensures
            r@ == upstream_request(self@, request@),
    {
        let mut headers: Vec<(String, String)> = Vec::new();
        if self.is_anthropic() {
            headers.push(header("x-api-key", self.api_key.as_str()));
            headers.push(header("anthropic-version", "2023-06-01"));
            headers.push(header("Content-Type", "application/json"));
            let r = UpstreamRequest {
                url: self.endpoint.clone(),
                headers,
                body: self.anthropic_body(request),
            };
            assert(r@.headers =~= upstream_request(self@, request@).headers);
            r
        } else {
            let mut bearer = "Bearer ".to_owned();
            bearer.append(self.api_key.as_str());
            headers.push(header("Authorization", bearer.as_str()));
            headers.push(header("Content-Type", "application/json"));
            let r = UpstreamRequest {
                url: self.endpoint.clone(),
                headers,
                body: self.openai_body(request),
            };
            assert(r@.headers =~= upstream_request(self@, request@).headers);
            r
        }
    }

    /// The body of a successful reply.
    pub fn chat(&self, reply: UpstreamReply) -> (r: Result<String, AppError>)
        ensures
            match r {
                Ok(b) => reply_body(reply@) == Ok::<Seq<char>, Seq<char>>(b@),
                Err(e) => e@ is InferenceBackend && reply_body(reply@) == Err::<
                    Seq<char>,
                    Seq<char>,
                >(e@->InferenceBackend_0),
            },
    {
        match reply {
            UpstreamReply::Failed(e) => Err(backend_error("Connection failed: ", e.as_str())),
            UpstreamReply::Refused { status, body } => {
                let mut m = "API returned ".to_owned();
                m.append(status.as_str());
                m.append(": ");
                m.append(body.as_str());
                Err(AppError::InferenceBackend(m))
            },
            UpstreamReply::Unread(e) => Err(backend_error("Failed to read response: ", e.as_str())),
            UpstreamReply::Body(b) => Ok(b),
        }
    }

    /// The error of a response that could not be read.
    pub fn invalid_response(e: &str) -> (r: AppError)
        ensures
            r@ == AppErrorView::InferenceBackend("Invalid response: "@ + e@),
    {
        backend_error("Invalid response: ", e)
    }

    /// The response of Anthropic's API that a reply holds, in OpenAI's format.
    pub fn chat_anthropic(&self, reply: UpstreamReply) -> (r: Result<ChatResponse, AppError>)
        ensures
            match reply_body(reply@) {
                Err(m) => r is Err && r->Err_0@ == AppErrorView::InferenceBackend(m),
                Ok(body) => match json_parsed(encode_utf8(body)) {
                    Err(e) => r is Err && r->Err_0@ == AppErrorView::InferenceBackend(
                        "Invalid response: "@ + e,
                    ),
                    Ok(j) => r is Ok && r->Ok_0@ == openai_response(self@, j),
                },
            },
    {
        let body = match self.chat(reply) {
            Ok(b) => b,
            Err(e) => return Err(e),
        };
        match Json::parse(body.as_str().as_bytes()) {
            Ok(j) => Ok(self.anthropic_to_openai_response(&j)),
            Err(e) => Err(Self::invalid_response(e.as_str())),
        }
    }

    /// A response of Anthropic's API in OpenAI's format.
    pub fn anthropic_to_openai_response(&self, resp: &Json) -> (r: ChatResponse)
        ensures
            r@ == openai_response(self@, resp@),
    {
        let id = text_or(field_text(resp, "id"), "msg_unknown");
        let model = text_or(field_text(resp, "model"), self.default_model.as_str());
        let none: Vec<Json> = Vec::new();
        let blocks = match resp.get("content") {
            Some(c) => match c.as_list() {
                Some(v) => v,
                None => &none,
            },
            None => &none,
        };
        assert(list_content(blocks@) =~= response_blocks(resp@));
        let (texts, calls) = read_blocks(blocks);
        assert(parts_view(texts@).len() == texts@.len());
        assert(calls_view(calls@).len() == calls@.len());
        let content = if texts.len() == 0 {
            None
        } else {
            Some(join(&texts, ""))
        };
        let tool_calls = if calls.len() == 0 {
            None
        } else {
            Some(calls)
        };
        let stop = field_text(resp, "stop_reason");
        let finish = match stop {
            Some(s) => if same_text(s.as_str(), "end_turn") || same_text(
                s.as_str(),
                "stop_sequence",
            ) {
                Some("stop".to_owned())
            } else if same_text(s.as_str(), "tool_use") {
                Some("tool_calls".to_owned())
            } else if same_text(s.as_str(), "max_tokens") {
                Some("length".to_owned())
            } else {
                Some(s)
            },
            None => None,
        };
        let usage = match resp.get("usage") {
            Some(u) => {
                let input: u64 = read_tokens(u, "input_tokens");
                let output: u64 = read_tokens(u, "output_tokens");
                let total: u128 = input as u128 + output as u128;
                Some(
                    ChatUsage {
                        prompt_tokens: (input % 0x1_0000_0000) as u32,
                        completion_tokens: (output % 0x1_0000_0000) as u32,
                        total_tokens: (total % 0x1_0000_0000) as u32,
                    },
                )
            },
            None => None,
        };
        let mut choices: Vec<ChatChoice> = Vec::new();
        choices.push(
            ChatChoice {
                index: 0,
                message: ResponseMessage {
                    role: "assistant".to_owned(),
                    content,
                    tool_calls,
                },
                finish_reason: finish,
            },
        );
        let r = ChatResponse {
            id,
            object: "chat.completion".to_owned(),
            created: 0,
            model,
            choices,
            usage,
        };
        assert(r@.choices =~= openai_response(self@, resp@).choices);
        r
    }
}

// ---------------------------------------------------------------------------
// Laws
// ---------------------------------------------------------------------------

/// An upstream API is asked for the configured model, whatever the client has
/// asked for, and is not told how the client pays.
pub proof fn law_model_is_configured(c: ClientView, r: RequestView)
    ensures
        upstream_request(c, r).body.field("model"@) == Some(JsonView::Text(c.default_model)),
        upstream_request(c, r).body.field("payment_type"@) is None,
{
    reveal_strlit("model");
    reveal_strlit("payment_type");
    reveal_strlit("max_tokens");
    reveal_strlit("max_completion_tokens");
    reveal_strlit("thinking");
    reveal_strlit("system");
    reveal_strlit("messages");
    reveal_strlit("temperature");
    reveal_strlit("tools");
    reveal_strlit("tool_choice");
    assert("model"@.len() == 5 && "tools"@.len() == 5 && "system"@.len() == 6);
    assert("messages"@.len() == 8 && "thinking"@.len() == 8 && "max_tokens"@.len() == 10);
    assert("temperature"@.len() == 11 && "tool_choice"@.len() == 11);
    assert("payment_type"@.len() == 12 && "max_completion_tokens"@.len() == 21);
    assert("model"@[0] != "tools"@[0]);
}

/// OpenAI is told the token limit under the name that it knows, and only
/// there.
pub proof fn law_openai_token_limit(c: ClientView, r: RequestView, n: u32)
    requires
        c.archetype == "openai"@,
        r.max_tokens == Some(n),
    ensures
        upstream_request(c, r).body.field("max_completion_tokens"@) == Some(number(n as int)),
        upstream_request(c, r).body.field("max_tokens"@) is None,
{
    reveal_strlit("openai");
    reveal_strlit("anthropic");
    reveal_strlit("payment_type");
    reveal_strlit("max_tokens");
    reveal_strlit("max_completion_tokens");
    assert("openai"@.len() != "anthropic"@.len());
    assert("max_tokens"@.len() == 10 && "payment_type"@.len() == 12);
    assert("max_completion_tokens"@.len() == 21);
}

/// Among the messages that Anthropic is sent is no system message.
pub proof fn law_system_messages_move(ms: Seq<MessageView>)
    ensures
        forall|i: int|
            0 <= i < anthropic_messages(ms).len() ==> (
            #[trigger] anthropic_messages(ms)[i]).field("role"@) != Some(
                JsonView::Text("system"@),
            ),
    decreases ms.len(),
{
    if ms.len() > 0 {
        law_system_messages_move(ms.drop_last());
        reveal_strlit("role");
        reveal_strlit("content");
        reveal_strlit("system");
        reveal_strlit("user");
        reveal_strlit("assistant");
        assert("role"@.len() != "content"@.len());
        assert("system"@.len() == 6 && "user"@.len() == 4 && "assistant"@.len() == 9);
        if ms.last().role != "system"@ {
            let m = anthropic_message(ms.last());
            assert(m is Object);
            assert(m->Object_0.contains_key("role"@));
        }
    }
}

/// The names that upstream APIs use differ.
proof fn lemma_upstream_names()
    ensures
        "role"@.len() == 4,
        "content"@.len() == 7,
        "type"@.len() == 4,
        "text"@.len() == 4,
        "tool_use"@.len() == 8,
        "tool_result"@.len() == 11,
        "tool_use_id"@.len() == 11,
        "id"@.len() == 2,
        "name"@.len() == 4,
        "input"@.len() == 5,
        "description"@.len() == 11,
        "input_schema"@.len() == 12,
        "model"@.len() == 5,
        "system"@.len() == 6,
        "messages"@.len() == 8,
        "max_tokens"@.len() == 10,
        "max_completion_tokens"@.len() == 21,
        "thinking"@.len() == 8,
        "payment_type"@.len() == 12,
        "temperature"@.len() == 11,
        "tools"@.len() == 5,
        "tool_choice"@.len() == 11,
        "stream"@.len() == 6,
        "tool"@.len() == 4,
        "assistant"@.len() == 9,
        "user"@.len() == 4,
        "openai"@.len() == 6,
        "anthropic"@.len() == 9,
        "kimi"@.len() == 4,
        "disabled"@.len() == 8,
        "none"@.len() == 4,
        "required"@.len() == 8,
        "any"@.len() == 3,
        "auto"@.len() == 4,
        "function"@.len() == 8,
        "stop_reason"@.len() == 11,
        "usage"@.len() == 5,
        "input_tokens"@.len() == 12,
        "output_tokens"@.len() == 13,
        "end_turn"@.len() == 8,
        "stop_sequence"@.len() == 13,
        "stop"@.len() == 4,
        "tool_calls"@.len() == 10,
        "length"@.len() == 6,
        ""@.len() == 0,
        "role"@[1] == 'o',
        "role"@[0] == 'r',
        "type"@[1] == 'y',
        "type"@[0] == 't',
        "text"@[1] == 'e',
        "text"@[0] == 't',
        "name"@[1] == 'a',
        "name"@[0] == 'n',
        "tool"@[1] == 'o',
        "tool"@[0] == 't',
        "user"@[1] == 's',
        "user"@[0] == 'u',
        "kimi"@[1] == 'i',
        "kimi"@[0] == 'k',
        "none"@[1] == 'o',
        "none"@[0] == 'n',
        "auto"@[1] == 'u',
        "auto"@[0] == 'a',
        "stop"@[1] == 't',
        "stop"@[0] == 's',
        "input"@[0] == 'i',
        "model"@[0] == 'm',
        "tools"@[0] == 't',
        "usage"@[0] == 'u',
        "system"@[1] == 'y',
        "stream"@[1] == 't',
        "openai"@[1] == 'p',
        "length"@[1] == 'e',
        "tool_use"@[3] == 'l',
        "messages"@[3] == 's',
        "thinking"@[3] == 'n',
        "disabled"@[3] == 'a',
        "required"@[3] == 'u',
        "function"@[3] == 'c',
        "end_turn"@[3] == '_',
        "assistant"@[1] == 's',
        "anthropic"@[1] == 'n',
        "max_tokens"@[0] == 'm',
        "tool_calls"@[0] == 't',
        "tool_result"@[6] == 'e',
        "tool_result"@[0] == 't',
        "tool_use_id"@[6] == 's',
        "tool_use_id"@[0] == 't',
        "description"@[6] == 'p',
        "description"@[0] == 'd',
        "temperature"@[6] == 'a',
        "temperature"@[0] == 't',
        "tool_choice"@[6] == 'h',
        "tool_choice"@[0] == 't',
        "stop_reason"@[6] == 'e',
        "stop_reason"@[0] == 's',
        "input_schema"@[7] == 'c',
        "payment_type"@[7] == '_',
        "input_tokens"@[7] == 'o',
        "output_tokens"@[0] == 'o',
        "stop_sequence"@[0] == 's',
{
    reveal_strlit("role");
    reveal_strlit("content");
    reveal_strlit("type");
    reveal_strlit("text");
    reveal_strlit("tool_use");
    reveal_strlit("tool_result");
    reveal_strlit("tool_use_id");
    reveal_strlit("id");
    reveal_strlit("name");
    reveal_strlit("input");
    reveal_strlit("description");
    reveal_strlit("input_schema");
    reveal_strlit("model");
    reveal_strlit("system");
    reveal_strlit("messages");
    reveal_strlit("max_tokens");
    reveal_strlit("max_completion_tokens");
    reveal_strlit("thinking");
    reveal_strlit("payment_type");
    reveal_strlit("temperature");
    reveal_strlit("tools");
    reveal_strlit("tool_choice");
    reveal_strlit("stream");
    reveal_strlit("tool");
    reveal_strlit("assistant");
    reveal_strlit("user");
    reveal_strlit("openai");
    reveal_strlit("anthropic");
    reveal_strlit("kimi");
    reveal_strlit("disabled");
    reveal_strlit("none");
    reveal_strlit("required");
    reveal_strlit("any");
    reveal_strlit("auto");
    reveal_strlit("function");
    reveal_strlit("stop_reason");
    reveal_strlit("usage");
    reveal_strlit("input_tokens");
    reveal_strlit("output_tokens");
    reveal_strlit("end_turn");
    reveal_strlit("stop_sequence");
    reveal_strlit("stop");
    reveal_strlit("tool_calls");
    reveal_strlit("length");
    reveal_strlit("");
}

/// A message of the model that calls tools loses none of its text and none of
/// its calls on the way to Anthropic: a content that is not empty is the first
/// block, of type `text`, and then comes one block for each call, in order,
/// with its id, its name and what its arguments read as.
pub proof fn law_no_text_is_lost(m: MessageView)
    requires
        m.role == "assistant"@,
        m.tool_calls is Some,
    ensures
        ({
            let j = anthropic_message(m);
            let calls = m.tool_calls->0;
            let front: int = if m.content is Some && m.content->0.len() > 0 {
                1
            } else {
                0
            };
            &&& j.field("role"@) == Some(JsonView::Text("assistant"@))
            &&& j.field("content"@) matches Some(JsonView::List(blocks)) && {
                &&& blocks.len() == calls.len() + front
                &&& front == 1 ==> blocks[0].field("type"@) == Some(JsonView::Text("text"@))
                    && blocks[0].field("text"@) == Some(JsonView::Text(m.content->0))
                &&& forall|i: int|
                    0 <= i < calls.len() ==> {
                        let b = blocks[front + i];
                        let c = #[trigger] calls[i];
                        &&& b.field("type"@) == Some(JsonView::Text("tool_use"@))
                        &&& b.field("id"@) == Some(JsonView::Text(c.id))
                        &&& b.field("name"@) == Some(JsonView::Text(c.name))
                        &&& match json_parsed(encode_utf8(c.arguments)) {
                            Ok(input) => b.field("input"@) == Some(input),
                            Err(_) => b.field("input"@) == Some(
                                JsonView::Object(Map::<Seq<char>, JsonView>::empty()),
                            ),
                        }
                    }
            }
        }),
{
    lemma_upstream_names();
    let calls = m.tool_calls->0;
    let blocks = call_blocks(m.content, calls);
    let front = blocks.len() - calls.len();
    assert forall|i: int| 0 <= i < calls.len() implies blocks[front + i] == tool_use_block(
        #[trigger] calls[i],
    ) by {}
}

/// The result of a tool reaches Anthropic as a message of the user with one
/// block, which names the call that it answers and holds the result.
pub proof fn law_tool_results_arrive(m: MessageView)
    requires
        m.role == "tool"@,
    ensures
        ({
            let j = anthropic_message(m);
            &&& j.field("role"@) == Some(JsonView::Text("user"@))
            &&& j.field("content"@) matches Some(JsonView::List(blocks)) && {
                &&& blocks.len() == 1
                &&& blocks[0].field("type"@) == Some(JsonView::Text("tool_result"@))
                &&& m.tool_call_id is Some ==> blocks[0].field("tool_use_id"@) == Some(
                    JsonView::Text(m.tool_call_id->0),
                )
                &&& m.content is Some ==> blocks[0].field("content"@) == Some(
                    JsonView::Text(m.content->0),
                )
                &&& m.tool_call_id is None ==> blocks[0].field("tool_use_id"@) == Some(
                    JsonView::Text(seq![]),
                )
                &&& m.content is None ==> blocks[0].field("content"@) == Some(
                    JsonView::Text(seq![]),
                )
            }
        }),
{
    lemma_upstream_names();
    assert(""@ =~= seq![]);
}

/// Any other message reaches Anthropic with its role and its text.
pub proof fn law_plain_messages_stay(m: MessageView)
    requires
        m.role != "tool"@,
        m.role != "assistant"@ || m.tool_calls is None,
    ensures
        anthropic_message(m).field("role"@) == Some(JsonView::Text(m.role)),
        anthropic_message(m).field("content"@) == Some(
            JsonView::Text(
                if m.content is Some {
                    m.content->0
                } else {
                    seq![]
                },
            ),
        ),
{
    lemma_upstream_names();
    assert(""@ =~= seq![]);
}

/// How many of the first messages are no system messages.
pub open spec fn others_before(ms: Seq<MessageView>, n: int) -> nat
    decreases n,
{
    if n <= 0 {
        0
    } else if ms[n - 1].role == "system"@ {
        others_before(ms, n - 1)
    } else {
        others_before(ms, n - 1) + 1
    }
}

/// Anthropic is sent every message that is no system message, in the order of
/// the conversation, and no other.
pub proof fn law_conversation_keeps_its_order(ms: Seq<MessageView>)
    ensures
        anthropic_messages(ms).len() == others_before(ms, ms.len() as int),
        forall|i: int|
            0 <= i < ms.len() && (#[trigger] ms[i]).role != "system"@ ==> others_before(ms, i)
                < anthropic_messages(ms).len() && anthropic_messages(ms)[others_before(ms, i) as int]
                == anthropic_message(ms[i]),
    decreases ms.len(),
{
    if ms.len() > 0 {
        let front = ms.drop_last();
        law_conversation_keeps_its_order(front);
        assert forall|n: int| 0 <= n <= front.len() implies #[trigger] others_before(ms, n)
            == others_before(front, n) by {
            lemma_others_before(ms, n);
        }
        assert forall|i: int| 0 <= i < ms.len() && (#[trigger] ms[i]).role
            != "system"@ implies others_before(ms, i) < anthropic_messages(ms).len()
            && anthropic_messages(ms)[others_before(ms, i) as int] == anthropic_message(ms[i]) by {
            assert(others_before(ms, i) == others_before(front, i));
            if i < front.len() {
                assert(front[i] == ms[i]);
            }
        }
    }
}

/// What comes after does not matter to how many of the first messages are no
/// system messages.
proof fn lemma_others_before(ms: Seq<MessageView>, n: int)
    requires
        0 <= n < ms.len(),
    ensures
        others_before(ms, n) == others_before(ms.drop_last(), n),
    decreases n,
{
    if n > 0 {
        lemma_others_before(ms, n - 1);
    }
}

/// The text of every system message is in the system prompt that Anthropic is
/// sent, in order and with an empty line between two: one more system message
/// adds its text at the end, and any other message changes nothing.
pub proof fn law_system_prompt_grows(ms: Seq<MessageView>, m: MessageView)
    ensures
        system_prompt(Seq::<MessageView>::empty()) is None,
        m.role != "system"@ || m.content is None ==> system_prompt(ms.push(m)) == system_prompt(ms),
        m.role == "system"@ && m.content is Some ==> system_prompt(ms.push(m)) == (
        match system_prompt(ms) {
            None => Some(JsonView::Text(m.content->0)),
            Some(before) => Some(JsonView::Text(before->Text_0 + "\n\n"@ + m.content->0)),
        }),
{
    let parts = system_parts(ms);
    assert(ms.push(m).drop_last() =~= ms);
    if m.role == "system"@ && m.content is Some {
        let more = parts.push(m.content->0);
        assert(more.drop_last() =~= parts);
        assert(system_parts(ms.push(m)) == more);
    }
}

/// What Anthropic is sent of a request: the messages and the system prompt, the
/// token limit that the client has set, or 8192, the temperature, and the tools
/// with the choice among them; and nothing else.
pub proof fn law_anthropic_request(c: ClientView, r: RequestView)
    requires
        c.archetype == "anthropic"@,
    ensures
        ({
            let q = upstream_request(c, r);
            let b = q.body;
            &&& q.url == c.endpoint
            &&& q.headers == seq![
                ("x-api-key"@, c.api_key),
                ("anthropic-version"@, "2023-06-01"@),
                ("Content-Type"@, "application/json"@),
            ]
            &&& b.field("model"@) == Some(JsonView::Text(c.default_model))
            &&& b.field("system"@) == system_prompt(r.messages)
            &&& b.field("messages"@) == Some(JsonView::List(anthropic_messages(r.messages)))
            &&& r.max_tokens is Some ==> b.field("max_tokens"@) == Some(
                number(r.max_tokens->0 as int),
            )
            &&& r.max_tokens is None ==> b.field("max_tokens"@) == Some(number(8192))
            &&& b.field("temperature"@) == r.temperature
            &&& match r.tools {
                None => b.field("tools"@) is None && b.field("tool_choice"@) is None,
                Some(ts) => {
                    &&& b.field("tools"@) matches Some(JsonView::List(items)) && items.len()
                        == ts.len() && forall|i: int|
                        0 <= i < ts.len() ==> {
                            let t = #[trigger] items[i];
                            &&& t.field("name"@) == Some(JsonView::Text(ts[i].name))
                            &&& t.field("description"@) == Some(
                                JsonView::Text(ts[i].description),
                            )
                            &&& t.field("input_schema"@) == Some(ts[i].parameters)
                        }
                    &&& (b.field("tool_choice"@) is Some) == (r.tool_choice is Some)
                },
            }
            &&& forall|k: Seq<char>| #[trigger]
                b.field(k) is Some ==> k == "model"@ || k == "system"@ || k == "messages"@ || k
                    == "max_tokens"@ || k == "temperature"@ || k == "tools"@ || k == "tool_choice"@
        }),
{
    lemma_upstream_names();
}

/// The choice of a tool in Anthropic's words: a function that is named stays
/// the one that is named, `none` and `required` both ask for any tool, and
/// everything else leaves the choice to the model.
pub proof fn law_tool_choice(c: ClientView, r: RequestView, tc: JsonView)
    requires
        c.archetype == "anthropic"@,
        r.tools is Some,
        r.tool_choice == Some(tc),
    ensures
        ({
            let j = upstream_request(c, r).body.field("tool_choice"@)->0;
            let kind = j.field("type"@);
            let named = tc.field("function"@) is Some && tc.field("function"@)->0.field(
                "name"@,
            ) is Some && tc.field("function"@)->0.field("name"@)->0 is Text;
            &&& named ==> kind == Some(JsonView::Text("tool"@)) && j.field("name"@)
                == tc.field("function"@)->0.field("name"@)
            &&& tc == JsonView::Text("none"@) || tc == JsonView::Text("required"@) ==> kind == Some(
                JsonView::Text("any"@),
            ) && j.field("name"@) is None
            &&& !named && tc != JsonView::Text("none"@) && tc != JsonView::Text("required"@)
                ==> kind == Some(JsonView::Text("auto"@)) && j.field("name"@) is None
        }),
{
    lemma_upstream_names();
}

/// What an API in OpenAI's format is sent of a request: everything the client
/// has asked for, as the client has written it, but for the model, the way of
/// payment, the name that OpenAI gives to the token limit, and what Kimi is
/// told about thinking.
pub proof fn law_openai_request(c: ClientView, r: RequestView)
    requires
        c.archetype != "anthropic"@,
    ensures
        ({
            let q = upstream_request(c, r);
            let b = q.body;
            let sent = JsonView::Object(request_fields(r));
            &&& q.url == c.endpoint
            &&& q.headers == seq![
                ("Authorization"@, "Bearer "@ + c.api_key),
                ("Content-Type"@, "application/json"@),
            ]
            &&& b.field("messages"@) == sent.field("messages"@)
            &&& b.field("temperature"@) == r.temperature
            &&& b.field("stream"@) == sent.field("stream"@)
            &&& b.field("tools"@) == sent.field("tools"@)
            &&& b.field("tool_choice"@) == r.tool_choice
            &&& c.archetype != "openai"@ ==> b.field("max_tokens"@) == sent.field("max_tokens"@)
                && b.field("max_completion_tokens"@) is None
            &&& r.max_tokens is None ==> b.field("max_tokens"@) is None && b.field(
                "max_completion_tokens"@,
            ) is None
            &&& c.archetype == "kimi"@ ==> b.field("thinking"@) is Some && b.field(
                "thinking"@,
            )->0.field("type"@) == Some(JsonView::Text("disabled"@))
            &&& c.archetype != "kimi"@ ==> b.field("thinking"@) is None
            &&& forall|k: Seq<char>|
                #![trigger b.field(k)]
                k != "model"@ && k != "payment_type"@ && k != "max_tokens"@ && k
                    != "max_completion_tokens"@ && k != "thinking"@ ==> b.field(k) == sent.field(k)
        }),
{
    lemma_upstream_names();
    law_request_is_written(r);
}

/// A text, followed by the texts of more parts, is all of them together.
proof fn lemma_joined_push(parts: Seq<Seq<char>>, p: Seq<char>)
    ensures
        joined(parts.push(p), Seq::<char>::empty()) == joined(parts, Seq::<char>::empty()) + p,
{
    reveal_strlit("");
    let none = Seq::<char>::empty();
    assert(parts.push(p).drop_last() =~= parts);
    if parts.len() == 0 {
        assert(""@ + p =~= p);
    } else {
        assert(joined(parts, none) + none + p =~= joined(parts, none) + p);
    }
}

/// The text of a response: the client is given the texts of all text blocks,
/// one after the other, and no text where there is no text block.
pub proof fn law_response_text(
    c: ClientView,
    resp: JsonView,
    blocks: Seq<JsonView>,
    b: JsonView,
    longer: JsonView,
)
    requires
        resp.field("content"@) == Some(JsonView::List(blocks)),
        longer.field("content"@) == Some(JsonView::List(blocks.push(b))),
    ensures
        ({
            let before = openai_response(c, resp).choices[0].content;
            let after = openai_response(c, longer).choices[0].content;
            let is_text = b.field("type"@) == Some(JsonView::Text("text"@)) && b.field("text"@)
                is Some && b.field("text"@)->0 is Text;
            &&& blocks.len() == 0 ==> before is None
            &&& !is_text ==> after == before
            &&& is_text && before is None ==> after == Some(b.field("text"@)->0->Text_0)
            &&& is_text && before is Some ==> after == Some(
                before->0 + b.field("text"@)->0->Text_0,
            )
        }),
{
    lemma_upstream_names();
    let texts = block_texts(blocks);
    assert(blocks.push(b).drop_last() =~= blocks);
    assert(""@ =~= Seq::<char>::empty());
    if b.field("type"@) == Some(JsonView::Text("text"@)) && b.field("text"@) is Some && b.field(
        "text"@,
    )->0 is Text {
        let t = b.field("text"@)->0->Text_0;
        assert(block_texts(blocks.push(b)) == texts.push(t));
        lemma_joined_push(texts, t);
        if texts.len() == 0 {
            assert(texts.push(t).len() == 1);
        }
    }
}

/// The tool calls of a response: the client is given one for each tool block,
/// in order, with its id, its name and its input as text, and none where there
/// is no tool block.
pub proof fn law_response_calls(
    c: ClientView,
    resp: JsonView,
    blocks: Seq<JsonView>,
    b: JsonView,
    longer: JsonView,
)
    requires
        resp.field("content"@) == Some(JsonView::List(blocks)),
        longer.field("content"@) == Some(JsonView::List(blocks.push(b))),
    ensures
        ({
            let before = openai_response(c, resp).choices[0].tool_calls;
            let after = openai_response(c, longer).choices[0].tool_calls;
            let calls = if before is Some {
                before->0
            } else {
                seq![]
            };
            &&& blocks.len() == 0 ==> before is None
            &&& b.field("type"@) != Some(JsonView::Text("tool_use"@)) ==> after == before
            &&& b.field("type"@) == Some(JsonView::Text("tool_use"@)) ==> {
                let last = after->0.last();
                &&& after is Some
                &&& after->0 == calls.push(last)
                &&& last.call_type == "function"@
                &&& b.field("id"@) matches Some(JsonView::Text(id)) ==> last.id == id
                &&& !(b.field("id"@) is Some && b.field("id"@)->0 is Text) ==> last.id
                    == "call_unknown"@
                &&& b.field("name"@) matches Some(JsonView::Text(name)) ==> last.name == name
                &&& b.field("input"@) is Some ==> last.arguments == json_text(b.field("input"@)->0)
                &&& b.field("input"@) is None ==> last.arguments == json_text(
                    JsonView::Object(Map::<Seq<char>, JsonView>::empty()),
                )
            }
        }),
{
    lemma_upstream_names();
    let calls = block_calls(blocks);
    assert(blocks.push(b).drop_last() =~= blocks);
    if b.field("type"@) == Some(JsonView::Text("tool_use"@)) {
        assert(block_calls(blocks.push(b)) == calls.push(block_call(b)));
        if calls.len() == 0 {
            assert(calls =~= seq![]);
        }
    }
}

/// A tool call that Anthropic is sent comes back as it was: where a response
/// holds the block that a call is sent as, the client is given a call with the
/// same id and name, and with arguments that are the text of the same input.
pub proof fn law_tool_call_comes_back(call: ToolCallView)
    ensures
        ({
            let back = block_call(tool_use_block(call));
            &&& back.id == call.id
            &&& back.name == call.name
            &&& json_parsed(encode_utf8(call.arguments)) matches Ok(input) ==> back.arguments
                == json_text(input)
        }),
{
    lemma_upstream_names();
}

/// The rest of a response: one answer of the assistant, the id and the model
/// that it states, why it ended in OpenAI's words, and its tokens with their
/// sum.
pub proof fn law_response_frame(c: ClientView, resp: JsonView)
    ensures
        ({
            let r = openai_response(c, resp);
            let a = r.choices[0];
            let stop = resp.field("stop_reason"@);
            &&& r.object == "chat.completion"@
            &&& r.created == 0
            &&& resp.field("id"@) matches Some(JsonView::Text(id)) ==> r.id == id
            &&& !(resp.field("id"@) is Some && resp.field("id"@)->0 is Text) ==> r.id
                == "msg_unknown"@
            &&& resp.field("model"@) matches Some(JsonView::Text(m)) ==> r.model == m
            &&& !(resp.field("model"@) is Some && resp.field("model"@)->0 is Text) ==> r.model
                == c.default_model
            &&& r.choices.len() == 1
            &&& a.index == 0
            &&& a.role == "assistant"@
            &&& match stop {
                Some(JsonView::Text(s)) => {
                    &&& s == "end_turn"@ || s == "stop_sequence"@ ==> a.finish_reason == Some(
                        "stop"@,
                    )
                    &&& s == "tool_use"@ ==> a.finish_reason == Some("tool_calls"@)
                    &&& s == "max_tokens"@ ==> a.finish_reason == Some("length"@)
                    &&& s != "end_turn"@ && s != "stop_sequence"@ && s != "tool_use"@ && s
                        != "max_tokens"@ ==> a.finish_reason == Some(s)
                },
                _ => a.finish_reason is None,
            }
            &&& (r.usage is Some) == (resp.field("usage"@) is Some)
            &&& !(resp.field("content"@) is Some && resp.field("content"@)->0 is List)
                ==> a.content is None && a.tool_calls is None
        }),
{
    lemma_upstream_names();
}

/// The tokens of a response are those that it states, with their sum.
pub proof fn law_response_tokens(c: ClientView, resp: JsonView, u: JsonView, input: u32, output: u32)
    requires
        resp.field("usage"@) == Some(u),
        u.field("input_tokens"@) == Some(number(input as int)),
        u.field("output_tokens"@) == Some(number(output as int)),
        input + output <= u32::MAX,
    ensures
        ({
            let t = openai_response(c, resp).usage->0;
            &&& t.prompt_tokens == input
            &&& t.completion_tokens == output
            &&& t.total_tokens == input + output
        }),
{
}

/// Only a successful reply has a body that is read; every other one becomes an
/// error that holds what is known of it.
pub proof fn law_replies_of_upstream(e: Seq<char>, status: Seq<char>, body: Seq<char>)
    ensures
        reply_body(UpstreamReplyView::Body(body)) == Ok::<Seq<char>, Seq<char>>(body),
        reply_body(UpstreamReplyView::Failed(e)) == Err::<Seq<char>, Seq<char>>(
            "Connection failed: "@ + e,
        ),
        reply_body(UpstreamReplyView::Unread(e)) == Err::<Seq<char>, Seq<char>>(
            "Failed to read response: "@ + e,
        ),
        reply_body(UpstreamReplyView::Refused { status, body }) == Err::<Seq<char>, Seq<char>>(
            "API returned "@ + status + ": "@ + body,
        ),
{
}

} // verus!
