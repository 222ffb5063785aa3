//! Chat requests and responses in OpenAI's format.

use vstd::prelude::*;
use vstd::string::*;

use crate::http::text_view;
use crate::json::{
    json_view, list_content, number, text_json, with_field, Json, JsonObject, JsonView,
};

verus! {

/// One message of a chat.
#[derive(Debug, Clone)]
pub struct ChatMessage {
    pub role: String,
    pub content: Option<String>,
    pub tool_calls: Option<Vec<ToolCall>>,
    pub tool_call_id: Option<String>,
}

/// A call of a tool by the model.
#[derive(Debug, Clone)]
pub struct ToolCall {
    pub id: String,
    pub call_type: String,
    pub function: FunctionCall,
}

/// The function that a tool call names, with its arguments as JSON text.
#[derive(Debug, Clone)]
pub struct FunctionCall {
    pub name: String,
    pub arguments: String,
}

/// A tool that the model may call.
#[derive(Debug, Clone)]
pub struct Tool {
    pub tool_type: String,
    pub function: FunctionDefinition,
}

/// The function behind a tool, with the schema of its parameters.
#[derive(Debug, Clone)]
pub struct FunctionDefinition {
    pub name: String,
    pub description: String,
    pub parameters: Json,
}

/// A chat request. The temperature is a JSON number that is only passed on.
#[derive(Debug, Clone)]
pub struct ChatRequest {
    pub messages: Vec<ChatMessage>,
    pub model: Option<String>,
    pub temperature: Option<Json>,
    pub max_tokens: Option<u32>,
    pub stream: Option<bool>,
    pub tools: Option<Vec<Tool>>,
    pub tool_choice: Option<Json>,
    /// How the client wants to pay: `auto`, `credits` or `x402`.
    pub payment_type: Option<String>,
}

/// A chat response.
#[derive(Debug, Clone)]
pub struct ChatResponse {
    pub id: String,
    pub object: String,
    pub created: u64,
    pub model: String,
    pub choices: Vec<ChatChoice>,
    pub usage: Option<ChatUsage>,
}

/// One of the answers of a response.
#[derive(Debug, Clone)]
pub struct ChatChoice {
    pub index: u32,
    pub message: ResponseMessage,
    pub finish_reason: Option<String>,
}

/// The message of an answer.
#[derive(Debug, Clone)]
pub struct ResponseMessage {
    pub role: String,
    pub content: Option<String>,
    pub tool_calls: Option<Vec<ToolCall>>,
}

/// The tokens that a response took.
#[derive(Debug, Clone)]
pub struct ChatUsage {
    pub prompt_tokens: u32,
    pub completion_tokens: u32,
    pub total_tokens: u32,
}

// ---------------------------------------------------------------------------
// The model
// ---------------------------------------------------------------------------

/// What a tool call is.
pub struct ToolCallView {
    pub id: Seq<char>,
    pub call_type: Seq<char>,
    pub name: Seq<char>,
    pub arguments: Seq<char>,
}

/// What a tool is.
pub struct ToolView {
    pub tool_type: Seq<char>,
    pub name: Seq<char>,
    pub description: Seq<char>,
    pub parameters: JsonView,
}

/// What a message is.
pub struct MessageView {
    pub role: Seq<char>,
    pub content: Option<Seq<char>>,
    pub tool_calls: Option<Seq<ToolCallView>>,
    pub tool_call_id: Option<Seq<char>>,
}

/// What a request is.
pub struct RequestView {
    pub messages: Seq<MessageView>,
    pub model: Option<Seq<char>>,
    pub temperature: Option<JsonView>,
    pub max_tokens: Option<u32>,
    pub stream: Option<bool>,
    pub tools: Option<Seq<ToolView>>,
    pub tool_choice: Option<JsonView>,
    pub payment_type: Option<Seq<char>>,
}

/// What an answer is.
pub struct ChoiceView {
    pub index: u32,
    pub role: Seq<char>,
    pub content: Option<Seq<char>>,
    pub tool_calls: Option<Seq<ToolCallView>>,
    pub finish_reason: Option<Seq<char>>,
}

/// What a response is.
pub struct ResponseView {
    pub id: Seq<char>,
    pub object: Seq<char>,
    pub created: u64,
    pub model: Seq<char>,
    pub choices: Seq<ChoiceView>,
    pub usage: Option<ChatUsage>,
}

impl View for ToolCall {
    type V = ToolCallView;

    open spec fn view(&self) -> ToolCallView {
        ToolCallView {
            id: self.id@,
            call_type: self.call_type@,
            name: self.function.name@,
            arguments: self.function.arguments@,
        }
    }
}

impl View for Tool {
    type V = ToolView;

    open spec fn view(&self) -> ToolView {
        ToolView {
            tool_type: self.tool_type@,
            name: self.function.name@,
            description: self.function.description@,
            parameters: self.function.parameters@,
        }
    }
}

/// What a list of tool calls is.
pub open spec fn calls_view(v: Seq<ToolCall>) -> Seq<ToolCallView> {
    Seq::new(v.len(), |i: int| v[i]@)
}

/// What an optional list of tool calls is.
pub open spec fn some_calls_view(v: Option<Vec<ToolCall>>) -> Option<Seq<ToolCallView>> {
    match v {
        Some(c) => Some(calls_view(c@)),
        None => None,
    }
}

/// What a list of tools is.
pub open spec fn tools_view(v: Seq<Tool>) -> Seq<ToolView> {
    Seq::new(v.len(), |i: int| v[i]@)
}

/// What an optional list of tools is.
pub open spec fn some_tools_view(v: Option<Vec<Tool>>) -> Option<Seq<ToolView>> {
    match v {
        Some(t) => Some(tools_view(t@)),
        None => None,
    }
}

impl View for ChatMessage {
    type V = MessageView;

    open spec fn view(&self) -> MessageView {
        MessageView {
            role: self.role@,
            content: text_view(self.content),
            tool_calls: some_calls_view(self.tool_calls),
            tool_call_id: text_view(self.tool_call_id),
        }
    }
}

/// What a list of messages is.
pub open spec fn messages_view(v: Seq<ChatMessage>) -> Seq<MessageView> {
    Seq::new(v.len(), |i: int| v[i]@)
}

impl View for ChatRequest {
    type V = RequestView;

    open spec fn view(&self) -> RequestView {
        RequestView {
            messages: messages_view(self.messages@),
            model: text_view(self.model),
            temperature: json_view(self.temperature),
            max_tokens: self.max_tokens,
            stream: self.stream,
            tools: some_tools_view(self.tools),
            tool_choice: json_view(self.tool_choice),
            payment_type: text_view(self.payment_type),
        }
    }
}

impl View for ChatChoice {
    type V = ChoiceView;

    open spec fn view(&self) -> ChoiceView {
        ChoiceView {
            index: self.index,
            role: self.message.role@,
            content: text_view(self.message.content),
            tool_calls: some_calls_view(self.message.tool_calls),
            finish_reason: text_view(self.finish_reason),
        }
    }
}

/// What a list of answers is.
pub open spec fn choices_view(v: Seq<ChatChoice>) -> Seq<ChoiceView> {
    Seq::new(v.len(), |i: int| v[i]@)
}

impl View for ChatResponse {
    type V = ResponseView;

    open spec fn view(&self) -> ResponseView {
        ResponseView {
            id: self.id@,
            object: self.object@,
            created: self.created,
            model: self.model@,
            choices: choices_view(self.choices@),
            usage: self.usage,
        }
    }
}

// ---------------------------------------------------------------------------
// Messages
// ---------------------------------------------------------------------------

/// A message that is text alone.
pub open spec fn text_message(role: Seq<char>, content: Seq<char>) -> MessageView {
    MessageView { role, content: Some(content), tool_calls: None, tool_call_id: None }
}

impl ChatMessage {
    /// A message that instructs the model.
    pub fn system(content: &str) -> (r: Self)
        ensures
            r@ == text_message("system"@, content@),
    {
        ChatMessage {
            role: "system".to_owned(),
            content: Some(content.to_owned()),
            tool_calls: None,
            tool_call_id: None,
        }
    }

    /// A message of the user.
    pub fn user(content: &str) -> (r: Self)
        ensures
            r@ == text_message("user"@, content@),
    {
        ChatMessage {
            role: "user".to_owned(),
            content: Some(content.to_owned()),
            tool_calls: None,
            tool_call_id: None,
        }
    }

    /// A message of the model.
    pub fn assistant(content: &str) -> (r: Self)
        ensures
            r@ == text_message("assistant"@, content@),
    {
        ChatMessage {
            role: "assistant".to_owned(),
            content: Some(content.to_owned()),
            tool_calls: None,
            tool_call_id: None,
        }
    }

    /// The result of a tool call.
    pub fn tool_result(tool_call_id: &str, content: &str) -> (r: Self)
        ensures
            r@ == (MessageView {
                tool_call_id: Some(tool_call_id@),
                ..text_message("tool"@, content@)
            }),
    {
        ChatMessage {
            role: "tool".to_owned(),
            content: Some(content.to_owned()),
            tool_calls: None,
            tool_call_id: Some(tool_call_id.to_owned()),
        }
    }
}

/// The role of a response message that names none.
pub fn default_assistant_role() -> (r: String)
    ensures
        r@ == "assistant"@,
{
    "assistant".to_owned()
}

// ---------------------------------------------------------------------------
// JSON
// ---------------------------------------------------------------------------

/// A tool call as JSON.
pub open spec fn tool_call_json(c: ToolCallView) -> JsonView {
    JsonView::Object(
        map![
            "id"@ => JsonView::Text(c.id),
            "type"@ => JsonView::Text(c.call_type),
            "function"@ => JsonView::Object(
                map![
                    "name"@ => JsonView::Text(c.name),
                    "arguments"@ => JsonView::Text(c.arguments),
                ],
            ),
        ],
    )
}

/// A list of tool calls as JSON.
pub open spec fn tool_calls_json(calls: Seq<ToolCallView>) -> JsonView {
    JsonView::List(calls.map_values(|c: ToolCallView| tool_call_json(c)))
}

/// A list of tool calls as JSON, where there is one.
pub open spec fn some_tool_calls_json(calls: Option<Seq<ToolCallView>>) -> Option<JsonView> {
    match calls {
        Some(c) => Some(tool_calls_json(c)),
        None => None,
    }
}

/// A tool as JSON.
pub open spec fn tool_json(t: ToolView) -> JsonView {
    JsonView::Object(
        map![
            "type"@ => JsonView::Text(t.tool_type),
            "function"@ => JsonView::Object(
                map![
                    "name"@ => JsonView::Text(t.name),
                    "description"@ => JsonView::Text(t.description),
                    "parameters"@ => t.parameters,
                ],
            ),
        ],
    )
}

/// A list of tools as JSON, where there is one.
pub open spec fn some_tools_json(tools: Option<Seq<ToolView>>) -> Option<JsonView> {
    match tools {
        Some(t) => Some(JsonView::List(t.map_values(|x: ToolView| tool_json(x)))),
        None => None,
    }
}

/// A message as JSON; a part that is absent gives no field.
pub open spec fn message_json(m: MessageView) -> JsonView {
    let o = map!["role"@ => JsonView::Text(m.role)];
    let o = with_field(o, "content"@, text_json(m.content));
    let o = with_field(o, "tool_calls"@, some_tool_calls_json(m.tool_calls));
    let o = with_field(o, "tool_call_id"@, text_json(m.tool_call_id));
    JsonView::Object(o)
}

/// An unsigned number as JSON, where there is one.
pub open spec fn some_number_json(n: Option<u32>) -> Option<JsonView> {
    match n {
        Some(k) => Some(number(k as int)),
        None => None,
    }
}

/// A truth value as JSON, where there is one.
pub open spec fn some_bool_json(b: Option<bool>) -> Option<JsonView> {
    match b {
        Some(t) => Some(JsonView::Bool(t)),
        None => None,
    }
}

/// A request as the fields of a JSON object; a part that is absent gives no
/// field.
pub open spec fn request_fields(r: RequestView) -> Map<Seq<char>, JsonView> {
    let o = map![
        "messages"@ => JsonView::List(r.messages.map_values(|m: MessageView| message_json(m))),
    ];
    let o = with_field(o, "model"@, text_json(r.model));
    let o = with_field(o, "temperature"@, r.temperature);
    let o = with_field(o, "max_tokens"@, some_number_json(r.max_tokens));
    let o = with_field(o, "stream"@, some_bool_json(r.stream));
    let o = with_field(o, "tools"@, some_tools_json(r.tools));
    let o = with_field(o, "tool_choice"@, r.tool_choice);
    let o = with_field(o, "payment_type"@, text_json(r.payment_type));
    o
}

/// An answer as JSON.
pub open spec fn choice_json(c: ChoiceView) -> JsonView {
    let m = map!["role"@ => JsonView::Text(c.role)];
    let m = with_field(m, "content"@, text_json(c.content));
    let m = with_field(m, "tool_calls"@, some_tool_calls_json(c.tool_calls));
    let o = map!["index"@ => number(c.index as int), "message"@ => JsonView::Object(m)];
    let o = with_field(o, "finish_reason"@, text_json(c.finish_reason));
    JsonView::Object(o)
}

/// The tokens of a response as JSON, where they are known.
pub open spec fn usage_json(u: Option<ChatUsage>) -> Option<JsonView> {
    match u {
        Some(t) => Some(
            JsonView::Object(
                map![
                    "prompt_tokens"@ => number(t.prompt_tokens as int),
                    "completion_tokens"@ => number(t.completion_tokens as int),
                    "total_tokens"@ => number(t.total_tokens as int),
                ],
            ),
        ),
        None => None,
    }
}

/// A response as JSON.
pub open spec fn response_json(r: ResponseView) -> JsonView {
    let o = map![
        "id"@ => JsonView::Text(r.id),
        "object"@ => JsonView::Text(r.object),
        "created"@ => number(r.created as int),
        "model"@ => JsonView::Text(r.model),
        "choices"@ => JsonView::List(r.choices.map_values(|c: ChoiceView| choice_json(c))),
    ];
    let o = with_field(o, "usage"@, usage_json(r.usage));
    JsonView::Object(o)
}

/// The JSON list of some values that are its items.
pub(crate) fn json_list(v: Vec<Json>) -> (r: Json)
    ensures
        r@ == JsonView::List(list_content(v@)),
{
    let r = Json::List(v);
    assert(r@->List_0 =~= list_content(v@));
    r
}

impl ToolCall {
    /// This tool call as JSON.
    pub fn to_json(&self) -> (r: Json)
        ensures
            r@ == tool_call_json(self@),
    {
        let mut f = JsonObject::new();
        f.put("name", Json::str(self.function.name.as_str()));
        f.put("arguments", Json::str(self.function.arguments.as_str()));
        let mut o = JsonObject::new();
        o.put("id", Json::str(self.id.as_str()));
        o.put("type", Json::str(self.call_type.as_str()));
        o.put("function", Json::Object(f));
        Json::Object(o)
    }
}

/// A list of tool calls as JSON.
fn calls_to_json(calls: &Vec<ToolCall>) -> (r: Json)
    ensures
        r@ == tool_calls_json(calls_view(calls@)),
{
    let mut out: Vec<Json> = Vec::new();
    let mut i: usize = 0;
    while i < calls.len()
        invariant
            i <= calls@.len(),
            out@.len() == i,
            forall|j: int| 0 <= j < i ==> (#[trigger] out@[j])@ == tool_call_json(calls@[j]@),
        decreases calls@.len() - i,
    {
        out.push(calls[i].to_json());
        i += 1;
    }
    assert(list_content(out@) =~= calls_view(calls@).map_values(
        |c: ToolCallView| tool_call_json(c),
    ));
    json_list(out)
}

/// A list of tool calls as JSON, where there is one.
fn some_calls_to_json(calls: &Option<Vec<ToolCall>>) -> (r: Option<Json>)
    ensures
        json_view(r) == some_tool_calls_json(some_calls_view(*calls)),
{
    match calls {
        Some(c) => Some(calls_to_json(c)),
        None => None,
    }
}

impl Tool {
    /// This tool as JSON.
    pub fn to_json(&self) -> (r: Json)
        ensures
            r@ == tool_json(self@),
    {
        let mut f = JsonObject::new();
        f.put("name", Json::str(self.function.name.as_str()));
        f.put("description", Json::str(self.function.description.as_str()));
        f.put("parameters", self.function.parameters.copy());
        let mut o = JsonObject::new();
        o.put("type", Json::str(self.tool_type.as_str()));
        o.put("function", Json::Object(f));
        Json::Object(o)
    }
}

impl ChatMessage {
    /// This message as JSON.
    pub fn to_json(&self) -> (r: Json)
        ensures
            r@ == message_json(self@),
    {
        let mut o = JsonObject::new();
        o.put("role", Json::str(self.role.as_str()));
        o.put_text("content", &self.content);
        o.put_some("tool_calls", some_calls_to_json(&self.tool_calls));
        o.put_text("tool_call_id", &self.tool_call_id);
        Json::Object(o)
    }
}

/// A copy of an optional value.
pub(crate) fn copy_json(v: &Option<Json>) -> (r: Option<Json>)
    ensures
        json_view(r) == json_view(*v),
{
    match v {
        Some(j) => Some(j.copy()),
        None => None,
    }
}

impl ChatRequest {
    /// This request as the fields of a JSON object.
    pub fn to_fields(&self) -> (r: JsonObject)
        ensures
            r@ == request_fields(self@),
    {
        let mut messages: Vec<Json> = Vec::new();
        let mut i: usize = 0;
        while i < self.messages.len()
            invariant
                i <= self.messages@.len(),
                messages@.len() == i,
                forall|j: int|
                    0 <= j < i ==> (#[trigger] messages@[j])@ == message_json(self.messages@[j]@),
            decreases self.messages@.len() - i,
        {
            messages.push(self.messages[i].to_json());
            i += 1;
        }
        assert(list_content(messages@) =~= self@.messages.map_values(
            |m: MessageView| message_json(m),
        ));
        let tools = match &self.tools {
            Some(ts) => {
                let mut out: Vec<Json> = Vec::new();
                let mut k: usize = 0;
                while k < ts.len()
                    invariant
                        k <= ts@.len(),
                        out@.len() == k,
                        forall|j: int| 0 <= j < k ==> (#[trigger] out@[j])@ == tool_json(ts@[j]@),
                    decreases ts@.len() - k,
                {
                    out.push(ts[k].to_json());
                    k += 1;
                }
                assert(list_content(out@) =~= tools_view(ts@).map_values(|x: ToolView| tool_json(x)));
                Some(json_list(out))
            },
            None => None,
        };
        let mut o = JsonObject::new();
        o.put("messages", json_list(messages));
        o.put_text("model", &self.model);
        o.put_some("temperature", copy_json(&self.temperature));
        match self.max_tokens {
            Some(n) => o.put("max_tokens", Json::unsigned(n as u64)),
            None => {},
        }
        match self.stream {
            Some(b) => o.put("stream", Json::Bool(b)),
            None => {},
        }
        o.put_some("tools", tools);
        o.put_some("tool_choice", copy_json(&self.tool_choice));
        o.put_text("payment_type", &self.payment_type);
        o
    }

    /// This request as JSON.
    pub fn to_json(&self) -> (r: Json)
        ensures
            r@ == JsonView::Object(request_fields(self@)),
    {
        Json::Object(self.to_fields())
    }
}

impl ChatChoice {
    /// This answer as JSON.
    pub fn to_json(&self) -> (r: Json)
        ensures
            r@ == choice_json(self@),
    {
        let mut m = JsonObject::new();
        m.put("role", Json::str(self.message.role.as_str()));
        m.put_text("content", &self.message.content);
        m.put_some("tool_calls", some_calls_to_json(&self.message.tool_calls));
        let mut o = JsonObject::new();
        o.put("index", Json::unsigned(self.index as u64));
        o.put("message", Json::Object(m));
        o.put_text("finish_reason", &self.finish_reason);
        Json::Object(o)
    }
}

impl ChatResponse {
    /// This response as JSON.
    pub fn to_json(&self) -> (r: Json)
        ensures
            r@ == response_json(self@),
    {
        let mut choices: Vec<Json> = Vec::new();
        let mut i: usize = 0;
        while i < self.choices.len()
            invariant
                i <= self.choices@.len(),
                choices@.len() == i,
                forall|j: int|
                    0 <= j < i ==> (#[trigger] choices@[j])@ == choice_json(self.choices@[j]@),
            decreases self.choices@.len() - i,
        {
            choices.push(self.choices[i].to_json());
            i += 1;
        }
        assert(list_content(choices@) =~= self@.choices.map_values(|c: ChoiceView| choice_json(c)));
        let mut o = JsonObject::new();
        o.put("id", Json::str(self.id.as_str()));
        o.put("object", Json::str(self.object.as_str()));
        o.put("created", Json::unsigned(self.created));
        o.put("model", Json::str(self.model.as_str()));
        o.put("choices", json_list(choices));
        match &self.usage {
            Some(t) => {
                let mut u = JsonObject::new();
                u.put("prompt_tokens", Json::unsigned(t.prompt_tokens as u64));
                u.put("completion_tokens", Json::unsigned(t.completion_tokens as u64));
                u.put("total_tokens", Json::unsigned(t.total_tokens as u64));
                o.put("usage", Json::Object(u));
            },
            None => {},
        }
        Json::Object(o)
    }
}

// ---------------------------------------------------------------------------
// Laws
// ---------------------------------------------------------------------------

/// The names of the fields differ.
pub proof fn lemma_chat_names()
    ensures
        "role"@.len() == 4,
        "content"@.len() == 7,
        "tool_calls"@.len() == 10,
        "tool_call_id"@.len() == 12,
        "id"@.len() == 2,
        "type"@.len() == 4,
        "function"@.len() == 8,
        "name"@.len() == 4,
        "arguments"@.len() == 9,
        "description"@.len() == 11,
        "parameters"@.len() == 10,
        "messages"@.len() == 8,
        "model"@.len() == 5,
        "temperature"@.len() == 11,
        "max_tokens"@.len() == 10,
        "stream"@.len() == 6,
        "tools"@.len() == 5,
        "tool_choice"@.len() == 11,
        "payment_type"@.len() == 12,
        "index"@.len() == 5,
        "message"@.len() == 7,
        "finish_reason"@.len() == 13,
        "prompt_tokens"@.len() == 13,
        "completion_tokens"@.len() == 17,
        "total_tokens"@.len() == 12,
        "object"@.len() == 6,
        "created"@.len() == 7,
        "choices"@.len() == 7,
        "usage"@.len() == 5,
        "role"@[0] == 'r',
        "type"@[0] == 't',
        "name"@[0] == 'n',
        "model"@[0] == 'm',
        "tools"@[0] == 't',
        "index"@[0] == 'i',
        "usage"@[0] == 'u',
        "stream"@[0] == 's',
        "object"@[0] == 'o',
        "content"@[1] == 'o',
        "message"@[1] == 'e',
        "created"@[1] == 'r',
        "choices"@[1] == 'h',
        "function"@[0] == 'f',
        "messages"@[0] == 'm',
        "tool_calls"@[0] == 't',
        "parameters"@[0] == 'p',
        "max_tokens"@[0] == 'm',
        "description"@[2] == 's',
        "temperature"@[2] == 'm',
        "tool_choice"@[2] == 'o',
        "tool_call_id"@[2] == 'o',
        "payment_type"@[2] == 'y',
        "total_tokens"@[2] == 't',
        "finish_reason"@[0] == 'f',
        "prompt_tokens"@[0] == 'p',
{
    reveal_strlit("role");
    reveal_strlit("content");
    reveal_strlit("tool_calls");
    reveal_strlit("tool_call_id");
    reveal_strlit("id");
    reveal_strlit("type");
    reveal_strlit("function");
    reveal_strlit("name");
    reveal_strlit("arguments");
    reveal_strlit("description");
    reveal_strlit("parameters");
    reveal_strlit("messages");
    reveal_strlit("model");
    reveal_strlit("temperature");
    reveal_strlit("max_tokens");
    reveal_strlit("stream");
    reveal_strlit("tools");
    reveal_strlit("tool_choice");
    reveal_strlit("payment_type");
    reveal_strlit("index");
    reveal_strlit("message");
    reveal_strlit("finish_reason");
    reveal_strlit("prompt_tokens");
    reveal_strlit("completion_tokens");
    reveal_strlit("total_tokens");
    reveal_strlit("object");
    reveal_strlit("created");
    reveal_strlit("choices");
    reveal_strlit("usage");
}

/// A tool call is written with its id, its type, and its function with the
/// name and the arguments, and nothing else.
pub proof fn law_tool_call_is_written(c: ToolCallView)
    ensures
        ({
            let j = tool_call_json(c);
            let f = j.field("function"@)->0;
            &&& j.field("id"@) == Some(JsonView::Text(c.id))
            &&& j.field("type"@) == Some(JsonView::Text(c.call_type))
            &&& j.field("function"@) is Some
            &&& f.field("name"@) == Some(JsonView::Text(c.name))
            &&& f.field("arguments"@) == Some(JsonView::Text(c.arguments))
            &&& forall|k: Seq<char>| #[trigger]
                j.field(k) is Some ==> k == "id"@ || k == "type"@ || k == "function"@
            &&& forall|k: Seq<char>| #[trigger]
                f.field(k) is Some ==> k == "name"@ || k == "arguments"@
        }),
{
    lemma_chat_names();
}

/// A tool is written with its type, and its function with the name, the
/// description and the schema of the parameters as it came, and nothing else.
pub proof fn law_tool_is_written(t: ToolView)
    ensures
        ({
            let j = tool_json(t);
            let f = j.field("function"@)->0;
            &&& j.field("type"@) == Some(JsonView::Text(t.tool_type))
            &&& j.field("function"@) is Some
            &&& f.field("name"@) == Some(JsonView::Text(t.name))
            &&& f.field("description"@) == Some(JsonView::Text(t.description))
            &&& f.field("parameters"@) == Some(t.parameters)
            &&& forall|k: Seq<char>| #[trigger]
                j.field(k) is Some ==> k == "type"@ || k == "function"@
            &&& forall|k: Seq<char>| #[trigger]
                f.field(k) is Some ==> k == "name"@ || k == "description"@ || k == "parameters"@
        }),
{
    lemma_chat_names();
}

/// Whether a value is the list of these tool calls, in their order: each with
/// its id, its type, and the name and the arguments of its function.
pub open spec fn lists_calls(j: Option<JsonView>, calls: Seq<ToolCallView>) -> bool {
    &&& j matches Some(JsonView::List(items))
    &&& items.len() == calls.len()
    &&& forall|i: int|
        0 <= i < calls.len() ==> {
            let c = #[trigger] items[i];
            let f = c.field("function"@);
            &&& c.field("id"@) == Some(JsonView::Text(calls[i].id))
            &&& c.field("type"@) == Some(JsonView::Text(calls[i].call_type))
            &&& f is Some
            &&& f->0.field("name"@) == Some(JsonView::Text(calls[i].name))
            &&& f->0.field("arguments"@) == Some(JsonView::Text(calls[i].arguments))
        }
}

/// A message is written with its role and with those of its content, its tool
/// calls and the id of the call it answers that it has; nothing is lost, and
/// nothing else is written.
pub proof fn law_message_is_written(m: MessageView)
    ensures
        ({
            let j = message_json(m);
            &&& j.field("role"@) == Some(JsonView::Text(m.role))
            &&& match m.content {
                Some(t) => j.field("content"@) == Some(JsonView::Text(t)),
                None => j.field("content"@) is None,
            }
            &&& match m.tool_calls {
                Some(calls) => lists_calls(j.field("tool_calls"@), calls),
                None => j.field("tool_calls"@) is None,
            }
            &&& match m.tool_call_id {
                Some(t) => j.field("tool_call_id"@) == Some(JsonView::Text(t)),
                None => j.field("tool_call_id"@) is None,
            }
            &&& forall|k: Seq<char>| #[trigger]
                j.field(k) is Some ==> k == "role"@ || k == "content"@ || k == "tool_calls"@ || k
                    == "tool_call_id"@
        }),
{
    lemma_chat_names();
    if let Some(calls) = m.tool_calls {
        lemma_calls_are_listed(calls);
    }
}

/// A list of tool calls is written call by call.
proof fn lemma_calls_are_listed(calls: Seq<ToolCallView>)
    ensures
        lists_calls(Some(tool_calls_json(calls)), calls),
{
    let items = tool_calls_json(calls)->List_0;
    assert forall|i: int| 0 <= i < calls.len() implies {
        let c = #[trigger] items[i];
        let f = c.field("function"@);
        &&& c.field("id"@) == Some(JsonView::Text(calls[i].id))
        &&& c.field("type"@) == Some(JsonView::Text(calls[i].call_type))
        &&& f is Some
        &&& f->0.field("name"@) == Some(JsonView::Text(calls[i].name))
        &&& f->0.field("arguments"@) == Some(JsonView::Text(calls[i].arguments))
    } by {
        law_tool_call_is_written(calls[i]);
    }
}

/// A request is written field by field: its messages in their order, and those
/// of its model, temperature, token limit, streaming, tools, tool choice and
/// way of payment that it has, each under its own name; nothing is lost, and
/// nothing else is written.
pub proof fn law_request_is_written(r: RequestView)
    ensures
        ({
            let j = JsonView::Object(request_fields(r));
            &&& j.field("messages"@) matches Some(JsonView::List(items)) && items.len()
                == r.messages.len() && forall|i: int|
                0 <= i < items.len() ==> #[trigger] items[i] == message_json(r.messages[i])
            &&& match r.model {
                Some(t) => j.field("model"@) == Some(JsonView::Text(t)),
                None => j.field("model"@) is None,
            }
            &&& j.field("temperature"@) == r.temperature
            &&& match r.max_tokens {
                Some(n) => j.field("max_tokens"@) == Some(number(n as int)),
                None => j.field("max_tokens"@) is None,
            }
            &&& match r.stream {
                Some(b) => j.field("stream"@) == Some(JsonView::Bool(b)),
                None => j.field("stream"@) is None,
            }
            &&& match r.tools {
                Some(ts) => j.field("tools"@) matches Some(JsonView::List(items)) && items.len()
                    == ts.len() && forall|i: int|
                    0 <= i < items.len() ==> #[trigger] items[i] == tool_json(ts[i]),
                None => j.field("tools"@) is None,
            }
            &&& j.field("tool_choice"@) == r.tool_choice
            &&& match r.payment_type {
                Some(t) => j.field("payment_type"@) == Some(JsonView::Text(t)),
                None => j.field("payment_type"@) is None,
            }
            &&& forall|k: Seq<char>| #[trigger]
                j.field(k) is Some ==> k == "messages"@ || k == "model"@ || k == "temperature"@ || k
                    == "max_tokens"@ || k == "stream"@ || k == "tools"@ || k == "tool_choice"@ || k
                    == "payment_type"@
        }),
{
    lemma_chat_names();
}

/// An answer is written with its index, its message and why it ended: the
/// message with its role and with those of its content and its tool calls that
/// it has.
pub proof fn law_choice_is_written(c: ChoiceView)
    ensures
        ({
            let j = choice_json(c);
            let m = j.field("message"@)->0;
            &&& j.field("index"@) == Some(number(c.index as int))
            &&& j.field("message"@) is Some
            &&& m.field("role"@) == Some(JsonView::Text(c.role))
            &&& match c.content {
                Some(t) => m.field("content"@) == Some(JsonView::Text(t)),
                None => m.field("content"@) is None,
            }
            &&& match c.tool_calls {
                Some(calls) => lists_calls(m.field("tool_calls"@), calls),
                None => m.field("tool_calls"@) is None,
            }
            &&& match c.finish_reason {
                Some(t) => j.field("finish_reason"@) == Some(JsonView::Text(t)),
                None => j.field("finish_reason"@) is None,
            }
        }),
{
    lemma_chat_names();
    if let Some(calls) = c.tool_calls {
        lemma_calls_are_listed(calls);
    }
}

/// A response is written with its id, its object, its time, its model and its
/// answers in their order, and with its tokens where it states them.
pub proof fn law_response_is_written(r: ResponseView)
    ensures
        ({
            let j = response_json(r);
            &&& j.field("id"@) == Some(JsonView::Text(r.id))
            &&& j.field("object"@) == Some(JsonView::Text(r.object))
            &&& j.field("created"@) == Some(number(r.created as int))
            &&& j.field("model"@) == Some(JsonView::Text(r.model))
            &&& j.field("choices"@) matches Some(JsonView::List(items)) && items.len()
                == r.choices.len() && forall|i: int|
                0 <= i < items.len() ==> #[trigger] items[i] == choice_json(r.choices[i])
            &&& match r.usage {
                Some(u) => {
                    let t = j.field("usage"@)->0;
                    &&& j.field("usage"@) is Some
                    &&& t.field("prompt_tokens"@) == Some(number(u.prompt_tokens as int))
                    &&& t.field("completion_tokens"@) == Some(number(u.completion_tokens as int))
                    &&& t.field("total_tokens"@) == Some(number(u.total_tokens as int))
                },
                None => j.field("usage"@) is None,
            }
        }),
{
    lemma_chat_names();
}

/// What is known of a request is all that it holds, field by field: nothing of
/// it, of its messages and of its tools is left out.
pub proof fn law_request_holds(r: ChatRequest, i: int, k: int)
    ensures
        r@.messages.len() == r.messages@.len(),
        r@.max_tokens == r.max_tokens,
        r@.stream == r.stream,
        r.model matches Some(m) ==> r@.model == Some(m@),
        r.model is None ==> r@.model is None,
        r.temperature matches Some(t) ==> r@.temperature == Some(t@),
        r.temperature is None ==> r@.temperature is None,
        r.tool_choice matches Some(c) ==> r@.tool_choice == Some(c@),
        r.tool_choice is None ==> r@.tool_choice is None,
        r.payment_type matches Some(t) ==> r@.payment_type == Some(t@),
        r.payment_type is None ==> r@.payment_type is None,
        r.tools is None ==> r@.tools is None,
        r.tools matches Some(ts) ==> r@.tools is Some && r@.tools->0.len() == ts@.len(),
        r.tools is Some && 0 <= i < r.tools->0@.len() ==> {
            let t = r.tools->0@[i];
            let v = r@.tools->0[i];
            &&& v.tool_type == t.tool_type@
            &&& v.name == t.function.name@
            &&& v.description == t.function.description@
            &&& v.parameters == t.function.parameters@
        },
        0 <= i < r.messages@.len() ==> {
            let m = r.messages@[i];
            let v = r@.messages[i];
            &&& v.role == m.role@
            &&& m.content matches Some(c) ==> v.content == Some(c@)
            &&& m.content is None ==> v.content is None
            &&& m.tool_call_id matches Some(c) ==> v.tool_call_id == Some(c@)
            &&& m.tool_call_id is None ==> v.tool_call_id is None
            &&& m.tool_calls is None ==> v.tool_calls is None
            &&& m.tool_calls matches Some(c) ==> v.tool_calls is Some && v.tool_calls->0.len()
                == c@.len()
            &&& m.tool_calls is Some && 0 <= k < m.tool_calls->0@.len() ==> {
                let c = m.tool_calls->0@[k];
                let w = v.tool_calls->0[k];
                &&& w.id == c.id@
                &&& w.call_type == c.call_type@
                &&& w.name == c.function.name@
                &&& w.arguments == c.function.arguments@
            }
        },
{
}

/// A message of text alone has its role and its text, and is no answer to a
/// call and makes none.
pub proof fn law_text_alone(role: Seq<char>, content: Seq<char>)
    ensures
        ({
            let m = text_message(role, content);
            &&& m.role == role
            &&& m.content == Some(content)
            &&& m.tool_calls is None
            &&& m.tool_call_id is None
        }),
{
}

} // verus!
