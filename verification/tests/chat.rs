use inference_super_router::endpoints::{EndpointDef, ResolvedEndpoint};
use inference_super_router::error::AppError;
use inference_super_router::handler::{
    chat_handler, estimate_request_tokens, estimate_tokens, prepare_request, request_tokens,
};
use inference_super_router::json::{Json, JsonObject};
use inference_super_router::models::chat::{
    default_assistant_role, ChatChoice, ChatMessage, ChatRequest, ChatResponse, ChatUsage,
    FunctionCall, FunctionDefinition, ResponseMessage, Tool, ToolCall,
};
use serde_json::Value;

fn object(fields: Vec<(&str, Json)>) -> Json {
    let mut o = JsonObject::new();
    for (k, v) in fields {
        o.put(k, v);
    }
    Json::Object(o)
}

fn request(messages: Vec<ChatMessage>) -> ChatRequest {
    ChatRequest {
        messages,
        model: None,
        temperature: None,
        max_tokens: None,
        stream: None,
        tools: None,
        tool_choice: None,
        payment_type: None,
    }
}

fn endpoint(prompt: Option<&str>, max_input: u32, max_output: u32) -> ResolvedEndpoint {
    ResolvedEndpoint {
        def: EndpointDef {
            name: "m".to_string(),
            route_prefix: "/m".to_string(),
            api_endpoint: "https://example.org".to_string(),
            api_key_env: "KEY".to_string(),
            model: "m".to_string(),
            archetype: "openai".to_string(),
            cost: "1".to_string(),
            payment_currency: "usdc".to_string(),
            max_input_tokens: max_input,
            max_output_tokens: max_output,
            system_prompt_file: None,
            description: "d".to_string(),
            credit_cost: 0,
        },
        api_key: "k".to_string(),
        system_prompt: prompt.map(|s| s.to_string()),
    }
}

#[test]
fn test_tool_definitions_preserved_in_request() {
    let request = ChatRequest {
        messages: vec![ChatMessage::user("What's the weather?")],
        model: Some("test-model".to_string()),
        temperature: None,
        max_tokens: None,
        stream: None,
        tools: Some(vec![Tool {
            tool_type: "function".to_string(),
            function: FunctionDefinition {
                name: "get_weather".to_string(),
                description: "Get the current weather for a location".to_string(),
                parameters: object(vec![
                    ("type", Json::str("object")),
                    (
                        "properties",
                        object(vec![(
                            "location",
                            object(vec![
                                ("type", Json::str("string")),
                                ("description", Json::str("The city and state")),
                            ]),
                        )]),
                    ),
                    ("required", Json::List(vec![Json::str("location")])),
                ]),
            },
        }]),
        tool_choice: Some(Json::str("auto")),
        payment_type: None,
    };

    let serialized = request.to_json().to_text();
    let parsed: Value = serde_json::from_str(&serialized).unwrap();

    assert!(parsed["tools"].is_array());
    assert_eq!(parsed["tools"].as_array().unwrap().len(), 1);
    assert_eq!(parsed["tools"][0]["type"], "function");
    assert_eq!(parsed["tools"][0]["function"]["name"], "get_weather");
    assert_eq!(parsed["tool_choice"], "auto");
    assert_eq!(
        parsed["tools"][0]["function"]["parameters"]["properties"]["location"]["description"],
        "The city and state"
    );
}

#[test]
fn test_none_fields_not_serialized() {
    let request = request(vec![ChatMessage::user("Hello")]);

    let serialized = request.to_json().to_text();
    let parsed: Value = serde_json::from_str(&serialized).unwrap();

    assert!(!parsed.as_object().unwrap().contains_key("tools"));
    assert!(!parsed.as_object().unwrap().contains_key("tool_choice"));
    assert!(!parsed.as_object().unwrap().contains_key("model"));
    assert!(!parsed.as_object().unwrap().contains_key("payment_type"));
    assert_eq!(parsed["messages"][0]["role"], "user");
    assert_eq!(parsed["messages"][0]["content"], "Hello");
    assert!(!parsed["messages"][0].as_object().unwrap().contains_key("tool_calls"));
}

#[test]
fn messages_have_their_roles() {
    assert_eq!(ChatMessage::system("a").role, "system");
    assert_eq!(ChatMessage::assistant("a").role, "assistant");
    let t = ChatMessage::tool_result("call_1", "42");
    assert_eq!(t.role, "tool");
    assert_eq!(t.tool_call_id, Some("call_1".to_string()));
    assert_eq!(t.content, Some("42".to_string()));
    assert_eq!(default_assistant_role(), "assistant");
}

#[test]
fn a_full_request_is_written_in_full() {
    let mut r = request(vec![ChatMessage {
        role: "assistant".to_string(),
        content: None,
        tool_calls: Some(vec![ToolCall {
            id: "call_1".to_string(),
            call_type: "function".to_string(),
            function: FunctionCall {
                name: "f".to_string(),
                arguments: "{}".to_string(),
            },
        }]),
        tool_call_id: None,
    }]);
    r.max_tokens = Some(7);
    r.stream = Some(false);
    r.temperature = Some(Json::parse(b"0.5").unwrap());
    r.payment_type = Some("credits".to_string());
    let parsed: Value = serde_json::from_str(&r.to_json().to_text()).unwrap();
    assert_eq!(parsed["max_tokens"], 7);
    assert_eq!(parsed["stream"], false);
    assert_eq!(parsed["temperature"], 0.5);
    assert_eq!(parsed["payment_type"], "credits");
    assert_eq!(parsed["messages"][0]["tool_calls"][0]["type"], "function");
    assert_eq!(parsed["messages"][0]["tool_calls"][0]["function"]["arguments"], "{}");
    assert!(!parsed["messages"][0].as_object().unwrap().contains_key("content"));
}

#[test]
fn a_response_is_written_in_full() {
    let r = ChatResponse {
        id: "x".to_string(),
        object: "chat.completion".to_string(),
        created: 12,
        model: "m".to_string(),
        choices: vec![ChatChoice {
            index: 0,
            message: ResponseMessage {
                role: "assistant".to_string(),
                content: Some("hi".to_string()),
                tool_calls: None,
            },
            finish_reason: Some("stop".to_string()),
        }],
        usage: Some(ChatUsage { prompt_tokens: 1, completion_tokens: 2, total_tokens: 3 }),
    };
    let parsed: Value = serde_json::from_str(&r.to_json().to_text()).unwrap();
    assert_eq!(parsed["created"], 12);
    assert_eq!(parsed["choices"][0]["message"]["content"], "hi");
    assert_eq!(parsed["choices"][0]["finish_reason"], "stop");
    assert_eq!(parsed["usage"]["total_tokens"], 3);
}

#[test]
fn tokens_are_a_quarter_of_the_characters() {
    assert_eq!(estimate_tokens(""), 0);
    assert_eq!(estimate_tokens("abc"), 0);
    assert_eq!(estimate_tokens("abcd"), 1);
    assert_eq!(estimate_tokens("äöüßäöüß"), 2);
    let r = request(vec![ChatMessage::user("12345678"), ChatMessage::system("1234")]);
    assert_eq!(estimate_request_tokens(&r), 1 + 2 + 1 + 1);
    assert_eq!(request_tokens(&r.messages), Some(5));
}

#[test]
fn the_system_prompt_is_put_in_front_once() {
    let e = endpoint(Some("be brief"), 100, 50);
    let r = prepare_request(&e, request(vec![ChatMessage::user("hi")]));
    assert_eq!(r.messages.len(), 2);
    assert_eq!(r.messages[0].role, "system");
    assert_eq!(r.messages[0].content, Some("be brief".to_string()));
    assert_eq!(r.max_tokens, Some(50));
    let again = prepare_request(&e, r);
    assert_eq!(again.messages.len(), 2);

    let own = prepare_request(&e, request(vec![ChatMessage::system("mine")]));
    assert_eq!(own.messages.len(), 1);
    let mut limited = request(vec![]);
    limited.max_tokens = Some(3);
    assert_eq!(prepare_request(&endpoint(None, 1, 50), limited).max_tokens, Some(3));
}

#[test]
fn a_request_that_is_too_large_is_refused() {
    let e = endpoint(None, 2, 50);
    match chat_handler(&e, request(vec![ChatMessage::user("12345678")])) {
        Err(AppError::InputTooLarge(m)) => {
            assert_eq!(m, "Estimated 3 input tokens exceeds maximum of 2")
        }
        _ => panic!("expected a refusal"),
    }
    assert!(chat_handler(&e, request(vec![ChatMessage::user("1234")])).is_ok());
}
