use edgee::models::{EdgeeConfig, Message, Role, ClientError, SendResponse, Choice, Usage, StreamChunk, StreamChoice, StreamDelta, ToolCall, FunctionCall, InputObject};
use edgee::client::{Input, ToolLoop, Step, StreamLoop, SseBuffer};
use edgee::client::{tool_outcome, prepare_tool_call, error_result_text, ToolOutcome, tool_result_text, call_result_text};
use edgee::models::StreamEvent;

#[test]
fn test_config_builder() {
    let config = EdgeeConfig::new("my-key").with_base_url("https://custom.example.com");

    assert_eq!(config.api_key, "my-key");
    assert_eq!(config.base_url, "https://custom.example.com");
}

#[test]
fn test_message_constructors() {
    let msg = Message::user("hello");
    assert_eq!(msg.role, Role::User);
    assert_eq!(msg.content.as_deref(), Some("hello"));

    let msg = Message::system("You are helpful");
    assert_eq!(msg.role, Role::System);

    let msg = Message::developer("You are helpful");
    assert_eq!(msg.role, Role::Developer);

    let msg = Message::assistant("Hi there");
    assert_eq!(msg.role, Role::Assistant);

    let msg = Message::tool("call-123", "result");
    assert_eq!(msg.role, Role::Tool);
    assert_eq!(msg.tool_call_id.as_deref(), Some("call-123"));
}

#[test]
fn default_base_url_is_the_gateway() {
    let config = EdgeeConfig::new("k");
    assert_eq!(config.base_url, "https://api.edgee.ai");
}

#[test]
fn config_from_env_values_requires_a_key() {
    assert!(matches!(EdgeeConfig::from_env_values(None, None), Err(ClientError::MissingApiKey)));
    let c = EdgeeConfig::from_env_values(Some("test-key".to_string()), Some("https://test.example.com".to_string())).unwrap();
    assert_eq!(c.api_key, "test-key");
    assert_eq!(c.base_url, "https://test.example.com");
    let d = EdgeeConfig::from_env_values(Some("k".to_string()), None).unwrap();
    assert_eq!(d.base_url, "https://api.edgee.ai");
}

fn call(id: &str, name: &str, args: &str) -> ToolCall {
    ToolCall { id: id.to_string(), call_type: "function".to_string(), function: FunctionCall { name: name.to_string(), arguments: args.to_string() } }
}

fn response(tool_calls: Option<Vec<ToolCall>>, usage: Option<Usage>, text: Option<&str>) -> SendResponse {
    SendResponse {
        id: "r".to_string(),
        object: "chat.completion".to_string(),
        created: 1,
        model: "m".to_string(),
        choices: vec![Choice {
            index: 0,
            message: Message { role: Role::Assistant, content: text.map(|t| t.to_string()), tool_calls, tool_call_id: None },
            finish_reason: Some("stop".to_string()),
        }],
        usage,
    }
}

#[test]
fn send_response_getters_read_the_first_choice() {
    let r = response(Some(vec![call("1", "f", "{}")]), None, Some("hi"));
    assert_eq!(r.text(), Some("hi"));
    assert_eq!(r.finish_reason(), Some("stop"));
    assert_eq!(r.tool_calls().unwrap().len(), 1);
    assert_eq!(r.message().unwrap().role, Role::Assistant);
    let empty = SendResponse { choices: vec![], ..response(None, None, None) };
    assert_eq!(empty.text(), None);
    assert!(empty.message().is_none());
}

#[test]
fn tool_loop_runs_tools_then_answers_with_summed_usage() {
    let mut l = ToolLoop::new("What's the weather?", 10);
    assert_eq!(l.messages.len(), 1);
    assert!(l.next_call().is_ok());
    let u1 = Usage { prompt_tokens: 10, completion_tokens: 5, total_tokens: 15 };
    let step = l.on_response(response(Some(vec![call("call-1", "get_weather", "{}")]), Some(u1), None));
    assert!(matches!(step, Step::RunTools));
    assert_eq!(l.pending_calls()[0].id, "call-1");
    l.push_tool_result("call-1", "{\"temp\":72}");
    assert_eq!(l.messages.len(), 3);
    assert_eq!(l.messages[2].role, Role::Tool);
    assert!(l.next_call().is_ok());
    let u2 = Usage { prompt_tokens: 1, completion_tokens: 2, total_tokens: 3 };
    match l.on_response(response(None, Some(u2), Some("Sunny"))) {
        Step::Done(r) => {
            let u = r.usage.unwrap();
            assert_eq!((u.prompt_tokens, u.completion_tokens, u.total_tokens), (11, 7, 18));
            assert_eq!(r.text(), Some("Sunny"));
        }
        Step::RunTools => panic!("expected an answer"),
    }
}

#[test]
fn tool_loop_stops_after_max_iterations() {
    let mut l = ToolLoop::new("x", 1);
    assert!(l.next_call().is_ok());
    assert!(matches!(l.next_call(), Err(ClientError::MaxIterationsExceeded(1))));
}

#[test]
fn empty_tool_call_list_is_an_answer() {
    let mut l = ToolLoop::new("x", 3);
    l.next_call().unwrap();
    assert!(matches!(l.on_response(response(Some(vec![]), None, Some("ok"))), Step::Done(_)));
}

fn chunk(role: Option<Role>, text: Option<&str>, calls: Option<Vec<ToolCall>>) -> StreamChunk {
    StreamChunk {
        id: "c".to_string(),
        object: "chat.completion.chunk".to_string(),
        created: 1,
        model: "m".to_string(),
        choices: vec![StreamChoice { index: 0, delta: StreamDelta { role, content: text.map(|t| t.to_string()), tool_calls: calls }, finish_reason: None }],
    }
}

#[test]
fn stream_loop_accumulates_deltas_by_index() {
    let mut l = StreamLoop::new("hi", 2);
    l.start_iteration().unwrap();
    l.on_chunk(&chunk(Some(Role::Assistant), Some("Hel"), Some(vec![call("0", "f", "{\"a\"")])));
    l.on_chunk(&chunk(None, Some("lo"), Some(vec![call("0", "", ":1}"), call("1", "g", "{}")])));
    assert_eq!(l.content, "Hello");
    assert!(l.finish_iteration());
    let m = l.messages.last().unwrap();
    assert_eq!(m.content.as_deref(), Some("Hello"));
    let calls = m.tool_calls.as_ref().unwrap();
    assert_eq!(calls.len(), 2);
    assert_eq!(calls[0].function.arguments, "{\"a\":1}");
    assert_eq!(calls[1].function.name, "g");
    l.start_iteration().unwrap();
    assert!(!l.finish_iteration());
    assert!(matches!(l.start_iteration(), Err(ClientError::MaxIterationsExceeded(2))));
}

#[test]
fn sse_buffer_splits_events_and_keeps_the_rest() {
    let mut b = SseBuffer::new();
    let first = b.feed("data: {\"a\":1}\n\ndata: [DONE]\n\ndata: {\"b\"");
    assert_eq!(first, vec!["{\"a\":1}".to_string()]);
    let second = b.feed(":2}\r\nid: 7\n\n");
    assert_eq!(second, vec!["{\"b\":2}".to_string()]);
    assert!(b.buffer.is_empty());
}

#[test]
fn parse_input_of_text_is_one_user_message() {
    let (messages, tools, choice) = Input::from("hello".to_string()).parse_input();
    assert_eq!(messages.len(), 1);
    assert_eq!(messages[0].role, Role::User);
    assert!(tools.is_none() && choice.is_none());
    let (messages, _, _) = Input::from(vec![Message::user("a"), Message::assistant("b")]).parse_input();
    assert_eq!(messages.len(), 2);
    let _obj: Input = InputObject::new(vec![Message::user("hello")]).into();
}

#[test]
fn sse_events_do_not_depend_on_how_the_stream_is_cut() {
    let whole = "data: {\"a\":1}\n\ndata: {\"b\":2}\r\ndata: [DONE]\n\nda";
    let mut at_once = SseBuffer::new();
    let all = at_once.feed(whole);
    for cut in 0..whole.len() {
        let mut parts = SseBuffer::new();
        let mut got = parts.feed(&whole[..cut]);
        got.extend(parts.feed(&whole[cut..]));
        assert_eq!(got, all);
        assert_eq!(parts.buffer, at_once.buffer);
    }
    assert_eq!(all, vec!["{\"a\":1}".to_string(), "{\"b\":2}".to_string()]);
    assert_eq!(at_once.buffer, vec!['d', 'a']);
}

#[test]
fn tool_calls_are_run_or_answered_with_an_error() {
    assert_eq!(tool_outcome(false, None, "weather"), ToolOutcome::Error("Unknown tool: weather".to_string()));
    assert_eq!(tool_outcome(true, Some("bad".to_string()), "weather"), ToolOutcome::Error("Invalid arguments: bad".to_string()));
    assert_eq!(tool_outcome(true, None, "weather"), ToolOutcome::Execute);
    assert_eq!(prepare_tool_call(false, &call("1", "weather", "{}")), Err("Unknown tool: weather".to_string()));
    assert_eq!(prepare_tool_call(true, &call("1", "weather", "{\"city\":\"Paris\"}")).unwrap()["city"], "Paris");
    let e = prepare_tool_call(true, &call("1", "weather", "{oops")).unwrap_err();
    let parse = serde_json::from_str::<serde_json::Value>("{oops").unwrap_err().to_string();
    assert_eq!(e, format!("Invalid arguments: {}", parse));
    assert_eq!(error_result_text("Unknown tool: a\"b"), "{\"error\":\"Unknown tool: a\\\"b\"}");
    assert_eq!(error_result_text("x"), "{\"error\":\"x\"}");
}

#[test]
fn tool_events_follow_the_calls_in_order() {
    let mut s = StreamLoop::new("hi", 3);
    s.start_iteration().unwrap();
    s.calls.push((0, call("a", "first", "{}")));
    s.calls.push((1, call("b", "second", "{}")));
    let events = s.tool_events(vec![serde_json::Value::String("one".to_string()), serde_json::from_str::<serde_json::Value>("{\"n\":2}").unwrap()]);
    assert_eq!(events.len(), 5);
    assert!(matches!(&events[0], StreamEvent::ToolStart { tool_call } if tool_call.id == "a"));
    assert!(matches!(&events[1], StreamEvent::ToolResult { tool_call_id, tool_name, result } if tool_call_id == "a" && tool_name == "first" && result == "one"));
    assert!(matches!(&events[2], StreamEvent::ToolStart { tool_call } if tool_call.function.name == "second"));
    assert!(matches!(&events[3], StreamEvent::ToolResult { tool_call_id, result, .. } if tool_call_id == "b" && result["n"] == 2));
    assert!(matches!(&events[4], StreamEvent::IterationComplete { iteration: 1 }));
}

#[test]
fn an_exhausted_stream_loop_ends_with_max_iterations() {
    let mut s = StreamLoop::new("hi", 1);
    assert!(s.start_iteration().is_ok());
    assert!(matches!(s.start_iteration(), Err(ClientError::MaxIterationsExceeded(1))));
}

#[test]
fn tool_results_become_text() {
    assert_eq!(tool_result_text(&serde_json::Value::String("sunny".to_string())), "sunny");
    let v = serde_json::from_str::<serde_json::Value>("{\"t\": 21, \"ok\": true}").unwrap();
    assert_eq!(tool_result_text(&v), serde_json::to_string(&v).unwrap());
    assert_eq!(tool_result_text(&serde_json::Value::from(3)), "3");
    assert_eq!(call_result_text(&Ok(serde_json::Value::String("x".to_string()))), "x");
    assert_eq!(call_result_text(&Err("Unknown tool: w".to_string())), "{\"error\":\"Unknown tool: w\"}");
}

#[test]
fn test_input_conversions() {
    let _input: Input = "hello".into();
    let _input: Input = "hello".to_string().into();
    let _input: Input = InputObject::new(vec![Message::user("hello")]).into();
    let _input: Input = vec![Message::user("hello")].into();
    assert!(matches!(Input::from("hello"), Input::Text(ref t) if t == "hello"));
}

#[test]
fn sse_events_are_the_same_fed_one_character_at_a_time() {
    let whole = "data: {\"a\":1}\n\n: note\ndata: {\"b\":2}\n\ndata: [DONE]\n\ntail";
    let mut at_once = SseBuffer::new();
    let all = at_once.feed(whole);
    let mut parts = SseBuffer::new();
    let mut got = Vec::new();
    for i in 0..whole.len() {
        got.extend(parts.feed(&whole[i..i + 1]));
    }
    assert_eq!(got, all);
    assert_eq!(parts.buffer, at_once.buffer);
    assert_eq!(all.len(), 2);
}
