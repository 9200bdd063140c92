//! Data types of the AI gateway client: configuration, conversation messages,
//! tool definitions and the responses of the chat-completion endpoint.
use vstd::prelude::*;
use std::collections::HashMap;
use crate::text::owned;

verus! {

/// `serde_json::Value`, carried through as an opaque value.
#[verifier::external_type_specification]
#[verifier::external_body]
pub struct ExJsonValue(serde_json::Value);

/// `Clone` of `serde_json::Value`; nothing is claimed of the copy.
pub assume_specification[<serde_json::Value as std::clone::Clone>::clone](
    v: &serde_json::Value,
) -> serde_json::Value;

/// The address of the gateway used when none is configured.
pub open spec fn default_base_url() -> Seq<char> {
    seq!['h', 't', 't', 'p', 's', ':', '/', '/', 'a', 'p', 'i', '.', 'e', 'd', 'g', 'e', 'e', '.', 'a', 'i']
}

fn default_base_url_string() -> (r: String)
    ensures
        r@ == default_base_url(),
{
    let r = owned("https://api.edgee.ai");
    proof {
        reveal_strlit("https://api.edgee.ai");
        assert(r@ =~= default_base_url());
    }
    r
}

/// Configuration for the client.
#[derive(Debug, Clone)]
pub struct EdgeeConfig {
    /// API key for authentication
    pub api_key: String,
    /// Base URL of the API
    pub base_url: String,
}

impl EdgeeConfig {
    /// A configuration with the given API key and the default base URL.
    pub fn new(api_key: &str) -> (r: EdgeeConfig)
        ensures
            r.api_key@ == api_key@,
            r.base_url@ == default_base_url(),
    {
        EdgeeConfig { api_key: owned(api_key), base_url: default_base_url_string() }
    }

    /// The same configuration with another base URL.
    pub fn with_base_url(self, base_url: &str) -> (r: EdgeeConfig)
        ensures
            r.api_key@ == self.api_key@,
            r.base_url@ == base_url@,
    {
        let mut s = self;
        s.base_url = owned(base_url);
        s
    }

    /// A configuration from the values of the `EDGEE_API_KEY` and
    /// `EDGEE_BASE_URL` variables: the key is required, the base URL falls back
    /// to the default.
    pub fn from_env_values(api_key: Option<String>, base_url: Option<String>) -> (r: Result<
        EdgeeConfig,
        ClientError,
    >)
        ensures
            api_key is None <==> r matches Err(ClientError::MissingApiKey),
            api_key is Some <==> r is Ok,
            r matches Ok(c) ==> c.api_key@ == api_key.unwrap()@ && c.base_url@ == (match base_url {
                Some(b) => b@,
                None => default_base_url(),
            }),
    {
        match api_key {
            None => Err(ClientError::MissingApiKey),
            Some(k) => {
                let b = match base_url {
                    Some(b) => b,
                    None => default_base_url_string(),
                };
                Ok(EdgeeConfig { api_key: k, base_url: b })
            },
        }
    }
}

/// Errors of the client.
#[derive(Debug)]
pub enum ClientError {
    /// HTTP request failed
    Http(reqwest::Error),
    /// JSON serialization or deserialization failed
    Json(serde_json::Error),
    /// API key is missing
    MissingApiKey,
    /// API returned an error
    Api { status: u16, message: String },
    /// Streaming error
    Stream(String),
    /// Invalid configuration
    InvalidConfig(String),
    /// Maximum tool iterations exceeded
    MaxIterationsExceeded(u32),
    /// Tool execution error
    ToolExecution { tool_name: String, message: String },
}

/// `reqwest::Error`, carried through as an opaque value.
#[verifier::external_type_specification]
#[verifier::external_body]
pub struct ExReqwestError(reqwest::Error);

/// `serde_json::Error`, carried through as an opaque value.
#[verifier::external_type_specification]
#[verifier::external_body]
pub struct ExJsonError(serde_json::Error);

/// Message role in a conversation.
#[derive(Debug, Clone, Copy, PartialEq, Eq, Structural)]
pub enum Role {
    System,
    Developer,
    User,
    Assistant,
    Tool,
}

/// Function call made by the model.
#[derive(Debug, Clone)]
pub struct FunctionCall {
    pub name: String,
    pub arguments: String,
}

/// Tool call information.
#[derive(Debug, Clone)]
pub struct ToolCall {
    pub id: String,
    pub call_type: String,
    pub function: FunctionCall,
}

/// Message in a conversation.
#[derive(Debug, Clone)]
pub struct Message {
    pub role: Role,
    pub content: Option<String>,
    pub tool_calls: Option<Vec<ToolCall>>,
    pub tool_call_id: Option<String>,
}

/// A message of role `role` with text `content` and nothing else.
pub open spec fn plain_message(m: Message, role: Role, content: Seq<char>) -> bool {
    &&& m.role == role
    &&& m.content matches Some(c) && c@ == content
    &&& m.tool_calls is None
    &&& m.tool_call_id is None
}

impl Message {
    fn with_role(role: Role, content: &str) -> (r: Message)
        ensures
            plain_message(r, role, content@),
    {
        Message { role, content: Some(owned(content)), tool_calls: None, tool_call_id: None }
    }

    /// A system message.
    pub fn system(content: &str) -> (r: Message)
        ensures
            plain_message(r, Role::System, content@),
    {
        Message::with_role(Role::System, content)
    }

    /// A developer message.
    pub fn developer(content: &str) -> (r: Message)
        ensures
            plain_message(r, Role::Developer, content@),
    {
        Message::with_role(Role::Developer, content)
    }

    /// A user message.
    pub fn user(content: &str) -> (r: Message)
        ensures
            plain_message(r, Role::User, content@),
    {
        Message::with_role(Role::User, content)
    }

    /// An assistant message.
    pub fn assistant(content: &str) -> (r: Message)
        ensures
            plain_message(r, Role::Assistant, content@),
    {
        Message::with_role(Role::Assistant, content)
    }

    /// The answer to the tool call `tool_call_id`.
    pub fn tool(tool_call_id: &str, content: &str) -> (r: Message)
        ensures
            r.role == Role::Tool,
            r.content matches Some(c) && c@ == content@,
            r.tool_calls is None,
            r.tool_call_id matches Some(i) && i@ == tool_call_id@,
    {
        Message {
            role: Role::Tool,
            content: Some(owned(content)),
            tool_calls: None,
            tool_call_id: Some(owned(tool_call_id)),
        }
    }
}

/// JSON Schema of the parameters of a function.
#[derive(Debug, Clone)]
pub struct JsonSchema {
    pub schema_type: String,
    pub properties: Option<HashMap<String, serde_json::Value>>,
    pub required: Option<Vec<String>>,
    pub description: Option<String>,
}

/// Definition of a function the model may call.
#[derive(Debug, Clone)]
pub struct FunctionDefinition {
    pub name: String,
    pub description: Option<String>,
    pub parameters: JsonSchema,
}

/// Tool definition.
#[derive(Debug, Clone)]
pub struct Tool {
    pub tool_type: String,
    pub function: FunctionDefinition,
}

impl Tool {
    /// A tool of type `function`.
    pub fn function(function: FunctionDefinition) -> (r: Tool)
        ensures
            r.tool_type@ == seq!['f', 'u', 'n', 'c', 't', 'i', 'o', 'n'],
            r.function == function,
    {
        let t = owned("function");
        proof {
            reveal_strlit("function");
        }
        Tool { tool_type: t, function }
    }
}

/// Tool choice configuration.
#[derive(Debug, Clone)]
pub enum ToolChoice {
    /// Auto-select tools
    Auto,
    /// Never use tools
    Never,
    /// Use a specific tool
    Specific { choice_type: String, function: HashMap<String, String> },
}

/// Input of a chat completion request.
#[derive(Debug, Clone)]
pub struct InputObject {
    pub messages: Vec<Message>,
    pub tools: Option<Vec<Tool>>,
    pub tool_choice: Option<serde_json::Value>,
}

impl InputObject {
    /// An input made of `messages` alone.
    pub fn new(messages: Vec<Message>) -> (r: InputObject)
        ensures
            r.messages == messages,
            r.tools is None,
            r.tool_choice is None,
    {
        InputObject { messages, tools: None, tool_choice: None }
    }

    /// The same input with tools.
    pub fn with_tools(self, tools: Vec<Tool>) -> (r: InputObject)
        ensures
            r.messages == self.messages,
            r.tools == Some(tools),
            r.tool_choice == self.tool_choice,
    {
        let mut s = self;
        s.tools = Some(tools);
        s
    }

    /// The same input with a tool choice.
    pub fn with_tool_choice(self, tool_choice: serde_json::Value) -> (r: InputObject)
        ensures
            r.messages == self.messages,
            r.tools == self.tools,
            r.tool_choice == Some(tool_choice),
    {
        let mut s = self;
        s.tool_choice = Some(tool_choice);
        s
    }
}

/// Token usage information.
#[derive(Debug, Clone, Copy)]
pub struct Usage {
    pub prompt_tokens: u32,
    pub completion_tokens: u32,
    pub total_tokens: u32,
}

/// Choice in a non-streaming response.
#[derive(Debug, Clone)]
pub struct Choice {
    pub index: u32,
    pub message: Message,
    pub finish_reason: Option<String>,
}

/// Response of a non-streaming request.
#[derive(Debug, Clone)]
pub struct SendResponse {
    pub id: String,
    pub object: String,
    pub created: u64,
    pub model: String,
    pub choices: Vec<Choice>,
    pub usage: Option<Usage>,
}

/// The text of an optional string, or `None`.
pub open spec fn opt_view(o: Option<String>) -> Option<Seq<char>> {
    match o {
        Some(s) => Some(s@),
        None => None,
    }
}

/// The view of an optional string slice, or `None`.
pub open spec fn opt_str_view(o: Option<&str>) -> Option<Seq<char>> {
    match o {
        Some(s) => Some(s@),
        None => None,
    }
}

fn as_opt_str(o: &Option<String>) -> (r: Option<&str>)
    ensures
        opt_str_view(r) == opt_view(*o),
{
    match o {
        Some(s) => Some(s.as_str()),
        None => None,
    }
}

impl SendResponse {
    /// The first choice, if any.
    pub open spec fn first(&self) -> Option<Choice> {
        if self.choices@.len() > 0 {
            Some(self.choices@[0])
        } else {
            None
        }
    }

    /// The text of the first choice.
    pub fn text(&self) -> (r: Option<&str>)
        ensures
            opt_str_view(r) == match self.first() {
                Some(c) => opt_view(c.message.content),
                None => None,
            },
    {
        if self.choices.len() > 0 {
            as_opt_str(&self.choices[0].message.content)
        } else {
            None
        }
    }

    /// The message of the first choice.
    pub fn message(&self) -> (r: Option<&Message>)
        ensures
            r is Some <==> self.first() is Some,
            r is Some ==> *r.unwrap() == self.first().unwrap().message,
    {
        if self.choices.len() > 0 {
            Some(&self.choices[0].message)
        } else {
            None
        }
    }

    /// The finish reason of the first choice.
    pub fn finish_reason(&self) -> (r: Option<&str>)
        ensures
            opt_str_view(r) == match self.first() {
                Some(c) => opt_view(c.finish_reason),
                None => None,
            },
    {
        if self.choices.len() > 0 {
            as_opt_str(&self.choices[0].finish_reason)
        } else {
            None
        }
    }

    /// The tool calls of the first choice.
    pub fn tool_calls(&self) -> (r: Option<&Vec<ToolCall>>)
        ensures
            r is Some <==> (self.first() matches Some(c) && c.message.tool_calls is Some),
            r is Some ==> *r.unwrap() == self.first().unwrap().message.tool_calls.unwrap(),
    {
        if self.choices.len() > 0 {
            match &self.choices[0].message.tool_calls {
                Some(t) => Some(t),
                None => None,
            }
        } else {
            None
        }
    }
}

/// Delta in a streaming response.
#[derive(Debug, Clone)]
pub struct StreamDelta {
    pub role: Option<Role>,
    pub content: Option<String>,
    pub tool_calls: Option<Vec<ToolCall>>,
}

/// Choice in a streaming response.
#[derive(Debug, Clone)]
pub struct StreamChoice {
    pub index: u32,
    pub delta: StreamDelta,
    pub finish_reason: Option<String>,
}

/// Chunk of a streaming response.
#[derive(Debug, Clone)]
pub struct StreamChunk {
    pub id: String,
    pub object: String,
    pub created: u64,
    pub model: String,
    pub choices: Vec<StreamChoice>,
}

impl StreamChunk {
    /// The first choice, if any.
    pub open spec fn first(&self) -> Option<StreamChoice> {
        if self.choices@.len() > 0 {
            Some(self.choices@[0])
        } else {
            None
        }
    }

    /// The text of the delta of the first choice.
    pub fn text(&self) -> (r: Option<&str>)
        ensures
            opt_str_view(r) == match self.first() {
                Some(c) => opt_view(c.delta.content),
                None => None,
            },
    {
        if self.choices.len() > 0 {
            as_opt_str(&self.choices[0].delta.content)
        } else {
            None
        }
    }

    /// The role of the delta of the first choice.
    pub fn role(&self) -> (r: Option<&Role>)
        ensures
            r is Some <==> (self.first() matches Some(c) && c.delta.role is Some),
            r is Some ==> *r.unwrap() == self.first().unwrap().delta.role.unwrap(),
    {
        if self.choices.len() > 0 {
            match &self.choices[0].delta.role {
                Some(x) => Some(x),
                None => None,
            }
        } else {
            None
        }
    }

    /// The finish reason of the first choice.
    pub fn finish_reason(&self) -> (r: Option<&str>)
        ensures
            opt_str_view(r) == match self.first() {
                Some(c) => opt_view(c.finish_reason),
                None => None,
            },
    {
        if self.choices.len() > 0 {
            as_opt_str(&self.choices[0].finish_reason)
        } else {
            None
        }
    }

    /// The tool call deltas of the first choice.
    pub fn tool_call_deltas(&self) -> (r: Option<&Vec<ToolCall>>)
        ensures
            r is Some <==> (self.first() matches Some(c) && c.delta.tool_calls is Some),
            r is Some ==> *r.unwrap() == self.first().unwrap().delta.tool_calls.unwrap(),
    {
        if self.choices.len() > 0 {
            match &self.choices[0].delta.tool_calls {
                Some(t) => Some(t),
                None => None,
            }
        } else {
            None
        }
    }
}

/// Events of a streaming request with tools.
#[derive(Debug, Clone)]
pub enum StreamEvent {
    /// A chunk of streamed content
    Chunk(StreamChunk),
    /// Tool execution is starting
    ToolStart { tool_call: ToolCall },
    /// Tool execution completed
    ToolResult { tool_call_id: String, tool_name: String, result: serde_json::Value },
    /// One iteration of the tool loop completed
    IterationComplete { iteration: u32 },
}

impl StreamEvent {
    /// The text of a chunk event.
    pub fn text(&self) -> (r: Option<&str>)
        ensures
            opt_str_view(r) == match self {
                StreamEvent::Chunk(c) => match c.first() {
                    Some(ch) => opt_view(ch.delta.content),
                    None => None,
                },
                _ => None,
            },
    {
        match self {
            StreamEvent::Chunk(chunk) => chunk.text(),
            _ => None,
        }
    }

    /// Whether this is a chunk event.
    pub fn is_chunk(&self) -> (r: bool)
        ensures
            r == (self is Chunk),
    {
        match self {
            StreamEvent::Chunk(_) => true,
            _ => false,
        }
    }

    /// Whether this is a tool start event.
    pub fn is_tool_start(&self) -> (r: bool)
        ensures
            r == (self is ToolStart),
    {
        match self {
            StreamEvent::ToolStart { .. } => true,
            _ => false,
        }
    }

    /// Whether this is a tool result event.
    pub fn is_tool_result(&self) -> (r: bool)
        ensures
            r == (self is ToolResult),
    {
        match self {
            StreamEvent::ToolResult { .. } => true,
            _ => false,
        }
    }
}

} // verus!
