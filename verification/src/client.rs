//! The decisions of the gateway client: what a request holds, the loop that
//! runs the model's tool calls until it answers, and the framing of a
//! server-sent event stream.
use vstd::prelude::*;
use crate::models::{
    Message, Role, Tool, ToolCall, FunctionCall, InputObject, SendResponse, StreamChunk, Usage,
    ClientError, plain_message, opt_view, StreamEvent,
};
use crate::text::{chars_of, string_of, push_str, first_occurrence, occurs_at, split_seq, starts_with, find, slice_chars, split, has_prefix, same_chars};
use crate::numbers::{parse_u32, unsigned_text};

verus! {

/// What a request to the chat endpoint is made of.
#[derive(Debug, Clone)]
pub enum Input {
    /// A text, sent as a user message
    Text(String),
    /// Messages, with tools and a tool choice
    Object(InputObject),
}

impl From<String> for Input {
    fn from(s: String) -> (r: Input) {
        Input::Text(s)
    }
}

impl vstd::std_specs::convert::FromSpecImpl<String> for Input {
    open spec fn obeys_from_spec() -> bool {
        true
    }

    open spec fn from_spec(v: String) -> Input {
        Input::Text(v)
    }
}

impl<'a> From<&'a str> for Input {
    fn from(s: &'a str) -> (r: Input)
        ensures
            r matches Input::Text(t) && t@ == s@,
    {
        Input::Text(s.to_string())
    }
}

impl<'a> vstd::std_specs::convert::FromSpecImpl<&'a str> for Input {
    /// A `String` is not determined by its text in specifications, so the
    /// conversion is stated by `from`'s own `ensures` instead.
    open spec fn obeys_from_spec() -> bool {
        false
    }

    open spec fn from_spec(v: &'a str) -> Input {
        arbitrary()
    }
}

impl From<InputObject> for Input {
    fn from(o: InputObject) -> (r: Input) {
        Input::Object(o)
    }
}

impl vstd::std_specs::convert::FromSpecImpl<InputObject> for Input {
    open spec fn obeys_from_spec() -> bool {
        true
    }

    open spec fn from_spec(v: InputObject) -> Input {
        Input::Object(v)
    }
}

impl From<Vec<Message>> for Input {
    fn from(messages: Vec<Message>) -> (r: Input) {
        Input::Object(InputObject { messages, tools: None, tool_choice: None })
    }
}

impl vstd::std_specs::convert::FromSpecImpl<Vec<Message>> for Input {
    open spec fn obeys_from_spec() -> bool {
        true
    }

    open spec fn from_spec(v: Vec<Message>) -> Input {
        Input::Object(InputObject { messages: v, tools: None, tool_choice: None })
    }
}

impl Input {
    /// The messages, tools and tool choice of the request: a text becomes one
    /// user message.
    pub fn parse_input(self) -> (r: (Vec<Message>, Option<Vec<Tool>>, Option<serde_json::Value>))
        ensures
            match self {
                Input::Text(t) => r.0@.len() == 1 && plain_message(r.0@[0], Role::User, t@)
                    && r.1 is None && r.2 is None,
                Input::Object(o) => r.0 == o.messages && r.1 == o.tools && r.2 == o.tool_choice,
            },
    {
        match self {
            Input::Text(t) => {
                let m = Message::user(t.as_str());
                (vec![m], None, None)
            },
            Input::Object(o) => (o.messages, o.tools, o.tool_choice),
        }
    }
}

// ---------------------------------------------------------------------------
// The tool loop
// ---------------------------------------------------------------------------

/// The usage of two responses added up.
pub open spec fn usage_sum(total: Option<Usage>, u: Option<Usage>) -> Option<Usage> {
    match u {
        Some(u) => match total {
            Some(t) => Some(
                Usage {
                    prompt_tokens: (t.prompt_tokens + u.prompt_tokens) as u32,
                    completion_tokens: (t.completion_tokens + u.completion_tokens) as u32,
                    total_tokens: (t.total_tokens + u.total_tokens) as u32,
                },
            ),
            None => Some(u),
        },
        None => total,
    }
}

/// Whether adding the usage fits the counters.
pub open spec fn usage_fits(total: Option<Usage>, u: Option<Usage>) -> bool {
    match (total, u) {
        (Some(t), Some(u)) => t.prompt_tokens + u.prompt_tokens <= u32::MAX && t.completion_tokens
            + u.completion_tokens <= u32::MAX && t.total_tokens + u.total_tokens <= u32::MAX,
        _ => true,
    }
}

/// The tool calls that the first choice of a response asks for, when it asks
/// for at least one.
pub open spec fn requested_calls(r: SendResponse) -> Option<Seq<ToolCall>> {
    if r.choices@.len() > 0 && r.choices@[0].message.tool_calls is Some
        && r.choices@[0].message.tool_calls.unwrap()@.len() > 0 {
        Some(r.choices@[0].message.tool_calls.unwrap()@)
    } else {
        None
    }
}

/// What the loop does after a response.
#[derive(Debug)]
pub enum Step {
    /// The model answered: the response, with the usage of the whole loop
    Done(SendResponse),
    /// The model asked for tool calls: they are the last message's
    RunTools,
}

/// The conversation of the tool loop: it calls the model at most
/// `max_iterations` times, runs the tools the model asks for, and gives the
/// results back, until the model answers.
pub struct ToolLoop {
    pub messages: Vec<Message>,
    pub iterations: u32,
    pub max_iterations: u32,
    pub total_usage: Option<Usage>,
}

impl ToolLoop {
    /// The loop for a text, which becomes the first user message.
    pub fn new(input: &str, max_iterations: u32) -> (r: ToolLoop)
        ensures
            r.messages@.len() == 1 && plain_message(r.messages@[0], Role::User, input@),
            r.iterations == 0,
            r.max_iterations == max_iterations,
            r.total_usage is None,
    {
        ToolLoop {
            messages: vec![Message::user(input)],
            iterations: 0,
            max_iterations,
            total_usage: None,
        }
    }

    /// Whether the model may be called once more; counts the call. When it
    /// may not, the loop fails with `MaxIterationsExceeded`.
    pub fn next_call(&mut self) -> (r: Result<(), ClientError>)
        requires
            old(self).iterations <= old(self).max_iterations,
        ensures
            final(self).iterations <= final(self).max_iterations,
            final(self).max_iterations == old(self).max_iterations,
            final(self).messages == old(self).messages,
            final(self).total_usage == old(self).total_usage,
            old(self).iterations < old(self).max_iterations ==> r is Ok && final(self).iterations
                == old(self).iterations + 1,
            old(self).iterations >= old(self).max_iterations ==> (r matches Err(
                ClientError::MaxIterationsExceeded(m),
            ) && m == old(self).max_iterations) && final(self).iterations == old(self).iterations,
    {
        if self.iterations < self.max_iterations {
            self.iterations = self.iterations + 1;
            Ok(())
        } else {
            Err(ClientError::MaxIterationsExceeded(self.max_iterations))
        }
    }

    /// Takes the model's response: its usage is added to the loop's; when it
    /// asks for tool calls, its message joins the conversation; otherwise it
    /// is the answer, with the usage of the whole loop.
    pub fn on_response(&mut self, response: SendResponse) -> (r: Step)
        requires
            usage_fits(old(self).total_usage, response.usage),
        ensures
            final(self).total_usage == usage_sum(old(self).total_usage, response.usage),
            final(self).iterations == old(self).iterations,
            final(self).max_iterations == old(self).max_iterations,
            match requested_calls(response) {
                Some(calls) => {
                    &&& r is RunTools
                    &&& final(self).messages@ == old(self).messages@.push(
                        response.choices@[0].message,
                    )
                    &&& final(self).messages@.last().tool_calls.unwrap()@ == calls
                },
                None => {
                    &&& r matches Step::Done(d)
                    &&& d.usage == usage_sum(old(self).total_usage, response.usage)
                    &&& d.choices == response.choices && d.id == response.id
                    &&& d.model == response.model && d.object == response.object
                    &&& d.created == response.created
                    &&& final(self).messages == old(self).messages
                },
            },
    {
        let total = match (&self.total_usage, &response.usage) {
            (Some(t), Some(u)) => Some(
                Usage {
                    prompt_tokens: t.prompt_tokens + u.prompt_tokens,
                    completion_tokens: t.completion_tokens + u.completion_tokens,
                    total_tokens: t.total_tokens + u.total_tokens,
                },
            ),
            (None, Some(u)) => Some(*u),
            (t, None) => *t,
        };
        self.total_usage = total;
        let asks = response.choices.len() > 0 && match &response.choices[0].message.tool_calls {
            Some(calls) => calls.len() > 0,
            None => false,
        };
        if asks {
            let SendResponse { id: _, object: _, created: _, model: _, mut choices, usage: _ } =
                response;
            let first = choices.remove(0);
            self.messages.push(first.message);
            Step::RunTools
        } else {
            let SendResponse { id, object, created, model, choices, usage: _ } = response;
            Step::Done(SendResponse { id, object, created, model, choices, usage: total })
        }
    }

    /// The tool calls of the last message, which the loop runs next.
    pub fn pending_calls(&self) -> (r: &Vec<ToolCall>)
        requires
            self.messages@.len() > 0,
            self.messages@.last().tool_calls is Some,
        ensures
            *r == self.messages@.last().tool_calls.unwrap(),
    {
        let n = self.messages.len();
        self.messages[n - 1].tool_calls.as_ref().unwrap()
    }

    /// Adds the result of the tool call `tool_call_id` to the conversation.
    pub fn push_tool_result(&mut self, tool_call_id: &str, result: &str)
        ensures
            final(self).messages@.len() == old(self).messages@.len() + 1,
            final(self).messages@.drop_last() == old(self).messages@,
            ({
                let m = final(self).messages@.last();
                &&& m.role == Role::Tool
                &&& m.content matches Some(c) && c@ == result@
                &&& m.tool_calls is None
                &&& m.tool_call_id matches Some(i) && i@ == tool_call_id@
            }),
            final(self).iterations == old(self).iterations,
            final(self).max_iterations == old(self).max_iterations,
            final(self).total_usage == old(self).total_usage,
    {
        let m = Message::tool(tool_call_id, result);
        let ghost before = self.messages@;
        self.messages.push(m);
        proof {
            assert(self.messages@.drop_last() =~= before);
        }
    }
}

// ---------------------------------------------------------------------------
// The streaming tool loop
// ---------------------------------------------------------------------------

/// The index a tool call delta is filed under: its id read as a number, or
/// zero.
pub open spec fn delta_index(id: Seq<char>) -> u32 {
    match unsigned_text(id) {
        Some(v) => if v <= u32::MAX {
            v as u32
        } else {
            0
        },
        None => 0,
    }
}

/// A tool call as plain values: id, type, function name and arguments.
pub open spec fn call_view(c: ToolCall) -> (Seq<char>, Seq<char>, Seq<char>, Seq<char>) {
    (c.id@, c.call_type@, c.function.name@, c.function.arguments@)
}

/// The tool calls accumulated from deltas: the first delta of an index starts
/// its call, later ones append their arguments.
pub open spec fn accumulate(
    acc: Seq<(u32, (Seq<char>, Seq<char>, Seq<char>, Seq<char>))>,
    deltas: Seq<ToolCall>,
) -> Seq<(u32, (Seq<char>, Seq<char>, Seq<char>, Seq<char>))>
    decreases deltas.len(),
{
    if deltas.len() == 0 {
        acc
    } else {
        let d = deltas[0];
        let idx = delta_index(d.id@);
        let next = match index_of(acc, idx) {
            Some(k) => acc.update(
                k,
                (idx, (acc[k].1.0, acc[k].1.1, acc[k].1.2, acc[k].1.3 + d.function.arguments@)),
            ),
            None => acc.push((idx, call_view(d))),
        };
        accumulate(next, deltas.drop_first())
    }
}

/// The position of the call filed under `idx`.
pub open spec fn index_of(acc: Seq<(u32, (Seq<char>, Seq<char>, Seq<char>, Seq<char>))>, idx: u32) -> Option<
    int,
>
    decreases acc.len(),
{
    if acc.len() == 0 {
        None
    } else if acc.last().0 == idx {
        Some(acc.len() - 1)
    } else {
        index_of(acc.drop_last(), idx)
    }
}

/// The state of one iteration of the streaming tool loop.
pub struct StreamLoop {
    pub messages: Vec<Message>,
    pub iteration: u32,
    pub max_iterations: u32,
    pub role: Option<Role>,
    pub content: String,
    pub calls: Vec<(u32, ToolCall)>,
}

/// The accumulated calls as plain values.
pub open spec fn calls_view(calls: Seq<(u32, ToolCall)>) -> Seq<(u32, (Seq<char>, Seq<char>, Seq<char>, Seq<char>))> {
    calls.map_values(|p: (u32, ToolCall)| (p.0, call_view(p.1)))
}

fn copy_call(c: &ToolCall) -> (r: ToolCall)
    ensures
        call_view(r) == call_view(*c),
{
    ToolCall {
        id: c.id.clone(),
        call_type: c.call_type.clone(),
        function: FunctionCall { name: c.function.name.clone(), arguments: c.function.arguments.clone() },
    }
}

impl StreamLoop {
    /// The loop for a text, which becomes the first user message.
    pub fn new(input: &str, max_iterations: u32) -> (r: StreamLoop)
        ensures
            r.messages@.len() == 1 && plain_message(r.messages@[0], Role::User, input@),
            r.iteration == 0,
            r.max_iterations == max_iterations,
            r.role is None && r.content@.len() == 0 && r.calls@.len() == 0,
    {
        StreamLoop {
            messages: vec![Message::user(input)],
            iteration: 0,
            max_iterations,
            role: None,
            content: String::new(),
            calls: Vec::new(),
        }
    }

    /// Starts the next iteration, if one is left: its accumulators start
    /// empty. When none is left, the loop fails with `MaxIterationsExceeded`.
    pub fn start_iteration(&mut self) -> (r: Result<(), ClientError>)
        requires
            old(self).iteration <= old(self).max_iterations,
        ensures
            final(self).iteration <= final(self).max_iterations,
            final(self).max_iterations == old(self).max_iterations,
            final(self).messages == old(self).messages,
            old(self).iteration < old(self).max_iterations ==> {
                &&& r is Ok
                &&& final(self).iteration == old(self).iteration + 1
                &&& final(self).role is None && final(self).content@.len() == 0
                &&& final(self).calls@.len() == 0
            },
            old(self).iteration >= old(self).max_iterations ==> (r matches Err(
                ClientError::MaxIterationsExceeded(m),
            ) && m == old(self).max_iterations),
    {
        if self.iteration < self.max_iterations {
            self.iteration = self.iteration + 1;
            self.role = None;
            self.content = String::new();
            self.calls = Vec::new();
            Ok(())
        } else {
            Err(ClientError::MaxIterationsExceeded(self.max_iterations))
        }
    }

    /// Takes a chunk of the stream: its role replaces the recorded one, its
    /// text is appended, its tool call deltas are accumulated.
    pub fn on_chunk(&mut self, chunk: &StreamChunk)
        ensures
            final(self).messages == old(self).messages,
            final(self).iteration == old(self).iteration,
            final(self).max_iterations == old(self).max_iterations,
            final(self).role == match chunk.first() {
                Some(c) => match c.delta.role {
                    Some(r) => Some(r),
                    None => old(self).role,
                },
                None => old(self).role,
            },
            final(self).content@ == old(self).content@ + match chunk.first() {
                Some(c) => match c.delta.content {
                    Some(t) => t@,
                    None => Seq::empty(),
                },
                None => Seq::empty(),
            },
            calls_view(final(self).calls@) == match chunk.first() {
                Some(c) => match c.delta.tool_calls {
                    Some(ds) => accumulate(calls_view(old(self).calls@), ds@),
                    None => calls_view(old(self).calls@),
                },
                None => calls_view(old(self).calls@),
            },
    {
        match chunk.role() {
            Some(r) => self.role = Some(*r),
            None => {},
        }
        match chunk.text() {
            Some(t) => push_str(&mut self.content, t),
            None => {},
        }
        match chunk.tool_call_deltas() {
            Some(deltas) => {
                let mut i: usize = 0;
                let ghost start = calls_view(self.calls@);
                let ghost r0 = self.role;
                let ghost c0 = self.content;
                proof {
                    assert(deltas@.subrange(0, deltas@.len() as int) =~= deltas@);
                }
                while i < deltas.len()
                    invariant
                        i <= deltas@.len(),
                        accumulate(start, deltas@) == accumulate(
                            calls_view(self.calls@),
                            deltas@.subrange(i as int, deltas@.len() as int),
                        ),
                        self.messages == old(self).messages,
                        self.iteration == old(self).iteration,
                        self.max_iterations == old(self).max_iterations,
                        self.role == r0,
                        self.content == c0,
                    decreases deltas@.len() - i,
                {
                    proof {
                        let rest = deltas@.subrange(i as int, deltas@.len() as int);
                        assert(rest.drop_first() =~= deltas@.subrange(i + 1, deltas@.len() as int));
                        assert(rest[0] == deltas@[i as int]);
                    }
                    self.add_delta(&deltas[i]);
                    i = i + 1;
                }
                proof {
                    assert(deltas@.subrange(i as int, deltas@.len() as int).len() == 0);
                    assert(deltas@.subrange(0, deltas@.len() as int) =~= deltas@);
                }
            },
            None => {},
        }
    }

    fn add_delta(&mut self, delta: &ToolCall)
        ensures
            calls_view(final(self).calls@) == ({
                let acc = calls_view(old(self).calls@);
                let idx = delta_index(delta.id@);
                match index_of(acc, idx) {
                    Some(k) => acc.update(
                        k,
                        (idx, (acc[k].1.0, acc[k].1.1, acc[k].1.2, acc[k].1.3 + delta.function.arguments@)),
                    ),
                    None => acc.push((idx, call_view(*delta))),
                }
            }),
            final(self).messages == old(self).messages,
            final(self).iteration == old(self).iteration,
            final(self).max_iterations == old(self).max_iterations,
            final(self).role == old(self).role,
            final(self).content == old(self).content,
    {
        let id = chars_of(delta.id.as_str());
        let idx = match parse_u32(id.as_slice()) {
            Some(v) => v,
            None => 0,
        };
        proof {
            assert(idx == delta_index(delta.id@));
        }
        let ghost acc = calls_view(self.calls@);
        let mut k: usize = self.calls.len();
        proof {
            assert(acc.subrange(0, acc.len() as int) =~= acc);
        }
        while k > 0
            invariant
                k <= self.calls@.len(),
                acc == calls_view(self.calls@),
                acc == calls_view(old(self).calls@),
                self.calls == old(self).calls,
                self.messages == old(self).messages,
                self.iteration == old(self).iteration,
                self.max_iterations == old(self).max_iterations,
                self.role == old(self).role,
                self.content == old(self).content,
                idx == delta_index(delta.id@),
                index_of(acc, idx) == index_of(acc.subrange(0, k as int), idx),
            decreases k,
        {
            proof {
                let pre = acc.subrange(0, k as int);
                assert(pre.drop_last() =~= acc.subrange(0, k - 1));
            }
            if self.calls[k - 1].0 == idx {
                proof {
                    assert(index_of(acc, idx) == Some(k - 1));
                }
                let old_call = copy_call(&self.calls[k - 1].1);
                let mut args = old_call.function.arguments;
                push_str(&mut args, delta.function.arguments.as_str());
                let updated = ToolCall {
                    id: old_call.id,
                    call_type: old_call.call_type,
                    function: FunctionCall { name: old_call.function.name, arguments: args },
                };
                self.calls.set(k - 1, (idx, updated));
                proof {
                    assert(calls_view(self.calls@) =~= acc.update(
                        k - 1,
                        (idx, (acc[k - 1].1.0, acc[k - 1].1.1, acc[k - 1].1.2, acc[k - 1].1.3
                            + delta.function.arguments@)),
                    ));
                }
                return ;
            }
            k = k - 1;
        }
        self.calls.push((idx, copy_call(delta)));
        proof {
            assert(calls_view(self.calls@) =~= acc.push((idx, call_view(*delta))));
        }
    }

    /// Ends the iteration: without tool calls the loop is over (`false`);
    /// otherwise the assistant's message, with its role (assistant by default),
    /// its text if any and the accumulated calls in the order they started,
    /// joins the conversation (`true`).
    pub fn finish_iteration(&mut self) -> (r: bool)
        ensures
            r == (old(self).calls@.len() > 0),
            final(self).iteration == old(self).iteration,
            final(self).max_iterations == old(self).max_iterations,
            !r ==> final(self).messages == old(self).messages,
            r ==> {
                let m = final(self).messages@.last();
                &&& final(self).messages@.drop_last() == old(self).messages@
                &&& m.role == match old(self).role {
                    Some(x) => x,
                    None => Role::Assistant,
                }
                &&& opt_view(m.content) == if old(self).content@.len() == 0 {
                    None
                } else {
                    Some(old(self).content@)
                }
                &&& m.tool_calls matches Some(cs) && cs@.map_values(|c: ToolCall| call_view(c))
                    == calls_view(old(self).calls@).map_values(
                    |p: (u32, (Seq<char>, Seq<char>, Seq<char>, Seq<char>))| p.1,
                )
                &&& m.tool_call_id is None
            },
    {
        if self.calls.len() == 0 {
            return false;
        }
        let mut cs: Vec<ToolCall> = Vec::new();
        let mut i: usize = 0;
        while i < self.calls.len()
            invariant
                i <= self.calls@.len(),
                cs@.len() == i,
                forall|k: int| 0 <= k < i ==> call_view(#[trigger] cs@[k]) == call_view(self.calls@[k].1),
            decreases self.calls@.len() - i,
        {
            cs.push(copy_call(&self.calls[i].1));
            i = i + 1;
        }
        proof {
            assert(cs@.map_values(|c: ToolCall| call_view(c)) =~= calls_view(self.calls@).map_values(
                |p: (u32, (Seq<char>, Seq<char>, Seq<char>, Seq<char>))| p.1,
            ));
        }
        let role = match self.role {
            Some(x) => x,
            None => Role::Assistant,
        };
        let content = if self.content.as_str().is_empty() {
            None
        } else {
            Some(self.content.clone())
        };
        let ghost before = self.messages@;
        self.messages.push(Message { role, content, tool_calls: Some(cs), tool_call_id: None });
        proof {
            assert(self.messages@.drop_last() =~= before);
        }
        true
    }

    /// Adds the result of the tool call `tool_call_id` to the conversation.
    pub fn push_tool_result(&mut self, tool_call_id: &str, result: &str)
        ensures
            final(self).messages@.drop_last() == old(self).messages@,
            ({
                let m = final(self).messages@.last();
                &&& m.role == Role::Tool
                &&& m.content matches Some(c) && c@ == result@
                &&& m.tool_calls is None
                &&& m.tool_call_id matches Some(i) && i@ == tool_call_id@
            }),
            final(self).iteration == old(self).iteration,
            final(self).max_iterations == old(self).max_iterations,
    {
        let m = Message::tool(tool_call_id, result);
        let ghost before = self.messages@;
        self.messages.push(m);
        proof {
            assert(self.messages@.drop_last() =~= before);
        }
    }
}


// ---------------------------------------------------------------------------
// Running the model's tool calls
// ---------------------------------------------------------------------------

/// `serde_json::from_str::<serde_json::Value>(text)`: `None` where the text
/// is JSON, else the parse error as its `Display` writes it.
pub uninterp spec fn json_parse_error(text: Seq<char>) -> Option<Seq<char>>;

/// `serde_json::from_str::<serde_json::Value>(text)`: the value a JSON text
/// parses to (meaningful where `json_parse_error` is `None`).
pub uninterp spec fn json_parsed(text: Seq<char>) -> serde_json::Value;

/// `serde_json::to_string(s)`: a text as a JSON string, quoted and escaped.
pub uninterp spec fn json_string(s: Seq<char>) -> Seq<char>;

/// `serde_json::from_str::<serde_json::Value>`: the parsed value, or the
/// error written out.
#[verifier::external_body]
fn parse_json(text: &str) -> (r: Result<serde_json::Value, String>)
    ensures
        match r {
            Ok(v) => json_parse_error(text@) is None && v == json_parsed(text@),
            Err(e) => json_parse_error(text@) == Some(e@),
        },
{
    match serde_json::from_str::<serde_json::Value>(text) {
        Ok(v) => Ok(v),
        Err(e) => Err(e.to_string()),
    }
}

/// `serde_json::to_string` of a text, which cannot fail.
#[verifier::external_body]
fn json_quote(s: &str) -> (r: String)
    ensures
        r@ == json_string(s@),
{
    serde_json::to_string(s).unwrap()
}

/// `Value::as_str`: the text of a JSON string value, `None` for any other
/// value.
pub uninterp spec fn json_str(v: serde_json::Value) -> Option<Seq<char>>;

/// `serde_json::to_string` of a JSON value: its compact JSON text.
pub uninterp spec fn json_text(v: serde_json::Value) -> Seq<char>;

/// `Value::as_str`, the text taken as a `String`.
#[verifier::external_body]
fn value_str(v: &serde_json::Value) -> (r: Option<String>)
    ensures
        opt_view(r) == json_str(*v),
{
    v.as_str().map(|s| s.to_string())
}

/// `serde_json::to_string` of a value, which cannot fail: a `Value`'s maps
/// have text keys.
#[verifier::external_body]
fn value_json(v: &serde_json::Value) -> (r: String)
    ensures
        r@ == json_text(*v),
{
    serde_json::to_string(v).unwrap()
}

/// The text of what a tool returned, as it joins the conversation: a JSON
/// string as its text, any other value as its JSON text.
pub fn tool_result_text(result: &serde_json::Value) -> (r: String)
    ensures
        r@ == match json_str(*result) {
            Some(t) => t,
            None => json_text(*result),
        },
{
    match value_str(result) {
        Some(t) => t,
        None => value_json(result),
    }
}

/// The text of a call's answer: what the tool returned, or the error that
/// answered a call that was not run.
pub fn call_result_text(outcome: &Result<serde_json::Value, String>) -> (r: String)
    ensures
        r@ == match outcome {
            Ok(v) => match json_str(*v) {
                Some(t) => t,
                None => json_text(*v),
            },
            Err(e) => "{\"error\":"@ + json_string(e@) + "}"@,
        },
{
    match outcome {
        Ok(v) => tool_result_text(v),
        Err(e) => error_result_text(e.as_str()),
    }
}

/// What is done with one tool call the model asked for.
#[derive(Debug, Clone, PartialEq, Eq)]
pub enum ToolOutcome {
    /// Run the tool's handler with the call's arguments.
    Execute,
    /// Answer the call with this error, running nothing.
    Error(String),
}

/// What is done with a call of the tool `tool_name`: an unknown tool and
/// arguments that are not JSON are answered with an error; otherwise the tool
/// runs.
pub fn tool_outcome(known: bool, args_error: Option<String>, tool_name: &str) -> (r: ToolOutcome)
    ensures
        !known ==> (r matches ToolOutcome::Error(e) && e@ == "Unknown tool: "@ + tool_name@),
        known && args_error is Some ==> (r matches ToolOutcome::Error(e) && e@ == "Invalid arguments: "@
            + args_error.unwrap()@),
        known && args_error is None ==> r is Execute,
{
    if !known {
        let mut e = String::new();
        push_str(&mut e, "Unknown tool: ");
        push_str(&mut e, tool_name);
        return ToolOutcome::Error(e);
    }
    match args_error {
        Some(a) => {
            let mut e = String::new();
            push_str(&mut e, "Invalid arguments: ");
            push_str(&mut e, a.as_str());
            ToolOutcome::Error(e)
        },
        None => ToolOutcome::Execute,
    }
}

/// The arguments to run a call with, when the tool is `known` and they are
/// JSON; else the error the call is answered with.
pub fn prepare_tool_call(known: bool, call: &ToolCall) -> (r: Result<serde_json::Value, String>)
    ensures
        !known ==> (r matches Err(e) && e@ == "Unknown tool: "@ + call.function.name@),
        known ==> match json_parse_error(call.function.arguments@) {
            None => r matches Ok(v) && v == json_parsed(call.function.arguments@),
            Some(m) => r matches Err(e) && e@ == "Invalid arguments: "@ + m,
        },
{
    if !known {
        return match tool_outcome(false, None, call.function.name.as_str()) {
            ToolOutcome::Error(e) => Err(e),
            ToolOutcome::Execute => Err(String::new()),
        };
    }
    match parse_json(call.function.arguments.as_str()) {
        Ok(args) => Ok(args),
        Err(m) => match tool_outcome(true, Some(m), call.function.name.as_str()) {
            ToolOutcome::Error(e) => Err(e),
            ToolOutcome::Execute => Err(String::new()),
        },
    }
}

/// The text of the result `{"error": message}` that answers a call that was
/// not run, as it joins the conversation.
pub fn error_result_text(message: &str) -> (r: String)
    ensures
        r@ == "{\"error\":"@ + json_string(message@) + "}"@,
{
    let mut r = String::new();
    push_str(&mut r, "{\"error\":");
    let q = json_quote(message);
    push_str(&mut r, q.as_str());
    push_str(&mut r, "}");
    r
}

/// `e` announces that the call `c` starts.
pub open spec fn starts_call(e: StreamEvent, c: ToolCall) -> bool {
    match e {
        StreamEvent::ToolStart { tool_call } => call_view(tool_call) == call_view(c),
        _ => false,
    }
}

/// `e` gives `result` as the result of the call `c`.
pub open spec fn gives_result(e: StreamEvent, c: ToolCall, result: serde_json::Value) -> bool {
    match e {
        StreamEvent::ToolResult { tool_call_id, tool_name, result: v } => tool_call_id@ == c.id@
            && tool_name@ == c.function.name@ && v == result,
        _ => false,
    }
}

impl StreamLoop {
    /// The events that follow an iteration's chunks once its tools have run:
    /// for each accumulated call, in the order the calls started, its start
    /// and then its result, and last the end of the iteration.
    pub fn tool_events(&self, results: Vec<serde_json::Value>) -> (r: Vec<StreamEvent>)
        requires
            results@.len() == self.calls@.len(),
        ensures
            r@.len() == 2 * self.calls@.len() + 1,
            forall|j: int|
                0 <= j < self.calls@.len() ==> starts_call(#[trigger] r@[2 * j], self.calls@[j].1)
                    && gives_result(r@[2 * j + 1], self.calls@[j].1, results@[j]),
            r@[2 * self.calls@.len() as int] matches StreamEvent::IterationComplete { iteration }
                && iteration == self.iteration,
    {
        let ghost all = results@;
        let mut rest = results;
        let mut out: Vec<StreamEvent> = Vec::new();
        let n = self.calls.len();
        let mut j: usize = 0;
        while j < n
            invariant
                n == self.calls@.len(),
                all.len() == n,
                j <= n,
                rest@ == all.subrange(j as int, n as int),
                out@.len() == 2 * j,
                forall|k: int|
                    0 <= k < j ==> starts_call(#[trigger] out@[2 * k], self.calls@[k].1)
                        && gives_result(out@[2 * k + 1], self.calls@[k].1, all[k]),
            decreases n - j,
        {
            let ghost before = out@;
            let result = rest.remove(0);
            proof {
                assert(result == all[j as int]);
            }
            let call = &self.calls[j].1;
            let start = StreamEvent::ToolStart { tool_call: copy_call(call) };
            let done = StreamEvent::ToolResult {
                tool_call_id: call.id.clone(),
                tool_name: call.function.name.clone(),
                result,
            };
            out.push(start);
            out.push(done);
            proof {
                assert(rest@ =~= all.subrange(j + 1, n as int));
                assert forall|k: int| 0 <= k < j + 1 implies starts_call(#[trigger] out@[2 * k], self.calls@[k].1)
                    && gives_result(out@[2 * k + 1], self.calls@[k].1, all[k]) by {
                    if k < j {
                        assert(out@[2 * k] == before[2 * k]);
                        assert(out@[2 * k + 1] == before[2 * k + 1]);
                    }
                }
            }
            j = j + 1;
        }
        out.push(StreamEvent::IterationComplete { iteration: self.iteration });
        out
    }
}

// ---------------------------------------------------------------------------
// Server-sent events
// ---------------------------------------------------------------------------

/// A line of an event: a line ending `\r\n` loses its `\r` too.
pub open spec fn line_text(piece: Seq<char>, last: bool) -> Seq<char> {
    if !last && piece.len() > 0 && piece.last() == '\r' {
        piece.drop_last()
    } else {
        piece
    }
}

/// The data of the `data: ` lines, but `[DONE]`.
pub open spec fn data_of_lines(pieces: Seq<Seq<char>>) -> Seq<Seq<char>>
    decreases pieces.len(),
{
    if pieces.len() == 0 {
        seq![]
    } else {
        let line = line_text(pieces[0], pieces.len() == 1);
        let rest = data_of_lines(pieces.drop_first());
        if starts_with(line, "data: "@) && line.subrange(6, line.len() as int) != "[DONE]"@ {
            seq![line.subrange(6, line.len() as int)] + rest
        } else {
            rest
        }
    }
}

/// The data of one event of the stream.
pub open spec fn event_data(chunk: Seq<char>) -> Seq<Seq<char>> {
    if chunk.len() == 0 {
        seq![]
    } else {
        data_of_lines(split_seq(chunk, "\n"@))
    }
}

/// The data of the complete events of a buffer, and what is left of it: an
/// event ends at a blank line.
pub open spec fn sse_frames(buf: Seq<char>) -> (Seq<Seq<char>>, Seq<char>)
    decreases buf.len(),
{
    match first_occurrence(buf, "\n\n"@) {
        None => (seq![], buf),
        Some(p) => {
            proof {
                crate::text::lemma_first_occurrence(buf, "\n\n"@);
                reveal_strlit("\n\n");
            }
            let next = sse_frames(buf.subrange(p + 2, buf.len() as int));
            (event_data(buf.subrange(0, p)) + next.0, next.1)
        },
    }
}

/// Where the first `\n\n` of `s` is, it is also the first of `s + c`.
proof fn lemma_first_blank_line_kept(s: Seq<char>, c: Seq<char>, p: int)
    requires
        first_occurrence(s, "\n\n"@) == Some(p),
    ensures
        first_occurrence(s + c, "\n\n"@) == Some(p),
{
    reveal_strlit("\n\n");
    let nn = "\n\n"@;
    crate::text::lemma_first_occurrence(s, nn);
    crate::text::lemma_first_occurrence(s + c, nn);
    assert((s + c).subrange(p, p + 2) =~= s.subrange(p, p + 2));
    assert(occurs_at(s + c, nn, p));
    assert(nn.len() == 2);
    assert(p + 2 <= s.len());
    assert forall|j: int| 0 <= j < p implies !occurs_at(s + c, nn, j) by {
        assert(!occurs_at(s, nn, j));
        assert((s + c).subrange(j, j + 2) =~= s.subrange(j, j + 2));
    }
    match first_occurrence(s + c, nn) {
        Some(k) => {
            if k > p {
                assert(occurs_at(s + c, nn, p));
            }
            if k < p {
                assert(!occurs_at(s + c, nn, k));
            }
        },
        None => {
            assert(occurs_at(s + c, nn, p));
        },
    }
}

/// Splitting `s + c` gives the events of `s`, then those of what `s` left
/// over followed by `c`.
proof fn lemma_sse_frames_append(s: Seq<char>, c: Seq<char>)
    ensures
        sse_frames(s + c).0 == sse_frames(s).0 + sse_frames(sse_frames(s).1 + c).0,
        sse_frames(s + c).1 == sse_frames(sse_frames(s).1 + c).1,
    decreases s.len(),
{
    reveal_strlit("\n\n");
    let nn = "\n\n"@;
    crate::text::lemma_first_occurrence(s, nn);
    match first_occurrence(s, nn) {
        None => {
            assert(Seq::<Seq<char>>::empty() + sse_frames(s + c).0 =~= sse_frames(s + c).0);
        },
        Some(p) => {
            lemma_first_blank_line_kept(s, c, p);
            let rest = s.subrange(p + 2, s.len() as int);
            assert((s + c).subrange(0, p) =~= s.subrange(0, p));
            assert((s + c).subrange(p + 2, (s + c).len() as int) =~= rest + c);
            lemma_sse_frames_append(rest, c);
            let head = event_data(s.subrange(0, p));
            assert(head + (sse_frames(rest).0 + sse_frames(sse_frames(rest).1 + c).0) =~= (head + sse_frames(
                rest,
            ).0) + sse_frames(sse_frames(rest).1 + c).0);
        },
    }
}

/// Feeding a stream to the buffer in two parts gives the same events, in the
/// same order, and leaves the same text waiting, as feeding it at once.
pub proof fn lemma_feed_in_parts(buffer: Seq<char>, first: Seq<char>, second: Seq<char>)
    ensures
        sse_frames(buffer + first).0 + sse_frames(sse_frames(buffer + first).1 + second).0 == sse_frames(
            buffer + (first + second),
        ).0,
        sse_frames(sse_frames(buffer + first).1 + second).1 == sse_frames(buffer + (first + second)).1,
{
    lemma_sse_frames_append(buffer + first, second);
    assert(buffer + first + second =~= buffer + (first + second));
}

/// The parts of a stream, joined.
pub open spec fn joined(parts: Seq<Seq<char>>) -> Seq<char>
    decreases parts.len(),
{
    if parts.len() == 0 {
        seq![]
    } else {
        parts[0] + joined(parts.drop_first())
    }
}

/// What feeding the parts one after another to a buffer holding `buffer`
/// gives: all the events taken out, in order, and the text left waiting.
pub open spec fn fed_in_parts(buffer: Seq<char>, parts: Seq<Seq<char>>) -> (Seq<Seq<char>>, Seq<char>)
    decreases parts.len(),
{
    if parts.len() == 0 {
        (seq![], buffer)
    } else {
        let step = sse_frames(buffer + parts[0]);
        let rest = fed_in_parts(step.1, parts.drop_first());
        (step.0 + rest.0, rest.1)
    }
}

/// However a stream is cut into parts, feeding the parts one after another
/// gives the same events, in the same order, and leaves the same text
/// waiting, as feeding the whole stream at once.
pub proof fn lemma_any_split(buffer: Seq<char>, parts: Seq<Seq<char>>)
    requires
        parts.len() > 0,
    ensures
        fed_in_parts(buffer, parts) == sse_frames(buffer + joined(parts)),
    decreases parts.len(),
{
    let step = sse_frames(buffer + parts[0]);
    let rest = parts.drop_first();
    let fed = fed_in_parts(step.1, rest);
    assert(fed_in_parts(buffer, parts) == (step.0 + fed.0, fed.1));
    assert(joined(parts) == parts[0] + joined(rest));
    let whole = sse_frames(buffer + joined(parts));
    if rest.len() == 0 {
        assert(joined(rest) =~= Seq::<char>::empty());
        assert(buffer + joined(parts) =~= buffer + parts[0]);
        assert(fed == (Seq::<Seq<char>>::empty(), step.1));
        assert(step.0 + fed.0 =~= whole.0);
        assert(fed.1 == whole.1);
    } else {
        lemma_any_split(step.1, rest);
        lemma_sse_frames_append(buffer + parts[0], joined(rest));
        assert(buffer + joined(parts) =~= (buffer + parts[0]) + joined(rest));
        assert(step.0 + fed.0 == whole.0);
        assert(fed.1 == whole.1);
    }
}

/// The text of a server-sent event stream not yet split into events.
pub struct SseBuffer {
    pub buffer: Vec<char>,
}

fn data_lines_exec(chunk: &Vec<char>) -> (r: Vec<String>)
    ensures
        r@.map_values(|s: String| s@) == event_data(chunk@),
{
    let mut out: Vec<String> = Vec::new();
    if chunk.len() == 0 {
        proof {
            assert(out@.map_values(|s: String| s@) =~= Seq::<Seq<char>>::empty());
        }
        return out;
    }
    let nl = chars_of("\n");
    let prefix = chars_of("data: ");
    let done = chars_of("[DONE]");
    proof {
        reveal_strlit("\n");
        reveal_strlit("data: ");
        assert(prefix@.len() == 6);
    }
    let pieces = split(chunk.as_slice(), nl.as_slice());
    let ghost ps = split_seq(chunk@, "\n"@);
    let n = pieces.len();
    let mut i: usize = 0;
    proof {
        assert(ps.subrange(0, ps.len() as int) =~= ps);
    }
    while i < n
        invariant
            n == pieces@.len(),
            n == ps.len(),
            i <= n,
            prefix@ == "data: "@,
            prefix@.len() == 6,
            done@ == "[DONE]"@,
            forall|k: int| 0 <= k < n ==> #[trigger] pieces@[k]@ == ps[k],
            data_of_lines(ps) == out@.map_values(|s: String| s@) + data_of_lines(
                ps.subrange(i as int, n as int),
            ),
        decreases n - i,
    {
        let ghost before = out@.map_values(|s: String| s@);
        proof {
            let rest = ps.subrange(i as int, n as int);
            assert(rest.drop_first() =~= ps.subrange(i + 1, n as int));
            assert(rest[0] == ps[i as int]);
        }
        let piece = &pieces[i];
        let m = piece.len();
        let line = if i + 1 < n && m > 0 && piece[m - 1] == '\r' {
            slice_chars(piece.as_slice(), 0, m - 1)
        } else {
            slice_chars(piece.as_slice(), 0, m)
        };
        proof {
            assert(piece@.subrange(0, m as int) =~= piece@);
            if i + 1 < n && m > 0 && piece@[m - 1] == '\r' {
                assert(piece@.subrange(0, m - 1) =~= piece@.drop_last());
            }
            assert(line@ == line_text(ps[i as int], ps.subrange(i as int, n as int).len() == 1));
        }
        if has_prefix(line.as_slice(), prefix.as_slice()) {
            let data = slice_chars(line.as_slice(), 6, line.len());
            if !same_chars(&data, &done) {
                out.push(string_of(&data));
                proof {
                    assert(out@.map_values(|s: String| s@) =~= before.push(data@));
                    assert(before.push(data@) + data_of_lines(ps.subrange(i + 1, n as int))
                        =~= before + (seq![data@] + data_of_lines(ps.subrange(i + 1, n as int))));
                }
            }
        }
        i = i + 1;
    }
    proof {
        assert(out@.map_values(|s: String| s@) + data_of_lines(ps.subrange(n as int, n as int))
            =~= out@.map_values(|s: String| s@));
    }
    out
}

impl SseBuffer {
    /// An empty buffer.
    pub fn new() -> (r: SseBuffer)
        ensures
            r.buffer@.len() == 0,
    {
        SseBuffer { buffer: Vec::new() }
    }

    /// Appends text received from the stream and takes out the complete
    /// events: the data of their `data: ` lines, but `[DONE]`, in order.
    pub fn feed(&mut self, text: &str) -> (r: Vec<String>)
        ensures
            r@.map_values(|s: String| s@) == sse_frames(old(self).buffer@ + text@).0,
            final(self).buffer@ == sse_frames(old(self).buffer@ + text@).1,
    {
        let t = chars_of(text);
        let mut i: usize = 0;
        while i < t.len()
            invariant
                i <= t@.len(),
                self.buffer@ == old(self).buffer@ + t@.subrange(0, i as int),
            decreases t@.len() - i,
        {
            self.buffer.push(t[i]);
            i = i + 1;
            proof {
                assert(self.buffer@ =~= old(self).buffer@ + t@.subrange(0, i as int));
            }
        }
        proof {
            assert(t@.subrange(0, t@.len() as int) =~= t@);
        }
        let ghost whole = self.buffer@;
        let sep = chars_of("\n\n");
        proof {
            reveal_strlit("\n\n");
            assert(sep@.len() == 2);
        }
        let mut out: Vec<String> = Vec::new();
        loop
            invariant
                whole == old(self).buffer@ + text@,
                sep@ == "\n\n"@,
                sep@.len() == 2,
                sse_frames(whole).0 == out@.map_values(|s: String| s@) + sse_frames(self.buffer@).0,
                sse_frames(whole).1 == sse_frames(self.buffer@).1,
            ensures
                out@.map_values(|s: String| s@) == sse_frames(whole).0,
                self.buffer@ == sse_frames(whole).1,
            decreases self.buffer@.len(),
        {
            let found = find(self.buffer.as_slice(), sep.as_slice());
            match found {
                None => {
                    proof {
                        assert(sse_frames(self.buffer@) == (Seq::<Seq<char>>::empty(), self.buffer@));
                        assert(out@.map_values(|s: String| s@) + Seq::<Seq<char>>::empty()
                            =~= out@.map_values(|s: String| s@));
                    }
                    break;
                },
                Some(p) => {
                    proof {
                        crate::text::lemma_first_occurrence(self.buffer@, sep@);
                    }
                    let n = self.buffer.len();
                    let chunk = slice_chars(self.buffer.as_slice(), 0, p);
                    let rest = slice_chars(self.buffer.as_slice(), p + 2, n);
                    let events = data_lines_exec(&chunk);
                    let ghost before = out@.map_values(|s: String| s@);
                    let ghost buf = self.buffer@;
                    let ghost ev = events@.map_values(|s: String| s@);
                    let mut k: usize = 0;
                    while k < events.len()
                        invariant
                            k <= events@.len(),
                            ev == events@.map_values(|s: String| s@),
                            out@.map_values(|s: String| s@) == before + ev.subrange(0, k as int),
                        decreases events@.len() - k,
                    {
                        let ghost o = out@;
                        let e = events[k].clone();
                        out.push(e);
                        proof {
                            assert(e@ == ev[k as int]);
                            assert(out@ =~= o.push(e));
                            assert(out@.map_values(|s: String| s@) =~= o.map_values(|s: String| s@).push(e@));
                            assert(ev.subrange(0, k + 1) =~= ev.subrange(0, k as int).push(ev[k as int]));
                        }
                        k = k + 1;
                    }
                    proof {
                        assert(ev.subrange(0, events@.len() as int) =~= ev);
                        assert(sse_frames(buf).0 == event_data(chunk@) + sse_frames(rest@).0);
                        assert(before + (event_data(chunk@) + sse_frames(rest@).0) =~= (before
                            + event_data(chunk@)) + sse_frames(rest@).0);
                    }
                    self.buffer = rest;
                },
            }
        }
        out
    }
}

} // verus!
