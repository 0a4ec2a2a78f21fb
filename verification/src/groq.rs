//! The Groq backend: its models, its request, and what each streamed line
//! makes the backend send.
//!
//! The body is read line by line.  A blank line is skipped, `data: [DONE]`
//! ends the lines of the current read, and any other line is cut down to
//! what follows its `": "` and decoded as an event.  Every event streams its
//! tool calls, then its content (which also accumulates into the complete
//! answer), its thinking, or its reasoning (accumulated as `Thinking: ...`).
//! Once an event has carried a finish reason, each further line resends the
//! complete answer as the final message.
use vstd::prelude::*;

use crate::json::{json_error_of, json_parse_error};
use crate::models::{calls_opt_view, ChatMessageResponse, Tool, ToolCallRequest, ToolCallRequestFunction, Thread};
use crate::tool_defs::{
    create_file_tool, edit_file_tool, fd_tool, is_create_file_tool, is_edit_file_tool, is_fd_tool,
    is_list_files_tool, is_read_tool, is_rg_tool, list_files_tool, read_tool, rg_tool,
};
use crate::request::{conversation_messages, conversation_request, messages_view, ChatMessageRequest};
use crate::text::{matches_at, str_to_chars, chars_to_string};

verus! {

/// Models offered through Groq.
#[derive(Debug, Clone, Copy, PartialEq, Eq, Structural)]
pub enum GroqModel {
    GptOss120B,
    Groq2,
    Groq3,
}

pub open spec fn groq_model_id(m: GroqModel) -> Seq<char> {
    match m {
        GroqModel::GptOss120B => "openai/gpt-oss-120b"@,
        GroqModel::Groq2 => "groq2"@,
        GroqModel::Groq3 => "groq3"@,
    }
}

impl GroqModel {
    /// The model id the API expects.
    pub fn to_str(&self) -> (r: &'static str)
        ensures
            r@ == groq_model_id(*self),
    {
        match self {
            GroqModel::GptOss120B => "openai/gpt-oss-120b",
            GroqModel::Groq2 => "groq2",
            GroqModel::Groq3 => "groq3",
        }
    }
}

/// A Groq model together with the key used to call it.
pub struct GroqBase {
    model_type: GroqModel,
    api_key: String,
}

/// A chat request: the model and the conversation's messages, streamed.
pub struct UserChatMessageRequest {
    pub model: String,
    pub messages: Vec<ChatMessageRequest>,
    /// The tools offered, when any.
    pub tools: Option<Vec<Tool>>,
    pub stream: bool,
}

/// The tools offered through Groq, in order: reading, listing, creating,
/// editing and both searches (no shell, no HTTP), each in full.
pub open spec fn groq_tools(ts: Seq<Tool>) -> bool {
    &&& ts.len() == 6
    &&& is_read_tool(ts[0])
    &&& is_list_files_tool(ts[1])
    &&& is_create_file_tool(ts[2])
    &&& is_edit_file_tool(ts[3])
    &&& is_fd_tool(ts[4])
    &&& is_rg_tool(ts[5])
}

impl GroqBase {
    pub closed spec fn model_spec(&self) -> GroqModel {
        self.model_type
    }

    pub closed spec fn key_spec(&self) -> Seq<char> {
        self.api_key@
    }

    pub fn new(model_type: GroqModel, api_key: String) -> (r: Self)
        ensures
            r.model_spec() == model_type,
            r.key_spec() == api_key@,
    {
        GroqBase { model_type, api_key }
    }

    /// `"Processed: "` followed by the input.
    pub fn process(&self, input: &str) -> (r: String)
        ensures
            r@ == "Processed: "@ + input@,
    {
        let mut s = String::from_str("Processed: ");
        s.append(input);
        s
    }

    /// The model's name (its id).
    pub fn name(&self) -> (r: &'static str)
        ensures
            r@ == groq_model_id(self.model_spec()),
    {
        self.model_type.to_str()
    }

    pub fn api_key(&self) -> (r: &str)
        ensures
            r@ == self.key_spec(),
    {
        self.api_key.as_str()
    }

    /// The request for a conversation: this model, the conversation's
    /// messages with call ids, streamed.
    pub fn chat_request(&self, thread: &Thread) -> (r: UserChatMessageRequest)
        ensures
            r.model@ == groq_model_id(self.model_spec()),
            messages_view(r.messages@) == conversation_messages(thread@.context, true),
            r.tools matches Some(ts) && groq_tools(ts@),
            r.stream,
    {
        let mut tools: Vec<Tool> = Vec::new();
        tools.push(read_tool());
        tools.push(list_files_tool());
        tools.push(create_file_tool());
        tools.push(edit_file_tool());
        tools.push(fd_tool());
        tools.push(rg_tool());
        UserChatMessageRequest {
            model: String::from_str(self.model_type.to_str()),
            messages: conversation_request(thread, true),
            tools: Some(tools),
            stream: true,
        }
    }
}

// ---------------------------------------------------------------------------
// Decoded events
// ---------------------------------------------------------------------------

/// The function of a tool call: its name and its arguments as JSON text.
pub struct GroqToolCallFunction {
    pub name: String,
    pub arguments: String,
}

pub struct GroqToolCall {
    pub function: GroqToolCallFunction,
    pub id: String,
    pub tool_type: String,
}

#[derive(Debug, Clone, Copy, PartialEq, Eq, Structural)]
pub enum FinishReason {
    Stop,
    Length,
    ToolCalls,
    FunctionCall,
}

pub struct Message {
    pub role: Option<String>,
    pub content: Option<String>,
    pub tool_calls: Option<Vec<GroqToolCall>>,
    pub reasoning: Option<String>,
    pub channel: Option<String>,
    pub thinking: Option<String>,
}

pub struct Choice {
    pub index: usize,
    pub delta: Option<Message>,
    pub message: Option<Message>,
    pub finish_reason: Option<FinishReason>,
}

/// One decoded event (the timing figures of its usage stay with the
/// application).
pub struct ModelResponse {
    pub id: String,
    pub object: String,
    pub created: u64,
    pub model: String,
    pub system_fingerprint: String,
    pub choices: Vec<Choice>,
}

/// The request a call becomes: arguments that are not JSON become `null`
/// with an error message.
pub open spec fn groq_request_of(t: GroqToolCall, r: ToolCallRequest) -> bool {
    &&& r.id@ == t.id@
    &&& r.tool_type matches Some(tt) && tt@ == "function"@
    &&& r.function.index == 0
    &&& r.function.name@ == t.function.name@
    &&& match json_parse_error(t.function.arguments@) {
        None => r.function.arguments@ == t.function.arguments@ && r.error is None,
        Some(e) => r.function.arguments@ == "null"@ && (r.error matches Some(m) && m@
            == "Failed to parse arguments as JSON: "@ + e),
    }
}

impl GroqToolCall {
    pub fn to_request(&self) -> (r: ToolCallRequest)
        ensures
            groq_request_of(*self, r),
    {
        let (arguments, error) = match json_error_of(self.function.arguments.as_str()) {
            None => (self.function.arguments.clone(), None),
            Some(e) => {
                let mut m = String::from_str("Failed to parse arguments as JSON: ");
                m.append(e.as_str());
                (String::from_str("null"), Some(m))
            },
        };
        ToolCallRequest {
            id: self.id.clone(),
            tool_type: Some(String::from_str("function")),
            function: ToolCallRequestFunction {
                index: 0,
                name: self.function.name.clone(),
                arguments,
            },
            error,
        }
    }
}

fn requests_of(calls: &Vec<GroqToolCall>) -> (r: Vec<ToolCallRequest>)
    ensures
        r@.len() == calls@.len(),
        forall|i: int| 0 <= i < r@.len() ==> groq_request_of(calls@[i], #[trigger] r@[i]),
{
    let mut out: Vec<ToolCallRequest> = Vec::new();
    let mut i: usize = 0;
    while i < calls.len()
        invariant
            i <= calls@.len(),
            out@.len() == i,
            forall|j: int| 0 <= j < i ==> groq_request_of(calls@[j], #[trigger] out@[j]),
        decreases calls.len() - i,
    {
        out.push(calls[i].to_request());
        i = i + 1;
    }
    out
}

// ---------------------------------------------------------------------------
// Lines
// ---------------------------------------------------------------------------

/// What a trimmed line of the body is.
pub enum LineKind {
    /// A blank line.
    Blank,
    /// `data: [DONE]`.
    Done,
    /// Anything else: the text to decode.
    Payload(String),
}

/// The part of a line that is decoded: an SSE `data: ` line without that
/// prefix, any other line whole.
pub open spec fn payload_of(line: Seq<char>) -> Seq<char> {
    if line.len() >= 6 && line.take(6) == "data: "@ {
        line.skip(6)
    } else {
        line
    }
}

fn skip_chars(v: &Vec<char>, k: usize) -> (r: Vec<char>)
    requires
        k <= v@.len(),
    ensures
        r@ == v@.skip(k as int),
{
    let mut out: Vec<char> = Vec::new();
    let mut i: usize = k;
    while i < v.len()
        invariant
            k <= i <= v@.len(),
            out@ == v@.subrange(k as int, i as int),
        decreases v.len() - i,
    {
        out.push(v[i]);
        assert(v@.subrange(k as int, i as int).push(v@[i as int]) =~= v@.subrange(k as int, i + 1));
        i = i + 1;
    }
    assert(v@.subrange(k as int, v@.len() as int) =~= v@.skip(k as int));
    out
}

/// Classifies a trimmed line.
pub fn classify_line(line: &str) -> (r: LineKind)
    ensures
        line@.len() == 0 ==> r is Blank,
        line@.len() > 0 && line@ == "data: [DONE]"@ ==> r is Done,
        line@.len() > 0 && line@ != "data: [DONE]"@ ==> (r matches LineKind::Payload(p) && p@
            == payload_of(line@)),
{
    if line.is_empty() {
        return LineKind::Blank;
    }
    if String::from_str(line) == String::from_str("data: [DONE]") {
        return LineKind::Done;
    }
    let v = str_to_chars(line);
    let prefix = str_to_chars("data: ");
    proof {
        reveal_strlit("data: ");
    }
    if v.len() >= 6 && matches_at(&v, &prefix, 0) {
        assert(v@.subrange(0, 6) =~= v@.take(6));
        let rest = skip_chars(&v, 6);
        LineKind::Payload(chars_to_string(&rest))
    } else {
        proof {
            if line@.len() >= 6 && line@.take(6) == "data: "@ {
                assert(v@.subrange(0, 6) =~= v@.take(6));
            }
        }
        LineKind::Payload(String::from_str(line))
    }
}

// ---------------------------------------------------------------------------
// Events
// ---------------------------------------------------------------------------

/// What the backend has gathered so far: whether a finish reason came, and
/// the complete answer.
pub struct GroqStream {
    pub done: bool,
    pub complete: String,
}

/// An assistant message that is not final.
pub open spec fn partial(m: ChatMessageResponse) -> bool {
    &&& m.role@ == "assistant"@
    &&& !m.done
    &&& m.error is None
    &&& m.usage is None
}

/// The message chosen from a choice: its message, else its delta.
pub open spec fn groq_message(c: Choice) -> Option<Message> {
    if c.message is Some {
        c.message
    } else {
        c.delta
    }
}

/// The text a message adds to the complete answer.
pub open spec fn added_text(m: Message) -> Seq<char> {
    match m.content {
        Some(c) => c@,
        None => match m.thinking {
            Some(_) => Seq::empty(),
            None => match m.reasoning {
                Some(t) => "Thinking: "@ + t@,
                None => Seq::empty(),
            },
        },
    }
}

/// The message a finished answer is sent as: the complete answer, done.
pub open spec fn is_final(m: ChatMessageResponse, complete: Seq<char>) -> bool {
    &&& m.role@ == "assistant"@
    &&& m.content matches Some(c) && c@ == complete
    &&& m.done
    &&& m.thinking is None
    &&& m.tool_calls is None
    &&& m.error is None
    &&& m.usage is None
}

fn assistant(role_done: bool) -> (r: ChatMessageResponse)
    ensures
        r.role@ == "assistant"@,
        r.done == role_done,
        r.content is None,
        r.thinking is None,
        r.tool_calls is None,
        r.error is None,
        r.usage is None,
{
    let mut m = ChatMessageResponse::empty();
    m.role = String::from_str("assistant");
    m.done = role_done;
    m
}

impl GroqStream {
    pub fn new() -> (r: Self)
        ensures
            !r.done,
            r.complete@.len() == 0,
    {
        GroqStream { done: false, complete: String::new() }
    }

    /// The messages one decoded line makes the backend send (a line that did
    /// not decode sends nothing of its own).  An event without a choice, or
    /// whose first choice has neither message nor delta, is passed over
    /// entirely.  After the event's own messages, the complete answer is
    /// sent as final when it is not empty and a finish reason has come.
    pub fn on_event(&mut self, parsed: Option<ModelResponse>) -> (r: Vec<ChatMessageResponse>)
        ensures
            match parsed {
                Some(ev) if ev.choices@.len() == 0 => r@.len() == 0
                    && final(self).done == old(self).done
                    && final(self).complete@ == old(self).complete@,
                Some(ev) if groq_message(ev.choices@[0]) is None => r@.len() == 0
                    && final(self).done == (old(self).done || ev.choices@[0].finish_reason is Some)
                    && final(self).complete@ == old(self).complete@,
                _ => {
                    let own: nat = match parsed {
                        Some(ev) => {
                            let m = groq_message(ev.choices@[0])->0;
                            (if m.tool_calls is Some { 1nat } else { 0 }) + (if m.content is Some
                                || m.thinking is Some || m.reasoning is Some {
                                1nat
                            } else {
                                0
                            })
                        },
                        None => 0,
                    };
                    &&& final(self).done == (old(self).done || (parsed matches Some(ev)
                        && ev.choices@[0].finish_reason is Some))
                    &&& final(self).complete@ == old(self).complete@ + match parsed {
                        Some(ev) => added_text(groq_message(ev.choices@[0])->0),
                        None => Seq::empty(),
                    }
                    &&& r@.len() == own + if final(self).complete@.len() > 0 && final(self).done {
                        1nat
                    } else {
                        0
                    }
                    &&& forall|i: int| 0 <= i < own ==> partial(#[trigger] r@[i])
                    &&& (final(self).complete@.len() > 0 && final(self).done) ==> is_final(
                        r@[r@.len() - 1],
                        final(self).complete@,
                    )
                    &&& parsed matches Some(ev) ==> ({
                        let m = groq_message(ev.choices@[0])->0;
                        &&& (m.tool_calls matches Some(tc) ==> (r@[0].tool_calls matches Some(rq)
                            && rq@.len() == tc@.len() && forall|k: int|
                            0 <= k < rq@.len() ==> groq_request_of(tc@[k], #[trigger] rq@[k])))
                        &&& (m.content is Some || m.thinking is Some || m.reasoning is Some) ==> ({
                            let c = r@[own - 1];
                            &&& c.tool_calls is None
                            &&& m.content is Some ==> c.content == m.content && c.thinking is None
                            &&& m.content is None && m.thinking is Some ==> c.thinking
                                == m.thinking && c.content is None
                            &&& m.content is None && m.thinking is None ==> c.thinking
                                == m.reasoning && c.content is None
                        })
                    })
                },
            },
    {
        let mut out: Vec<ChatMessageResponse> = Vec::new();
        if let Some(event) = parsed {
            if event.choices.len() == 0 {
                return out;
            }
            let choice = &event.choices[0];
            if choice.finish_reason.is_some() {
                self.done = true;
            }
            let message = match &choice.message {
                Some(m) => m,
                None => match &choice.delta {
                    Some(d) => d,
                    None => {
                        return out;
                    },
                },
            };
            if let Some(tool_calls) = &message.tool_calls {
                let mut m = assistant(false);
                m.tool_calls = Some(requests_of(tool_calls));
                out.push(m);
            }
            if let Some(content) = &message.content {
                let mut m = assistant(false);
                m.content = Some(content.clone());
                out.push(m);
                self.complete.append(content.as_str());
            } else if let Some(thinking) = &message.thinking {
                let mut m = assistant(false);
                m.thinking = Some(thinking.clone());
                out.push(m);
            } else if let Some(thinking) = &message.reasoning {
                let mut m = assistant(false);
                m.thinking = Some(thinking.clone());
                out.push(m);
                self.complete.append("Thinking: ");
                self.complete.append(thinking.as_str());
                proof {
                    reveal_strlit("Thinking: ");
                }
            }
        }
        if !self.complete.as_str().is_empty() && self.done {
            let mut m = assistant(true);
            m.content = Some(self.complete.clone());
            out.push(m);
        }
        out
    }
}

} // verus!
