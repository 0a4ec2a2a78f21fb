//! The local Ollama backend (Gemma 4): its request and what each streamed
//! line makes it send.
//!
//! Every decoded line carries the message so far and whether the model is
//! done.  Tool calls are streamed as they come, then the content (which
//! accumulates into the complete answer) or the thinking (accumulated as
//! `Thinking: ...`).  While the model reports done, each line ends with the
//! complete answer as the final message.
use vstd::prelude::*;

use crate::models::{calls_opt_view, ChatMessageResponse, Thread, ToolCallRequest};
use crate::request::{conversation_messages, conversation_request, messages_view};
use crate::groq::{is_final, UserChatMessageRequest};

verus! {

/// The Gemma 4 model served by a local Ollama.
pub struct GEMMA4Model;

impl GEMMA4Model {
    /// The model's name.
    pub fn name(&self) -> (r: &'static str)
        ensures
            r@ == "gemma4"@,
    {
        "gemma4"
    }

    /// The request for a conversation: `gemma4:e4b`, the conversation's
    /// messages without call ids, streamed (thinking is switched off by the
    /// front end that sends it).
    pub fn chat_request(&self, thread: &Thread) -> (r: UserChatMessageRequest)
        ensures
            r.model@ == "gemma4:e4b"@,
            messages_view(r.messages@) == conversation_messages(thread@.context, false),
            r.tools is None,
            r.stream,
    {
        UserChatMessageRequest {
            model: String::from_str("gemma4:e4b"),
            messages: conversation_request(thread, false),
            tools: None,
            stream: true,
        }
    }
}

/// The message of one decoded line.
pub struct ModelMessage {
    pub role: String,
    pub content: Option<String>,
    pub thinking: Option<String>,
    pub tool_calls: Option<Vec<ToolCallRequest>>,
}

/// One decoded line.
pub struct ModelResponse {
    pub model: String,
    pub created_at: String,
    pub done: bool,
    pub message: ModelMessage,
}

/// What the backend has gathered so far: whether the model said it is done,
/// and the complete answer.
pub struct OllamaStream {
    pub done: bool,
    pub complete: String,
}

/// The text a message adds to the complete answer.
pub open spec fn added_text(m: ModelMessage) -> Seq<char> {
    match m.content {
        Some(c) => c@,
        None => match m.thinking {
            Some(t) => "Thinking: "@ + t@,
            None => Seq::empty(),
        },
    }
}

/// A message streamed with the line's role, not final.
pub open spec fn streamed(m: ChatMessageResponse, role: Seq<char>) -> bool {
    &&& m.role@ == role
    &&& !m.done
    &&& m.error is None
    &&& m.usage is None
}

fn with_role(role: &String) -> (r: ChatMessageResponse)
    ensures
        r.role == *role,
        !r.done,
        r.content is None,
        r.thinking is None,
        r.tool_calls is None,
        r.error is None,
        r.usage is None,
{
    let mut m = ChatMessageResponse::empty();
    m.role = role.clone();
    m
}

impl OllamaStream {
    pub fn new() -> (r: Self)
        ensures
            !r.done,
            r.complete@.len() == 0,
    {
        OllamaStream { done: false, complete: String::new() }
    }

    /// The messages one line makes the backend send; a line that did not
    /// decode only gives the final message when it is due.
    pub fn on_event(&mut self, parsed: Option<ModelResponse>) -> (r: Vec<ChatMessageResponse>)
        ensures
            ({
                let own: nat = match parsed {
                    Some(ev) => (if ev.message.tool_calls is Some {
                        1nat
                    } else {
                        0
                    }) + (if ev.message.content is Some || ev.message.thinking is Some {
                        1nat
                    } else {
                        0
                    }),
                    None => 0,
                };
                &&& final(self).done == match parsed {
                    Some(ev) => ev.done,
                    None => old(self).done,
                }
                &&& final(self).complete@ == old(self).complete@ + match parsed {
                    Some(ev) => added_text(ev.message),
                    None => Seq::empty(),
                }
                &&& r@.len() == own + if final(self).complete@.len() > 0 && final(self).done {
                    1nat
                } else {
                    0
                }
                &&& (final(self).complete@.len() > 0 && final(self).done) ==> is_final(
                    r@[r@.len() - 1],
                    final(self).complete@,
                )
                &&& parsed matches Some(ev) ==> ({
                    let m = ev.message;
                    &&& forall|i: int| 0 <= i < own ==> streamed(#[trigger] r@[i], m.role@)
                    &&& (m.tool_calls matches Some(tc) ==> calls_opt_view(r@[0].tool_calls)
                        == Some(tc@))
                    &&& (m.content is Some || m.thinking is Some) ==> ({
                        let c = r@[own - 1];
                        &&& c.tool_calls is None
                        &&& m.content is Some ==> c.content == m.content && c.thinking is None
                        &&& m.content is None ==> c.thinking == m.thinking && c.content is None
                    })
                })
            }),
    {
        let mut out: Vec<ChatMessageResponse> = Vec::new();
        if let Some(event) = parsed {
            self.done = event.done;
            let msg = &event.message;
            if let Some(tool_calls) = &msg.tool_calls {
                let mut m = with_role(&msg.role);
                let c = tool_calls.clone();
                assert(c@ =~= tool_calls@);
                m.tool_calls = Some(c);
                out.push(m);
            }
            if let Some(content) = &msg.content {
                let mut m = with_role(&msg.role);
                m.content = Some(content.clone());
                out.push(m);
                self.complete.append(content.as_str());
            } else if let Some(thinking) = &msg.thinking {
                let mut m = with_role(&msg.role);
                m.thinking = Some(thinking.clone());
                out.push(m);
                self.complete.append("Thinking: ");
                self.complete.append(thinking.as_str());
                proof {
                    reveal_strlit("Thinking: ");
                }
            }
        }
        if !self.complete.as_str().is_empty() && self.done {
            let mut m = ChatMessageResponse::empty();
            m.role = String::from_str("assistant");
            m.done = true;
            m.content = Some(self.complete.clone());
            out.push(m);
        }
        out
    }
}

} // verus!
