//! The chat messages a conversation becomes when it is sent to a model.
//!
//! Each context item gives, in this order: its content under its own role,
//! its response as an assistant message, its tool response as a tool
//! message, and its tool calls as an assistant message.  Backends that key
//! tool responses by call id also send the id, and send the calls without
//! their local errors.
use vstd::prelude::*;

use crate::models::{
    clone_opt, role_name, ContextItem, ContextItemView, Thread, ToolCallRequest, items_view,
};

verus! {

/// One message of a chat request.
pub struct ChatMessageRequest {
    pub role: String,
    pub content: Option<String>,
    pub tool_calls: Option<Vec<ToolCallRequest>>,
    pub tool_call_id: Option<String>,
}

/// Abstract value of a [`ChatMessageRequest`].
pub struct MessageView {
    pub role: Seq<char>,
    pub content: Option<Seq<char>>,
    pub tool_calls: Option<Seq<ToolCallRequest>>,
    pub tool_call_id: Option<Seq<char>>,
}

impl View for ChatMessageRequest {
    type V = MessageView;

    open spec fn view(&self) -> MessageView {
        MessageView {
            role: self.role@,
            content: match self.content {
                Some(c) => Some(c@),
                None => None,
            },
            tool_calls: match self.tool_calls {
                Some(t) => Some(t@),
                None => None,
            },
            tool_call_id: match self.tool_call_id {
                Some(i) => Some(i@),
                None => None,
            },
        }
    }
}

pub open spec fn messages_view(s: Seq<ChatMessageRequest>) -> Seq<MessageView> {
    Seq::new(s.len(), |i: int| s[i]@)
}

/// A tool call as sent back to the model: without its local error.
pub open spec fn without_error(t: ToolCallRequest) -> ToolCallRequest {
    ToolCallRequest { error: None, ..t }
}

pub open spec fn message(role: Seq<char>, content: Option<Seq<char>>) -> MessageView {
    MessageView { role, content, tool_calls: None, tool_call_id: None }
}

/// The messages one context item gives.
pub open spec fn item_messages(it: ContextItemView, keyed: bool) -> Seq<MessageView> {
    let a = match it.content {
        Some(c) => seq![message(role_name(it.role), Some(c))],
        None => Seq::empty(),
    };
    let b = match it.response {
        Some(r) => seq![message("assistant"@, Some(r))],
        None => Seq::empty(),
    };
    let c = match it.tool_response {
        Some((id, res)) => seq![
            MessageView {
                tool_call_id: if keyed {
                    Some(id)
                } else {
                    None
                },
                ..message("tool"@, Some(res))
            },
        ],
        None => Seq::empty(),
    };
    let d = match it.tools {
        Some(ts) => seq![
            MessageView {
                tool_calls: Some(
                    if keyed {
                        Seq::new(ts.len(), |i: int| without_error(ts[i]))
                    } else {
                        ts
                    },
                ),
                ..message("assistant"@, None)
            },
        ],
        None => Seq::empty(),
    };
    a + b + c + d
}

/// The messages of a whole conversation, item after item.
pub open spec fn conversation_messages(ctx: Seq<ContextItemView>, keyed: bool) -> Seq<MessageView>
    decreases ctx.len(),
{
    if ctx.len() == 0 {
        Seq::empty()
    } else {
        conversation_messages(ctx.drop_last(), keyed) + item_messages(ctx.last(), keyed)
    }
}

/// The messages of two stretches of a conversation follow each other.
pub proof fn lemma_conversation_append(a: Seq<ContextItemView>, b: Seq<ContextItemView>, keyed: bool)
    ensures
        conversation_messages(a + b, keyed) == conversation_messages(a, keyed) + conversation_messages(
            b,
            keyed,
        ),
    decreases b.len(),
{
    if b.len() == 0 {
        assert(a + b =~= a);
        assert(conversation_messages(a, keyed) + Seq::<MessageView>::empty() =~= conversation_messages(
            a,
            keyed,
        ));
    } else {
        lemma_conversation_append(a, b.drop_last(), keyed);
        assert((a + b).drop_last() =~= a + b.drop_last());
        assert((a + b).last() == b.last());
    }
}

/// Every reply of the model in a conversation is sent back as an assistant
/// message holding that reply, among the messages of its own item: after the
/// messages of the items before it and before those of the items after it.
#[verifier::spinoff_prover]
pub proof fn law_replies_sent_in_order(ctx: Seq<ContextItemView>, keyed: bool, i: int)
    requires
        0 <= i < ctx.len(),
        ctx[i].response is Some,
    ensures
        ({
            let all = conversation_messages(ctx, keyed);
            let before = conversation_messages(ctx.take(i), keyed);
            let upto = conversation_messages(ctx.take(i + 1), keyed);
            &&& all.take(before.len() as int) == before
            &&& all.take(upto.len() as int) == upto
            &&& exists|j: int|
                before.len() <= j < upto.len() && #[trigger] all[j] == message(
                    "assistant"@,
                    Some(ctx[i].response->0),
                )
        }),
{
    let all = conversation_messages(ctx, keyed);
    let before = conversation_messages(ctx.take(i), keyed);
    let upto = conversation_messages(ctx.take(i + 1), keyed);
    assert(ctx.take(i + 1) =~= ctx.take(i) + seq![ctx[i]]);
    lemma_conversation_append(ctx.take(i), seq![ctx[i]], keyed);
    let one = seq![ctx[i]];
    assert(one.drop_last() =~= Seq::<ContextItemView>::empty());
    assert(one.last() == ctx[i]);
    assert(conversation_messages(one.drop_last(), keyed) == Seq::<MessageView>::empty());
    assert(conversation_messages(one, keyed) == conversation_messages(one.drop_last(), keyed)
        + item_messages(one.last(), keyed));
    assert(conversation_messages(one, keyed) =~= item_messages(ctx[i], keyed));
    assert(ctx =~= ctx.take(i + 1) + ctx.skip(i + 1));
    lemma_conversation_append(ctx.take(i + 1), ctx.skip(i + 1), keyed);
    assert(all.take(upto.len() as int) =~= upto);
    assert(upto.take(before.len() as int) =~= before);
    assert(all.take(before.len() as int) =~= before);
    let it = ctx[i];
    law_item_sends_each_part(it, keyed);
    let ms = item_messages(it, keyed);
    let k = choose|k: int| 0 <= k < ms.len() && ms[k] == message("assistant"@, Some(it.response->0));
    let j = before.len() + k;
    assert(upto[j] == ms[k]);
    assert(all[j] == upto[j]);
}

/// What an item sends: one message for each part it has, and no more: its
/// content under its own role, its reply as an assistant message, its tool
/// result as a tool message (with the call id when results are keyed), and
/// its tool calls as an assistant message carrying them.
pub proof fn law_item_sends_each_part(it: ContextItemView, keyed: bool)
    ensures
        ({
            let ms = item_messages(it, keyed);
            &&& ms.len() == (if it.content is Some { 1int } else { 0 }) + (if it.response is Some {
                1int
            } else {
                0
            }) + (if it.tool_response is Some { 1int } else { 0 }) + (if it.tools is Some {
                1int
            } else {
                0
            })
            &&& it.content matches Some(c) ==> ms.contains(message(role_name(it.role), Some(c)))
            &&& it.response matches Some(r) ==> ms.contains(message("assistant"@, Some(r)))
            &&& it.tool_response matches Some((id, res)) ==> exists|j: int|
                0 <= j < ms.len() && #[trigger] ms[j].role == "tool"@ && ms[j].content == Some(res)
                    && (keyed ==> ms[j].tool_call_id == Some(id))
            &&& it.tools matches Some(ts) ==> exists|j: int|
                0 <= j < ms.len() && #[trigger] ms[j].role == "assistant"@ && (ms[j].tool_calls matches Some(
                    x,
                ) && x.len() == ts.len())
        }),
{
    let ms = item_messages(it, keyed);
    let na: int = if it.content is Some { 1 } else { 0 };
    let nb: int = if it.response is Some { 1 } else { 0 };
    let nc: int = if it.tool_response is Some { 1 } else { 0 };
    if it.content is Some {
        assert(ms[0] == message(role_name(it.role), it.content));
    }
    if it.response is Some {
        assert(ms[na] == message("assistant"@, it.response));
    }
    if it.tool_response is Some {
        assert(ms[na + nb].role == "tool"@);
    }
    if it.tools is Some {
        assert(ms[na + nb + nc].role == "assistant"@);
    }
}

fn plain_message(role: String, content: Option<String>) -> (r: ChatMessageRequest)
    ensures
        r@ == message(
            role@,
            match content {
                Some(c) => Some(c@),
                None => None,
            },
        ),
{
    ChatMessageRequest { role, content, tool_calls: None, tool_call_id: None }
}

fn calls_without_errors(ts: &Vec<ToolCallRequest>) -> (r: Vec<ToolCallRequest>)
    ensures
        r@ == Seq::new(ts@.len(), |i: int| without_error(ts@[i])),
{
    let mut out: Vec<ToolCallRequest> = Vec::new();
    let mut i: usize = 0;
    while i < ts.len()
        invariant
            i <= ts@.len(),
            out@.len() == i,
            forall|j: int| 0 <= j < i ==> #[trigger] out@[j] == without_error(ts@[j]),
        decreases ts.len() - i,
    {
        let t = &ts[i];
        out.push(
            ToolCallRequest {
                id: t.id.clone(),
                tool_type: clone_opt(&t.tool_type),
                function: t.function.clone(),
                error: None,
            },
        );
        i = i + 1;
    }
    assert(out@ =~= Seq::new(ts@.len(), |i: int| without_error(ts@[i])));
    out
}

/// Appends the messages of one context item.
fn push_item_messages(item: &ContextItem, keyed: bool, out: &mut Vec<ChatMessageRequest>)
    ensures
        messages_view(final(out)@) == messages_view(old(out)@) + item_messages(item@, keyed),
{
    let ghost start = messages_view(out@);
    let ghost it = item@;
    let ghost a = match it.content {
        Some(c) => seq![message(role_name(it.role), Some(c))],
        None => Seq::<MessageView>::empty(),
    };
    let ghost b = match it.response {
        Some(r) => seq![message("assistant"@, Some(r))],
        None => Seq::<MessageView>::empty(),
    };
    let ghost c = match it.tool_response {
        Some((id, res)) => seq![
            MessageView {
                tool_call_id: if keyed {
                    Some(id)
                } else {
                    None
                },
                ..message("tool"@, Some(res))
            },
        ],
        None => Seq::<MessageView>::empty(),
    };
    if let Some(content) = &item.content {
        out.push(plain_message(item.role.to_string(), Some(content.clone())));
    }
    assert(messages_view(out@) =~= start + a);
    if let Some(resp) = &item.response {
        out.push(plain_message(String::from_str("assistant"), Some(resp.clone())));
    }
    assert(messages_view(out@) =~= start + a + b);
    if let Some(resp) = &item.tool_response {
        let mut m = plain_message(String::from_str("tool"), Some(resp.result.clone()));
        if keyed {
            m.tool_call_id = Some(resp.id.clone());
        }
        out.push(m);
    }
    assert(messages_view(out@) =~= start + a + b + c);
    if let Some(tools) = &item.tools {
        let calls = if keyed {
            calls_without_errors(tools)
        } else {
            let v = tools.clone();
            assert(v@ =~= tools@);
            v
        };
        let mut m = plain_message(String::from_str("assistant"), None);
        m.tool_calls = Some(calls);
        out.push(m);
    }
    assert(messages_view(out@) =~= start + item_messages(it, keyed));
}

/// The messages of a conversation.  `keyed`: tool responses carry their call
/// id and tool calls are sent without their local errors.
pub fn conversation_request(thread: &Thread, keyed: bool) -> (r: Vec<ChatMessageRequest>)
    ensures
        messages_view(r@) == conversation_messages(thread@.context, keyed),
{
    let items = thread.get_context();
    let mut out: Vec<ChatMessageRequest> = Vec::new();
    let mut i: usize = 0;
    while i < items.len()
        invariant
            i <= items@.len(),
            items_view(items@) == thread@.context,
            messages_view(out@) == conversation_messages(items_view(items@).take(i as int), keyed),
        decreases items.len() - i,
    {
        push_item_messages(&items[i], keyed, &mut out);
        proof {
            let ctx = items_view(items@);
            assert(ctx.take(i + 1).drop_last() =~= ctx.take(i as int));
            assert(ctx.take(i + 1).last() == items@[i as int]@);
        }
        i = i + 1;
    }
    assert(items_view(items@).take(items@.len() as int) =~= items_view(items@));
    out
}

} // verus!
