//! The OpenRouter backend's streaming logic: tool-call fragments are
//! aggregated by index, content and thinking deltas are merged, and every
//! decoded event decides what is streamed to the application.
use std::collections::HashMap;
use vstd::prelude::*;

use crate::groq::UserChatMessageRequest;
use crate::json::{json_error_of, json_parse_error};
use crate::request::{conversation_messages, conversation_request, messages_view};
use crate::models::{
    calls_opt_view, clone_opt, opt_view, Thread, Tool, ChatMessageResponse, ModelResponseErr, TokenUsage, ToolCallRequest,
    ToolCallRequestFunction,
};
use crate::text::{chars_to_string, contains_seq, contains_str, str_to_chars};
use vstd::std_specs::hash::spec_hash_map_iter;
use vstd::std_specs::iter::IteratorSpec;

verus! {

broadcast use vstd::std_specs::hash::group_hash_axioms;

/// Models offered through OpenRouter.
#[derive(Debug, Clone, Copy, PartialEq, Eq, Structural)]
pub enum OpenRouterModel {
    DeepSeekV4Pro,
    DeepSeekV4Flash,
    DeepSeekR1,
    MoonShotAiKIMI27,
}

pub open spec fn openrouter_model_id(m: OpenRouterModel) -> Seq<char> {
    match m {
        OpenRouterModel::DeepSeekV4Pro => "deepseek/deepseek-v4-pro"@,
        OpenRouterModel::DeepSeekV4Flash => "deepseek/deepseek-v4-flash"@,
        OpenRouterModel::DeepSeekR1 => "deepseek/deepseek-r1"@,
        OpenRouterModel::MoonShotAiKIMI27 => "moonshotai/kimi-k2.7-code"@,
    }
}

impl OpenRouterModel {
    /// The model id the API expects.
    pub fn to_str(&self) -> (r: &'static str)
        ensures
            r@ == openrouter_model_id(*self),
    {
        match self {
            OpenRouterModel::DeepSeekV4Pro => "deepseek/deepseek-v4-pro",
            OpenRouterModel::DeepSeekV4Flash => "deepseek/deepseek-v4-flash",
            OpenRouterModel::DeepSeekR1 => "deepseek/deepseek-r1",
            OpenRouterModel::MoonShotAiKIMI27 => "moonshotai/kimi-k2.7-code",
        }
    }
}

/// An OpenRouter model together with the key used to call it.
pub struct OpenRouterBase {
    model_type: OpenRouterModel,
    api_key: String,
}

impl OpenRouterBase {
    pub closed spec fn model_spec(&self) -> OpenRouterModel {
        self.model_type
    }

    pub closed spec fn key_spec(&self) -> Seq<char> {
        self.api_key@
    }

    pub fn new(model_type: OpenRouterModel, api_key: String) -> (r: Self)
        ensures
            r.model_spec() == model_type,
            r.key_spec() == api_key@,
    {
        OpenRouterBase { model_type, api_key }
    }

    /// The model's name (its id).
    pub fn name(&self) -> (r: &'static str)
        ensures
            r@ == openrouter_model_id(self.model_spec()),
    {
        self.model_type.to_str()
    }

    pub fn api_key(&self) -> (r: &str)
        ensures
            r@ == self.key_spec(),
    {
        self.api_key.as_str()
    }

    /// The request for a conversation: this model, the conversation's
    /// messages with call ids, streamed.
    pub fn chat_request(&self, thread: &Thread, tools: Vec<Tool>) -> (r: UserChatMessageRequest)
        ensures
            r.model@ == openrouter_model_id(self.model_spec()),
            messages_view(r.messages@) == conversation_messages(thread@.context, true),
            if tools@.len() == 0 {
                r.tools is None
            } else {
                r.tools == Some(tools)
            },
            r.stream,
    {
        let offered = if tools.len() == 0 {
            None
        } else {
            Some(tools)
        };
        UserChatMessageRequest {
            model: String::from_str(self.model_type.to_str()),
            messages: conversation_request(thread, true),
            tools: offered,
            stream: true,
        }
    }
}

/// The function part of a streamed tool-call fragment.
pub struct ToolCallFunction {
    pub name: Option<String>,
    pub arguments: Option<String>,
}

/// A streamed tool-call fragment; fragments with the same `index` belong to
/// the same call.
pub struct ToolCall {
    pub id: Option<String>,
    pub index: Option<usize>,
    pub function: ToolCallFunction,
    pub tool_type: Option<String>,
}

/// Abstract value of a [`ToolCall`].
pub struct ToolCallView {
    pub id: Option<Seq<char>>,
    pub index: Option<usize>,
    pub name: Option<Seq<char>>,
    pub arguments: Option<Seq<char>>,
    pub tool_type: Option<Seq<char>>,
}

impl View for ToolCall {
    type V = ToolCallView;

    open spec fn view(&self) -> ToolCallView {
        ToolCallView {
            id: opt_view(self.id),
            index: self.index,
            name: opt_view(self.function.name),
            arguments: opt_view(self.function.arguments),
            tool_type: opt_view(self.tool_type),
        }
    }
}

impl ToolCall {
    pub fn copy(&self) -> (r: ToolCall)
        ensures
            r@ == self@,
    {
        ToolCall {
            id: clone_opt(&self.id),
            index: self.index,
            function: ToolCallFunction {
                name: clone_opt(&self.function.name),
                arguments: clone_opt(&self.function.arguments),
            },
            tool_type: clone_opt(&self.tool_type),
        }
    }
}

/// Appending an optional fragment to an optional aggregate.
pub open spec fn merge_opt(agg: Option<Seq<char>>, new: Option<Seq<char>>) -> Option<Seq<char>> {
    match new {
        None => agg,
        Some(n) => match agg {
            Some(a) => Some(a + n),
            None => Some(n),
        },
    }
}

/// A fragment folded into the call aggregated so far.
pub open spec fn merge_call(agg: ToolCallView, t: ToolCallView) -> ToolCallView {
    ToolCallView {
        name: merge_opt(agg.name, t.name),
        arguments: merge_opt(agg.arguments, t.arguments),
        tool_type: merge_opt(agg.tool_type, t.tool_type),
        ..agg
    }
}

/// The aggregate after one fragment: fragments without an index are ignored.
pub open spec fn absorb(m: Map<usize, ToolCallView>, t: ToolCallView) -> Map<usize, ToolCallView> {
    match t.index {
        None => m,
        Some(i) => if m.contains_key(i) {
            m.insert(i, merge_call(m[i], t))
        } else {
            m.insert(i, t)
        },
    }
}

/// The aggregate after a sequence of fragments, in order.
pub open spec fn absorb_all(m: Map<usize, ToolCallView>, ts: Seq<ToolCallView>) -> Map<
    usize,
    ToolCallView,
>
    decreases ts.len(),
{
    if ts.len() == 0 {
        m
    } else {
        absorb(absorb_all(m, ts.drop_last()), ts.last())
    }
}

pub open spec fn agg_view(m: Map<usize, ToolCall>) -> Map<usize, ToolCallView> {
    m.map_values(|t: ToolCall| t@)
}

pub open spec fn calls_view(s: Seq<ToolCall>) -> Seq<ToolCallView> {
    Seq::new(s.len(), |i: int| s[i]@)
}

fn merge_opt_exec(agg: &Option<String>, new: &Option<String>) -> (r: Option<String>)
    ensures
        opt_view(r) == merge_opt(opt_view(*agg), opt_view(*new)),
{
    match new {
        None => clone_opt(agg),
        Some(n) => match agg {
            Some(a) => {
                let mut s = a.clone();
                s.append(n.as_str());
                Some(s)
            },
            None => Some(n.clone()),
        },
    }
}

/// Folds the fragments of one chunk into the aggregator.
pub fn process_tool_call(resp: &[ToolCall], aggregator: &mut HashMap<usize, ToolCall>)
    ensures
        agg_view(final(aggregator)@) == absorb_all(agg_view(old(aggregator)@), calls_view(resp@)),
{
    let mut i: usize = 0;
    while i < resp.len()
        invariant
            i <= resp@.len(),
            agg_view(aggregator@) == absorb_all(
                agg_view(old(aggregator)@),
                calls_view(resp@).take(i as int),
            ),
        decreases resp.len() - i,
    {
        let tool = &resp[i];
        let ghost before = agg_view(aggregator@);
        assert(calls_view(resp@).take(i + 1).drop_last() =~= calls_view(resp@).take(i as int));
        assert(calls_view(resp@).take(i + 1).last() == tool@);
        match tool.index {
            None => {},
            Some(idx) => {
                let merged = match aggregator.get(&idx) {
                    Some(agg) => {
                        ToolCall {
                            id: clone_opt(&agg.id),
                            index: agg.index,
                            function: ToolCallFunction {
                                name: merge_opt_exec(&agg.function.name, &tool.function.name),
                                arguments: merge_opt_exec(
                                    &agg.function.arguments,
                                    &tool.function.arguments,
                                ),
                            },
                            tool_type: merge_opt_exec(&agg.tool_type, &tool.tool_type),
                        }
                    },
                    None => tool.copy(),
                };
                aggregator.insert(idx, merged);
                assert(agg_view(aggregator@) =~= absorb(before, tool@));
            },
        }
        i = i + 1;
    }
    assert(calls_view(resp@).take(resp@.len() as int) =~= calls_view(resp@));
}

// ---------------------------------------------------------------------------
// Decoded stream events
// ---------------------------------------------------------------------------

/// Why the model stopped.
#[derive(Debug, Clone, Copy, PartialEq, Eq, Structural)]
pub enum FinishReason {
    Stop,
    Length,
    ToolCalls,
    FunctionCall,
}

/// A message or delta of one choice.
pub struct Message {
    pub role: Option<String>,
    pub content: Option<String>,
    pub tool_calls: Option<Vec<ToolCall>>,
    pub reasoning: Option<String>,
    pub channel: Option<String>,
    pub thinking: Option<String>,
}

pub struct Choice {
    pub index: usize,
    pub delta: Option<Message>,
    pub message: Option<Message>,
    pub finish_reason: Option<FinishReason>,
}

/// Tokens cached or written to cache for the prompt.
pub struct PromptTokensDetails {
    pub cached_tokens: u32,
    pub cache_write_tokens: Option<u32>,
    pub audio_tokens: Option<u32>,
    pub video_tokens: Option<u32>,
}

/// Breakdown of the completion tokens.
pub struct CompletionTokensDetails {
    pub reasoning_tokens: Option<u32>,
    pub audio_tokens: Option<u32>,
    pub image_tokens: Option<u32>,
}

/// Server-side tool usage.
pub struct ServerToolUse {
    pub web_search_requests: Option<u32>,
}

/// Token usage reported with the final chunk (the credit cost travels with
/// the application, which handles the floating-point amounts).
pub struct ResponseUsage {
    pub prompt_tokens: u32,
    pub completion_tokens: u32,
    pub total_tokens: u32,
    pub prompt_tokens_details: Option<PromptTokensDetails>,
    pub completion_tokens_details: Option<CompletionTokensDetails>,
    pub is_byok: Option<bool>,
    pub server_tool_use: Option<ServerToolUse>,
}

/// One decoded stream event.
pub struct ModelResponse {
    pub id: String,
    pub object: String,
    pub created: u64,
    pub model: String,
    pub system_fingerprint: Option<String>,
    pub choices: Vec<Choice>,
    pub usage: Option<ResponseUsage>,
    pub error: Option<String>,
}

/// State carried across the events of one streamed answer.
pub struct ResponseContext {
    pub is_delta: bool,
    pub aggregated: ChatMessageResponse,
    pub new_message: ChatMessageResponse,
    pub tool_call_aggregator: HashMap<usize, ToolCall>,
    pub finish_reason: Option<FinishReason>,
    pub usage: Option<ResponseUsage>,
}

impl ResponseContext {
    pub fn new() -> (r: Self)
        ensures
            !r.is_delta,
            r.aggregated.content is None && r.aggregated.thinking is None,
            r.aggregated.tool_calls is None && !r.aggregated.done,
            r.new_message.content is None && r.new_message.thinking is None,
            r.tool_call_aggregator@ == Map::<usize, ToolCall>::empty(),
            r.finish_reason is None,
            r.usage is None,
    {
        ResponseContext {
            is_delta: false,
            aggregated: ChatMessageResponse::empty(),
            new_message: ChatMessageResponse::empty(),
            tool_call_aggregator: HashMap::new(),
            finish_reason: None,
            usage: None,
        }
    }
}

/// Appends the latest content and thinking to what has been aggregated.
pub fn merge_context(context: &mut ResponseContext)
    ensures
        opt_view(final(context).aggregated.content) == merge_opt(
            opt_view(old(context).aggregated.content),
            opt_view(old(context).new_message.content),
        ),
        opt_view(final(context).aggregated.thinking) == merge_opt(
            opt_view(old(context).aggregated.thinking),
            opt_view(old(context).new_message.thinking),
        ),
        final(context).aggregated.role == old(context).aggregated.role,
        final(context).aggregated.done == old(context).aggregated.done,
        final(context).aggregated.tool_calls == old(context).aggregated.tool_calls,
        final(context).aggregated.error == old(context).aggregated.error,
        final(context).aggregated.usage == old(context).aggregated.usage,
        final(context).new_message == old(context).new_message,
        final(context).is_delta == old(context).is_delta,
        final(context).tool_call_aggregator@ == old(context).tool_call_aggregator@,
        final(context).finish_reason == old(context).finish_reason,
        final(context).usage == old(context).usage,
{
    let c = merge_opt_exec(&context.aggregated.content, &context.new_message.content);
    let t = merge_opt_exec(&context.aggregated.thinking, &context.new_message.thinking);
    context.aggregated.content = c;
    context.aggregated.thinking = t;
}

pub open spec fn nonempty_opt(s: Option<String>) -> bool {
    match s {
        Some(x) => x@.len() > 0,
        None => false,
    }
}

/// Whether a message carries anything worth showing while streaming.
pub fn has_streamable_content(msg: &ChatMessageResponse) -> (r: bool)
    ensures
        r == (nonempty_opt(msg.content) || nonempty_opt(msg.thinking) || msg.tool_calls is Some),
{
    let c = match &msg.content {
        Some(c) => !c.as_str().is_empty(),
        None => false,
    };
    let t = match &msg.thinking {
        Some(t) => !t.as_str().is_empty(),
        None => false,
    };
    c || t || msg.tool_calls.is_some()
}

fn nonempty(s: &Option<String>) -> (r: bool)
    ensures
        r == nonempty_opt(*s),
{
    match s {
        Some(x) => !x.as_str().is_empty(),
        None => false,
    }
}

/// The request a finished call becomes: missing parts become empty, and
/// arguments that are not JSON become `null` with an error message.
pub open spec fn request_of(t: ToolCallView, r: ToolCallRequest) -> bool {
    let args = match t.arguments {
        Some(a) => a,
        None => Seq::<char>::empty(),
    };
    &&& r.id@ == match t.id {
        Some(i) => i,
        None => Seq::<char>::empty(),
    }
    &&& opt_view(r.tool_type) == Some("function"@)
    &&& r.function.index == 0
    &&& r.function.name@ == match t.name {
        Some(n) => n,
        None => Seq::<char>::empty(),
    }
    &&& match json_parse_error(args) {
        None => r.function.arguments@ == args && r.error is None,
        Some(e) => r.function.arguments@ == "null"@ && opt_view(r.error) == Some(
            "Failed to parse arguments as JSON: "@ + e,
        ),
    }
}

impl ToolCall {
    /// Turns an aggregated call into the request the application executes.
    pub fn to_request(&self) -> (r: ToolCallRequest)
        ensures
            request_of(self@, r),
    {
        let args = match &self.function.arguments {
            Some(a) => a.clone(),
            None => String::new(),
        };
        let (arguments, error) = match json_error_of(args.as_str()) {
            None => (args, None),
            Some(e) => {
                let mut m = String::from_str("Failed to parse arguments as JSON: ");
                m.append(e.as_str());
                (String::from_str("null"), Some(m))
            },
        };
        ToolCallRequest {
            id: match &self.id {
                Some(i) => i.clone(),
                None => String::new(),
            },
            tool_type: Some(String::from_str("function")),
            function: ToolCallRequestFunction {
                index: 0,
                name: match &self.function.name {
                    Some(n) => n.clone(),
                    None => String::new(),
                },
                arguments,
            },
            error,
        }
    }
}

/// `ks` lists every index of `m`, each once.
pub open spec fn lists_keys(m: Map<usize, ToolCall>, ks: Seq<usize>) -> bool {
    &&& ks.no_duplicates()
    &&& forall|k: usize| #[trigger] m.contains_key(k) <==> ks.contains(k)
}

/// `tc` holds the request of every aggregated call of `m`, each once, in the
/// order of some listing of the indices (the map's iteration order, which it
/// leaves unspecified).
pub open spec fn requests_for(m: Map<usize, ToolCall>, tc: Seq<ToolCallRequest>) -> bool {
    &&& tc.len() == m.dom().len()
    &&& exists|ks: Seq<usize>|
        #![trigger lists_keys(m, ks)]
        lists_keys(m, ks) && ks.len() == tc.len() && forall|i: int|
            0 <= i < tc.len() ==> #[trigger] request_of(m[ks[i]]@, tc[i])
}

/// The requests of all aggregated calls, in the map's iteration order: one
/// request per index.
pub fn into_tool_call(context: &HashMap<usize, ToolCall>) -> (r: Vec<ToolCallRequest>)
    ensures
        requests_for(context@, r@),
{
    let mut res: Vec<ToolCallRequest> = Vec::new();
    let entries = context.iter();
    let ghost s = entries.remaining();
    proof {
        assert(s == spec_hash_map_iter(context).remaining());
        assert(s.no_duplicates());
    }
    for (k, t) in it: entries
        invariant
            it.seq() == s,
            s.len() == context@.dom().len(),
            forall|j: int|
                0 <= j < s.len() ==> context@.contains_key(*s[j].0) && context@[*s[j].0] == *s[j].1,
            res@.len() == it.index(),
            forall|i: int|
                0 <= i < res@.len() ==> #[trigger] request_of(context@[*s[i].0]@, res@[i]),
    {
        let ghost j = it.index();
        let req = t.to_request();
        res.push(req);
        proof {
            assert(request_of(context@[*s[j].0]@, res@[j]));
        }
    }
    proof {
        let ks = Seq::new(s.len(), |i: int| *s[i].0);
        assert forall|a: int, b: int| 0 <= a < ks.len() && 0 <= b < ks.len() && a != b implies ks[a]
            != ks[b] by {
            if ks[a] == ks[b] {
                assert(context@[*s[a].0] == *s[a].1);
                assert(context@[*s[b].0] == *s[b].1);
                assert(s[a] == s[b]);
            }
        }
        assert forall|k: usize| #[trigger] context@.contains_key(k) implies ks.contains(k) by {
            assert(s.contains((&k, &context@[k])));
            let w = choose|w: int| 0 <= w < s.len() && s[w] == (&k, &context@[k]);
            assert(ks[w] == k);
        }
        assert forall|k: usize| #[trigger] ks.contains(k) implies context@.contains_key(k) by {
            let w = choose|w: int| 0 <= w < ks.len() && ks[w] == k;
            assert(context@.contains_key(*s[w].0));
        }
        assert(lists_keys(context@, ks));
        assert forall|i: int| 0 <= i < res@.len() implies #[trigger] request_of(
            context@[ks[i]]@,
            res@[i],
        ) by {
            assert(request_of(context@[*s[i].0]@, res@[i]));
        }
    }
    res
}

/// The message an event carries: its first choice's message, else its delta.
pub open spec fn chosen_message(event: ModelResponse) -> Message {
    let c = event.choices@[0];
    if c.message is Some {
        c.message->0
    } else {
        c.delta->0
    }
}

/// The event cannot be used: it has no choice, or its first choice has
/// neither a message nor a delta.
pub open spec fn event_fault(event: ModelResponse) -> bool {
    event.choices@.len() == 0 || (event.choices@[0].message is None
        && event.choices@[0].delta is None)
}

/// The content a message shows: its content when non-empty.
pub open spec fn shown_content(m: Message) -> Option<String> {
    if nonempty_opt(m.content) {
        m.content
    } else {
        None
    }
}

/// The thinking a message shows when it shows no content: its thinking when
/// non-empty, else its reasoning when non-empty.
pub open spec fn shown_thinking(m: Message) -> Option<String> {
    if nonempty_opt(m.content) {
        None
    } else if nonempty_opt(m.thinking) {
        m.thinking
    } else if nonempty_opt(m.reasoning) {
        m.reasoning
    } else {
        None
    }
}

/// The aggregate after the tool-call fragments a message carries.
pub open spec fn absorbed(m: Map<usize, ToolCallView>, msg: Message) -> Map<usize, ToolCallView> {
    match msg.tool_calls {
        Some(tc) => if tc@.len() > 0 {
            absorb_all(m, calls_view(tc@))
        } else {
            m
        },
        None => m,
    }
}

/// Builds the event's message into the context.  Fails when the event has
/// no choice, or its first choice has neither a message nor a delta.
pub fn process_model_response(event: ModelResponse, context: &mut ResponseContext) -> (r: Result<
    (),
    ModelResponseErr,
>)
    ensures
        event.choices@.len() == 0 ==> r matches Err(ModelResponseErr::NoChoiceErr),
        r is Ok <==> !event_fault(event),
        event.choices@.len() > 0 && event.choices@[0].message is None && event.choices@[0].delta is None ==> (r matches Err(ModelResponseErr::ParseErr(m)) && m@
            == "no message and no delta"@),
        r is Err ==> final(context).tool_call_aggregator@ == old(context).tool_call_aggregator@
            && final(context).aggregated == old(context).aggregated,
        r is Ok ==> ({
            let choice = event.choices@[0];
            let msg = chosen_message(event);
            &&& event.choices@.len() > 0
            &&& final(context).is_delta == (old(context).is_delta || choice.message is None)
            &&& agg_view(final(context).tool_call_aggregator@) == absorbed(
                agg_view(old(context).tool_call_aggregator@),
                msg,
            )
            &&& final(context).new_message.role@ == "assistant"@
            &&& final(context).new_message.content == shown_content(msg)
            &&& final(context).new_message.thinking == shown_thinking(msg)
            &&& !final(context).new_message.done
            &&& final(context).new_message.error is None
            &&& (final(context).is_delta || final(context).tool_call_aggregator@.dom().len() == 0)
                ==> final(context).new_message.tool_calls is None
            &&& (!final(context).is_delta && final(context).tool_call_aggregator@.dom().len() > 0)
                ==> (final(context).new_message.tool_calls matches Some(tc) && requests_for(
                final(context).tool_call_aggregator@,
                tc@,
            ))
            &&& final(context).finish_reason == choice.finish_reason
            &&& final(context).aggregated == old(context).aggregated
            &&& (event.usage is Some ==> final(context).usage == event.usage)
            &&& (event.usage is None ==> final(context).usage == old(context).usage)
        }),
{
    if event.choices.len() == 0 {
        return Err(ModelResponseErr::NoChoiceErr);
    }
    let mut choices = event.choices;
    let ghost choice0 = choices@[0];
    let choice = choices.swap_remove(0);
    let message = match choice.message {
        Some(msg) => msg,
        None => match choice.delta {
            Some(delta) => {
                context.is_delta = true;
                delta
            },
            None => {
                return Err(ModelResponseErr::ParseErr(String::from_str("no message and no delta")));
            },
        },
    };
    match &message.tool_calls {
        Some(tc) => {
            if tc.len() > 0 {
                process_tool_call(tc.as_slice(), &mut context.tool_call_aggregator);
            }
        },
        None => {},
    }
    let mut content: Option<String> = None;
    let mut thinking: Option<String> = None;
    if nonempty(&message.content) {
        content = message.content;
    } else if nonempty(&message.thinking) {
        thinking = message.thinking;
    } else if nonempty(&message.reasoning) {
        thinking = message.reasoning;
    }
    let mut new_message = ChatMessageResponse::empty();
    new_message.role = String::from_str("assistant");
    new_message.content = content;
    new_message.thinking = thinking;
    if !context.is_delta && context.tool_call_aggregator.len() > 0 {
        new_message.tool_calls = Some(into_tool_call(&context.tool_call_aggregator));
    }
    context.new_message = new_message;
    context.finish_reason = choice.finish_reason;
    if event.usage.is_some() {
        context.usage = event.usage;
    }
    Ok(())
}


/// The usage a finished answer reports: the token counts of the last usage
/// received, if any.
pub open spec fn usage_of(u: Option<ResponseUsage>) -> Option<TokenUsage> {
    match u {
        Some(u) => Some(
            TokenUsage {
                prompt_tokens: Some(u.prompt_tokens as u64),
                completion_tokens: Some(u.completion_tokens as u64),
                total_tokens: Some(u.total_tokens as u64),
            },
        ),
        None => None,
    }
}

/// The final message of an answer: what was aggregated, done, with the
/// requests of the aggregated tool calls when there are any, and the usage.
/// The aggregated message is moved out of the context.
pub fn conclude_request(ctx: &mut ResponseContext) -> (r: ChatMessageResponse)
    ensures
        r.role == old(ctx).aggregated.role,
        r.content == old(ctx).aggregated.content,
        r.thinking == old(ctx).aggregated.thinking,
        r.done,
        r.error == old(ctx).aggregated.error,
        r.usage == usage_of(old(ctx).usage),
        old(ctx).tool_call_aggregator@.dom().len() == 0 ==> calls_opt_view(r.tool_calls)
            == calls_opt_view(old(ctx).aggregated.tool_calls),
        old(ctx).tool_call_aggregator@.dom().len() > 0 ==> (r.tool_calls matches Some(tc)
            && requests_for(old(ctx).tool_call_aggregator@, tc@)),
        final(ctx).tool_call_aggregator@ == old(ctx).tool_call_aggregator@,
        final(ctx).usage == old(ctx).usage,
        final(ctx).finish_reason == old(ctx).finish_reason,
        final(ctx).is_delta == old(ctx).is_delta,
        final(ctx).new_message == old(ctx).new_message,
{
    let mut out = ChatMessageResponse::empty();
    std::mem::swap(&mut out, &mut ctx.aggregated);
    if ctx.tool_call_aggregator.len() > 0 {
        out.tool_calls = Some(into_tool_call(&ctx.tool_call_aggregator));
    }
    out.done = true;
    out.usage = match &ctx.usage {
        Some(u) => Some(
            TokenUsage {
                prompt_tokens: Some(u.prompt_tokens as u64),
                completion_tokens: Some(u.completion_tokens as u64),
                total_tokens: Some(u.total_tokens as u64),
            },
        ),
        None => None,
    };
    out
}

/// What the stream loop does with one event: the messages to send to the
/// application, in order, and whether the answer is over.
pub struct StreamReply {
    pub send: Vec<ChatMessageResponse>,
    pub stop: bool,
}

/// The failure message for `err`, as the stream loop sends it.
pub open spec fn is_failure(m: ChatMessageResponse, err: ModelResponseErr) -> bool {
    &&& m.role@.len() == 0
    &&& m.content is None
    &&& m.thinking is None
    &&& m.done
    &&& m.tool_calls is None
    &&& m.error == Some(err)
    &&& m.usage is None
}

fn fail(err: ModelResponseErr) -> (r: StreamReply)
    ensures
        r.stop,
        r.send@.len() == 1,
        is_failure(r.send@[0], err),
{
    let mut send: Vec<ChatMessageResponse> = Vec::new();
    send.push(ChatMessageResponse::failure(err));
    StreamReply { send, stop: true }
}

/// The stream reported `[DONE]`: the answer ends with reason `Stop` and its
/// final message.
pub fn on_done(ctx: &mut ResponseContext) -> (r: StreamReply)
    ensures
        r.stop,
        r.send@.len() == 1,
        ({
            let m = r.send@[0];
            &&& m.done
            &&& m.content == old(ctx).aggregated.content
            &&& m.thinking == old(ctx).aggregated.thinking
            &&& m.usage == usage_of(old(ctx).usage)
            &&& old(ctx).tool_call_aggregator@.dom().len() > 0 ==> (m.tool_calls matches Some(tc)
                && requests_for(old(ctx).tool_call_aggregator@, tc@))
        }),
        final(ctx).finish_reason == Some(FinishReason::Stop),
{
    ctx.finish_reason = Some(FinishReason::Stop);
    let m = conclude_request(ctx);
    let mut send: Vec<ChatMessageResponse> = Vec::new();
    send.push(m);
    StreamReply { send, stop: true }
}

/// One JSON event of the stream, with what decoding it gave (the event, or
/// the decoder's message).  Metadata that does not decode and mentions
/// `OPENROUTER` is skipped; any other decoding failure, an event that
/// reports an error, and an event without a usable choice end the answer
/// with an error.  Otherwise the event is built into the context, its
/// message is sent when it shows anything, and a finish reason ends the
/// answer with the final message.
pub fn on_json(json: &str, parsed: Result<ModelResponse, String>, ctx: &mut ResponseContext) -> (r:
    StreamReply)
    ensures
        match parsed {
            Err(e) => if contains_seq(json@, "OPENROUTER"@) {
                !r.stop && r.send@.len() == 0
            } else {
                r.stop && r.send@.len() == 1 && is_failure(
                    r.send@[0],
                    ModelResponseErr::ParseErr(e),
                )
            },
            Ok(event) => match event.error {
                Some(e) => r.stop && r.send@.len() == 1 && is_failure(
                    r.send@[0],
                    ModelResponseErr::RequestErr(e),
                ),
                None => if event.choices@.len() == 0 {
                    r.stop && r.send@.len() == 1 && is_failure(
                        r.send@[0],
                        ModelResponseErr::NoChoiceErr,
                    )
                } else if event_fault(event) {
                    r.stop && r.send@.len() == 1 && (r.send@[0].error matches Some(
                        ModelResponseErr::ParseErr(m),
                    ) && m@ == "no message and no delta"@ && is_failure(
                        r.send@[0],
                        r.send@[0].error->0,
                    ))
                } else {
                    let msg = chosen_message(event);
                    let finishing = event.choices@[0].finish_reason is Some;
                    let shows = nonempty_opt(shown_content(msg)) || nonempty_opt(
                        shown_thinking(msg),
                    ) || (!final(ctx).is_delta && final(ctx).tool_call_aggregator@.dom().len()
                        > 0);
                    &&& r.stop == finishing
                    &&& agg_view(final(ctx).tool_call_aggregator@) == absorbed(
                        agg_view(old(ctx).tool_call_aggregator@),
                        msg,
                    )
                    &&& final(ctx).finish_reason == event.choices@[0].finish_reason
                    &&& r.send@.len() == (if shows { 1int } else { 0 }) + (if finishing {
                        1int
                    } else {
                        0
                    })
                    &&& shows ==> ({
                        let m = r.send@[0];
                        &&& m.role@ == "assistant"@
                        &&& m.content == shown_content(msg)
                        &&& m.thinking == shown_thinking(msg)
                        &&& !m.done
                    })
                    &&& finishing ==> ({
                        let m = r.send@[r.send@.len() - 1];
                        &&& m.done
                        &&& opt_view(m.content) == merge_opt(
                            opt_view(old(ctx).aggregated.content),
                            opt_view(shown_content(msg)),
                        )
                        &&& opt_view(m.thinking) == merge_opt(
                            opt_view(old(ctx).aggregated.thinking),
                            opt_view(shown_thinking(msg)),
                        )
                    })
                    &&& !finishing ==> ({
                        &&& opt_view(final(ctx).aggregated.content) == merge_opt(
                            opt_view(old(ctx).aggregated.content),
                            opt_view(shown_content(msg)),
                        )
                        &&& opt_view(final(ctx).aggregated.thinking) == merge_opt(
                            opt_view(old(ctx).aggregated.thinking),
                            opt_view(shown_thinking(msg)),
                        )
                    })
                }
            },
        },
{
    let event = match parsed {
        Err(e) => {
            if contains_str(json, "OPENROUTER") {
                return StreamReply { send: Vec::new(), stop: false };
            }
            return fail(ModelResponseErr::ParseErr(e));
        },
        Ok(event) => event,
    };
    if event.error.is_some() {
        let e = match event.error {
            Some(e) => e,
            None => String::new(),
        };
        return fail(ModelResponseErr::RequestErr(e));
    }
    let ghost ev = event;
    match process_model_response(event, ctx) {
        Err(e) => {
            return fail(e);
        },
        Ok(()) => {},
    }
    merge_context(ctx);
    let mut send: Vec<ChatMessageResponse> = Vec::new();
    if has_streamable_content(&ctx.new_message) {
        send.push(ctx.new_message.copy());
    }
    if ctx.finish_reason.is_some() {
        let m = conclude_request(ctx);
        send.push(m);
        return StreamReply { send, stop: true };
    }
    StreamReply { send, stop: false }
}

// ---------------------------------------------------------------------------
// Laws of tool-call aggregation
// ---------------------------------------------------------------------------

/// The fragments of `ts` that belong to call `i`, in order.
pub open spec fn for_call(ts: Seq<ToolCallView>, i: usize) -> Seq<ToolCallView>
    decreases ts.len(),
{
    if ts.len() == 0 {
        ts
    } else {
        let r = for_call(ts.drop_last(), i);
        if ts.last().index == Some(i) {
            r.push(ts.last())
        } else {
            r
        }
    }
}

/// The names of the fragments joined in order (`None` when none has one).
pub open spec fn joined_names(ts: Seq<ToolCallView>) -> Option<Seq<char>>
    decreases ts.len(),
{
    if ts.len() == 0 {
        None
    } else {
        merge_opt(joined_names(ts.drop_last()), ts.last().name)
    }
}

/// The arguments of the fragments joined in order (`None` when none has any).
pub open spec fn joined_arguments(ts: Seq<ToolCallView>) -> Option<Seq<char>>
    decreases ts.len(),
{
    if ts.len() == 0 {
        None
    } else {
        merge_opt(joined_arguments(ts.drop_last()), ts.last().arguments)
    }
}

/// Feeding fragments in two chunks aggregates as feeding them at once.
pub proof fn law_chunks_aggregate_alike(
    m: Map<usize, ToolCallView>,
    xs: Seq<ToolCallView>,
    ys: Seq<ToolCallView>,
)
    ensures
        absorb_all(m, xs + ys) == absorb_all(absorb_all(m, xs), ys),
    decreases ys.len(),
{
    if ys.len() == 0 {
        assert(xs + ys =~= xs);
    } else {
        law_chunks_aggregate_alike(m, xs, ys.drop_last());
        assert((xs + ys).drop_last() =~= xs + ys.drop_last());
        assert((xs + ys).last() == ys.last());
    }
}

/// Starting from nothing, a call is aggregated exactly when one of its
/// fragments came, and its name and arguments are those of its own
/// fragments joined in arrival order, however the fragments of other calls
/// are interleaved.
pub proof fn law_fragments_join_per_call(ts: Seq<ToolCallView>, i: usize)
    ensures
        absorb_all(Map::empty(), ts).contains_key(i) <==> for_call(ts, i).len() > 0,
        absorb_all(Map::empty(), ts).contains_key(i) ==> {
            &&& absorb_all(Map::empty(), ts)[i].name == joined_names(for_call(ts, i))
            &&& absorb_all(Map::empty(), ts)[i].arguments == joined_arguments(for_call(ts, i))
        },
    decreases ts.len(),
{
    if ts.len() > 0 {
        law_fragments_join_per_call(ts.drop_last(), i);
        let prev = absorb_all(Map::empty(), ts.drop_last());
        let t = ts.last();
        let f = for_call(ts, i);
        if t.index == Some(i) {
            assert(f.drop_last() == for_call(ts.drop_last(), i));
            assert(f.last() == t);
            if !prev.contains_key(i) {
                assert(for_call(ts.drop_last(), i).len() == 0);
                assert(joined_names(f.drop_last()) is None);
                assert(joined_arguments(f.drop_last()) is None);
            }
        }
    }
}

} // verus!
