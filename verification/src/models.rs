//! Conversation data: roles, context items, threads, tool calls and the
//! unified message format the model backends stream back.
use vstd::prelude::*;

verus! {

/// Who authored a context item.
#[derive(Debug, Clone, Copy, PartialEq, Eq, Structural)]
pub enum Role {
    System,
    User,
    Assistant,
    Tool,
}

/// The name a role is written with (`"user"`, `"system"`, ...).
pub open spec fn role_name(r: Role) -> Seq<char> {
    match r {
        Role::System => seq!['s', 'y', 's', 't', 'e', 'm'],
        Role::User => seq!['u', 's', 'e', 'r'],
        Role::Assistant => seq!['a', 's', 's', 'i', 's', 't', 'a', 'n', 't'],
        Role::Tool => seq!['t', 'o', 'o', 'l'],
    }
}

/// Builds a `String` from a character slice.
pub fn string_of(cs: &[char]) -> (r: String)
    ensures
        r@ == cs@,
{
    let mut v: Vec<char> = Vec::new();
    let mut i: usize = 0;
    while i < cs.len()
        invariant
            i <= cs@.len(),
            v@ == cs@.take(i as int),
        decreases cs.len() - i,
    {
        v.push(cs[i]);
        assert(cs@.take(i as int).push(cs@[i as int]) =~= cs@.take(i + 1));
        i = i + 1;
    }
    assert(cs@.take(cs@.len() as int) =~= cs@);
    crate::text::chars_to_string(&v)
}

impl Role {
    /// The role's name, as its `Display` writes it.
    pub fn to_string(&self) -> (r: String)
        ensures
            r@ == role_name(*self),
    {
        match self {
            Role::System => {
                let r = string_of(&['s', 'y', 's', 't', 'e', 'm']);
                assert(r@ =~= role_name(*self));
                r
            },
            Role::User => {
                let r = string_of(&['u', 's', 'e', 'r']);
                assert(r@ =~= role_name(*self));
                r
            },
            Role::Assistant => {
                let r = string_of(&['a', 's', 's', 'i', 's', 't', 'a', 'n', 't']);
                assert(r@ =~= role_name(*self));
                r
            },
            Role::Tool => {
                let r = string_of(&['t', 'o', 'o', 'l']);
                assert(r@ =~= role_name(*self));
                r
            },
        }
    }
}

/// The visual role of a message segment in the response area; consecutive
/// streaming chunks of the same kind are merged into one block.
#[derive(Debug, Clone, Copy, PartialEq, Eq, Structural)]
pub enum MessageKind {
    /// System prompt sent to the model.
    System,
    /// Text the user typed and submitted.
    User,
    /// Visible content returned by the assistant.
    AssistantContent,
    /// Internal thinking/reasoning trace.
    AssistantThinking,
    /// Tool call request or response payload.
    AssistantToolCall,
    /// Output from a slash-command.
    InfoCommandOutput,
    /// Error returned by the model backend.
    Error,
}

/// Copies an optional string.
pub fn clone_opt(s: &Option<String>) -> (r: Option<String>)
    ensures
        r == *s,
{
    match s {
        Some(x) => Some(x.clone()),
        None => None,
    }
}

/// The function part of a tool call: which tool, and its arguments as JSON text.
pub struct ToolCallRequestFunction {
    pub index: usize,
    pub name: String,
    pub arguments: String,
}

impl Clone for ToolCallRequestFunction {
    fn clone(&self) -> (r: Self)
        ensures
            r == *self,
    {
        ToolCallRequestFunction {
            index: self.index,
            name: self.name.clone(),
            arguments: self.arguments.clone(),
        }
    }
}

/// A tool call requested by the model.
pub struct ToolCallRequest {
    pub id: String,
    pub tool_type: Option<String>,
    pub function: ToolCallRequestFunction,
    pub error: Option<String>,
}

impl Clone for ToolCallRequest {
    fn clone(&self) -> (r: Self)
        ensures
            r == *self,
    {
        ToolCallRequest {
            id: self.id.clone(),
            tool_type: clone_opt(&self.tool_type),
            function: self.function.clone(),
            error: clone_opt(&self.error),
        }
    }
}

/// One line of a diff.
pub enum DiffLine {
    Context(String),
    Added(String),
    Removed(String),
}

impl Clone for DiffLine {
    fn clone(&self) -> (r: Self)
        ensures
            r == *self,
    {
        match self {
            DiffLine::Context(s) => DiffLine::Context(s.clone()),
            DiffLine::Added(s) => DiffLine::Added(s.clone()),
            DiffLine::Removed(s) => DiffLine::Removed(s.clone()),
        }
    }
}

/// A contiguous region of changed lines.
pub struct DiffHunk {
    /// 1-based starting line in the old file.
    pub old_start: usize,
    /// 1-based starting line in the new file.
    pub new_start: usize,
    pub lines: Vec<DiffLine>,
}

impl Clone for DiffHunk {
    fn clone(&self) -> (r: Self)
        ensures
            r.old_start == self.old_start,
            r.new_start == self.new_start,
            r.lines@ == self.lines@,
    {
        let lines = self.lines.clone();
        assert(lines@ =~= self.lines@);
        DiffHunk { old_start: self.old_start, new_start: self.new_start, lines }
    }
}

/// Data needed to render a file diff.
pub struct DiffViewData {
    pub file_path: String,
    pub hunks: Vec<DiffHunk>,
}

impl Clone for DiffViewData {
    fn clone(&self) -> (r: Self)
        ensures
            r.file_path == self.file_path,
            r.hunks@.len() == self.hunks@.len(),
    {
        let hunks = self.hunks.clone();
        DiffViewData { file_path: self.file_path.clone(), hunks }
    }
}

/// Kinds of structured output a tool can produce for the response area.
pub enum ToolStructuredOutput {
    DiffView(DiffViewData),
}

impl Clone for ToolStructuredOutput {
    fn clone(&self) -> (r: Self) {
        match self {
            ToolStructuredOutput::DiffView(d) => ToolStructuredOutput::DiffView(d.clone()),
        }
    }
}

/// A tool a model may call.
pub struct Tool {
    /// Always `function`.
    pub tool_type: String,
    pub function: ToolFunction,
}

/// What a model is told about a tool.
pub struct ToolFunction {
    pub name: String,
    pub description: String,
    /// JSON schema of the arguments, as JSON text.
    pub parameters: Option<String>,
    pub strict: Option<bool>,
}

/// The answer to a tool call.
pub struct ToolCallResponse {
    pub id: String,
    pub result: String,
    /// Structured output for rich rendering (display only).
    pub structured: Option<ToolStructuredOutput>,
}

impl Clone for ToolCallResponse {
    fn clone(&self) -> (r: Self)
        ensures
            r.id == self.id,
            r.result == self.result,
            r.structured is Some == self.structured is Some,
    {
        ToolCallResponse {
            id: self.id.clone(),
            result: self.result.clone(),
            structured: match &self.structured {
                Some(s) => Some(s.clone()),
                None => None,
            },
        }
    }
}

/// Name and description of a tool, for the system prompt.
pub struct ToolCatalogEntry {
    pub name: String,
    pub description: String,
}

/// What running a tool produced.
pub struct ToolResult {
    /// Plain text (always present, used for the model context).
    pub text: String,
    /// Structured output for rich rendering.
    pub structured: Option<ToolStructuredOutput>,
}

/// One entry of a conversation.
pub struct ContextItem {
    pub role: Role,
    pub content: Option<String>,
    pub response: Option<String>,
    pub tools: Option<Vec<ToolCallRequest>>,
    pub tool_response: Option<ToolCallResponse>,
}

/// Abstract value of a [`ContextItem`]: the tool response is kept as its id
/// and result text.
pub struct ContextItemView {
    pub role: Role,
    pub content: Option<Seq<char>>,
    pub response: Option<Seq<char>>,
    pub tools: Option<Seq<ToolCallRequest>>,
    pub tool_response: Option<(Seq<char>, Seq<char>)>,
}

pub open spec fn opt_view(s: Option<String>) -> Option<Seq<char>> {
    match s {
        Some(x) => Some(x@),
        None => None,
    }
}

impl View for ContextItem {
    type V = ContextItemView;

    open spec fn view(&self) -> ContextItemView {
        ContextItemView {
            role: self.role,
            content: opt_view(self.content),
            response: opt_view(self.response),
            tools: match self.tools {
                Some(t) => Some(t@),
                None => None,
            },
            tool_response: match self.tool_response {
                Some(t) => Some((t.id@, t.result@)),
                None => None,
            },
        }
    }
}

impl Clone for ContextItem {
    fn clone(&self) -> (r: Self)
        ensures
            r@ == self@,
    {
        ContextItem {
            role: self.role,
            content: clone_opt(&self.content),
            response: clone_opt(&self.response),
            tools: match &self.tools {
                Some(t) => {
                    let c = t.clone();
                    assert(c@ =~= t@);
                    Some(c)
                },
                None => None,
            },
            tool_response: match &self.tool_response {
                Some(t) => Some(t.clone()),
                None => None,
            },
        }
    }
}

impl ContextItem {
    pub fn new(role: Role, content: Option<String>) -> (r: Self)
        ensures
            r.role == role,
            r.content == content,
            r.response is None,
            r.tools is None,
            r.tool_response is None,
    {
        ContextItem { role, content, response: None, tools: None, tool_response: None }
    }

    pub fn user(content: String) -> (r: Self)
        ensures
            r == ContextItem::new_spec(Role::User, Some(content)),
    {
        ContextItem::new(Role::User, Some(content))
    }

    pub fn tool_request(tools: Vec<ToolCallRequest>) -> (r: Self)
        ensures
            r == (ContextItem { tools: Some(tools), ..ContextItem::new_spec(Role::Assistant, None) }),
    {
        ContextItem::new(Role::Assistant, None).with_tools_req(tools)
    }

    pub fn system(content: String) -> (r: Self)
        ensures
            r == ContextItem::new_spec(Role::System, Some(content)),
    {
        ContextItem::new(Role::System, Some(content))
    }

    pub fn assistant(response: String) -> (r: Self)
        ensures
            r == (ContextItem {
                response: Some(response),
                ..ContextItem::new_spec(Role::Assistant, None)
            }),
    {
        ContextItem::new(Role::Assistant, None).with_response(response)
    }

    pub fn tool_response(tool_response: ToolCallResponse) -> (r: Self)
        ensures
            r == (ContextItem {
                tool_response: Some(tool_response),
                ..ContextItem::new_spec(Role::Tool, None)
            }),
    {
        ContextItem::new(Role::Tool, None).with_tool_response(Some(tool_response))
    }

    pub open spec fn new_spec(role: Role, content: Option<String>) -> ContextItem {
        ContextItem { role, content, response: None, tools: None, tool_response: None }
    }

    fn with_tools_req(self, tools: Vec<ToolCallRequest>) -> (r: Self)
        ensures
            r == (ContextItem { tools: Some(tools), ..self }),
    {
        let mut s = self;
        s.tools = Some(tools);
        s
    }

    fn with_response(self, response: String) -> (r: Self)
        ensures
            r == (ContextItem { response: Some(response), ..self }),
    {
        let mut s = self;
        s.response = Some(response);
        s
    }

    fn with_tool_response(self, tool_response: Option<ToolCallResponse>) -> (r: Self)
        ensures
            r == (ContextItem { tool_response: tool_response, ..self }),
    {
        let mut s = self;
        s.tool_response = tool_response;
        s
    }
}

/// A conversation: an id and the context items in order.
pub struct Thread {
    pub id: String,
    pub context: Vec<ContextItem>,
}

/// The abstract values of a sequence of context items.
pub open spec fn items_view(s: Seq<ContextItem>) -> Seq<ContextItemView> {
    Seq::new(s.len(), |i: int| s[i]@)
}

/// Abstract value of a [`Thread`].
pub struct ThreadView {
    pub id: Seq<char>,
    pub context: Seq<ContextItemView>,
}

impl View for Thread {
    type V = ThreadView;

    open spec fn view(&self) -> ThreadView {
        ThreadView { id: self.id@, context: items_view(self.context@) }
    }
}

/// A copy of the context items.
fn clone_items(items: &Vec<ContextItem>) -> (r: Vec<ContextItem>)
    ensures
        items_view(r@) == items_view(items@),
{
    let mut out: Vec<ContextItem> = Vec::new();
    let mut i: usize = 0;
    while i < items.len()
        invariant
            i <= items@.len(),
            out@.len() == i,
            forall|j: int| 0 <= j < i ==> (#[trigger] out@[j])@ == items@[j]@,
        decreases items.len() - i,
    {
        out.push(items[i].clone());
        i = i + 1;
    }
    assert(items_view(out@) =~= items_view(items@));
    out
}

impl Clone for Thread {
    fn clone(&self) -> (r: Self)
        ensures
            r@ == self@,
    {
        Thread { id: self.id.clone(), context: clone_items(&self.context) }
    }
}

impl Thread {
    pub fn new(id: String) -> (r: Self)
        ensures
            r@.id == id@,
            r@.context.len() == 0,
    {
        Thread { context: Vec::new(), id }
    }

    /// A copy of the context items.
    pub fn get_context(&self) -> (r: Vec<ContextItem>)
        ensures
            items_view(r@) == self@.context,
    {
        clone_items(&self.context)
    }

    /// Appends an item at the end of the conversation.
    pub fn add_context(&mut self, item: ContextItem)
        ensures
            final(self)@.id == old(self)@.id,
            final(self)@.context == old(self)@.context.push(item@),
    {
        self.context.push(item);
        assert(items_view(self.context@) =~= items_view(old(self).context@).push(item@));
    }
}

/// Why a model response failed.
pub enum ModelResponseErr {
    RequestErr(String),
    ParseErr(String),
    NoChoiceErr,
    NotEndedRequest,
    ToolCallErr(String),
}

/// The text an error is shown with.
pub open spec fn err_text(e: ModelResponseErr) -> Seq<char> {
    match e {
        ModelResponseErr::RequestErr(s) => "request error: "@ + s@,
        ModelResponseErr::ParseErr(s) => "parse error: "@ + s@,
        ModelResponseErr::NoChoiceErr => "no choice in response"@,
        ModelResponseErr::NotEndedRequest => "request did not end"@,
        ModelResponseErr::ToolCallErr(s) => "tool call error: "@ + s@,
    }
}

impl ModelResponseErr {
    /// The error as text.
    pub fn to_text(&self) -> (r: String)
        ensures
            r@ == err_text(*self),
    {
        match self {
            ModelResponseErr::RequestErr(s) => {
                let mut t = String::from_str("request error: ");
                t.append(s.as_str());
                t
            },
            ModelResponseErr::ParseErr(s) => {
                let mut t = String::from_str("parse error: ");
                t.append(s.as_str());
                t
            },
            ModelResponseErr::NoChoiceErr => String::from_str("no choice in response"),
            ModelResponseErr::NotEndedRequest => String::from_str("request did not end"),
            ModelResponseErr::ToolCallErr(s) => {
                let mut t = String::from_str("tool call error: ");
                t.append(s.as_str());
                t
            },
        }
    }
}

/// Token counts a backend reported for a request.
#[derive(Clone, Copy, PartialEq, Eq, Structural)]
pub struct TokenUsage {
    pub prompt_tokens: Option<u64>,
    pub completion_tokens: Option<u64>,
    pub total_tokens: Option<u64>,
}

/// The unified message that backends stream to the application.
pub struct ChatMessageResponse {
    pub role: String,
    pub content: Option<String>,
    pub thinking: Option<String>,
    pub done: bool,
    pub tool_calls: Option<Vec<ToolCallRequest>>,
    pub error: Option<ModelResponseErr>,
    pub usage: Option<TokenUsage>,
}

impl ChatMessageResponse {
    /// A message with no content, not done, and no role.
    pub fn empty() -> (r: Self)
        ensures
            r.role@.len() == 0,
            r.content is None,
            r.thinking is None,
            !r.done,
            r.tool_calls is None,
            r.error is None,
            r.usage is None,
    {
        ChatMessageResponse {
            role: String::new(),
            content: None,
            thinking: None,
            done: false,
            tool_calls: None,
            error: None,
            usage: None,
        }
    }
}


impl Clone for ModelResponseErr {
    fn clone(&self) -> (r: Self)
        ensures
            r == *self,
    {
        match self {
            ModelResponseErr::RequestErr(s) => ModelResponseErr::RequestErr(s.clone()),
            ModelResponseErr::ParseErr(s) => ModelResponseErr::ParseErr(s.clone()),
            ModelResponseErr::NoChoiceErr => ModelResponseErr::NoChoiceErr,
            ModelResponseErr::NotEndedRequest => ModelResponseErr::NotEndedRequest,
            ModelResponseErr::ToolCallErr(s) => ModelResponseErr::ToolCallErr(s.clone()),
        }
    }
}

/// The tool calls an optional list holds.
pub open spec fn calls_opt_view(o: Option<Vec<ToolCallRequest>>) -> Option<Seq<ToolCallRequest>> {
    match o {
        Some(v) => Some(v@),
        None => None,
    }
}

/// Two messages agree field by field (tool calls by their contents).
pub open spec fn same_message(a: ChatMessageResponse, b: ChatMessageResponse) -> bool {
    &&& a.role == b.role
    &&& a.content == b.content
    &&& a.thinking == b.thinking
    &&& a.done == b.done
    &&& calls_opt_view(a.tool_calls) == calls_opt_view(b.tool_calls)
    &&& a.error == b.error
    &&& a.usage == b.usage
}

impl ChatMessageResponse {
    /// A copy of the message.
    pub fn copy(&self) -> (r: Self)
        ensures
            same_message(r, *self),
    {
        ChatMessageResponse {
            role: self.role.clone(),
            content: clone_opt(&self.content),
            thinking: clone_opt(&self.thinking),
            done: self.done,
            tool_calls: match &self.tool_calls {
                Some(t) => {
                    let c = t.clone();
                    assert(c@ =~= t@);
                    Some(c)
                },
                None => None,
            },
            error: match &self.error {
                Some(e) => Some(e.clone()),
                None => None,
            },
            usage: self.usage,
        }
    }

    /// The message a backend sends when it fails: done, with the error and
    /// nothing else.
    pub fn failure(err: ModelResponseErr) -> (r: Self)
        ensures
            r.role@.len() == 0,
            r.content is None,
            r.thinking is None,
            r.done,
            r.tool_calls is None,
            r.error == Some(err),
            r.usage is None,
    {
        let mut m = ChatMessageResponse::empty();
        m.done = true;
        m.error = Some(err);
        m
    }
}

} // verus!
