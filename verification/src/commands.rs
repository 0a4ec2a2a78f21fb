//! Slash commands: which command a name is, what running it does, and the
//! conversation tree the `/tree` command shows.
use vstd::prelude::*;

use crate::controller::{names_view, MessageController};
use crate::dialog::{FieldSchema, PromptSchema};
use crate::json::{json_compact, json_compact_text};
use crate::models::{items_view, role_name, ContextItem, ContextItemView, Role, Thread, ToolCallRequest};

verus! {

/// The commands the prompt knows.
#[derive(Debug, Clone, Copy, PartialEq, Eq, Structural)]
pub enum Command {
    Model,
    Tree,
    NewThread,
}

/// What the application does after a command.
pub enum CommandEffect {
    /// Nothing to do.
    NoEffect,
    /// Show the text in the response area.
    ResponseArea(String),
    /// Open a dialog; `action` says what its answer is for.
    OpenDialog { schema: PromptSchema, action: DialogAction },
    /// The thread was removed: start afresh.
    ClearThread,
}

/// What a dialog opened by a command is for.
#[derive(Debug, Clone, Copy, PartialEq, Eq, Structural)]
pub enum DialogAction {
    SelectModel,
}

/// The command a name stands for: `models`, `tree` or `new`.
pub fn parse_command(name: &str, args: &[String]) -> (r: Option<Command>)
    ensures
        name@ == "models"@ ==> r == Some(Command::Model),
        name@ == "tree"@ ==> r == Some(Command::Tree),
        name@ == "new"@ ==> r == Some(Command::NewThread),
        name@ != "models"@ && name@ != "tree"@ && name@ != "new"@ ==> r is None,
{
    proof {
        reveal_strlit("models");
        reveal_strlit("tree");
        reveal_strlit("new");
        assert("tree"@.len() == 4);
        assert("models"@.len() == 6);
        assert("new"@.len() == 3);
    }
    let n = String::from_str(name);
    if n == String::from_str("models") {
        Some(Command::Model)
    } else if n == String::from_str("tree") {
        Some(Command::Tree)
    } else if n == String::from_str("new") {
        Some(Command::NewThread)
    } else {
        None
    }
}

// ---------------------------------------------------------------------------
// The conversation tree
// ---------------------------------------------------------------------------

/// The lines one context item gives: `role: content` for system and user
/// items (a newline after each when `nl`), `Assistant: response` and one
/// `Tool Request: id - name - arguments` per call for assistant items, and
/// `Tool: id - result` for tool items.
pub open spec fn item_tree(it: ContextItemView, nl: bool) -> Seq<Seq<char>> {
    let end = if nl {
        "\n"@
    } else {
        ""@
    };
    match it.role {
        Role::System | Role::User => seq![
            role_name(it.role) + ": "@ + match it.content {
                Some(c) => c,
                None => "No content"@,
            } + end,
        ],
        Role::Assistant => seq![
            match it.response {
                Some(r) => "Assistant: "@ + r,
                None => "Assistant: No response"@,
            },
        ] + match it.tools {
            Some(ts) => Seq::new(
                ts.len(),
                |i: int|
                    "Tool Request: "@ + ts[i].id@ + " - "@ + ts[i].function.name@ + " - "@
                        + json_compact(ts[i].function.arguments@),
            ),
            None => Seq::empty(),
        },
        Role::Tool => seq![
            match it.tool_response {
                Some((id, res)) => "Tool: "@ + id + " - "@ + res,
                None => "Tool: No response"@,
            },
        ],
    }
}

/// The lines of a whole conversation, item after item.
pub open spec fn tree_lines(ctx: Seq<ContextItemView>, nl: bool) -> Seq<Seq<char>>
    decreases ctx.len(),
{
    if ctx.len() == 0 {
        Seq::empty()
    } else {
        tree_lines(ctx.drop_last(), nl) + item_tree(ctx.last(), nl)
    }
}

pub open spec fn strings_of(v: Seq<String>) -> Seq<Seq<char>> {
    Seq::new(v.len(), |i: int| v[i]@)
}

fn push_item_tree(it: &ContextItem, nl: bool, out: &mut Vec<String>)
    ensures
        strings_of(final(out)@) == strings_of(old(out)@) + item_tree(it@, nl),
{
    let ghost start = strings_of(out@);
    match it.role {
        Role::System | Role::User => {
            let mut s = it.role.to_string();
            s.append(": ");
            match &it.content {
                Some(c) => s.append(c.as_str()),
                None => s.append("No content"),
            }
            if nl {
                s.append("\n");
            } else {
                s.append("");
            }
            out.push(s);
            assert(strings_of(out@) =~= start + item_tree(it@, nl));
        },
        Role::Assistant => {
            let s = match &it.response {
                Some(r) => {
                    let mut s = String::from_str("Assistant: ");
                    s.append(r.as_str());
                    s
                },
                None => String::from_str("Assistant: No response"),
            };
            out.push(s);
            let ghost first = strings_of(out@);
            match &it.tools {
                Some(ts) => {
                    let ghost want = Seq::new(
                        ts@.len(),
                        |i: int|
                            "Tool Request: "@ + ts@[i].id@ + " - "@ + ts@[i].function.name@ + " - "@
                                + json_compact(ts@[i].function.arguments@),
                    );
                    let mut i: usize = 0;
                    while i < ts.len()
                        invariant
                            i <= ts@.len(),
                            want.len() == ts@.len(),
                            forall|k: int|
                                0 <= k < ts@.len() ==> #[trigger] want[k] == "Tool Request: "@
                                    + ts@[k].id@ + " - "@ + ts@[k].function.name@ + " - "@
                                    + json_compact(ts@[k].function.arguments@),
                            strings_of(out@) == first + want.take(i as int),
                        decreases ts.len() - i,
                    {
                        let t = &ts[i];
                        let mut line = String::from_str("Tool Request: ");
                        line.append(t.id.as_str());
                        line.append(" - ");
                        line.append(t.function.name.as_str());
                        line.append(" - ");
                        line.append(json_compact_text(t.function.arguments.as_str()).as_str());
                        let ghost before = out@;
                        out.push(line);
                        assert(strings_of(out@) =~= strings_of(before).push(want[i as int]));
                        assert(want.take(i + 1) =~= want.take(i as int).push(want[i as int]));
                        i = i + 1;
                    }
                    assert(want.take(i as int) =~= want);
                    assert(strings_of(out@) =~= start + item_tree(it@, nl));
                },
                None => {
                    assert(strings_of(out@) =~= start + item_tree(it@, nl));
                },
            }
        },
        Role::Tool => {
            let s = match &it.tool_response {
                Some(r) => {
                    let mut s = String::from_str("Tool: ");
                    s.append(r.id.as_str());
                    s.append(" - ");
                    s.append(r.result.as_str());
                    s
                },
                None => String::from_str("Tool: No response"),
            };
            out.push(s);
            assert(strings_of(out@) =~= start + item_tree(it@, nl));
        },
    }
}

fn tree_of(thread: &Thread, nl: bool) -> (r: Vec<String>)
    ensures
        strings_of(r@) == tree_lines(thread@.context, nl),
{
    let mut out: Vec<String> = Vec::new();
    let mut i: usize = 0;
    while i < thread.context.len()
        invariant
            i <= thread.context@.len(),
            strings_of(out@) == tree_lines(items_view(thread.context@).take(i as int), nl),
        decreases thread.context.len() - i,
    {
        let ghost ctx = items_view(thread.context@);
        assert(ctx.take(i + 1).drop_last() =~= ctx.take(i as int));
        assert(ctx.take(i + 1).last() == thread.context@[i as int]@);
        push_item_tree(&thread.context[i], nl, &mut out);
        i = i + 1;
    }
    assert(items_view(thread.context@).take(i as int) =~= items_view(thread.context@));
    out
}

/// The conversation as lines, for the `/tree` command.
pub fn render_tree(thread: &Thread) -> (r: Vec<String>)
    ensures
        strings_of(r@) == tree_lines(thread@.context, true),
{
    tree_of(thread, true)
}

/// The kinds of command.
#[derive(Debug, Clone, Copy, PartialEq, Eq, Structural)]
pub enum CommandType {
    ContextChanger,
    UserPrompt,
    Info,
}

/// A question a command asks, with its choices.
pub struct CommandPrompt {
    pub prompt: String,
    pub choices: Vec<String>,
}

/// The `tree` command: shows the conversation.
pub struct TreeCommand {
    command_type: CommandType,
}

impl TreeCommand {
    pub fn new() -> (r: Self)
        ensures
            r.command_type_spec() == CommandType::Info,
    {
        TreeCommand { command_type: CommandType::Info }
    }

    pub closed spec fn command_type_spec(&self) -> CommandType {
        self.command_type
    }

    pub fn name(&self) -> (r: &'static str)
        ensures
            r@ == "tree"@,
    {
        "tree"
    }

    pub fn command_type(&self) -> (r: CommandType)
        ensures
            r == self.command_type_spec(),
    {
        self.command_type
    }

    /// The conversation as lines (without a newline after system and user
    /// lines).
    pub fn process(&self, thread: &Thread) -> (r: Vec<String>)
        ensures
            strings_of(r@) == tree_lines(thread@.context, false),
    {
        tree_of(thread, false)
    }
}

/// The model field of the model dialog, offering `names`.
pub open spec fn model_field(f: FieldSchema, names: Seq<Seq<char>>) -> bool {
    f matches FieldSchema::SingleChoice { id, label, options, default } && id@ == "model"@ && label@
        == "Model"@ && names_view(options@) == names && default is None
}

/// Runs a command: `/models` opens the model dialog with every registered
/// model, `/tree` shows the current thread (when it exists), and `/new`
/// removes the current thread.
pub fn handle_command(
    controller: &mut MessageController,
    current_thread: usize,
    command: Command,
) -> (r: CommandEffect)
    requires
        old(controller).wf(),
    ensures
        final(controller).wf(),
        command == Command::Model ==> (r matches CommandEffect::OpenDialog { schema, action }
            && action == DialogAction::SelectModel && schema.title@ == "Select a model"@
            && schema.description is None && schema.fields@.len() == 1 && model_field(
            schema.fields@[0],
            names_view(old(controller).models@),
        )),
        command == Command::Model ==> final(controller).threads@ == old(controller).threads@,
        command == Command::Tree ==> final(controller).threads@ == old(controller).threads@ && (
        if old(controller).threads@.contains_key(current_thread) {
            r matches CommandEffect::ResponseArea(t) && t@ == crate::text::join_with(
                tree_lines(old(controller).threads@[current_thread]@.context, true),
                '\n',
            )
        } else {
            r is NoEffect
        }),
        command == Command::NewThread ==> r is ClearThread && final(controller).threads@ == old(
            controller,
        ).threads@.remove(current_thread),
        final(controller).models == old(controller).models,
        final(controller).current_model == old(controller).current_model,
        final(controller).next_id() == old(controller).next_id(),
{
    match command {
        Command::Model => {
            let names = controller.get_model_names();
            let schema = PromptSchema::new(String::from_str("Select a model")).with_field(
                FieldSchema::single_choice(String::from_str("model"), String::from_str("Model"), names),
            );
            assert(schema.fields@.len() == 1);
            CommandEffect::OpenDialog { schema, action: DialogAction::SelectModel }
        },
        Command::Tree => {
            match controller.get_thread(current_thread) {
                Some(thread) => {
                    let lines = render_tree(thread);
                    let text = crate::tools::join_lines(&lines);
                    assert(Seq::new(lines@.len(), |i: int| lines@[i]@) =~= strings_of(lines@));
                    CommandEffect::ResponseArea(text)
                },
                None => CommandEffect::NoEffect,
            }
        },
        Command::NewThread => {
            controller.remove_thread(current_thread);
            CommandEffect::ClearThread
        },
    }
}

} // verus!
