//! The application's decisions: what each terminal event, model response
//! and monitor reading does to the panels, the conversation and the
//! profile, and what the event loop has to do next (draw, quit, read the
//! clipboard, start a generation, run tools).
use vstd::prelude::*;

use crate::blocks::{
    assistant_block, command_block, error_block, is_assistant_block, is_command_block,
    is_error_block, is_thinking_block, is_tool_block, is_user_block, thinking_block, tool_block,
    user_block, ResponseBlock,
};
use crate::commands::{handle_command, model_field, parse_command, tree_lines, CommandEffect, DialogAction};
use crate::controller::{item_added, names_view, MessageController};
use crate::dialog::{
    first_with_id, is_submit_key, responses_view, FieldResponse, FieldResponseView, PromptDialogController,
    PromptDialogEvent, PromptDialogResponse,
};
use crate::groq::{groq_model_id, GroqBase, GroqModel};
use crate::keys::{InputEvent, KeyCode, KeyEvent};
use crate::models::{
    err_text, ChatMessageResponse, ContextItem, ContextItemView, Role, Thread, ToolCallRequest,
    ToolCallResponse,
};
use crate::text::{all_ws, join_with};
use crate::ollama::GEMMA4Model;
use crate::openrouter::{openrouter_model_id, OpenRouterBase, OpenRouterModel};
use crate::profile::{ProfileDefaults, SettingsRead, UserProfile};
use crate::prompt::{submit_result, PromptEvent};
use crate::prompt_controller::{
    key_route, paste_ok, pasted, route_ok, routed, KeyRoute, PromptAction, PromptController,
};
use crate::response_area::{block_added, AreaView, ResponseAreaController};
use crate::status::{gpu_summary, StatusLineController, StatusView};

verus! {

/// Which panel receives keys.
#[derive(Debug, Clone, Copy, PartialEq, Eq, Structural)]
pub enum FocusedPanel {
    Prompt,
    Response,
}

/// Why the application could not start.
pub enum AppError {
    ModelRegisterationError(String),
}

/// What the event loop does next.
pub enum AppAction {
    /// Nothing to draw.
    Idle,
    /// Draw the screen.
    Redraw,
    /// Save the profile and stop.
    Quit,
    /// Read the system clipboard and hand its text to [`App::paste`].
    ReadClipboard,
    /// Start a generation of `model` on this copy of the thread, then draw.
    Generate { model: String, thread: Thread },
    /// Run these tool calls; show them with [`App::show_tool_calls`], record
    /// each answer with [`App::record_tool_response`], start the follow-up
    /// generation with [`App::generation`], then finish the response with
    /// [`App::finish_response`].
    RunTools(Vec<ToolCallRequest>),
}

/// The application state.
pub struct App {
    pub config_base_path: String,
    pub name: String,
    pub version: String,
    pub prompt: PromptController,
    pub controller: MessageController,
    pub response_area_controller: ResponseAreaController,
    pub status_line: StatusLineController,
    pub focused: FocusedPanel,
    /// When `Some`, a dialog is open and takes every key; the action says
    /// what its answer is for.
    pub dialog: Option<(PromptDialogController, DialogAction)>,
    pub user_profile: UserProfile,
    pub current_thread_id: usize,
    /// The system prompt a fresh thread starts with.
    pub system_prompt: String,
}

/// The model the profile falls back to when its settings file is corrupt.
pub open spec fn default_model() -> Seq<char> {
    "gpt-oss-120b"@
}

/// Ctrl+D (other modifiers allowed) quits.
pub open spec fn is_quit_spec(e: InputEvent) -> bool {
    e matches InputEvent::Key(k) && k.code == KeyCode::Char('d') && k.modifiers.control
}

/// Whether the event asks to quit.
pub fn is_quit(event: &InputEvent) -> (r: bool)
    ensures
        r == is_quit_spec(*event),
{
    match event {
        InputEvent::Key(k) => k.code == KeyCode::Char('d') && k.modifiers.control,
        _ => false,
    }
}

/// `names` with `n` added at the end unless it is there already.
pub open spec fn with_name(names: Seq<Seq<char>>, n: Seq<char>) -> Seq<Seq<char>> {
    if names.contains(n) {
        names
    } else {
        names.push(n)
    }
}

/// The names of the models the application offers, in registration order.
pub open spec fn builtin_models() -> Seq<Seq<char>> {
    seq![
        "gemma4"@,
        groq_model_id(GroqModel::GptOss120B),
        openrouter_model_id(OpenRouterModel::DeepSeekR1),
    ]
}

/// Registers the local Gemma 4 model, Groq's GPT-OSS 120B and OpenRouter's
/// DeepSeek R1.
pub fn register_models(controller: &mut MessageController) -> (r: Result<(), AppError>)
    requires
        old(controller).wf(),
    ensures
        r is Ok,
        final(controller).wf(),
        names_view(final(controller).models@) == with_name(
            with_name(with_name(names_view(old(controller).models@), builtin_models()[0]), builtin_models()[1]),
            builtin_models()[2],
        ),
        old(controller).current_model is None ==> (final(controller).current_model matches Some(m)
            && m@ == builtin_models()[0]),
        old(controller).current_model is Some ==> final(controller).current_model == old(controller).current_model,
        final(controller).threads@ == old(controller).threads@,
        final(controller).next_id() == old(controller).next_id(),
{
    let gemma4_model = GEMMA4Model;
    controller.register_model(String::from_str(gemma4_model.name()));
    let groq_model = GroqBase::new(GroqModel::GptOss120B, String::new());
    controller.register_model(String::from_str(groq_model.name()));
    let openrouter_model = OpenRouterBase::new(OpenRouterModel::DeepSeekR1, String::new());
    controller.register_model(String::from_str(openrouter_model.name()));
    Ok(())
}

impl App {
    /// Every part is well formed, an open dialog has a field, the model in
    /// use is registered and the current thread exists.
    pub open spec fn wf(&self) -> bool {
        &&& self.prompt.wf()
        &&& self.controller.wf()
        &&& self.response_area_controller@.wf()
        &&& (self.dialog matches Some((d, a)) ==> d@.wf() && d@.fields.len() > 0)
        &&& (self.controller.current_model matches Some(m) && names_view(
            self.controller.models@,
        ).contains(m@))
        &&& self.controller.threads@.contains_key(self.current_thread_id)
    }

    /// The state before [`App::start`]: no model, no thread, nothing open.
    pub open spec fn fresh(&self) -> bool {
        &&& self.prompt.wf()
        &&& self.controller.wf()
        &&& self.response_area_controller@.wf()
        &&& self.dialog is None
        &&& self.controller.models@.len() == 0
        &&& self.controller.current_model is None
        &&& self.controller.threads@.dom().len() == 0
        &&& self.controller.next_id() == 0
    }

    /// The events whose handling can run: a key for an open dialog must leave
    /// room in its focused text field, a key for the focused prompt must
    /// meet [`route_ok`], a paste [`paste_ok`]; every other event can.
    pub open spec fn input_ok(&self, e: InputEvent) -> bool {
        if is_quit_spec(e) {
            true
        } else if e is Key && self.dialog is Some {
            self.dialog->Some_0.0@.has_room(e->Key_0)
        } else if (e matches InputEvent::Key(k) && k.code == KeyCode::Tab) || self.focused
            == FocusedPanel::Response {
            true
        } else {
            match e {
                InputEvent::Key(k) => route_ok(self.prompt.content_spec(), key_route(k)),
                InputEvent::Paste(t) => paste_ok(self.prompt.content_spec(), t@),
                InputEvent::Other => true,
            }
        }
    }

    /// The application for a profile kept under `config_base_path`, with
    /// what reading its settings file gave.  A read or decode failure is
    /// returned; a corrupt file falls back to the default model.
    pub fn new(config_base_path: String, name: String, version: String, read: SettingsRead) -> (r:
        Result<App, String>)
        ensures
            match r {
                Ok(app) => app.fresh() && app.focused == FocusedPanel::Prompt
                    && app.prompt.focused_spec() && app.user_profile.path_spec()
                    == config_base_path@ && app.config_base_path == config_base_path
                    && app.name == name && app.version == version && match read {
                    SettingsRead::Parsed(s) => app.user_profile.model_spec() == s.model_spec(),
                    SettingsRead::Corrupt => app.user_profile.model_spec() == default_model(),
                    _ => app.user_profile.model_spec().len() == 0,
                },
                Err(e) => (read matches SettingsRead::Unreadable(x) && e == x) || (read matches SettingsRead::Failed(x) && e == x),
            },
            r is Err <==> (read is Unreadable || read is Failed),
    {
        let mut user_profile = UserProfile::new(config_base_path.clone());
        let defaults = ProfileDefaults { model: String::from_str("gpt-oss-120b") };
        proof {
            reveal_strlit("gpt-oss-120b");
        }
        match user_profile.fetch(read, defaults) {
            Err(e) => Err(e),
            Ok(()) => {
                let response_area_controller = ResponseAreaController::new();
                Ok(App {
                    config_base_path,
                    name,
                    version,
                    prompt: PromptController::new(),
                    controller: MessageController::new(),
                    response_area_controller,
                    status_line: StatusLineController::new(),
                    focused: FocusedPanel::Prompt,
                    dialog: None,
                    user_profile,
                    current_thread_id: 0,
                    system_prompt: String::new(),
                })
            },
        }
    }
    /// Registers the models, switches to the profile's model (an error when
    /// it is not one of them), shows its name, and opens the first thread
    /// with the system prompt.
    pub fn start(&mut self, system_prompt: String) -> (r: Result<(), String>)
        requires
            old(self).fresh(),
        ensures
            r is Ok <==> builtin_models().contains(old(self).user_profile.model_spec()),
            r matches Err(e) ==> e@ == "Model '"@ + old(self).user_profile.model_spec()
                + "' not found"@,
            r is Ok ==> {
                &&& final(self).wf()
                &&& names_view(final(self).controller.models@) == builtin_models()
                &&& final(self).controller.current_model matches Some(m) && m@ == old(
                    self,
                ).user_profile.model_spec()
                &&& final(self).status_line@.model_name == old(self).user_profile.model_spec()
                &&& final(self).controller.threads@.dom() == set![final(self).current_thread_id]
                &&& final(self).controller.threads@[final(self).current_thread_id]@.context
                    == seq![ContextItem::new_spec(Role::System, Some(system_prompt))@]
                &&& final(self).system_prompt == system_prompt
            },
            final(self).user_profile == old(self).user_profile,
            final(self).prompt == old(self).prompt,
            final(self).focused == old(self).focused,
            final(self).dialog is None,
            final(self).response_area_controller == old(self).response_area_controller,
    {
        proof {
            reveal_strlit("gemma4");
            reveal_strlit("openai/gpt-oss-120b");
            reveal_strlit("deepseek/deepseek-r1");
            assert(builtin_models()[0].len() == 6);
            assert(builtin_models()[1].len() == 19);
            assert(builtin_models()[2].len() == 20);
        }
        register_models(&mut self.controller);
        proof {
            let e = Seq::<Seq<char>>::empty();
            assert(!e.contains(builtin_models()[0]));
            assert(with_name(e, builtin_models()[0]) =~= seq![builtin_models()[0]]);
            assert(!seq![builtin_models()[0]].contains(builtin_models()[1]));
            assert(with_name(seq![builtin_models()[0]], builtin_models()[1]) =~= seq![
                builtin_models()[0],
                builtin_models()[1],
            ]);
            assert(!seq![builtin_models()[0], builtin_models()[1]].contains(builtin_models()[2]));
            assert(names_view(self.controller.models@) =~= builtin_models());
        }
        let m = self.user_profile.get_model();
        match self.controller.set_current_model(m) {
            Err(e) => {
                return Err(e);
            },
            Ok(()) => {},
        }
        match self.controller.current_model_name() {
            Some(name) => {
                self.status_line.set_model_name(String::from_str(name));
            },
            None => {},
        }
        let tid = self.controller.new_thread();
        self.current_thread_id = tid;
        self.controller.set_system(tid, system_prompt.clone());
        self.system_prompt = system_prompt;
        proof {
            assert(self.controller.threads@.dom() =~= set![tid]);
        }
        Ok(())
    }

    /// Tab: the other panel takes the keys.
    pub fn handle_focus_change(&mut self)
        requires
            old(self).wf(),
        ensures
            final(self).wf(),
            final(self).focused == (if old(self).focused == FocusedPanel::Prompt {
                FocusedPanel::Response
            } else {
                FocusedPanel::Prompt
            }),
            final(self).prompt.focused_spec() == (final(self).focused == FocusedPanel::Prompt),
            final(self).prompt.content_spec() == old(self).prompt.content_spec(),
            final(self).response_area_controller@ == (AreaView {
                focused: final(self).focused == FocusedPanel::Response,
                ..old(self).response_area_controller@
            }),
            final(self).controller == old(self).controller,
            final(self).dialog == old(self).dialog,
            final(self).user_profile == old(self).user_profile,
            final(self).status_line == old(self).status_line,
            final(self).current_thread_id == old(self).current_thread_id,
    {
        match self.focused {
            FocusedPanel::Prompt => {
                self.focused = FocusedPanel::Response;
                self.prompt.set_focus(false);
                self.response_area_controller.set_focus(true);
            },
            FocusedPanel::Response => {
                self.focused = FocusedPanel::Prompt;
                self.prompt.set_focus(true);
                self.response_area_controller.set_focus(false);
            },
        }
    }

    /// Applies the answer of a dialog: for the model dialog, switches to
    /// the chosen model, shows and remembers its name, and says so.
    pub fn handle_dialog_submit(&mut self, resp: PromptDialogResponse, action: DialogAction)
        requires
            old(self).wf(),
        ensures
            final(self).wf(),
            final(self).dialog == old(self).dialog,
            dialog_answer_applied(*old(self), *final(self), chosen_model(resp.fields@)),
    {
        match action {
            DialogAction::SelectModel => {
                let ghost fields = resp.fields@;
                match resp.get("model") {
                    Some(FieldResponse::SingleChoice { value, .. }) => {
                        proof {
                            lemma_first_unique(fields, "model"@);
                        }
                        let name = value.clone();
                        let _ = self.controller.set_current_model(name.clone());
                        self.status_line.set_model_name(name.clone());
                        self.user_profile.set_model(name.clone());
                        let mut text = String::from_str("Switched to ");
                        text.append(name.as_str());
                        let b = command_block(text);
                        proof {
                            let k = choose|k: int| first_with_id(fields, "model"@, k);
                            assert(first_with_id(fields, "model"@, k));
                            assert(chosen_model(fields) == Some(name@));
                        }
                        self.response_area_controller.add_block(b);
                        assert(is_command_block(b, "Switched to "@ + name@));
                    },
                    _ => {
                        proof {
                            lemma_first_unique(fields, "model"@);
                        }
                    },
                }
            },
        }
    }

    /// Acts on what the prompt produced: a command runs, a message is shown,
    /// added to the conversation and answered by a generation of the model
    /// in use.
    pub fn handle_prompt_event(&mut self, event: PromptEvent) -> (r: AppAction)
        requires
            old(self).wf(),
            old(self).controller.next_id() < usize::MAX,
        ensures
            final(self).wf(),
            final(self).prompt == old(self).prompt,
            final(self).focused == old(self).focused,
            final(self).user_profile == old(self).user_profile,
            final(self).status_line == old(self).status_line,
            final(self).controller.models == old(self).controller.models,
            final(self).controller.current_model == old(self).controller.current_model,
            prompt_event_done(*old(self), *final(self), event, r),
    {
        match event {
            PromptEvent::Command { name, args } => {
                match parse_command(name.as_str(), args.as_slice()) {
                    Some(cmd) => {
                        let effect = handle_command(&mut self.controller, self.current_thread_id, cmd);
                        match effect {
                            CommandEffect::NoEffect => {},
                            CommandEffect::ResponseArea(text) => {
                                let b = command_block(text);
                                self.response_area_controller.add_block(b);
                            },
                            CommandEffect::OpenDialog { schema, action } => {
                                self.dialog = Some((PromptDialogController::new(schema), action));
                            },
                            CommandEffect::ClearThread => {
                                self.response_area_controller.clear();
                                let ghost before = self.controller.threads@;
                                let tid = self.controller.new_thread();
                                let ghost mid = self.controller.threads@;
                                self.current_thread_id = tid;
                                let sp = self.system_prompt.clone();
                                assert(sp@ == self.system_prompt@);
                                self.controller.set_system(tid, sp);
                                proof {
                                    assert(mid[tid]@.context.len() == 0);
                                    assert(self.controller.threads@[tid]@.context =~= seq![
                                        ContextItem::new_spec(Role::System, Some(old(self).system_prompt))@,
                                    ]);
                                    assert forall|k: usize|
                                        k != old(self).current_thread_id
                                            && #[trigger] old(self).controller.threads@.contains_key(k)
                                        implies self.controller.threads@[k]
                                        == old(self).controller.threads@[k] by {
                                        assert(k < old(self).controller.next_id());
                                        assert(before == old(self).controller.threads@.remove(
                                            old(self).current_thread_id,
                                        ));
                                        assert(before.contains_key(k));
                                        assert(k != tid);
                                        assert(mid[k] == before[k]);
                                        assert(mid.contains_key(k));
                                        assert(self.controller.threads@[k] == mid[k]);
                                    }
                                }
                            },
                        }
                    },
                    None => {},
                }
                AppAction::Redraw
            },
            PromptEvent::Submitted(text) => {
                let b = user_block(text.clone());
                let ghost o = *self;
                assert(o == *old(self));
                self.response_area_controller.add_block(b);
                assert(is_user_block(b, text@));
                assert(block_added(o.response_area_controller@, self.response_area_controller@, b));
                let tid = self.current_thread_id;
                self.controller.set_prompt(tid, text);
                assert(ContextItem::new_spec(Role::User, Some(text))@ == (ContextItemView {
                    role: Role::User,
                    content: Some(text@),
                    response: None,
                    tools: None,
                    tool_response: None,
                }));
                let r = self.generation();
                assert(prompt_sent(o, *self, text@, r));
                r
            },
            PromptEvent::Cancel => AppAction::Redraw,
        }
    }

    /// The generation to start: the model in use on a copy of the current
    /// thread.
    pub fn generation(&self) -> (r: AppAction)
        requires
            self.wf(),
        ensures
            r matches AppAction::Generate { model, thread } && self.controller.current_model
                matches Some(m) && model@ == m@ && thread@
                == self.controller.threads@[self.current_thread_id]@,
    {
        let model = match self.controller.current_model_name() {
            Some(m) => String::from_str(m),
            None => String::new(),
        };
        let (_known, thread) = self.controller.prepare_call(self.current_thread_id, model.as_str());
        match thread {
            Some(t) => AppAction::Generate { model, thread: t },
            None => AppAction::Idle,
        }
    }

    /// Whether handling `event` can run (see [`App::input_ok`]).
    pub fn accepts(&self, event: &InputEvent) -> (r: bool)
        requires
            self.wf(),
        ensures
            r == self.input_ok(*event),
    {
        if is_quit(event) {
            return true;
        }
        match event {
            InputEvent::Key(k) => {
                match &self.dialog {
                    Some((d, _)) => {
                        return d.has_room_for(*k);
                    },
                    None => {},
                }
                if k.code == KeyCode::Tab {
                    return true;
                }
            },
            _ => {},
        }
        match self.focused {
            FocusedPanel::Response => true,
            FocusedPanel::Prompt => self.prompt.accepts(event),
        }
    }

    /// Pastes the clipboard's text into the prompt.
    pub fn paste(&mut self, text: &str) -> (r: AppAction)
        requires
            old(self).wf(),
            paste_ok(old(self).prompt.content_spec(), text@),
        ensures
            final(self).wf(),
            r is Redraw,
            final(self).prompt.content_spec() == pasted(old(self).prompt.content_spec(), text@),
            final(self).prompt.focused_spec() == old(self).prompt.focused_spec(),
            final(self).controller == old(self).controller,
            final(self).response_area_controller == old(self).response_area_controller,
            final(self).dialog == old(self).dialog,
            final(self).focused == old(self).focused,
    {
        self.prompt.paste(text);
        AppAction::Redraw
    }

    /// Handles a terminal event: Ctrl+D quits; an open dialog takes every
    /// key (its answer is applied, Esc closes it); Tab moves the focus; any
    /// other event goes to the focused panel, and what the prompt produces
    /// is acted on.
    pub fn on_input(&mut self, event: InputEvent) -> (r: AppAction)
        requires
            old(self).wf(),
            old(self).input_ok(event),
            old(self).controller.next_id() < usize::MAX,
        ensures
            final(self).wf(),
            is_quit_spec(event) ==> r is Quit && *final(self) == *old(self),
            !is_quit_spec(event) && event is Key && old(self).dialog is Some ==> {
                let k = event->Key_0;
                let (d, a) = old(self).dialog->Some_0;
                &&& r is Redraw
                &&& final(self).prompt == old(self).prompt
                &&& final(self).focused == old(self).focused
                &&& final(self).current_thread_id == old(self).current_thread_id
                &&& (k.code == KeyCode::Esc || is_submit_key(k)) ==> final(self).dialog is None
                &&& (k.code != KeyCode::Esc && is_submit_key(k)) ==> dialog_answer_applied(
                    *old(self),
                    *final(self),
                    chosen_model_of(d@.responses()),
                )
                &&& k.code == KeyCode::Esc ==> final(self).controller == old(self).controller
                    && final(self).response_area_controller == old(self).response_area_controller
                    && final(self).user_profile == old(self).user_profile
                &&& !(k.code == KeyCode::Esc || is_submit_key(k)) ==> {
                    &&& final(self).dialog matches Some((d2, a2)) && a2 == a && d2@ == if k.code
                        == KeyCode::Tab {
                        d@.next_field()
                    } else if k.code == KeyCode::BackTab {
                        d@.prev_field()
                    } else {
                        d@.field_key(k)
                    }
                    &&& final(self).controller == old(self).controller
                    &&& final(self).response_area_controller == old(self).response_area_controller
                }
            },
            !is_quit_spec(event) && old(self).dialog is None && (event matches InputEvent::Key(k)
                && k.code == KeyCode::Tab) ==> {
                &&& r is Redraw
                &&& final(self).focused == (if old(self).focused == FocusedPanel::Prompt {
                    FocusedPanel::Response
                } else {
                    FocusedPanel::Prompt
                })
                &&& final(self).prompt.focused_spec() == (final(self).focused == FocusedPanel::Prompt)
                &&& final(self).prompt.content_spec() == old(self).prompt.content_spec()
                &&& final(self).response_area_controller@ == (AreaView {
                    focused: final(self).focused == FocusedPanel::Response,
                    ..old(self).response_area_controller@
                })
                &&& final(self).controller == old(self).controller
            },
            !is_quit_spec(event) && !(event is Key && old(self).dialog is Some) && !(
            event matches InputEvent::Key(k) && k.code == KeyCode::Tab) ==> {
                &&& final(self).focused == old(self).focused
                &&& old(self).focused == FocusedPanel::Response ==> {
                    &&& r is Redraw
                    &&& final(self).prompt == old(self).prompt
                    &&& final(self).controller == old(self).controller
                    &&& final(self).dialog == old(self).dialog
                    &&& match event {
                        InputEvent::Key(k) => final(self).response_area_controller@
                            == old(self).response_area_controller@.after_key(k).0,
                        _ => final(self).response_area_controller == old(
                            self,
                        ).response_area_controller,
                    }
                }
                &&& old(self).focused == FocusedPanel::Prompt ==> prompt_input_done(
                    *old(self),
                    *final(self),
                    event,
                    r,
                )
            },
    {
        if is_quit(&event) {
            return AppAction::Quit;
        }
        let ghost o = *self;
        let mut close = false;
        let mut submitted: Option<(PromptDialogResponse, DialogAction)> = None;
        let mut dialog_key = false;
        match (&event, &mut self.dialog) {
            (InputEvent::Key(k), Some((dialog, action))) => {
                dialog_key = true;
                match dialog.handle_key(*k) {
                    Some(PromptDialogEvent::Submitted(resp)) => {
                        submitted = Some((resp, *action));
                        close = true;
                    },
                    Some(PromptDialogEvent::Cancelled) => {
                        close = true;
                    },
                    None => {},
                }
            },
            _ => {},
        }
        if dialog_key {
            if close {
                self.dialog = None;
            }
            match submitted {
                Some((resp, action)) => {
                    proof {
                        lemma_chosen_model_view(resp.fields@);
                    }
                    self.handle_dialog_submit(resp, action);
                },
                None => {},
            }
            return AppAction::Redraw;
        }
        match &event {
            InputEvent::Key(k) => {
                if k.code == KeyCode::Tab {
                    self.handle_focus_change();
                    return AppAction::Redraw;
                }
            },
            _ => {},
        }
        match self.focused {
            FocusedPanel::Response => {
                match event {
                    InputEvent::Key(k) => {
                        self.response_area_controller.handle_key_event(k);
                    },
                    _ => {},
                }
                AppAction::Redraw
            },
            FocusedPanel::Prompt => {
                let action = self.prompt.handle_event(&event);
                let ghost mid = *self;
                match action {
                    PromptAction::Emit(e) => {
                        let r = self.handle_prompt_event(e);
                        match r {
                            AppAction::Generate { .. } => r,
                            _ => AppAction::Redraw,
                        }
                    },
                    PromptAction::ReadClipboard => AppAction::ReadClipboard,
                    PromptAction::Nothing => AppAction::Redraw,
                }
            },
        }
    }

    /// Acts on a message of the model: an error is shown; tool calls are
    /// added to the conversation and handed out to be run; any other message
    /// goes on to [`App::finish_response`].
    pub fn on_response(&mut self, resp: &ChatMessageResponse) -> (r: AppAction)
        requires
            old(self).wf(),
        ensures
            final(self).wf(),
            final(self).prompt == old(self).prompt,
            final(self).dialog == old(self).dialog,
            final(self).focused == old(self).focused,
            final(self).current_thread_id == old(self).current_thread_id,
            match resp.error {
                Some(e) => {
                    &&& r is Redraw
                    &&& final(self).controller == old(self).controller
                    &&& exists|b: ResponseBlock|
                        is_error_block(b, err_text(e)) && block_added(
                            old(self).response_area_controller@,
                            final(self).response_area_controller@,
                            b,
                        )
                },
                None => match resp.tool_calls {
                    Some(calls) => {
                        &&& r matches AppAction::RunTools(c) && c@ == calls@
                        &&& final(self).response_area_controller == old(self).response_area_controller
                        &&& item_added(
                            old(self).controller,
                            final(self).controller,
                            old(self).current_thread_id,
                            ContextItemView {
                                role: Role::Assistant,
                                content: None,
                                response: None,
                                tools: Some(calls@),
                                tool_response: None,
                            },
                        )
                    },
                    None => response_finished(*old(self), *final(self), *resp, r),
                },
            },
    {
        match &resp.error {
            Some(e) => {
                let b = error_block(e.to_text());
                let ghost o = *self;
                self.response_area_controller.add_block(b);
                assert(block_added(o.response_area_controller@, self.response_area_controller@, b));
                return AppAction::Redraw;
            },
            None => {},
        }
        match &resp.tool_calls {
            Some(calls) => {
                let tid = self.current_thread_id;
                let c = calls.clone();
                assert(c@ =~= calls@);
                self.controller.set_tool_calls(tid, c);
                let c2 = calls.clone();
                assert(c2@ =~= calls@);
                AppAction::RunTools(c2)
            },
            None => self.finish_response(resp),
        }
    }

    /// Shows the tool calls about to run (`calls_json` is their JSON text).
    pub fn show_tool_calls(&mut self, calls_json: String)
        requires
            old(self).wf(),
        ensures
            final(self).wf(),
            exists|b: ResponseBlock|
                is_tool_block(b, "tool calls"@, calls_json@, None) && block_added(
                    old(self).response_area_controller@,
                    final(self).response_area_controller@,
                    b,
                ),
            final(self).controller == old(self).controller,
            final(self).prompt == old(self).prompt,
            final(self).dialog == old(self).dialog,
            final(self).focused == old(self).focused,
            final(self).current_thread_id == old(self).current_thread_id,
    {
        let b = tool_block(String::from_str("tool calls"), calls_json, None);
        let ghost o = *self;
        self.response_area_controller.add_block(b);
        assert(block_added(o.response_area_controller@, self.response_area_controller@, b));
    }

    /// Records the answer to one tool call: it joins the conversation and
    /// is shown under the tool's name (`response_json` is its JSON text),
    /// with the diff the tool made.
    pub fn record_tool_response(
        &mut self,
        call: &ToolCallRequest,
        response: ToolCallResponse,
        response_json: String,
    )
        requires
            old(self).wf(),
        ensures
            final(self).wf(),
            item_added(
                old(self).controller,
                final(self).controller,
                old(self).current_thread_id,
                ContextItemView {
                    role: Role::Tool,
                    content: None,
                    response: None,
                    tools: None,
                    tool_response: Some((response.id@, response.result@)),
                },
            ),
            exists|b: ResponseBlock|
                is_tool_block(b, call.function.name@, response_json@, response.structured)
                    && block_added(
                    old(self).response_area_controller@,
                    final(self).response_area_controller@,
                    b,
                ),
            final(self).prompt == old(self).prompt,
            final(self).dialog == old(self).dialog,
            final(self).focused == old(self).focused,
            final(self).current_thread_id == old(self).current_thread_id,
    {
        let tid = self.current_thread_id;
        let kept = ToolCallResponse {
            id: response.id.clone(),
            result: response.result.clone(),
            structured: None,
        };
        self.controller.set_tool_call_response(tid, kept);
        let b = tool_block(call.function.name.clone(), response_json, response.structured);
        let ghost o = *self;
        self.response_area_controller.add_block(b);
        assert(block_added(o.response_area_controller@, self.response_area_controller@, b));
    }

    /// Finishes a message of the model: the last one (done) adds the answer
    /// to the conversation; any other shows its thinking and its content,
    /// each when it is not empty.
    pub fn finish_response(&mut self, resp: &ChatMessageResponse) -> (r: AppAction)
        requires
            old(self).wf(),
        ensures
            final(self).wf(),
            response_finished(*old(self), *final(self), *resp, r),
    {
        let tid = self.current_thread_id;
        if resp.done {
            let content = match &resp.content {
                Some(c) => c.clone(),
                None => String::new(),
            };
            self.controller.set_response(tid, content);
            return AppAction::Idle;
        }
        let ghost o = *self;
        match &resp.thinking {
            Some(t) => {
                if !t.as_str().is_empty() {
                    let b = thinking_block(t.clone());
                    self.response_area_controller.add_block(b);
                    assert(block_added(o.response_area_controller@, self.response_area_controller@, b));
                }
            },
            None => {},
        }
        let ghost mid = self.response_area_controller@;
        assert(thinking_shown(o.response_area_controller@, mid, *resp));
        match &resp.content {
            Some(c) => {
                if !c.as_str().is_empty() {
                    let b = assistant_block(c.clone());
                    self.response_area_controller.add_block(b);
                    assert(block_added(mid, self.response_area_controller@, b));
                }
            },
            None => {},
        }
        AppAction::Redraw
    }

    /// The gauge reading of the GPU monitor, shown in the status line.
    pub fn on_gpu_info(&mut self, raw: String) -> (r: AppAction)
        requires
            old(self).wf(),
        ensures
            final(self).wf(),
            r is Redraw,
            final(self).status_line@ == (StatusView {
                gpu_info: gpu_summary(raw@),
                ..old(self).status_line@
            }),
            final(self).controller == old(self).controller,
            final(self).prompt == old(self).prompt,
            final(self).response_area_controller == old(self).response_area_controller,
            final(self).dialog == old(self).dialog,
            final(self).focused == old(self).focused,
    {
        self.status_line.set_gpu_info(raw);
        AppAction::Redraw
    }
}

/// `f` is `o` with the thinking of `m` shown, when present and not empty.
pub open spec fn thinking_shown(o: AreaView, f: AreaView, m: ChatMessageResponse) -> bool {
    if m.thinking matches Some(t) && t@.len() > 0 {
        exists|b: ResponseBlock|
            is_thinking_block(b, m.thinking->Some_0@) && block_added(o, f, b)
    } else {
        f == o
    }
}

/// `f` is `o` with the content of `m` shown, when present and not empty.
pub open spec fn content_shown(o: AreaView, f: AreaView, m: ChatMessageResponse) -> bool {
    if m.content matches Some(c) && c@.len() > 0 {
        exists|b: ResponseBlock|
            is_assistant_block(b, m.content->Some_0@) && block_added(o, f, b)
    } else {
        f == o
    }
}

/// `f` and `r` are what finishing the message `m` makes of `o`: the last
/// message adds the answer (its content, or nothing) to the current thread
/// and draws nothing; any other shows its thinking, then its content, each
/// when present and not empty.
pub open spec fn response_finished(o: App, f: App, m: ChatMessageResponse, r: AppAction) -> bool {
    &&& f.prompt == o.prompt
    &&& f.dialog == o.dialog
    &&& f.focused == o.focused
    &&& f.current_thread_id == o.current_thread_id
    &&& if m.done {
        &&& r is Idle
        &&& f.response_area_controller == o.response_area_controller
        &&& item_added(
            o.controller,
            f.controller,
            o.current_thread_id,
            ContextItemView {
                role: Role::Assistant,
                content: None,
                response: Some(
                    match m.content {
                        Some(c) => c@,
                        None => Seq::<char>::empty(),
                    },
                ),
                tools: None,
                tool_response: None,
            },
        )
    } else {
        &&& r is Redraw
        &&& f.controller == o.controller
        &&& exists|mid: AreaView|
            thinking_shown(o.response_area_controller@, mid, m) && content_shown(
                mid,
                f.response_area_controller@,
                m,
            )
    }
}

/// `f` and `r` are what an event the focused prompt received makes of `o`:
/// the prompt changes as [`routed`] or [`pasted`] say, and what it emits is
/// acted on as [`prompt_event_done`] says (with the changed prompt).
pub open spec fn prompt_input_done(o: App, f: App, e: InputEvent, r: AppAction) -> bool {
    let v = o.prompt.content_spec();
    let mid = App { prompt: f.prompt, ..o };
    &&& f.prompt.focused_spec() == o.prompt.focused_spec()
    &&& match e {
        InputEvent::Key(k) => {
            &&& f.prompt.content_spec() == routed(v, key_route(k))
            &&& match key_route(k) {
                KeyRoute::Submit => if all_ws(v.text()) {
                    r is Redraw && f == mid
                } else {
                    exists|pe: PromptEvent|
                        submit_result(v, Some(pe)) && #[trigger] prompt_event_done(mid, f, pe, r)
                },
                KeyRoute::Cancel => r is Redraw && f == mid,
                KeyRoute::Clipboard => r is ReadClipboard && f == mid,
                _ => r is Redraw && f == mid,
            }
        },
        InputEvent::Paste(t) => r is Redraw && f.prompt.content_spec() == pasted(v, t@) && f == mid,
        InputEvent::Other => r is Redraw && f == mid,
    }
}

/// `f` and `r` are what acting on the prompt's event `e` makes of `o`.
pub open spec fn prompt_event_done(o: App, f: App, e: PromptEvent, r: AppAction) -> bool {
    match e {
        PromptEvent::Submitted(t) => prompt_sent(o, f, t@, r),
        PromptEvent::Command { name, args } => r is Redraw && command_done(o, f, name@),
        PromptEvent::Cancel => r is Redraw && f == o,
    }
}

/// `f` is `o` after the user sent `t`: it is shown as a user block, added to
/// the current thread, and a generation of the model in use starts on that
/// thread.
pub open spec fn prompt_sent(o: App, f: App, t: Seq<char>, r: AppAction) -> bool {
    let tid = o.current_thread_id;
    &&& f.current_thread_id == tid
    &&& f.dialog == o.dialog
    &&& item_added(
        o.controller,
        f.controller,
        tid,
        ContextItemView {
            role: Role::User,
            content: Some(t),
            response: None,
            tools: None,
            tool_response: None,
        },
    )
    &&& exists|b: ResponseBlock|
        is_user_block(b, t) && block_added(o.response_area_controller@, f.response_area_controller@, b)
    &&& r matches AppAction::Generate { model, thread } && o.controller.current_model matches Some(m)
        && model@ == m@ && thread@ == f.controller.threads@[tid]@
}

/// `f` is `o` after the command named `name` ran: `models` opens the model
/// dialog, `tree` shows the current thread, `new` drops it and starts a
/// fresh thread with the system prompt; another name does nothing.
pub open spec fn command_done(o: App, f: App, name: Seq<char>) -> bool {
    let tid = o.current_thread_id;
    if name == "models"@ {
        &&& f.dialog matches Some((d, a)) && a == DialogAction::SelectModel && d.schema_spec().title@
            == "Select a model"@ && d.schema_spec().fields@.len() == 1 && model_field(
            d.schema_spec().fields@[0],
            names_view(o.controller.models@),
        ) && d@.active == 0
        &&& f.controller.threads@ == o.controller.threads@
        &&& f.current_thread_id == tid
        &&& f.response_area_controller == o.response_area_controller
    } else if name == "tree"@ {
        &&& f.dialog == o.dialog
        &&& f.controller.threads@ == o.controller.threads@
        &&& f.current_thread_id == tid
        &&& exists|b: ResponseBlock|
            is_command_block(
                b,
                join_with(tree_lines(o.controller.threads@[tid]@.context, true), '\n'),
            ) && block_added(o.response_area_controller@, f.response_area_controller@, b)
    } else if name == "new"@ {
        let nid = o.controller.next_id();
        &&& f.dialog == o.dialog
        &&& f.current_thread_id == nid
        &&& f.controller.threads@.dom() == o.controller.threads@.dom().remove(tid).insert(nid)
        &&& f.controller.threads@[nid]@.context == seq![
            ContextItem::new_spec(Role::System, Some(o.system_prompt))@,
        ]
        &&& forall|k: usize|
            k != tid && #[trigger] o.controller.threads@.contains_key(k) ==> f.controller.threads@[k]
                == o.controller.threads@[k]
        &&& f.response_area_controller@ == ResponseAreaController::new_view()
    } else {
        f == o
    }
}

/// `after` is `before` with the answer of the model dialog applied (the
/// dialog itself aside): when a model was chosen, the model in use becomes
/// that model if it is known, the status line and the profile show its name,
/// and a `Switched to` block is added; when none was, nothing changes.  The
/// prompt, the focus, the thread, the conversations and the models stay.
pub open spec fn dialog_answer_applied(before: App, after: App, chosen: Option<Seq<char>>) -> bool {
    &&& after.prompt == before.prompt
    &&& after.focused == before.focused
    &&& after.current_thread_id == before.current_thread_id
    &&& after.controller.threads@ == before.controller.threads@
    &&& after.controller.models == before.controller.models
    &&& match chosen {
        Some(name) => {
            &&& if names_view(before.controller.models@).contains(name) {
                after.controller.current_model matches Some(m) && m@ == name
            } else {
                after.controller.current_model == before.controller.current_model
            }
            &&& after.status_line@.model_name == name
            &&& after.user_profile.model_spec() == name
            &&& after.user_profile.path_spec() == before.user_profile.path_spec()
            &&& exists|b: ResponseBlock|
                is_command_block(b, "Switched to "@ + name) && block_added(
                    before.response_area_controller@,
                    after.response_area_controller@,
                    b,
                )
        },
        None => {
            &&& after.controller == before.controller
            &&& after.status_line == before.status_line
            &&& after.user_profile == before.user_profile
            &&& after.response_area_controller == before.response_area_controller
        },
    }
}

/// The id of a response.
pub open spec fn response_id(f: FieldResponseView) -> Seq<char> {
    match f {
        FieldResponseView::Text { id, .. } => id,
        FieldResponseView::SingleChoice { id, .. } => id,
        FieldResponseView::MultiChoice { id, .. } => id,
    }
}

/// Response `k` is the first with id `id`.
pub open spec fn first_response_with_id(fs: Seq<FieldResponseView>, id: Seq<char>, k: int) -> bool {
    &&& 0 <= k < fs.len()
    &&& response_id(fs[k]) == id
    &&& forall|j: int| 0 <= j < k ==> response_id(#[trigger] fs[j]) != id
}

/// The model a dialog's responses choose: the value of the first response
/// whose id is `model`, when that response is a single choice.
pub open spec fn chosen_model_of(fs: Seq<FieldResponseView>) -> Option<Seq<char>> {
    if exists|k: int| first_response_with_id(fs, "model"@, k) {
        match fs[choose|k: int| first_response_with_id(fs, "model"@, k)] {
            FieldResponseView::SingleChoice { value, .. } => Some(value),
            _ => None,
        }
    } else {
        None
    }
}

proof fn lemma_chosen_model_view(fields: Seq<FieldResponse>)
    ensures
        chosen_model(fields) == chosen_model_of(responses_view(fields)),
{
    let fs = responses_view(fields);
    lemma_first_unique(fields, "model"@);
    assert forall|j: int| 0 <= j < fields.len() implies response_id(#[trigger] fs[j]) == fields[j].id_spec() by {
        assert(fs[j] == fields[j]@);
    }
    assert forall|k: int| first_with_id(fields, "model"@, k) <==> first_response_with_id(fs, "model"@, k) by {
        if first_with_id(fields, "model"@, k) {
            assert(response_id(fs[k]) == fields[k].id_spec());
            assert forall|j: int| 0 <= j < k implies response_id(#[trigger] fs[j]) != "model"@ by {
                assert(response_id(fs[j]) == fields[j].id_spec());
            }
        }
        if first_response_with_id(fs, "model"@, k) {
            assert(response_id(fs[k]) == fields[k].id_spec());
            assert forall|j: int| 0 <= j < k implies (#[trigger] fields[j]).id_spec() != "model"@ by {
                assert(response_id(fs[j]) == fields[j].id_spec());
            }
        }
    }
    if exists|k: int| first_with_id(fields, "model"@, k) {
        let k1 = choose|k: int| first_with_id(fields, "model"@, k);
        let k2 = choose|k: int| first_response_with_id(fs, "model"@, k);
        assert(first_response_with_id(fs, "model"@, k1));
        assert(first_with_id(fields, "model"@, k2));
        assert(k1 == k2);
        assert(fs[k1] == fields[k1]@);
    }
}

/// The value of the first response whose id is `model`, when that response
/// is a single choice.
pub open spec fn chosen_model(fields: Seq<FieldResponse>) -> Option<Seq<char>> {
    if exists|k: int| first_with_id(fields, "model"@, k) {
        match fields[choose|k: int| first_with_id(fields, "model"@, k)] {
            FieldResponse::SingleChoice { value, .. } => Some(value@),
            _ => None,
        }
    } else {
        None
    }
}

/// Only one position is the first with an id.
proof fn lemma_first_unique(fields: Seq<FieldResponse>, id: Seq<char>)
    ensures
        forall|a: int, b: int| first_with_id(fields, id, a) && first_with_id(fields, id, b) ==> a == b,
{
    assert forall|a: int, b: int| first_with_id(fields, id, a) && first_with_id(fields, id, b) implies a == b by {
        if a < b {
            assert(fields[a].id_spec() != id);
        } else if b < a {
            assert(fields[b].id_spec() != id);
        }
    }
}

/// Registering a name (a model's, or a command's) makes it found, and
/// registering it again changes nothing.
pub proof fn law_register_idempotent(names: Seq<Seq<char>>, n: Seq<char>)
    ensures
        with_name(names, n).contains(n),
        with_name(with_name(names, n), n) == with_name(names, n),
{
    if !names.contains(n) {
        assert(names.push(n)[names.len() as int] == n);
    }
}

} // verus!
