//! The conversation store: threads by id, the registered models (by name),
//! the model in use, and which threads have a generation running.
use std::collections::HashMap;
use vstd::prelude::*;

use crate::models::{ContextItem, ContextItemView, Thread, ToolCallRequest, ToolCallResponse};
use crate::text::{decimal, u64_to_string};

verus! {

broadcast use vstd::std_specs::hash::group_hash_axioms;

/// Threads, models and running generations.
pub struct MessageController {
    pub threads: HashMap<usize, Thread>,
    /// Names of the registered models, each once, in the order registered.
    pub models: Vec<String>,
    pub current_model: Option<String>,
    /// Threads whose generation is running.
    pub running_handlers: Vec<usize>,
    pub next_thread_id: usize,
}

/// The names of the models, as text.
pub open spec fn names_view(v: Seq<String>) -> Seq<Seq<char>> {
    Seq::new(v.len(), |i: int| v[i]@)
}

/// No name occurs twice.
pub open spec fn distinct(s: Seq<Seq<char>>) -> bool {
    forall|i: int, j: int| 0 <= i < j < s.len() ==> s[i] != s[j]
}


/// Where `x` stands in `v`, if anywhere.
fn position(v: &Vec<usize>, x: usize) -> (r: Option<usize>)
    ensures
        match r {
            Some(i) => i < v@.len() && v@[i as int] == x,
            None => !v@.contains(x),
        },
{
    let mut i: usize = 0;
    while i < v.len()
        invariant
            i <= v@.len(),
            forall|k: int| 0 <= k < i ==> v@[k] != x,
        decreases v.len() - i,
    {
        if v[i] == x {
            return Some(i);
        }
        i = i + 1;
    }
    None
}

/// `f` is `o` with `item` appended to thread `tid` (when that thread
/// exists); nothing else changes.
pub open spec fn item_added(
    o: MessageController,
    f: MessageController,
    tid: usize,
    item: ContextItemView,
) -> bool {
    &&& f.models == o.models
    &&& f.current_model == o.current_model
    &&& f.running_handlers == o.running_handlers
    &&& f.next_thread_id == o.next_thread_id
    &&& if o.threads@.contains_key(tid) {
        &&& f.threads@.dom() == o.threads@.dom()
        &&& f.threads@[tid]@.id == o.threads@[tid]@.id
        &&& f.threads@[tid]@.context == o.threads@[tid]@.context.push(item)
        &&& forall|k: usize|
            k != tid && #[trigger] o.threads@.contains_key(k) ==> f.threads@[k] == o.threads@[k]
    } else {
        f.threads@ == o.threads@
    }
}

impl MessageController {
    pub closed spec fn next_id(&self) -> usize {
        self.next_thread_id
    }

    /// Every thread has an id below the next one handed out, and no model or
    /// running thread is listed twice.
    pub open spec fn wf(&self) -> bool {
        &&& forall|k: usize| #[trigger] self.threads@.contains_key(k) ==> k < self.next_id()
        &&& distinct(names_view(self.models@))
        &&& forall|i: int, j: int|
            0 <= i < j < self.running_handlers@.len() ==> self.running_handlers@[i]
                != self.running_handlers@[j]
    }

    pub fn new() -> (r: Self)
        ensures
            r.wf(),
            r.threads@ == Map::<usize, Thread>::empty(),
            r.models@.len() == 0,
            r.current_model is None,
            r.running_handlers@.len() == 0,
            r.next_id() == 0,
    {
        MessageController {
            threads: HashMap::new(),
            models: Vec::new(),
            current_model: None,
            running_handlers: Vec::new(),
            next_thread_id: 0,
        }
    }

    /// Opens a new empty thread under the next id (its name is the id
    /// written in decimal) and returns the id.
    pub fn new_thread(&mut self) -> (r: usize)
        requires
            old(self).wf(),
            old(self).next_id() < usize::MAX,
        ensures
            final(self).wf(),
            r == old(self).next_id(),
            final(self).next_id() == r + 1,
            !old(self).threads@.contains_key(r),
            final(self).threads@.dom() == old(self).threads@.dom().insert(r),
            final(self).threads@[r]@.id == decimal(r as nat),
            final(self).threads@[r]@.context.len() == 0,
            forall|k: usize| k != r && #[trigger] old(self).threads@.contains_key(k) ==> final(self).threads@[k] == old(self).threads@[k],
            final(self).models == old(self).models,
            final(self).current_model == old(self).current_model,
            final(self).running_handlers == old(self).running_handlers,
    {
        let id = self.next_thread_id;
        self.next_thread_id = id + 1;
        let name = u64_to_string(id as u64);
        self.threads.insert(id, Thread::new(name));
        id
    }

    /// Stops the thread's running generation, if any; returns whether there
    /// was one (the caller aborts its task).
    pub fn cancel_running(&mut self, thread_id: usize) -> (r: bool)
        requires
            old(self).wf(),
        ensures
            final(self).wf(),
            r == old(self).running_handlers@.contains(thread_id),
            !final(self).running_handlers@.contains(thread_id),
            forall|t: usize|
                t != thread_id ==> (#[trigger] final(self).running_handlers@.contains(t)
                    == old(self).running_handlers@.contains(t)),
            final(self).threads@ == old(self).threads@,
            final(self).models == old(self).models,
            final(self).current_model == old(self).current_model,
            final(self).next_id() == old(self).next_id(),
    {
        match position(&self.running_handlers, thread_id) {
            None => false,
            Some(i) => {
                let ghost before = self.running_handlers@;
                self.running_handlers.remove(i);
                proof {
                    assert forall|t: usize|
                        t != thread_id implies (#[trigger] self.running_handlers@.contains(t)
                        == before.contains(t)) by {
                        if before.contains(t) {
                            let w = choose|w: int| 0 <= w < before.len() && before[w] == t;
                            if w < i {
                                assert(self.running_handlers@[w] == t);
                            } else {
                                assert(self.running_handlers@[w - 1] == t);
                            }
                        }
                        if self.running_handlers@.contains(t) {
                            let w = choose|w: int|
                                0 <= w < self.running_handlers@.len() && self.running_handlers@[w]
                                    == t;
                            if w < i {
                                assert(before[w] == t);
                            } else {
                                assert(before[w + 1] == t);
                            }
                        }
                    }
                    if self.running_handlers@.contains(thread_id) {
                        let w = choose|w: int|
                            0 <= w < self.running_handlers@.len() && self.running_handlers@[w]
                                == thread_id;
                        if w < i {
                            assert(before[w] == thread_id);
                        } else {
                            assert(before[w + 1] == thread_id);
                        }
                    }
                    assert(before.contains(thread_id)) by {
                        assert(before[i as int] == thread_id);
                    }
                }
                true
            },
        }
    }

    /// Records that the thread's generation is running.
    pub fn add_running(&mut self, thread_id: usize)
        requires
            old(self).wf(),
        ensures
            final(self).wf(),
            final(self).running_handlers@.contains(thread_id),
            forall|t: usize|
                t != thread_id ==> (#[trigger] final(self).running_handlers@.contains(t)
                    == old(self).running_handlers@.contains(t)),
            final(self).threads@ == old(self).threads@,
            final(self).models == old(self).models,
            final(self).current_model == old(self).current_model,
            final(self).next_id() == old(self).next_id(),
    {
        self.cancel_running(thread_id);
        let ghost before = self.running_handlers@;
        self.running_handlers.push(thread_id);
        proof {
            let v = self.running_handlers@;
            assert(v[v.len() - 1] == thread_id);
            assert forall|t: usize| t != thread_id implies (#[trigger] v.contains(t) == before.contains(t)) by {
                if before.contains(t) {
                    let w = choose|w: int| 0 <= w < before.len() && before[w] == t;
                    assert(v[w] == t);
                }
                if v.contains(t) {
                    let w = choose|w: int| 0 <= w < v.len() && v[w] == t;
                    assert(before[w] == t);
                }
            }
        }
    }

    /// Removes a thread and stops its generation; returns whether the
    /// thread existed.
    pub fn remove_thread(&mut self, thread_id: usize) -> (r: bool)
        requires
            old(self).wf(),
        ensures
            final(self).wf(),
            r == old(self).threads@.contains_key(thread_id),
            final(self).threads@ == old(self).threads@.remove(thread_id),
            !final(self).running_handlers@.contains(thread_id),
            final(self).models == old(self).models,
            final(self).current_model == old(self).current_model,
            final(self).next_id() == old(self).next_id(),
    {
        self.cancel_running(thread_id);
        let removed = self.threads.remove(&thread_id);
        removed.is_some()
    }

    /// Registers a model by name; the first model registered becomes the one
    /// in use.
    pub fn register_model(&mut self, name: String)
        requires
            old(self).wf(),
        ensures
            final(self).wf(),
            names_view(final(self).models@) == if names_view(old(self).models@).contains(name@) {
                names_view(old(self).models@)
            } else {
                names_view(old(self).models@).push(name@)
            },
            final(self).current_model == if old(self).current_model is None {
                Some(name)
            } else {
                old(self).current_model
            },
            final(self).threads@ == old(self).threads@,
            final(self).running_handlers == old(self).running_handlers,
            final(self).next_id() == old(self).next_id(),
    {
        let known = self.has_model(name.as_str());
        if self.current_model.is_none() {
            self.current_model = Some(name.clone());
        }
        if !known {
            let ghost before = names_view(self.models@);
            self.models.push(name);
            assert(names_view(self.models@) =~= before.push(self.models@[self.models@.len() - 1]@));
        }
    }

    /// Whether a model of that name is registered.
    pub fn has_model(&self, name: &str) -> (r: bool)
        ensures
            r == names_view(self.models@).contains(name@),
    {
        let wanted = String::from_str(name);
        let mut i: usize = 0;
        while i < self.models.len()
            invariant
                i <= self.models@.len(),
                wanted@ == name@,
                forall|k: int| 0 <= k < i ==> self.models@[k]@ != name@,
            decreases self.models.len() - i,
        {
            if self.models[i] == wanted {
                assert(names_view(self.models@)[i as int] == name@);
                return true;
            }
            i = i + 1;
        }
        proof {
            if names_view(self.models@).contains(name@) {
                let w = choose|w: int|
                    0 <= w < names_view(self.models@).len() && names_view(self.models@)[w] == name@;
                assert(self.models@[w]@ == name@);
            }
        }
        false
    }

    /// Switches to the named model, which must be registered.
    pub fn set_current_model(&mut self, model_name: String) -> (r: Result<(), String>)
        requires
            old(self).wf(),
        ensures
            final(self).wf(),
            names_view(old(self).models@).contains(model_name@) ==> r is Ok
                && final(self).current_model == Some(model_name),
            !names_view(old(self).models@).contains(model_name@) ==> (r matches Err(e) && e@
                == "Model '"@ + model_name@ + "' not found"@) && final(self).current_model
                == old(self).current_model,
            final(self).models == old(self).models,
            final(self).threads@ == old(self).threads@,
            final(self).running_handlers == old(self).running_handlers,
            final(self).next_id() == old(self).next_id(),
    {
        if self.has_model(model_name.as_str()) {
            self.current_model = Some(model_name);
            Ok(())
        } else {
            let mut e = String::from_str("Model '");
            e.append(model_name.as_str());
            e.append("' not found");
            Err(e)
        }
    }

    /// The registered model names.
    pub fn get_model_names(&self) -> (r: Vec<String>)
        ensures
            names_view(r@) == names_view(self.models@),
    {
        let mut out: Vec<String> = Vec::new();
        let mut i: usize = 0;
        while i < self.models.len()
            invariant
                i <= self.models@.len(),
                names_view(out@) == names_view(self.models@).take(i as int),
            decreases self.models.len() - i,
        {
            let c = self.models[i].clone();
            assert(c@ == self.models@[i as int]@);
            let ghost before = out@;
            out.push(c);
            assert(names_view(out@) =~= names_view(before).push(self.models@[i as int]@));
            assert(names_view(self.models@).take(i + 1) =~= names_view(self.models@).take(i as int).push(self.models@[i as int]@));
            i = i + 1;
        }
        assert(names_view(self.models@).take(i as int) =~= names_view(self.models@));
        out
    }

    pub fn current_model_name(&self) -> (r: Option<&str>)
        ensures
            match self.current_model {
                Some(m) => r matches Some(s) && s@ == m@,
                None => r is None,
            },
    {
        match &self.current_model {
            Some(m) => Some(m.as_str()),
            None => None,
        }
    }

    pub fn get_thread(&self, thread_id: usize) -> (r: Option<&Thread>)
        ensures
            match r {
                Some(t) => self.threads@.contains_key(thread_id) && *t == self.threads@[thread_id],
                None => !self.threads@.contains_key(thread_id),
            },
    {
        self.threads.get(&thread_id)
    }

    /// Appends an item to the thread, when it exists.
    fn add_item(&mut self, thread_id: usize, item: ContextItem)
        requires
            old(self).wf(),
        ensures
            final(self).wf(),
            old(self).threads@.contains_key(thread_id) ==> (final(self).threads@.dom()
                == old(self).threads@.dom() && final(self).threads@[thread_id]@.id == old(self).threads@[thread_id]@.id && final(self).threads@[thread_id]@.context == old(self).threads@[thread_id]@.context.push(item@) && forall|k: usize|
                k != thread_id && #[trigger] old(self).threads@.contains_key(k) ==> final(self).threads@[k] == old(self).threads@[k]),
            !old(self).threads@.contains_key(thread_id) ==> final(self).threads@ == old(self).threads@,
            final(self).models == old(self).models,
            final(self).current_model == old(self).current_model,
            final(self).running_handlers == old(self).running_handlers,
            final(self).next_id() == old(self).next_id(),
    {
        match self.threads.remove(&thread_id) {
            Some(mut t) => {
                t.add_context(item);
                self.threads.insert(thread_id, t);
                assert(self.threads@.dom() =~= old(self).threads@.dom());
            },
            None => {},
        }
    }

    /// The system prompt of the thread.
    pub fn set_system(&mut self, thread_id: usize, system_message: String)
        requires
            old(self).wf(),
        ensures
            final(self).wf(),
            item_added(*old(self), *final(self), thread_id, ContextItem::new_spec(crate::models::Role::System, Some(system_message))@),
    {
        self.add_item(thread_id, ContextItem::system(system_message));
    }

    /// What the user sent, added to the thread.
    pub fn set_prompt(&mut self, thread_id: usize, prompt: String)
        requires
            old(self).wf(),
        ensures
            final(self).wf(),
            item_added(*old(self), *final(self), thread_id, ContextItem::new_spec(crate::models::Role::User, Some(prompt))@),
    {
        self.add_item(thread_id, ContextItem::user(prompt));
    }

    /// The assistant's answer, added to the thread.
    pub fn set_response(&mut self, thread_id: usize, response: String)
        requires
            old(self).wf(),
        ensures
            final(self).wf(),
            item_added(*old(self), *final(self), thread_id, (ContextItem {
                    response: Some(response),
                    ..ContextItem::new_spec(crate::models::Role::Assistant, None)
            })@),
    {
        self.add_item(thread_id, ContextItem::assistant(response));
    }

    /// The tool calls the assistant asked for, added to the thread.
    pub fn set_tool_calls(&mut self, thread_id: usize, tool_calls: Vec<ToolCallRequest>)
        requires
            old(self).wf(),
        ensures
            final(self).wf(),
            item_added(*old(self), *final(self), thread_id, (ContextItem {
                    tools: Some(tool_calls),
                    ..ContextItem::new_spec(crate::models::Role::Assistant, None)
            })@),
    {
        self.add_item(thread_id, ContextItem::tool_request(tool_calls));
    }

    /// A tool's response, added to the thread.
    pub fn set_tool_call_response(&mut self, thread_id: usize, tool_response: ToolCallResponse)
        requires
            old(self).wf(),
        ensures
            final(self).wf(),
            item_added(*old(self), *final(self), thread_id, (ContextItem {
                    tool_response: Some(tool_response),
                    ..ContextItem::new_spec(crate::models::Role::Tool, None)
            })@),
    {
        self.add_item(thread_id, ContextItem::tool_response(tool_response));
    }

    /// What a generation call needs: whether the model is registered, and a
    /// copy of the thread (when it exists).
    pub fn prepare_call(&self, thread_id: usize, model_name: &str) -> (r: (bool, Option<Thread>))
        ensures
            r.0 == names_view(self.models@).contains(model_name@),
            match r.1 {
                Some(t) => self.threads@.contains_key(thread_id) && t@ == self.threads@[thread_id]@,
                None => !self.threads@.contains_key(thread_id),
            },
    {
        let thread = match self.threads.get(&thread_id) {
            Some(t) => Some(t.clone()),
            None => None,
        };
        (self.has_model(model_name), thread)
    }
}

} // verus!
