//! A registry of commands by name, each run on a conversation.
use vstd::prelude::*;

use crate::app_state::with_name;
use crate::commands::{strings_of, tree_lines, CommandType, TreeCommand};
use crate::models::Thread;

verus! {

/// A command the registry can run.
pub trait Command {
    /// The name the command is registered under.
    spec fn name_spec(&self) -> Seq<char>;

    fn name(&self) -> (r: &str)
        ensures
            r@ == self.name_spec(),
    ;

    /// The lines the command produces for a conversation.
    fn process(&self, thread: &Thread) -> Vec<String>;

    fn command_type(&self) -> CommandType;
}

impl Command for TreeCommand {
    open spec fn name_spec(&self) -> Seq<char> {
        "tree"@
    }

    fn name(&self) -> (r: &str) {
        TreeCommand::name(self)
    }

    fn process(&self, thread: &Thread) -> (r: Vec<String>)
        ensures
            strings_of(r@) == tree_lines(thread@.context, false),
    {
        TreeCommand::process(self, thread)
    }

    fn command_type(&self) -> (r: CommandType)
        ensures
            r == self.command_type_spec(),
    {
        TreeCommand::command_type(self)
    }
}

/// One registered command and the name it was registered under.
pub struct Registered<C> {
    pub name: String,
    pub command: C,
}

/// Commands by name; a name is registered once (a later command of the same
/// name replaces the earlier one). The commands are of one type `C`, which may
/// be an enum over several commands.
pub struct CommandController<C> {
    entries: Vec<Registered<C>>,
}

pub open spec fn entry_names<C>(entries: Seq<Registered<C>>) -> Seq<Seq<char>> {
    entries.map_values(|e: Registered<C>| e.name@)
}

impl<C: Command> CommandController<C> {
    pub closed spec fn names_spec(&self) -> Seq<Seq<char>> {
        entry_names(self.entries@)
    }

    pub closed spec fn wf(&self) -> bool {
        forall|i: int, j: int|
            0 <= i < j < self.entries@.len() ==> self.entries@[i].name@ != self.entries@[j].name@
    }

    pub fn new() -> (r: Self)
        ensures
            r.wf(),
            r.names_spec().len() == 0,
    {
        CommandController { entries: Vec::new() }
    }

    /// Registers a command under its name, replacing a command of that name.
    pub fn add_command(&mut self, command: C)
        requires
            old(self).wf(),
        ensures
            final(self).wf(),
            final(self).names_spec() == with_name(old(self).names_spec(), command.name_spec()),
    {
        let name = String::from_str(command.name());
        let ghost n = command.name_spec();
        let mut i: usize = 0;
        while i < self.entries.len()
            invariant
                i <= self.entries@.len(),
                name@ == n,
                n == command.name_spec(),
                self.wf(),
                self.entries@ == old(self).entries@,
                forall|k: int| 0 <= k < i ==> self.entries@[k].name@ != n,
            decreases self.entries.len() - i,
        {
            if self.entries[i].name == name {
                let ghost before = self.entries@;
                let entry = Registered { name, command };
                self.entries.set(i, entry);
                proof {
                    assert(self.entries@ == before.update(i as int, entry));
                    assert(self.names_spec() =~= entry_names(before));
                    assert(entry_names(before)[i as int] == n);
                    assert(old(self).names_spec() == entry_names(before));
                    assert(old(self).names_spec().contains(n));
                }
                return;
            }
            i = i + 1;
        }
        proof {
            if self.names_spec().contains(n) {
                let w = choose|w: int| 0 <= w < self.names_spec().len() && self.names_spec()[w] == n;
                assert(self.entries@[w].name@ == n);
            }
        }
        let ghost before = self.entries@;
        let entry = Registered { name, command };
        self.entries.push(entry);
        proof {
            assert(self.entries@ == before.push(entry));
            assert(self.names_spec() =~= entry_names(before).push(n));
        }
    }

    /// Runs the command registered under `name` on the conversation; `None`
    /// when no command has that name.
    pub fn execute(&self, command_name: &str, thread: &Thread) -> (r: Option<Vec<String>>)
        ensures
            r is Some <==> self.names_spec().contains(command_name@),
    {
        let wanted = String::from_str(command_name);
        let mut i: usize = 0;
        while i < self.entries.len()
            invariant
                i <= self.entries@.len(),
                wanted@ == command_name@,
                forall|k: int| 0 <= k < i ==> self.entries@[k].name@ != command_name@,
            decreases self.entries.len() - i,
        {
            if self.entries[i].name == wanted {
                assert(self.names_spec()[i as int] == command_name@);
                return Some(self.entries[i].command.process(thread));
            }
            i = i + 1;
        }
        proof {
            if self.names_spec().contains(command_name@) {
                let w = choose|w: int|
                    0 <= w < self.names_spec().len() && self.names_spec()[w] == command_name@;
                assert(self.entries@[w].name@ == command_name@);
            }
        }
        None
    }
}

} // verus!
