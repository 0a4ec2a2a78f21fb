//! The system prompt every conversation starts with: who the assistant is,
//! where it works, when, and which tools it has.
use vstd::prelude::*;

use crate::models::ToolCatalogEntry;
use crate::tools::{catalog, tools_catalog};

verus! {

/// A catalog entry as the prompt lists it.
pub open spec fn entry_text(e: (Seq<char>, Seq<char>)) -> Seq<char> {
    "Tool: "@ + e.0 + "\nDescription: "@ + e.1
}

/// The entries, separated by blank lines.
pub open spec fn entries_text(es: Seq<(Seq<char>, Seq<char>)>) -> Seq<char>
    decreases es.len(),
{
    if es.len() == 0 {
        Seq::empty()
    } else if es.len() == 1 {
        entry_text(es[0])
    } else {
        entries_text(es.drop_last()) + "\n\n"@ + entry_text(es.last())
    }
}

/// The prompt for working directory `cwd` at time `now`.
pub open spec fn system_prompt_text(cwd: Seq<char>, now: Seq<char>) -> Seq<char> {
    let base = "You are an intelligent software developer and architect. respond to the user messages with helpful answers, and use tools when necessary. current working directory is "@
        + cwd + "\n"@ + "current data and time is: "@ + now + "\n\n"@;
    let tools = entries_text(catalog());
    if tools.len() > 0 {
        base + "Available tools:\n\n"@ + tools
    } else {
        base
    }
}

fn entries_of(v: &Vec<ToolCatalogEntry>) -> (r: String)
    ensures
        r@ == entries_text(Seq::new(v@.len(), |i: int| (v@[i].name@, v@[i].description@))),
{
    let ghost es = Seq::new(v@.len(), |i: int| (v@[i].name@, v@[i].description@));
    let mut acc = String::new();
    let mut i: usize = 0;
    while i < v.len()
        invariant
            i <= v@.len(),
            es == Seq::new(v@.len(), |i: int| (v@[i].name@, v@[i].description@)),
            acc@ == entries_text(es.take(i as int)),
        decreases v.len() - i,
    {
        proof {
            assert(es.take(i + 1).drop_last() =~= es.take(i as int));
            assert(es.take(i + 1).last() == es[i as int]);
        }
        if i > 0 {
            acc.append("\n\n");
        }
        acc.append("Tool: ");
        acc.append(v[i].name.as_str());
        acc.append("\nDescription: ");
        acc.append(v[i].description.as_str());
        proof {
            if i == 0 {
                assert(es.take(1).len() == 1);
            }
        }
        i = i + 1;
    }
    assert(es.take(i as int) =~= es);
    acc
}

/// The system prompt: the assistant's role, the working directory `cwd`,
/// the time `now`, and the tools of the catalog.
pub fn generate_system_prompt(cwd: &str, now: &str) -> (r: String)
    ensures
        r@ == system_prompt_text(cwd@, now@),
{
    let mut base = String::from_str(
        "You are an intelligent software developer and architect. respond to the user messages with helpful answers, and use tools when necessary. current working directory is ",
    );
    base.append(cwd);
    base.append("\n");
    base.append("current data and time is: ");
    base.append(now);
    base.append("\n\n");
    let cat = tools_catalog();
    let tools = entries_of(&cat);
    proof {
        assert(Seq::new(cat@.len(), |i: int| (cat@[i].name@, cat@[i].description@)) =~= catalog());
    }
    if !tools.as_str().is_empty() {
        base.append("Available tools:\n\n");
        base.append(tools.as_str());
    }
    base
}

} // verus!
