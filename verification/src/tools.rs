//! The tools the model may call: which tool a call names and with which
//! arguments, what each tool answers, and the pure parts of the file tools
//! (line ranges, exact-text edits, directory entries, search commands).
use vstd::prelude::*;

use crate::json::{
    json_array_field, json_array_texts, json_field_i64, json_field_str, json_field_u64,
    json_i64_field, json_object_field, json_object_pairs, json_str_field, json_u64_field,
};
use crate::models::{opt_view, ToolCallRequest, ToolCallResponse, ToolCatalogEntry, ToolResult};
use crate::text::{
    contains_seq, decimal, find_chars, first_occurrence, i64_to_string, join_with, matches_at, occurs_at,
    signed_decimal, str_to_chars, u64_to_string, chars_to_string,
};

verus! {

// ---------------------------------------------------------------------------
// Catalog
// ---------------------------------------------------------------------------

/// The tools offered to the model, by name and description.
pub open spec fn catalog() -> Seq<(Seq<char>, Seq<char>)> {
    seq![
        ("read_file"@, "Read a range of lines from a file."@),
        ("list_files_and_directories"@, "List files and directories at a path."@),
        ("create_file"@, "Create a new file with given content (overwrites if exists)."@),
        ("edit_file"@, "Replace an exact unique occurrence of old_text with new_text in a file."@),
        ("fd_search"@, "Search for files and directories by name using fd-find."@),
        ("rg_search"@, "Search file contents using ripgrep."@),
        ("bash"@, "Run bash command on OS. command and arguments are passed to bash -c"@),
        (
            "http_request"@,
            "Perform an HTTP request to a public URL. Supports GET/POST/PUT/DELETE. Internal/private IPs are blocked."@,
        ),
    ]
}

fn entry(name: &str, description: &str) -> (r: ToolCatalogEntry)
    ensures
        r.name@ == name@,
        r.description@ == description@,
{
    ToolCatalogEntry { name: String::from_str(name), description: String::from_str(description) }
}

/// The catalog of tools, in the order they are offered.
pub fn tools_catalog() -> (r: Vec<ToolCatalogEntry>)
    ensures
        r@.len() == catalog().len(),
        forall|i: int|
            0 <= i < r@.len() ==> (#[trigger] r@[i]).name@ == catalog()[i].0
                && r@[i].description@ == catalog()[i].1,
{
    let mut v: Vec<ToolCatalogEntry> = Vec::new();
    v.push(entry("read_file", "Read a range of lines from a file."));
    v.push(entry("list_files_and_directories", "List files and directories at a path."));
    v.push(entry("create_file", "Create a new file with given content (overwrites if exists)."));
    v.push(
        entry(
            "edit_file",
            "Replace an exact unique occurrence of old_text with new_text in a file.",
        ),
    );
    v.push(entry("fd_search", "Search for files and directories by name using fd-find."));
    v.push(entry("rg_search", "Search file contents using ripgrep."));
    v.push(entry("bash", "Run bash command on OS. command and arguments are passed to bash -c"));
    v.push(
        entry(
            "http_request",
            "Perform an HTTP request to a public URL. Supports GET/POST/PUT/DELETE. Internal/private IPs are blocked.",
        ),
    );
    v
}

// ---------------------------------------------------------------------------
// Dispatch
// ---------------------------------------------------------------------------

/// What a tool call asks to run.
pub enum ToolPlan {
    ReadFile { path: String, line_from: usize, line_to: usize },
    ListFiles { path: String },
    CreateFile { path: String, content: String },
    EditFile { path: String, old_text: String, new_text: String },
    Fd { pattern: String, path: String, kind: Option<String> },
    Rg { pattern: String, path: String, context_lines: Option<i64> },
    Bash { command: String, args: Vec<String> },
    /// A bash call without a command: answered without running anything.
    MissingCommand,
    Http {
        url: String,
        method: String,
        headers: Vec<(String, String)>,
        body: Option<String>,
        timeout_secs: Option<u64>,
    },
    /// A tool nobody offers.
    Unknown { name: String },
}

/// A string argument, or `default` when it is missing or no string.
pub open spec fn str_arg(args: Seq<char>, key: Seq<char>, default: Seq<char>) -> Seq<char> {
    match json_field_str(args, key) {
        Some(s) => s,
        None => default,
    }
}

/// An integer argument as a line number: missing reads as 0, and the value is
/// taken modulo the machine word as a cast does.
pub open spec fn line_arg(args: Seq<char>, key: Seq<char>) -> usize {
    match json_field_i64(args, key) {
        Some(n) => n as usize,
        None => 0usize,
    }
}

/// The plan a call's name and JSON arguments give.
pub open spec fn plan_is(p: ToolPlan, name: Seq<char>, args: Seq<char>) -> bool {
    if name == "read_file"@ {
        p matches ToolPlan::ReadFile { path, line_from, line_to } && path@ == str_arg(
            args,
            "path"@,
            ""@,
        ) && line_from == line_arg(args, "line_from"@) && line_to == line_arg(args, "line_to"@)
    } else if name == "list_files_and_directories"@ {
        p matches ToolPlan::ListFiles { path } && path@ == str_arg(args, "path"@, ""@)
    } else if name == "create_file"@ {
        p matches ToolPlan::CreateFile { path, content } && path@ == str_arg(
            args,
            "path"@,
            ""@,
        ) && content@ == str_arg(args, "content"@, ""@)
    } else if name == "edit_file"@ {
        p matches ToolPlan::EditFile { path, old_text, new_text } && path@ == str_arg(
            args,
            "path"@,
            ""@,
        ) && old_text@ == str_arg(args, "old_text"@, ""@) && new_text@ == str_arg(
            args,
            "new_text"@,
            ""@,
        )
    } else if name == "fd_search"@ {
        p matches ToolPlan::Fd { pattern, path, kind } && pattern@ == str_arg(
            args,
            "pattern"@,
            ""@,
        ) && path@ == str_arg(args, "path"@, "."@) && opt_view(kind) == json_field_str(
            args,
            "type"@,
        )
    } else if name == "rg_search"@ {
        p matches ToolPlan::Rg { pattern, path, context_lines } && pattern@ == str_arg(
            args,
            "pattern"@,
            ""@,
        ) && path@ == str_arg(args, "path"@, "."@) && context_lines == json_field_i64(
            args,
            "context_lines"@,
        )
    } else if name == "bash"@ {
        match json_field_str(args, "command"@) {
            None => p is MissingCommand,
            Some(c) => p matches ToolPlan::Bash { command, args: a } && command@ == c && a@.len()
                == json_array_texts(args, "args"@).len() && forall|i: int|
                0 <= i < a@.len() ==> (#[trigger] a@[i])@ == json_array_texts(args, "args"@)[i],
        }
    } else if name == "http_request"@ {
        p matches ToolPlan::Http { url, method, headers, body, timeout_secs } && url@ == str_arg(
            args,
            "url"@,
            ""@,
        ) && method@ == str_arg(args, "method"@, "GET"@) && headers@.len() == json_object_pairs(
            args,
            "headers"@,
        ).len() && (forall|i: int|
            0 <= i < headers@.len() ==> (#[trigger] headers@[i]).0@ == json_object_pairs(
                args,
                "headers"@,
            )[i].0 && headers@[i].1@ == json_object_pairs(args, "headers"@)[i].1) && opt_view(body)
            == json_field_str(args, "body"@) && timeout_secs == json_field_u64(
            args,
            "timeout_seconds"@,
        )
    } else {
        p matches ToolPlan::Unknown { name: n } && n@ == name
    }
}

/// A file tool reads each of its arguments from the JSON field of that name:
/// an edit looks for the `old_text` field and writes the `new_text` field
/// into the file at `path`, a created file gets the `content` field, and a
/// read takes the `path` field.
pub proof fn law_file_tools_read_named_fields(p: ToolPlan, name: Seq<char>, args: Seq<char>, path: Seq<char>, a: Seq<char>, b: Seq<char>)
    requires
        plan_is(p, name, args),
        json_field_str(args, "path"@) == Some(path),
    ensures
        name == "edit_file"@ && json_field_str(args, "old_text"@) == Some(a) && json_field_str(
            args,
            "new_text"@,
        ) == Some(b) ==> (p matches ToolPlan::EditFile { path: pa, old_text, new_text } && pa@
            == path && old_text@ == a && new_text@ == b),
        name == "create_file"@ && json_field_str(args, "content"@) == Some(a) ==> (p matches ToolPlan::CreateFile { path: pa, content } && pa@ == path && content@ == a),
        name == "read_file"@ ==> (p matches ToolPlan::ReadFile { path: pa, .. } && pa@ == path),
        name == "list_files_and_directories"@ ==> (p matches ToolPlan::ListFiles { path: pa }
            && pa@ == path),
{
    reveal_strlit("read_file");
    reveal_strlit("list_files_and_directories");
    reveal_strlit("create_file");
    reveal_strlit("edit_file");
    if name == "edit_file"@ {
        assert(name[0] != "read_file"@[0]);
        assert(name.len() != "list_files_and_directories"@.len());
        assert(name.len() != "create_file"@.len());
    }
    if name == "create_file"@ {
        assert(name.len() != "read_file"@.len());
        assert(name.len() != "list_files_and_directories"@.len());
    }
    if name == "list_files_and_directories"@ {
        assert(name.len() != "read_file"@.len());
    }
}

/// The search, shell and HTTP tools read their arguments from the JSON
/// fields of those names: a search looks for the `pattern` field under the
/// `path` field (`.` when missing); a shell call runs the `command` field;
/// a request goes to the `url` field with the `method` field (`GET` when
/// missing) and the `body` field.
pub proof fn law_other_tools_read_named_fields(p: ToolPlan, name: Seq<char>, args: Seq<char>, a: Seq<char>, b: Seq<char>)
    requires
        plan_is(p, name, args),
        json_field_str(args, "pattern"@) == Some(a),
    ensures
        name == "fd_search"@ ==> (p matches ToolPlan::Fd { pattern, path, .. } && pattern@ == a
            && (json_field_str(args, "path"@) == Some(b) ==> path@ == b) && (json_field_str(
            args,
            "path"@,
        ) is None ==> path@ == "."@)),
        name == "rg_search"@ ==> (p matches ToolPlan::Rg { pattern, path, .. } && pattern@ == a
            && (json_field_str(args, "path"@) == Some(b) ==> path@ == b) && (json_field_str(
            args,
            "path"@,
        ) is None ==> path@ == "."@)),
{
    reveal_strlit("read_file");
    reveal_strlit("list_files_and_directories");
    reveal_strlit("create_file");
    reveal_strlit("edit_file");
    reveal_strlit("fd_search");
    reveal_strlit("rg_search");
    if name == "fd_search"@ || name == "rg_search"@ {
        assert(name[0] != "read_file"@[0] || name[1] != "read_file"@[1]);
        assert(name.len() != "list_files_and_directories"@.len());
        assert(name.len() != "create_file"@.len());
        assert(name[0] != "edit_file"@[0]);
    }
    if name == "rg_search"@ {
        assert(name[0] != "fd_search"@[0]);
    }
}

/// A shell call runs the `command` field (and answers at once when there is
/// none); a request goes to the `url` field with the `method` field (`GET`
/// when missing) and sends the `body` field.
pub proof fn law_shell_and_http_read_named_fields(p: ToolPlan, name: Seq<char>, args: Seq<char>, a: Seq<char>)
    requires
        plan_is(p, name, args),
    ensures
        name == "bash"@ && json_field_str(args, "command"@) == Some(a) ==> (p matches ToolPlan::Bash {
            command,
            ..
        } && command@ == a),
        name == "bash"@ && json_field_str(args, "command"@) is None ==> p is MissingCommand,
        name == "http_request"@ && json_field_str(args, "url"@) == Some(a) ==> (p matches ToolPlan::Http {
            url,
            method,
            body,
            ..
        } && url@ == a && (json_field_str(args, "method"@) is None ==> method@ == "GET"@)
            && opt_view(body) == json_field_str(args, "body"@)),
{
    reveal_strlit("read_file");
    reveal_strlit("list_files_and_directories");
    reveal_strlit("create_file");
    reveal_strlit("edit_file");
    reveal_strlit("fd_search");
    reveal_strlit("rg_search");
    reveal_strlit("bash");
    reveal_strlit("http_request");
    if name == "bash"@ || name == "http_request"@ {
        assert(name.len() != "read_file"@.len());
        assert(name.len() != "list_files_and_directories"@.len());
        assert(name.len() != "create_file"@.len());
        assert(name.len() != "edit_file"@.len());
        assert(name.len() != "fd_search"@.len());
        assert(name.len() != "rg_search"@.len());
    }
    if name == "http_request"@ {
        assert(name.len() != "bash"@.len());
    }
}

fn str_or(args: &str, key: &str, default: &str) -> (r: String)
    ensures
        r@ == str_arg(args@, key@, default@),
{
    match json_str_field(args, key) {
        Some(s) => s,
        None => String::from_str(default),
    }
}

fn line_or_zero(args: &str, key: &str) -> (r: usize)
    ensures
        r == line_arg(args@, key@),
{
    match json_i64_field(args, key) {
        Some(n) => n as usize,
        None => 0,
    }
}

/// Which tool a call names, with the arguments read from its JSON.
pub fn plan_tool_call(call: &ToolCallRequest) -> (r: ToolPlan)
    ensures
        plan_is(r, call.function.name@, call.function.arguments@),
{
    let name = call.function.name.as_str();
    let args = call.function.arguments.as_str();
    let n = String::from_str(name);
    if n == String::from_str("read_file") {
        ToolPlan::ReadFile {
            path: str_or(args, "path", ""),
            line_from: line_or_zero(args, "line_from"),
            line_to: line_or_zero(args, "line_to"),
        }
    } else if n == String::from_str("list_files_and_directories") {
        ToolPlan::ListFiles { path: str_or(args, "path", "") }
    } else if n == String::from_str("create_file") {
        ToolPlan::CreateFile { path: str_or(args, "path", ""), content: str_or(args, "content", "") }
    } else if n == String::from_str("edit_file") {
        ToolPlan::EditFile {
            path: str_or(args, "path", ""),
            old_text: str_or(args, "old_text", ""),
            new_text: str_or(args, "new_text", ""),
        }
    } else if n == String::from_str("fd_search") {
        ToolPlan::Fd {
            pattern: str_or(args, "pattern", ""),
            path: str_or(args, "path", "."),
            kind: json_str_field(args, "type"),
        }
    } else if n == String::from_str("rg_search") {
        ToolPlan::Rg {
            pattern: str_or(args, "pattern", ""),
            path: str_or(args, "path", "."),
            context_lines: json_i64_field(args, "context_lines"),
        }
    } else if n == String::from_str("bash") {
        match json_str_field(args, "command") {
            None => ToolPlan::MissingCommand,
            Some(command) => ToolPlan::Bash { command, args: json_array_field(args, "args") },
        }
    } else if n == String::from_str("http_request") {
        ToolPlan::Http {
            url: str_or(args, "url", ""),
            method: str_or(args, "method", "GET"),
            headers: json_object_field(args, "headers"),
            body: json_str_field(args, "body"),
            timeout_secs: json_u64_field(args, "timeout_seconds"),
        }
    } else {
        ToolPlan::Unknown { name: n }
    }
}

// ---------------------------------------------------------------------------
// Answers
// ---------------------------------------------------------------------------

/// The text a tool answers: its output, or its error after the tool's prefix.
pub open spec fn answer_text(prefix: Seq<char>, outcome: Result<Seq<char>, Seq<char>>) -> Seq<char> {
    match outcome {
        Ok(t) => t,
        Err(e) => prefix + e,
    }
}

/// The prefix a tool's error is answered with.
pub open spec fn error_prefix(p: ToolPlan) -> Seq<char> {
    match p {
        ToolPlan::ReadFile { .. } => "Error executing read tool: "@,
        ToolPlan::ListFiles { .. } => "Error executing list_files tool: "@,
        ToolPlan::CreateFile { .. } => "Error creating file: "@,
        ToolPlan::EditFile { .. } => "Error editing file: "@,
        ToolPlan::Fd { .. } => "Error running fd: "@,
        ToolPlan::Rg { .. } => "Error running rg: "@,
        ToolPlan::Bash { .. } => "Error running bash: "@,
        _ => Seq::empty(),
    }
}

fn prefix_of(p: &ToolPlan) -> (r: String)
    ensures
        r@ == error_prefix(*p),
{
    match p {
        ToolPlan::ReadFile { .. } => String::from_str("Error executing read tool: "),
        ToolPlan::ListFiles { .. } => String::from_str("Error executing list_files tool: "),
        ToolPlan::CreateFile { .. } => String::from_str("Error creating file: "),
        ToolPlan::EditFile { .. } => String::from_str("Error editing file: "),
        ToolPlan::Fd { .. } => String::from_str("Error running fd: "),
        ToolPlan::Rg { .. } => String::from_str("Error running rg: "),
        ToolPlan::Bash { .. } => String::from_str("Error running bash: "),
        _ => String::new(),
    }
}

/// What a plain-text tool answers for what running it gave: its text, or its
/// error after the tool's prefix; no structured output.
pub fn finish_tool(plan: &ToolPlan, outcome: Result<String, String>) -> (r: ToolResult)
    ensures
        r.text@ == answer_text(
            error_prefix(*plan),
            match outcome {
                Ok(t) => Ok(t@),
                Err(e) => Err(e@),
            },
        ),
        r.structured is None,
{
    let text = match outcome {
        Ok(t) => t,
        Err(e) => {
            let mut s = prefix_of(plan);
            s.append(e.as_str());
            s
        },
    };
    ToolResult { text, structured: None }
}

/// The answer to a bash call without a command.
pub fn missing_command() -> (r: ToolResult)
    ensures
        r.text@ == "command argument is mandatory"@,
        r.structured is None,
{
    ToolResult { text: String::from_str("command argument is mandatory"), structured: None }
}

/// The answer to a call of a tool nobody offers, `name` written as `Debug`
/// writes a string (quoted and escaped).
pub fn unknown_tool(quoted_name: &str) -> (r: ToolResult)
    ensures
        r.text@ == "Unknown tool: "@ + quoted_name@,
        r.structured is None,
{
    let mut s = String::from_str("Unknown tool: ");
    s.append(quoted_name);
    ToolResult { text: s, structured: None }
}

/// How `Debug` writes the string `s` (quoted, with quotes, backslashes and
/// characters that are not printable escaped).
pub uninterp spec fn debug_text(s: Seq<char>) -> Seq<char>;

/// `format!("{:?}", s)` for a string.  Claimed: the text depends on `s`
/// alone (named `debug_text`).
#[verifier::external_body]
fn debug_quote(s: &str) -> (r: String)
    ensures
        r@ == debug_text(s@),
{
    format!("{s:?}")
}

/// The answer to a call that runs nothing: a bash call without a command,
/// or a tool nobody offers (its name written as `Debug` writes a string);
/// `None` for a call that runs something.
pub fn answer_without_running(plan: &ToolPlan) -> (r: Option<ToolResult>)
    ensures
        match plan {
            ToolPlan::MissingCommand => r matches Some(t) && t.text@ == "command argument is mandatory"@
                && t.structured is None,
            ToolPlan::Unknown { name } => r matches Some(t) && t.text@ == "Unknown tool: "@
                + debug_text(name@) && t.structured is None,
            _ => r is None,
        },
{
    match plan {
        ToolPlan::MissingCommand => Some(missing_command()),
        ToolPlan::Unknown { name } => Some(unknown_tool(debug_quote(name.as_str()).as_str())),
        _ => None,
    }
}

/// The response recorded for a call: its id and what the tool answered.
pub fn tool_response(call: &ToolCallRequest, result: ToolResult) -> (r: ToolCallResponse)
    ensures
        r.id@ == call.id@,
        r.result == result.text,
        r.structured == result.structured,
{
    ToolCallResponse { id: call.id.clone(), result: result.text, structured: result.structured }
}

/// Lines joined with newlines between them.
pub fn join_lines(lines: &Vec<String>) -> (r: String)
    ensures
        r@ == join_with(Seq::new(lines@.len(), |i: int| lines@[i]@), '\n'),
{
    let mut out = String::new();
    let mut i: usize = 0;
    while i < lines.len()
        invariant
            i <= lines@.len(),
            out@ == join_with(Seq::new(i as nat, |k: int| lines@[k]@), '\n'),
        decreases lines.len() - i,
    {
        let ghost before = Seq::new(i as nat, |k: int| lines@[k]@);
        let ghost after = Seq::new((i + 1) as nat, |k: int| lines@[k]@);
        assert(after.drop_last() =~= before);
        if i > 0 {
            out.append("\n");
            proof {
                reveal_strlit("\n");
            }
        }
        out.append(lines[i].as_str());
        i = i + 1;
    }
    assert(Seq::new(lines@.len(), |k: int| lines@[k]@) =~= Seq::new(i as nat, |k: int| lines@[k]@));
    out
}

// ---------------------------------------------------------------------------
// Reading a line range
// ---------------------------------------------------------------------------

/// Why a range of lines cannot be read.
pub enum ReadError {
    Io(String),
    InvalidRange { from: usize, to: usize },
    LineOutOfBounds { requested: usize, total: usize },
}

impl ReadError {
    /// The error as it is shown.
    pub fn to_text(&self) -> (r: String)
        ensures
            r@ == match *self {
                ReadError::Io(e) => "IO error: "@ + e@,
                ReadError::InvalidRange { from, to } => "Invalid range: 'from' ("@ + decimal(
                    from as nat,
                ) + ") must be <= 'to' ("@ + decimal(to as nat) + ")"@,
                ReadError::LineOutOfBounds { requested, total } => "Line "@ + decimal(
                    requested as nat,
                ) + " out of bounds, file has "@ + decimal(total as nat) + " lines"@,
            },
    {
        match self {
            ReadError::Io(e) => {
                let mut s = String::from_str("IO error: ");
                s.append(e.as_str());
                s
            },
            ReadError::InvalidRange { from, to } => {
                let mut s = String::from_str("Invalid range: 'from' (");
                s.append(u64_to_string(*from as u64).as_str());
                s.append(") must be <= 'to' (");
                s.append(u64_to_string(*to as u64).as_str());
                s.append(")");
                s
            },
            ReadError::LineOutOfBounds { requested, total } => {
                let mut s = String::from_str("Line ");
                s.append(u64_to_string(*requested as u64).as_str());
                s.append(" out of bounds, file has ");
                s.append(u64_to_string(*total as u64).as_str());
                s.append(" lines");
                s
            },
        }
    }
}

/// Lines `from..=to` (1-based) of a file whose lines are `lines`: a range
/// with `from > to` or `from == 0` is invalid, a start past the end is out
/// of bounds, and an end past the end reads to the end.
pub open spec fn range_result(lines: Seq<Seq<char>>, from: usize, to: usize) -> Result<
    Seq<Seq<char>>,
    (usize, usize, bool),
> {
    if from > to || from == 0 {
        Err((from, to, true))
    } else if from > lines.len() {
        Err((from, lines.len() as usize, false))
    } else {
        Ok(
            lines.subrange(
                from - 1,
                if to < lines.len() {
                    to as int
                } else {
                    lines.len() as int
                },
            ),
        )
    }
}

/// Refuses a range before the file is opened: `from > to` or `from == 0`
/// is invalid.
pub fn check_range(from: usize, to: usize) -> (r: Result<(), ReadError>)
    ensures
        (from > to || from == 0) ==> (r matches Err(ReadError::InvalidRange { from: f, to: t })
            && f == from && t == to),
        !(from > to || from == 0) ==> r is Ok,
{
    if from > to || from == 0 {
        Err(ReadError::InvalidRange { from, to })
    } else {
        Ok(())
    }
}

/// Selects lines `from..=to` (1-based) of a file's lines.
pub fn select_lines(lines: &Vec<String>, from: usize, to: usize) -> (r: Result<Vec<String>, ReadError>)
    ensures
        ({
            let ls = Seq::new(lines@.len(), |i: int| lines@[i]@);
            match range_result(ls, from, to) {
                Ok(sel) => r matches Ok(v) && v@.len() == sel.len() && forall|i: int|
                    0 <= i < sel.len() ==> (#[trigger] v@[i])@ == sel[i],
                Err((a, b, true)) => r matches Err(ReadError::InvalidRange { from: f, to: t })
                    && f == a && t == b,
                Err((a, b, false)) => r matches Err(ReadError::LineOutOfBounds {
                    requested: q,
                    total: t,
                }) && q == a && t == b,
            }
        }),
{
    if from > to || from == 0 {
        return Err(ReadError::InvalidRange { from, to });
    }
    if from > lines.len() {
        return Err(ReadError::LineOutOfBounds { requested: from, total: lines.len() });
    }
    let end = if to < lines.len() {
        to
    } else {
        lines.len()
    };
    let mut out: Vec<String> = Vec::new();
    let mut i: usize = from - 1;
    while i < end
        invariant
            from >= 1,
            from - 1 <= i <= end <= lines@.len(),
            out@.len() == i - (from - 1),
            forall|k: int| 0 <= k < out@.len() ==> (#[trigger] out@[k])@ == lines@[from - 1 + k]@,
        decreases end - i,
    {
        out.push(lines[i].clone());
        i = i + 1;
    }
    Ok(out)
}

// ---------------------------------------------------------------------------
// Editing by exact text
// ---------------------------------------------------------------------------

/// Number of non-overlapping occurrences of `n` in `h`, from the left (what
/// `str::matches(..).count()` gives); an empty pattern matches at each of the
/// `h.len() + 1` character boundaries.
pub open spec fn count_matches(h: Seq<char>, n: Seq<char>) -> nat
    decreases h.len(),
{
    if n.len() == 0 {
        h.len() + 1
    } else if h.len() < n.len() {
        0
    } else if h.take(n.len() as int) == n {
        1 + count_matches(h.skip(n.len() as int), n)
    } else {
        count_matches(h.drop_first(), n)
    }
}

/// `h` with its first occurrence of `n` replaced by `new` (`replacen(n, new, 1)`).
pub open spec fn replace_first(h: Seq<char>, n: Seq<char>, new: Seq<char>) -> Seq<char>
    decreases h.len(),
{
    if h.len() < n.len() {
        h
    } else if h.take(n.len() as int) == n {
        new + h.skip(n.len() as int)
    } else if h.len() > 0 {
        seq![h[0]] + replace_first(h.drop_first(), n, new)
    } else {
        h
    }
}

/// An edit replaces the occurrence it finds and keeps the text around it:
/// when `n` occurs in `h`, it stands at some place `i`, and the result is
/// `h` up to `i`, then `new`, then `h` after the occurrence.
pub proof fn law_edit_in_place(h: Seq<char>, n: Seq<char>, new: Seq<char>)
    requires
        n.len() > 0,
        count_matches(h, n) >= 1,
    ensures
        exists|i: int|
            0 <= i && i + n.len() <= h.len() && #[trigger] h.subrange(i, i + n.len()) == n
                && replace_first(h, n, new) == h.take(i) + new + h.skip(i + n.len()),
    decreases h.len(),
{
    assert(h.len() >= n.len());
    if h.take(n.len() as int) == n {
        assert(h.subrange(0, n.len() as int) == n);
        assert(replace_first(h, n, new) == new + h.skip(n.len() as int));
        assert(h.take(0) + new + h.skip(n.len() as int) =~= new + h.skip(n.len() as int));
        assert(h.subrange(0int, 0int + n.len()) == n);
    } else {
        let t = h.drop_first();
        assert(count_matches(t, n) >= 1);
        assert(replace_first(h, n, new) == seq![h[0]] + replace_first(t, n, new));
        law_edit_in_place(t, n, new);
        let j = choose|j: int|
            0 <= j && j + n.len() <= t.len() && #[trigger] t.subrange(j, j + n.len()) == n
                && replace_first(t, n, new) == t.take(j) + new + t.skip(j + n.len());
        assert(h.subrange(j + 1, j + 1 + n.len()) =~= t.subrange(j, j + n.len()));
        assert(seq![h[0]] + (t.take(j) + new + t.skip(j + n.len())) =~= h.take(j + 1) + new
            + h.skip(j + 1 + n.len()));
        assert(h.subrange(j + 1, (j + 1) + n.len()) == n);
    }
}

/// Why an edit is refused.
pub enum EditError {
    Io(String),
    NotFound,
    Ambiguous(usize),
}

impl EditError {
    /// The error as it is shown.
    pub fn to_text(&self) -> (r: String)
        ensures
            r@ == match *self {
                EditError::Io(e) => "IO error: "@ + e@,
                EditError::NotFound => "old_text not found in file"@,
                EditError::Ambiguous(n) => "old_text matches "@ + decimal(n as nat)
                    + " locations — make it more specific"@,
            },
    {
        match self {
            EditError::Io(e) => {
                let mut s = String::from_str("IO error: ");
                s.append(e.as_str());
                s
            },
            EditError::NotFound => String::from_str("old_text not found in file"),
            EditError::Ambiguous(n) => {
                let mut s = String::from_str("old_text matches ");
                s.append(u64_to_string(*n as u64).as_str());
                s.append(" locations — make it more specific");
                s
            },
        }
    }
}

proof fn lemma_first_unique(h: Seq<char>, n: Seq<char>, i: int, j: int)
    requires
        first_occurrence(h, n, i),
        first_occurrence(h, n, j),
    ensures
        i == j,
{
    if i < j {
        assert(!occurs_at(h, n, i));
    }
    if j < i {
        assert(!occurs_at(h, n, j));
    }
}

fn skip_from(v: &Vec<char>, k: usize) -> (r: Vec<char>)
    requires
        k <= v@.len(),
    ensures
        r@ == v@.skip(k as int),
{
    let mut out: Vec<char> = Vec::new();
    let mut i: usize = k;
    while i < v.len()
        invariant
            k <= i <= v@.len(),
            out@ == v@.subrange(k as int, i as int),
        decreases v.len() - i,
    {
        out.push(v[i]);
        assert(v@.subrange(k as int, i as int).push(v@[i as int]) =~= v@.subrange(k as int, i + 1));
        i = i + 1;
    }
    assert(v@.subrange(k as int, v@.len() as int) =~= v@.skip(k as int));
    out
}

proof fn lemma_count_bound(h: Seq<char>, n: Seq<char>)
    requires
        n.len() > 0,
    ensures
        count_matches(h, n) <= h.len(),
    decreases h.len(),
{
    if h.len() >= n.len() {
        if h.take(n.len() as int) == n {
            lemma_count_bound(h.skip(n.len() as int), n);
        } else {
            lemma_count_bound(h.drop_first(), n);
        }
    }
}

/// Counts the non-overlapping occurrences of `old_text` in `content`.
pub fn count_occurrences(content: &str, old_text: &str) -> (r: usize)
    requires
        content@.len() < usize::MAX,
    ensures
        r == count_matches(content@, old_text@),
{
    let h = str_to_chars(content);
    let n = str_to_chars(old_text);
    if n.len() == 0 {
        return h.len() + 1;
    }
    let hl = h.len();
    let mut total: usize = 0;
    let mut i: usize = 0;
    proof {
        assert(h@.skip(0) =~= h@);
    }
    while n.len() <= hl - i
        invariant
            n@ == old_text@,
            h@ == content@,
            hl == h@.len(),
            n@.len() > 0,
            i <= hl,
            total + count_matches(h@.skip(i as int), n@) == count_matches(h@, n@),
        decreases hl - i,
    {
        let ghost t = h@.skip(i as int);
        if matches_at(&h, &n, i) {
            assert(t.take(n@.len() as int) =~= h@.subrange(i as int, i + n@.len()));
            assert(t.skip(n@.len() as int) =~= h@.skip(i + n@.len()));
            proof {
                lemma_count_bound(h@, n@);
                lemma_count_bound(t.skip(n@.len() as int), n@);
            }
            total = total + 1;
            i = i + n.len();
        } else {
            assert(t.take(n@.len() as int) =~= h@.subrange(i as int, i + n@.len()));
            assert(t.drop_first() =~= h@.skip(i + 1));
            i = i + 1;
        }
    }
    total
}

/// The characters of `h` from `i` on, with the first occurrence of `n` there
/// replaced by `new`.
fn replaced_from(h: &Vec<char>, n: &Vec<char>, new: &Vec<char>) -> (r: Vec<char>)
    ensures
        r@ == replace_first(h@, n@, new@),
{
    let hl = h.len();
    let mut out: Vec<char> = Vec::new();
    let mut i: usize = 0;
    proof {
        assert(h@.skip(0) =~= h@);
    }
    loop
        invariant
            hl == h@.len(),
            i <= hl,
            out@ + replace_first(h@.skip(i as int), n@, new@) == replace_first(h@, n@, new@),
            out@ == h@.take(i as int),
        decreases hl - i,
    {
        let ghost t = h@.skip(i as int);
        if hl - i < n.len() {
            let mut rest = skip_from(h, i);
            out.append(&mut rest);
            return out;
        }
        if matches_at(h, n, i) {
            assert(t.take(n@.len() as int) =~= h@.subrange(i as int, i + n@.len()));
            assert(t.skip(n@.len() as int) =~= h@.skip(i + n@.len()));
            let mut mid = new.clone();
            assert(mid@ =~= new@);
            out.append(&mut mid);
            let mut rest = skip_from(h, i + n.len());
            out.append(&mut rest);
            assert(out@ =~= h@.take(i as int) + replace_first(t, n@, new@));
            return out;
        }
        if n.len() == 0 {
            assert(h@.subrange(i as int, i as int) =~= n@);
        }
        assert(i < hl);
        assert(t.take(n@.len() as int) =~= h@.subrange(i as int, i + n@.len()));
        assert(t.drop_first() =~= h@.skip(i + 1));
        assert(h@.take(i as int).push(h@[i as int]) =~= h@.take(i + 1));
        assert(out@.push(h@[i as int]) + replace_first(h@.skip(i + 1), n@, new@) =~= out@ + (
        seq![t[0]] + replace_first(t.drop_first(), n@, new@)));
        out.push(h[i]);
        i = i + 1;
    }
}

/// The file content after replacing the one occurrence of `old_text` by
/// `new_text`: refused when `old_text` does not occur, or occurs more than
/// once (the error then says how many times).
pub fn apply_edit(content: &str, old_text: &str, new_text: &str) -> (r: Result<String, EditError>)
    requires
        content@.len() < usize::MAX,
    ensures
        count_matches(content@, old_text@) == 0 ==> r matches Err(EditError::NotFound),
        count_matches(content@, old_text@) > 1 ==> (r matches Err(EditError::Ambiguous(n)) && n
            == count_matches(content@, old_text@)),
        count_matches(content@, old_text@) == 1 ==> (r matches Ok(s) && s@ == replace_first(
            content@,
            old_text@,
            new_text@,
        )),
{
    let total_matches = count_occurrences(content, old_text);
    if total_matches == 0 {
        return Err(EditError::NotFound);
    }
    if total_matches > 1 {
        return Err(EditError::Ambiguous(total_matches));
    }
    let h = str_to_chars(content);
    let n = str_to_chars(old_text);
    let new = str_to_chars(new_text);
    Ok(chars_to_string(&replaced_from(&h, &n, &new)))
}

// ---------------------------------------------------------------------------
// Directory entries and searches
// ---------------------------------------------------------------------------

/// How a directory entry is listed: a file by its name, a directory by its
/// name and a backslash, anything else not at all.
pub fn list_entry(name: &str, is_file: bool, is_dir: bool) -> (r: Option<String>)
    ensures
        is_file ==> (r matches Some(s) && s@ == name@),
        !is_file && is_dir ==> (r matches Some(s) && s@ == name@.push('\\')),
        !is_file && !is_dir ==> r is None,
{
    if is_file {
        Some(String::from_str(name))
    } else if is_dir {
        let mut s = String::from_str(name);
        s.append("\\");
        proof {
            reveal_strlit("\\");
        }
        assert(s@ =~= name@.push('\\'));
        Some(s)
    } else {
        None
    }
}

/// What creating a file answers.
pub fn created_message(path: &str) -> (r: String)
    ensures
        r@ == "Successfully created '"@ + path@ + "'"@,
{
    let mut s = String::from_str("Successfully created '");
    s.append(path);
    s.append("'");
    s
}

/// What a successful edit answers.
pub fn edited_message(path: &str) -> (r: String)
    ensures
        r@ == "Successfully edited '"@ + path@ + "'"@,
{
    let mut s = String::from_str("Successfully edited '");
    s.append(path);
    s.append("'");
    s
}

/// The arguments `fd` runs with: the pattern, the path, and `--type` with the
/// kind when one is given.
pub fn fd_args(pattern: &str, path: &str, kind: &Option<String>) -> (r: Vec<String>)
    ensures
        r@.len() == if kind is Some { 4int } else { 2 },
        r@[0]@ == pattern@,
        r@[1]@ == path@,
        kind matches Some(k) ==> r@[2]@ == "--type"@ && r@[3]@ == k@,
{
    let mut v: Vec<String> = Vec::new();
    v.push(String::from_str(pattern));
    v.push(String::from_str(path));
    if let Some(k) = kind {
        v.push(String::from_str("--type"));
        v.push(k.clone());
    }
    v
}

/// The arguments `rg` runs with: line numbers, no colour, `-C` with the
/// context when one is given, the pattern and the path.
pub fn rg_args(pattern: &str, path: &str, context_lines: Option<i64>) -> (r: Vec<String>)
    ensures
        r@.len() == if context_lines is Some { 6int } else { 4 },
        r@[0]@ == "--line-number"@,
        r@[1]@ == "--color=never"@,
        context_lines matches Some(n) ==> r@[2]@ == "-C"@ && r@[3]@ == signed_decimal(n as int),
        r@[r@.len() - 2]@ == pattern@,
        r@[r@.len() - 1]@ == path@,
{
    let mut v: Vec<String> = Vec::new();
    v.push(String::from_str("--line-number"));
    v.push(String::from_str("--color=never"));
    if let Some(n) = context_lines {
        v.push(String::from_str("-C"));
        v.push(i64_to_string(n));
    }
    v.push(String::from_str(pattern));
    v.push(String::from_str(path));
    v
}

/// What a search answers for its output: the output, or `No matches found.`
/// when it printed nothing.
pub fn search_answer(stdout: String) -> (r: String)
    ensures
        stdout@.len() == 0 ==> r@ == "No matches found."@,
        stdout@.len() > 0 ==> r@ == stdout@,
{
    if stdout.as_str().is_empty() {
        String::from_str("No matches found.")
    } else {
        stdout
    }
}

} // verus!
