//! The tools offered to the models: each tool's name, what it is for, and
//! the JSON schema of its arguments.
use vstd::prelude::*;

use crate::models::{Tool, ToolFunction};

verus! {

fn tool(name: &str, description: &str, parameters: &str, strict: bool) -> (r: Tool)
    ensures
        r.tool_type@ == "function"@,
        r.function.name@ == name@,
        r.function.description@ == description@,
        r.function.parameters matches Some(p) && p@ == parameters@,
        r.function.strict == Some(strict),
{
    Tool {
        tool_type: String::from_str("function"),
        function: ToolFunction {
            name: String::from_str(name),
            description: String::from_str(description),
            parameters: Some(String::from_str(parameters)),
            strict: Some(strict),
        },
    }
}

/// `t` is the `read_file` tool: its type, description, argument schema and
/// strictness.
pub open spec fn is_read_tool(t: Tool) -> bool {
    &&& t.tool_type@ == "function"@
    &&& t.function.name@ == "read_file"@
    &&& t.function.description@ == "partial file read based on line_from and line_to parameters. keep line_to rather small number so that parts of file needed is fetched. if line_to is greater than file lines, line_from to end of file is returned"@
    &&& t.function.parameters matches Some(p) && p@ == "{\"type\":\"object\",\"properties\":{\"path\":{\"type\":\"string\",\"description\":\"Path to the file to read\"},\"line_from\":{\"type\":\"integer\",\"description\":\"Starting line number to read from\"},\"line_to\":{\"type\":\"integer\",\"description\":\"Ending line number to read to.\"}},\"additionalProperties\":false,\"required\":[\"path\",\"line_from\",\"line_to\"]}"@
    &&& t.function.strict == Some(true)
}

/// The `read_file` tool, with the JSON schema of its arguments.
pub fn read_tool() -> (r: Tool)
    ensures
        is_read_tool(r),
{
    tool(
        "read_file",
        "partial file read based on line_from and line_to parameters. keep line_to rather small number so that parts of file needed is fetched. if line_to is greater than file lines, line_from to end of file is returned",
        "{\"type\":\"object\",\"properties\":{\"path\":{\"type\":\"string\",\"description\":\"Path to the file to read\"},\"line_from\":{\"type\":\"integer\",\"description\":\"Starting line number to read from\"},\"line_to\":{\"type\":\"integer\",\"description\":\"Ending line number to read to.\"}},\"additionalProperties\":false,\"required\":[\"path\",\"line_from\",\"line_to\"]}",
        true,
    )
}

/// `t` is the `list_files_and_directories` tool: its type, description, argument schema and
/// strictness.
pub open spec fn is_list_files_tool(t: Tool) -> bool {
    &&& t.tool_type@ == "function"@
    &&& t.function.name@ == "list_files_and_directories"@
    &&& t.function.description@ == "List all files and directories in a given directory. directories are shown with \"\\\" at the end of name"@
    &&& t.function.parameters matches Some(p) && p@ == "{\"type\":\"object\",\"properties\":{\"path\":{\"type\":\"string\",\"description\":\"Path to the directory to list files from\"}},\"additionalProperties\":false,\"required\":[\"path\"]}"@
    &&& t.function.strict == Some(true)
}

/// The `list_files_and_directories` tool, with the JSON schema of its arguments.
pub fn list_files_tool() -> (r: Tool)
    ensures
        is_list_files_tool(r),
{
    tool(
        "list_files_and_directories",
        "List all files and directories in a given directory. directories are shown with \"\\\" at the end of name",
        "{\"type\":\"object\",\"properties\":{\"path\":{\"type\":\"string\",\"description\":\"Path to the directory to list files from\"}},\"additionalProperties\":false,\"required\":[\"path\"]}",
        true,
    )
}

/// `t` is the `create_file` tool: its type, description, argument schema and
/// strictness.
pub open spec fn is_create_file_tool(t: Tool) -> bool {
    &&& t.tool_type@ == "function"@
    &&& t.function.name@ == "create_file"@
    &&& t.function.description@ == "Create a new file at the given path with the provided content. Parent directories are created automatically if they do not exist. Overwrites the file if it already exists."@
    &&& t.function.parameters matches Some(p) && p@ == "{\"type\":\"object\",\"properties\":{\"path\":{\"type\":\"string\",\"description\":\"Path of the file to create\"},\"content\":{\"type\":\"string\",\"description\":\"Full text content to write into the file\"}},\"additionalProperties\":false,\"required\":[\"path\",\"content\"]}"@
    &&& t.function.strict == Some(true)
}

/// The `create_file` tool, with the JSON schema of its arguments.
pub fn create_file_tool() -> (r: Tool)
    ensures
        is_create_file_tool(r),
{
    tool(
        "create_file",
        "Create a new file at the given path with the provided content. Parent directories are created automatically if they do not exist. Overwrites the file if it already exists.",
        "{\"type\":\"object\",\"properties\":{\"path\":{\"type\":\"string\",\"description\":\"Path of the file to create\"},\"content\":{\"type\":\"string\",\"description\":\"Full text content to write into the file\"}},\"additionalProperties\":false,\"required\":[\"path\",\"content\"]}",
        true,
    )
}

/// `t` is the `edit_file` tool: its type, description, argument schema and
/// strictness.
pub open spec fn is_edit_file_tool(t: Tool) -> bool {
    &&& t.tool_type@ == "function"@
    &&& t.function.name@ == "edit_file"@
    &&& t.function.description@ == "Edit an existing file by replacing an exact occurrence of old_text with new_text. old_text must match exactly once in the file — the call fails if it is not found or appears more than once. Use read_file first to obtain the exact text to match."@
    &&& t.function.parameters matches Some(p) && p@ == "{\"type\":\"object\",\"properties\":{\"path\":{\"type\":\"string\",\"description\":\"Path to the file to edit\"},\"old_text\":{\"type\":\"string\",\"description\":\"Exact text to search for in the file. Must appear exactly once.\"},\"new_text\":{\"type\":\"string\",\"description\":\"Text to replace old_text with\"}},\"additionalProperties\":false,\"required\":[\"path\",\"old_text\",\"new_text\"]}"@
    &&& t.function.strict == Some(true)
}

/// The `edit_file` tool, with the JSON schema of its arguments.
pub fn edit_file_tool() -> (r: Tool)
    ensures
        is_edit_file_tool(r),
{
    tool(
        "edit_file",
        "Edit an existing file by replacing an exact occurrence of old_text with new_text. old_text must match exactly once in the file — the call fails if it is not found or appears more than once. Use read_file first to obtain the exact text to match.",
        "{\"type\":\"object\",\"properties\":{\"path\":{\"type\":\"string\",\"description\":\"Path to the file to edit\"},\"old_text\":{\"type\":\"string\",\"description\":\"Exact text to search for in the file. Must appear exactly once.\"},\"new_text\":{\"type\":\"string\",\"description\":\"Text to replace old_text with\"}},\"additionalProperties\":false,\"required\":[\"path\",\"old_text\",\"new_text\"]}",
        true,
    )
}

/// `t` is the `fd_search` tool: its type, description, argument schema and
/// strictness.
pub open spec fn is_fd_tool(t: Tool) -> bool {
    &&& t.tool_type@ == "function"@
    &&& t.function.name@ == "fd_search"@
    &&& t.function.description@ == "Search for files and directories by name using fd (fd-find). Returns matching paths one per line. Use 'type' to filter: 'f' = files only, 'd' = directories only, 'l' = symlinks only. Omit 'type' to match all entry kinds. Omit 'path' to search from the current working directory."@
    &&& t.function.parameters matches Some(p) && p@ == "{\"type\":\"object\",\"properties\":{\"pattern\":{\"type\":\"string\",\"description\":\"The name pattern to search for (regex)\"},\"path\":{\"type\":\"string\",\"description\":\"Root directory to search in. Defaults to '.' (current directory)\"},\"type\":{\"type\":\"string\",\"description\":\"Entry type filter: 'f' for files, 'd' for directories, 'l' for symlinks\",\"enum\":[\"f\",\"d\",\"l\"]}},\"additionalProperties\":false,\"required\":[\"pattern\"]}"@
    &&& t.function.strict == Some(false)
}

/// The `fd_search` tool, with the JSON schema of its arguments.
pub fn fd_tool() -> (r: Tool)
    ensures
        is_fd_tool(r),
{
    tool(
        "fd_search",
        "Search for files and directories by name using fd (fd-find). Returns matching paths one per line. Use 'type' to filter: 'f' = files only, 'd' = directories only, 'l' = symlinks only. Omit 'type' to match all entry kinds. Omit 'path' to search from the current working directory.",
        "{\"type\":\"object\",\"properties\":{\"pattern\":{\"type\":\"string\",\"description\":\"The name pattern to search for (regex)\"},\"path\":{\"type\":\"string\",\"description\":\"Root directory to search in. Defaults to '.' (current directory)\"},\"type\":{\"type\":\"string\",\"description\":\"Entry type filter: 'f' for files, 'd' for directories, 'l' for symlinks\",\"enum\":[\"f\",\"d\",\"l\"]}},\"additionalProperties\":false,\"required\":[\"pattern\"]}",
        false,
    )
}

/// `t` is the `rg_search` tool: its type, description, argument schema and
/// strictness.
pub open spec fn is_rg_tool(t: Tool) -> bool {
    &&& t.tool_type@ == "function"@
    &&& t.function.name@ == "rg_search"@
    &&& t.function.description@ == "Search file contents using ripgrep (rg). Returns matching lines prefixed with their file path and line number. Optionally include N surrounding context lines above and below each match. Omit 'path' to search from the current working directory."@
    &&& t.function.parameters matches Some(p) && p@ == "{\"type\":\"object\",\"properties\":{\"pattern\":{\"type\":\"string\",\"description\":\"The regex pattern to search for inside file contents\"},\"path\":{\"type\":\"string\",\"description\":\"File or directory to search in. Defaults to '.' (current directory)\"},\"context_lines\":{\"type\":\"integer\",\"description\":\"Number of lines of context to show around each match (passed as -C to rg)\"}},\"additionalProperties\":false,\"required\":[\"pattern\"]}"@
    &&& t.function.strict == Some(false)
}

/// The `rg_search` tool, with the JSON schema of its arguments.
pub fn rg_tool() -> (r: Tool)
    ensures
        is_rg_tool(r),
{
    tool(
        "rg_search",
        "Search file contents using ripgrep (rg). Returns matching lines prefixed with their file path and line number. Optionally include N surrounding context lines above and below each match. Omit 'path' to search from the current working directory.",
        "{\"type\":\"object\",\"properties\":{\"pattern\":{\"type\":\"string\",\"description\":\"The regex pattern to search for inside file contents\"},\"path\":{\"type\":\"string\",\"description\":\"File or directory to search in. Defaults to '.' (current directory)\"},\"context_lines\":{\"type\":\"integer\",\"description\":\"Number of lines of context to show around each match (passed as -C to rg)\"}},\"additionalProperties\":false,\"required\":[\"pattern\"]}",
        false,
    )
}

/// `t` is the `bash` tool: its type, description, argument schema and
/// strictness.
pub open spec fn is_bash_tool(t: Tool) -> bool {
    &&& t.tool_type@ == "function"@
    &&& t.function.name@ == "bash"@
    &&& t.function.description@ == "bash access for commands to run on OS level. other tools should be prefferedbefore bash access. Access is limited. command and args are passed to bash -c "@
    &&& t.function.parameters matches Some(p) && p@ == "{\"type\":\"object\",\"properties\":{\"command\":{\"type\":\"string\",\"description\":\"base command to run\"},\"args\":{\"type\":\"array\",\"description\":\"all arguments for the command as an array of strings\",\"items\":{\"type\":\"string\"}}},\"additionalProperties\":false,\"required\":[\"command\"]}"@
    &&& t.function.strict == Some(true)
}

/// The `bash` tool, with the JSON schema of its arguments.
pub fn bash_tool() -> (r: Tool)
    ensures
        is_bash_tool(r),
{
    tool(
        "bash",
        "bash access for commands to run on OS level. other tools should be prefferedbefore bash access. Access is limited. command and args are passed to bash -c ",
        "{\"type\":\"object\",\"properties\":{\"command\":{\"type\":\"string\",\"description\":\"base command to run\"},\"args\":{\"type\":\"array\",\"description\":\"all arguments for the command as an array of strings\",\"items\":{\"type\":\"string\"}}},\"additionalProperties\":false,\"required\":[\"command\"]}",
        true,
    )
}

/// `t` is the `http_request` tool: its type, description, argument schema and
/// strictness.
pub open spec fn is_http_request_tool(t: Tool) -> bool {
    &&& t.tool_type@ == "function"@
    &&& t.function.name@ == "http_request"@
    &&& t.function.description@ == "Perform an HTTP request to a public URL. Supports GET, POST, PUT, DELETE. Headers and an optional body can be provided. Internal/private IP addresses are blocked (SSRF protection). Response includes status code, relevant headers, and the body (truncated at 1 MB)."@
    &&& t.function.parameters matches Some(p) && p@ == "{\"type\":\"object\",\"properties\":{\"url\":{\"type\":\"string\",\"description\":\"The URL to send the request to (must be http:// or https://)\"},\"method\":{\"type\":\"string\",\"description\":\"HTTP method. Defaults to GET.\",\"enum\":[\"GET\",\"POST\",\"PUT\",\"DELETE\"]},\"headers\":{\"type\":\"object\",\"description\":\"Optional HTTP headers as key-value pairs.\"},\"body\":{\"type\":\"string\",\"description\":\"Optional request body string (used with POST/PUT).\"},\"timeout_seconds\":{\"type\":\"integer\",\"description\":\"Request timeout in seconds (max 60). Defaults to 30.\"}},\"additionalProperties\":false,\"required\":[\"url\"]}"@
    &&& t.function.strict == Some(true)
}

/// The `http_request` tool, with the JSON schema of its arguments.
pub fn http_request_tool() -> (r: Tool)
    ensures
        is_http_request_tool(r),
{
    tool(
        "http_request",
        "Perform an HTTP request to a public URL. Supports GET, POST, PUT, DELETE. Headers and an optional body can be provided. Internal/private IP addresses are blocked (SSRF protection). Response includes status code, relevant headers, and the body (truncated at 1 MB).",
        "{\"type\":\"object\",\"properties\":{\"url\":{\"type\":\"string\",\"description\":\"The URL to send the request to (must be http:// or https://)\"},\"method\":{\"type\":\"string\",\"description\":\"HTTP method. Defaults to GET.\",\"enum\":[\"GET\",\"POST\",\"PUT\",\"DELETE\"]},\"headers\":{\"type\":\"object\",\"description\":\"Optional HTTP headers as key-value pairs.\"},\"body\":{\"type\":\"string\",\"description\":\"Optional request body string (used with POST/PUT).\"},\"timeout_seconds\":{\"type\":\"integer\",\"description\":\"Request timeout in seconds (max 60). Defaults to 30.\"}},\"additionalProperties\":false,\"required\":[\"url\"]}",
        true,
    )
}

/// Every tool, in the order they are offered: read, list, create, edit,
/// fd, rg, bash, http.
pub fn default_tools() -> (r: Vec<Tool>)
    ensures
        r@.len() == 8,
        is_read_tool(r@[0]),
        is_list_files_tool(r@[1]),
        is_create_file_tool(r@[2]),
        is_edit_file_tool(r@[3]),
        is_fd_tool(r@[4]),
        is_rg_tool(r@[5]),
        is_bash_tool(r@[6]),
        is_http_request_tool(r@[7]),
{
    let mut v: Vec<Tool> = Vec::new();
    v.push(read_tool());
    v.push(list_files_tool());
    v.push(create_file_tool());
    v.push(edit_file_tool());
    v.push(fd_tool());
    v.push(rg_tool());
    v.push(bash_tool());
    v.push(http_request_tool());
    v
}

} // verus!
