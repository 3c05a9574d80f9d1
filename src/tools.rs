//! The local tools the model may call: their advertised definitions, the
//! routing of a call to a tool, and the shaping of every outcome into a result.

pub mod bash;
pub mod edit;
pub mod list;
pub mod read;
pub mod search;

use vstd::prelude::*;
use vstd::utf8::encode_utf8;
use crate::api::{BlockModel, ContentBlock, ToolInput};
use crate::text::{
    byte_prefix, byte_prefix_of, concat, same_text, floor_boundary, floor_char_boundary, lemma_floor_boundary,
};

verus! {

/// Files above this size are neither read nor edited.
pub const MAX_READ_SIZE: u64 = 1024 * 1024;

/// Command and search output is cut at this many bytes.
pub const MAX_BASH_OUTPUT: usize = 100 * 1024;

/// Appended to output that was cut at `MAX_BASH_OUTPUT`.
pub const OUTPUT_MARKER: &'static str = "\n... (output truncated at 100KB)";

pub const CORRUPT_INPUT: &'static str = "tool input was corrupt (JSON parse failed)";

#[derive(Debug, Clone, Copy, PartialEq, Eq, Structural)]
pub enum ToolKind {
    ReadFile,
    ListFiles,
    Bash,
    EditFile,
    CodeSearch,
}

/// One named parameter of a tool, as advertised to the model.
#[derive(Debug, Clone, Copy, PartialEq, Eq)]
pub struct ParamSpec {
    pub name: &'static str,
    /// The JSON type of the parameter: `string` or `boolean`.
    pub kind: &'static str,
    pub description: &'static str,
    pub required: bool,
}

/// A tool as advertised to the model, and which tool runs it.
#[derive(Debug, Clone)]
pub struct ToolDef {
    pub name: &'static str,
    pub description: &'static str,
    pub params: Vec<ParamSpec>,
    pub kind: ToolKind,
}

pub open spec fn param_is(p: ParamSpec, name: Seq<char>, kind: Seq<char>, required: bool) -> bool {
    p.name@ == name && p.kind@ == kind && p.required == required
}

pub fn param(
    name: &'static str,
    kind: &'static str,
    description: &'static str,
    required: bool,
) -> (r: ParamSpec)
    ensures
        r == (ParamSpec { name, kind, description, required }),
{
    ParamSpec { name, kind, description, required }
}

/// The tool registered under `name`.
pub open spec fn tool_named(name: Seq<char>) -> Option<ToolKind> {
    if name == "read_file"@ {
        Some(ToolKind::ReadFile)
    } else if name == "list_files"@ {
        Some(ToolKind::ListFiles)
    } else if name == "bash"@ {
        Some(ToolKind::Bash)
    } else if name == "edit_file"@ {
        Some(ToolKind::EditFile)
    } else if name == "code_search"@ {
        Some(ToolKind::CodeSearch)
    } else {
        None
    }
}

pub fn find_tool(name: &str) -> (r: Option<ToolKind>)
    ensures
        r == tool_named(name@),
{
    if same_text(name, "read_file") {
        Some(ToolKind::ReadFile)
    } else if same_text(name, "list_files") {
        Some(ToolKind::ListFiles)
    } else if same_text(name, "bash") {
        Some(ToolKind::Bash)
    } else if same_text(name, "edit_file") {
        Some(ToolKind::EditFile)
    } else if same_text(name, "code_search") {
        Some(ToolKind::CodeSearch)
    } else {
        None
    }
}

/// The definitions of every tool, in the order they are advertised.
pub fn all_tool_schemas() -> (r: Vec<ToolDef>)
    ensures
        r@.len() == 5,
        r@[0].kind == ToolKind::ReadFile && r@[0].name@ == "read_file"@ && r@[0].description
            == read::DESCRIPTION && r@[0].params@.len() == 1,
        r@[1].kind == ToolKind::ListFiles && r@[1].name@ == "list_files"@ && r@[1].description
            == list::DESCRIPTION && r@[1].params@.len() == 2,
        r@[2].kind == ToolKind::Bash && r@[2].name@ == "bash"@ && r@[2].description
            == bash::DESCRIPTION && r@[2].params@.len() == 2,
        r@[3].kind == ToolKind::EditFile && r@[3].name@ == "edit_file"@ && r@[3].description
            == edit::DESCRIPTION && r@[3].params@.len() == 3,
        r@[4].kind == ToolKind::CodeSearch && r@[4].name@ == "code_search"@ && r@[4].description
            == search::DESCRIPTION && r@[4].params@.len() == 4,
        forall|i: int| 0 <= i < 5 ==> tool_named(#[trigger] r@[i].name@) == Some(r@[i].kind),
{
    proof {
        reveal_strlit("read_file");
        reveal_strlit("list_files");
        reveal_strlit("bash");
        reveal_strlit("edit_file");
        reveal_strlit("code_search");
        assert("read_file"@.len() == 9 && "list_files"@.len() == 10 && "bash"@.len() == 4);
        assert("edit_file"@.len() == 9 && "code_search"@.len() == 11);
        assert("read_file"@[0] != "edit_file"@[0]);
        assert(tool_named("read_file"@) == Some(ToolKind::ReadFile));
        assert(tool_named("list_files"@) == Some(ToolKind::ListFiles));
        assert(tool_named("bash"@) == Some(ToolKind::Bash));
        assert(tool_named("edit_file"@) == Some(ToolKind::EditFile));
        assert(tool_named("code_search"@) == Some(ToolKind::CodeSearch));
    }
    let mut v = Vec::new();
    v.push(read::tool());
    v.push(list::tool());
    v.push(bash::tool());
    v.push(edit::tool());
    v.push(search::tool());
    v
}

/// The text of the error for a call to a tool that is not registered.
pub open spec fn unknown_tool_text(name: Seq<char>) -> Seq<char> {
    "tool '"@ + name + "' not found"@
}

/// Which tool runs a call, or the error the call ends with: an unknown name,
/// or input that never arrived intact.
pub fn route_tool(name: &str, input: &Option<ToolInput>) -> (r: Result<ToolKind, String>)
    ensures
        match tool_named(name@) {
            None => r matches Err(e) && e@ == unknown_tool_text(name@),
            Some(k) => match input {
                None => r matches Err(e) && e@ == CORRUPT_INPUT@,
                Some(_) => r == Ok::<ToolKind, String>(k),
            },
        },
{
    match find_tool(name) {
        None => {
            let head = concat("tool '", name);
            Err(concat(head.as_str(), "' not found"))
        },
        Some(k) => match input {
            None => Err(String::from_str(CORRUPT_INPUT)),
            Some(_) => Ok(k),
        },
    }
}

/// The result block for call `id`: a success, or an error flagged as such.
pub fn tool_result(id: &str, outcome: Result<String, String>) -> (r: ContentBlock)
    ensures
        match outcome {
            Ok(s) => r@ == BlockModel::ToolResult { tool_use_id: id@, content: s@, is_error: None },
            Err(e) => r@ == BlockModel::ToolResult {
                tool_use_id: id@,
                content: e@,
                is_error: Some(true),
            },
        },
{
    let tool_use_id = String::from_str(id);
    match outcome {
        Ok(content) => ContentBlock::ToolResult { tool_use_id, content, is_error: None },
        Err(content) => ContentBlock::ToolResult { tool_use_id, content, is_error: Some(true) },
    }
}

/// `t` cut to at most `max` bytes at a character boundary, then marked as cut.
pub open spec fn cut_output(t: Seq<char>, max: int) -> Seq<char> {
    byte_prefix(t, floor_boundary(encode_utf8(t), max)) + OUTPUT_MARKER@
}

/// Cuts `s` to the last character boundary at or before byte `max` and
/// appends `OUTPUT_MARKER`.
pub fn truncate_with_marker(s: &mut String, max: usize)
    ensures
        final(s)@ == cut_output(old(s)@, max as int),
{
    proof {
        lemma_floor_boundary(s@, max as int);
    }
    let end = floor_char_boundary(s.as_str(), max);
    let mut head = byte_prefix_of(s.as_str(), end);
    head.append(OUTPUT_MARKER);
    *s = head;
}

/// Caps output at `MAX_BASH_OUTPUT` bytes.
pub fn cap_output(s: String) -> (r: String)
    ensures
        r@ == (if crate::text::byte_len(s@) > MAX_BASH_OUTPUT {
            cut_output(s@, MAX_BASH_OUTPUT as int)
        } else {
            s@
        }),
{
    let mut s = s;
    if crate::text::byte_count(s.as_str()) > MAX_BASH_OUTPUT {
        truncate_with_marker(&mut s, MAX_BASH_OUTPUT);
    }
    s
}

} // verus!
