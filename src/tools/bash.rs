//! `bash`: runs a shell command under a deny-list, a timeout and an output cap.

use vstd::prelude::*;
use vstd::utf8::encode_utf8;
use crate::api::{str_arg_spec, ToolInput};
use crate::text::{concat, contains_bytes, contains_text, lower_of, lowercase, trim_of, trim_text};
use crate::tools::{cap_output, cut_output, param, param_is, ToolDef, ToolKind, MAX_BASH_OUTPUT};

verus! {

pub const DESCRIPTION: &'static str = "Execute a bash command and return its output. Use this to run shell commands. Commands are killed after 120s.";

pub fn tool() -> (r: ToolDef)
    ensures
        r.name@ == "bash"@,
        r.kind == ToolKind::Bash,
        r.description == DESCRIPTION,
        r.params@.len() == 2,
        param_is(r.params@[0], "command"@, "string"@, true),
        param_is(r.params@[1], "cwd"@, "string"@, false),
{
    let mut params = Vec::new();
    params.push(param("command", "string", "The bash command to execute", true));
    params.push(param("cwd", "string", "Optional working directory", false));
    ToolDef { name: "bash", description: DESCRIPTION, params, kind: ToolKind::Bash }
}

/// The text of the error for a command that ran past its time limit.
pub const TIMEOUT_MESSAGE: &'static str = "Command timed out after 120s and was killed";

/// Seconds a command may run before it is killed.
pub const TIMEOUT_SECS: u64 = 120;

/// Substrings of a lowercased command that mark it as destructive, in the order they are tried.
pub open spec fn blocked_patterns() -> Seq<Seq<char>> {
    seq![
        "rm -rf /"@,
        "rm -rf ~"@,
        "rm -rf ."@,
        "rm -rf *"@,
        "mkfs."@,
        "of=/dev/sd"@,
        "of=/dev/nvme"@,
        "> /dev/sd"@,
        "chmod -r 777 /"@,
        ":(){ :|:& };:"@,
    ]
}

fn blocked_pattern_list() -> (r: Vec<&'static str>)
    ensures
        r@.map_values(|p: &'static str| p@) == blocked_patterns(),
{
    let mut v = Vec::new();
    v.push("rm -rf /");
    v.push("rm -rf ~");
    v.push("rm -rf .");
    v.push("rm -rf *");
    v.push("mkfs.");
    v.push("of=/dev/sd");
    v.push("of=/dev/nvme");
    v.push("> /dev/sd");
    v.push("chmod -r 777 /");
    v.push(":(){ :|:& };:");
    assert(v@.map_values(|p: &'static str| p@) =~= blocked_patterns());
    v
}

/// The first of `pats`, from `i` on, that occurs in `text`.
pub open spec fn first_blocked(text: Seq<char>, pats: Seq<Seq<char>>, i: int) -> Option<Seq<char>>
    decreases pats.len() - i,
{
    if i < 0 || i >= pats.len() {
        None
    } else if contains_bytes(encode_utf8(text), encode_utf8(pats[i])) {
        Some(pats[i])
    } else {
        first_blocked(text, pats, i + 1)
    }
}

/// The first destructive pattern that the lowercased `command` contains.
pub fn blocked_pattern(command: &str) -> (r: Option<&'static str>)
    ensures
        match first_blocked(lower_of(command@), blocked_patterns(), 0) {
            Some(p) => r matches Some(q) && q@ == p,
            None => r is None,
        },
{
    let lower = lowercase(command);
    let pats = blocked_pattern_list();
    let ghost ps = blocked_patterns();
    let mut i: usize = 0;
    while i < pats.len()
        invariant
            pats@.map_values(|p: &'static str| p@) == ps,
            ps == blocked_patterns(),
            i <= pats@.len(),
            first_blocked(lower_of(command@), ps, 0) == first_blocked(lower@, ps, i as int),
            lower@ == lower_of(command@),
        decreases pats@.len() - i,
    {
        assert(pats@[i as int]@ == ps[i as int]);
        if contains_text(lower.as_str(), pats[i]) {
            return Some(pats[i]);
        }
        i = i + 1;
    }
    None
}

/// The text of the error for a command that matches destructive pattern `p`.
pub open spec fn blocked_text(p: Seq<char>) -> Seq<char> {
    "blocked: command matches dangerous pattern '"@ + p + "'"@
}

/// The command to run, or why none may run: it is missing, or matches a
/// destructive pattern.
pub fn check_command(input: &ToolInput) -> (r: Result<String, String>)
    ensures
        match str_arg_spec(*input, "command"@) {
            None => r matches Err(e) && e@ == "command is required"@,
            Some(c) => match first_blocked(lower_of(c), blocked_patterns(), 0) {
                Some(p) => r matches Err(e) && e@ == blocked_text(p),
                None => r matches Ok(s) && s@ == c,
            },
        },
{
    let command = match input.str_arg("command") {
        Some(c) => c,
        None => return Err(String::from_str("command is required")),
    };
    match blocked_pattern(command.as_str()) {
        Some(p) => {
            let head = concat("blocked: command matches dangerous pattern '", p);
            Err(concat(head.as_str(), "'"))
        },
        None => Ok(command),
    }
}

/// What a command printed: standard output, then standard error under a
/// separator line when both have content.
pub open spec fn joined_output(out: Seq<char>, err: Seq<char>) -> Seq<char> {
    if out.len() > 0 && err.len() > 0 {
        out + "\n--- stderr ---\n"@ + err
    } else {
        out + err
    }
}

/// The command's output as reported, with surrounding whitespace trimmed.
pub fn command_output(stdout: &str, stderr: &str) -> (r: String)
    ensures
        r@ == trim_of(joined_output(stdout@, stderr@)),
{
    let joined = if !stdout.is_empty() && !stderr.is_empty() {
        let head = concat(stdout, "\n--- stderr ---\n");
        concat(head.as_str(), stderr)
    } else {
        concat(stdout, stderr)
    };
    trim_text(joined.as_str())
}

/// `t`, cut with a marker when it exceeds the output cap.
pub open spec fn capped(t: Seq<char>) -> Seq<char> {
    if crate::text::byte_len(t) > MAX_BASH_OUTPUT {
        cut_output(t, MAX_BASH_OUTPUT as int)
    } else {
        t
    }
}

/// The result of a command that finished: its output on success; otherwise an
/// error naming the exit `status`, with the output. Both are capped.
pub fn command_outcome(success: bool, status: &str, output: String) -> (r: Result<String, String>)
    ensures
        success ==> (r matches Ok(s) && s@ == capped(output@)),
        !success ==> (r matches Err(e) && e@ == capped(
            "Command failed ("@ + status@ + "): "@ + output@,
        )),
{
    if success {
        Ok(cap_output(output))
    } else {
        let a = concat("Command failed (", status);
        let b = concat(a.as_str(), "): ");
        let msg = concat(b.as_str(), output.as_str());
        Err(cap_output(msg))
    }
}

} // verus!
