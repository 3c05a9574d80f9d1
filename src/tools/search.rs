//! `code_search`: a pattern search through an external search utility.

use vstd::prelude::*;
use crate::api::{bool_arg_spec, str_arg_spec, ToolInput};
use crate::text::{
    byte_count, byte_len, concat, decimal, decimal_text, join_lines, joined, lines_of, split_lines,
    trim_of, trim_text,
};
use crate::tools::{
    cut_output, param, param_is, truncate_with_marker, ToolDef, ToolKind, MAX_BASH_OUTPUT,
};

verus! {

pub const DESCRIPTION: &'static str = "Search for code patterns using ripgrep (rg). Use this to find code patterns, function definitions, variable usage, or any text in the codebase.";

pub fn tool() -> (r: ToolDef)
    ensures
        r.name@ == "code_search"@,
        r.kind == ToolKind::CodeSearch,
        r.description == DESCRIPTION,
        r.params@.len() == 4,
        param_is(r.params@[0], "pattern"@, "string"@, true),
        param_is(r.params@[1], "path"@, "string"@, false),
        param_is(r.params@[2], "file_type"@, "string"@, false),
        param_is(r.params@[3], "case_sensitive"@, "boolean"@, false),
{
    let mut params = Vec::new();
    params.push(param("pattern", "string", "The search pattern or regex", true));
    params.push(param("path", "string", "Optional path to search in", false));
    params.push(param("file_type", "string", "File extension filter (e.g. 'go', 'js')", false));
    params.push(param("case_sensitive", "boolean", "Case sensitive (default: false)", false));
    ToolDef { name: "code_search", description: DESCRIPTION, params, kind: ToolKind::CodeSearch }
}

/// At most this many matching lines are reported.
pub const MAX_MATCHES: usize = 50;

/// The arguments of the search utility for a pattern, a path, case
/// sensitivity and an optional file type filter.
pub open spec fn search_arg_list(
    pattern: Seq<char>,
    path: Seq<char>,
    case_sensitive: bool,
    file_type: Option<Seq<char>>,
) -> Seq<Seq<char>> {
    seq!["--line-number"@, "--with-filename"@, "--color=never"@] + (if case_sensitive {
        Seq::empty()
    } else {
        seq!["--ignore-case"@]
    }) + match file_type {
        Some(f) => seq!["--type"@, f],
        None => Seq::empty(),
    } + seq![pattern, path]
}

/// The arguments to run the search utility with, or the error for a missing or empty pattern.
pub fn search_args(input: &ToolInput) -> (r: Result<Vec<String>, String>)
    ensures
        match str_arg_spec(*input, "pattern"@) {
            Some(p) if p.len() > 0 => r matches Ok(v) && v@.map_values(|a: String| a@)
                == search_arg_list(
                p,
                match str_arg_spec(*input, "path"@) {
                    Some(d) => d,
                    None => "."@,
                },
                bool_arg_spec(*input, "case_sensitive"@) == Some(true),
                str_arg_spec(*input, "file_type"@),
            ),
            _ => r matches Err(e) && e@ == "pattern is required"@,
        },
{
    let pattern = match input.str_arg("pattern") {
        Some(p) => p,
        None => return Err(String::from_str("pattern is required")),
    };
    if pattern.as_str().is_empty() {
        return Err(String::from_str("pattern is required"));
    }
    let path = match input.str_arg("path") {
        Some(d) => d,
        None => String::from_str("."),
    };
    let case_sensitive = match input.bool_arg("case_sensitive") {
        Some(b) => b,
        None => false,
    };
    let file_type = input.str_arg("file_type");
    let ghost ft = match &file_type {
        Some(f) => Some(f@),
        None => None,
    };
    let mut args: Vec<String> = Vec::new();
    args.push(String::from_str("--line-number"));
    args.push(String::from_str("--with-filename"));
    args.push(String::from_str("--color=never"));
    if !case_sensitive {
        args.push(String::from_str("--ignore-case"));
    }
    match file_type {
        Some(f) => {
            args.push(String::from_str("--type"));
            args.push(f);
        },
        None => {},
    }
    args.push(pattern);
    args.push(path);
    assert(args@.map_values(|a: String| a@) =~= search_arg_list(
        pattern@,
        path@,
        case_sensitive,
        ft,
    ));
    Ok(args)
}

/// What the search reports for its output `out` once trimmed: the output cut
/// at the byte cap; else at most `MAX_MATCHES` lines with a note of the total.
pub open spec fn shaped_matches(out: Seq<char>) -> Seq<char> {
    let lines = lines_of(out);
    if byte_len(out) > MAX_BASH_OUTPUT {
        cut_output(out, MAX_BASH_OUTPUT as int)
    } else if lines.len() <= MAX_MATCHES {
        out
    } else {
        joined(lines.subrange(0, MAX_MATCHES as int)) + "\n... (showing 50 of "@ + decimal(
            lines.len(),
        ) + " matches)"@
    }
}

/// What `code_search` reports once the utility finished: `no_matches` when
/// its exit status says nothing matched, `success` when it succeeded.
pub fn search_outcome(no_matches: bool, success: bool, stdout: &str, stderr: &str) -> (r: Result<
    String,
    String,
>)
    ensures
        no_matches ==> (r matches Ok(s) && s@ == "No matches found"@),
        !no_matches && !success ==> (r matches Err(e) && e@ == "search failed: "@ + stderr@),
        !no_matches && success ==> (r matches Ok(s) && s@ == shaped_matches(trim_of(stdout@))),
{
    if no_matches {
        return Ok(String::from_str("No matches found"));
    }
    if !success {
        return Err(concat("search failed: ", stderr));
    }
    let mut result = trim_text(stdout);
    if byte_count(result.as_str()) > MAX_BASH_OUTPUT {
        truncate_with_marker(&mut result, MAX_BASH_OUTPUT);
        return Ok(result);
    }
    let lines = split_lines(result.as_str());
    if lines.len() <= MAX_MATCHES {
        return Ok(result);
    }
    assert(lines@.len() == lines_of(result@).len());
    let shown = join_lines(&lines, MAX_MATCHES);
    let a = concat(shown.as_str(), "\n... (showing 50 of ");
    let b = concat(a.as_str(), decimal_text(lines.len() as u64).as_str());
    Ok(concat(b.as_str(), " matches)"))
}

} // verus!
