//! `read_file`: a file's text with numbered lines.

use vstd::prelude::*;
use vstd::utf8::{decode_utf8, encode_utf8};
use crate::api::{str_arg_spec, ToolInput};
use crate::text::{concat, decimal, decimal_text, join_lines, joined, lines_of, split_lines};
use crate::tools::{param, param_is, ToolDef, ToolKind, MAX_READ_SIZE};

verus! {

pub const DESCRIPTION: &'static str = "Read the contents of a given relative file path with line numbers. Use this when you want to see what's inside a file. Do not use this with directory names.";

pub fn tool() -> (r: ToolDef)
    ensures
        r.name@ == "read_file"@,
        r.kind == ToolKind::ReadFile,
        r.description == DESCRIPTION,
        r.params@.len() == 1,
        param_is(r.params@[0], "path"@, "string"@, true),
{
    let mut params = Vec::new();
    params.push(param("path", "string", "Relative file path", true));
    ToolDef { name: "read_file", description: DESCRIPTION, params, kind: ToolKind::ReadFile }
}

/// How many leading bytes are scanned for a zero byte to detect binary content.
pub const BINARY_SCAN_BYTES: usize = 8192;

/// The file to read, or the error for a missing `path`.
pub fn read_path(input: &ToolInput) -> (r: Result<String, String>)
    ensures
        match str_arg_spec(*input, "path"@) {
            Some(p) => r matches Ok(s) && s@ == p,
            None => r matches Err(e) && e@ == "path is required"@,
        },
{
    match input.str_arg("path") {
        Some(p) => Ok(p),
        None => Err(String::from_str("path is required")),
    }
}

/// The text of the error for a file of `size` bytes over the size ceiling;
/// `what` names the ceiling.
pub open spec fn size_text(path: Seq<char>, size: u64, what: Seq<char>) -> Seq<char> {
    path + ": "@ + decimal((size / 1024) as nat) + "KB exceeds "@ + decimal(
        (MAX_READ_SIZE / 1024) as nat,
    ) + "KB "@ + what
}

/// The error for a file of `size` bytes, if it is over the size ceiling.
pub fn size_error(path: &str, size: u64, what: &str) -> (r: Option<String>)
    ensures
        size > MAX_READ_SIZE ==> (r matches Some(e) && e@ == size_text(path@, size, what@)),
        size <= MAX_READ_SIZE ==> r is None,
{
    if size <= MAX_READ_SIZE {
        return None;
    }
    let a = concat(path, ": ");
    let b = concat(a.as_str(), decimal_text(size / 1024).as_str());
    let c = concat(b.as_str(), "KB exceeds ");
    let d = concat(c.as_str(), decimal_text(MAX_READ_SIZE / 1024).as_str());
    let e = concat(d.as_str(), "KB ");
    Some(concat(e.as_str(), what))
}

/// Whether one of the first `limit` bytes of `b` is zero.
pub open spec fn has_zero_byte(b: Seq<u8>, limit: int) -> bool {
    exists|i: int| 0 <= i < b.len() && i < limit && b[i] == 0
}

fn scan_for_zero(b: &Vec<u8>, limit: usize) -> (r: bool)
    ensures
        r == has_zero_byte(b@, limit as int),
{
    let mut i: usize = 0;
    while i < b.len() && i < limit
        invariant
            i <= b@.len(),
            forall|j: int| 0 <= j < i ==> b@[j] != 0,
        decreases b@.len() - i,
    {
        if b[i] == 0 {
            return true;
        }
        i = i + 1;
    }
    false
}

/// Relies on String::from_utf8, which accepts exactly the valid UTF-8 byte sequences.
#[verifier::external_body]
fn utf8_text(bytes: Vec<u8>) -> (r: Option<String>)
    ensures
        match r {
            Some(s) => encode_utf8(s@) == bytes@,
            None => forall|t: Seq<char>| encode_utf8(t) != bytes@,
        },
{
    String::from_utf8(bytes).ok()
}

/// `lines` with each prefixed by its 1-based number.
pub open spec fn numbered(lines: Seq<Seq<char>>) -> Seq<Seq<char>> {
    lines.map(|i: int, l: Seq<char>| decimal((i + 1) as nat) + ": "@ + l)
}

/// The lines of `text`, numbered from 1 and joined by line feeds.
pub fn number_lines(text: &str) -> (r: String)
    ensures
        r@ == joined(numbered(lines_of(text@))),
{
    let lines = split_lines(text);
    let ghost ls = lines_of(text@);
    let mut out: Vec<String> = Vec::new();
    let mut i: usize = 0;
    while i < lines.len()
        invariant
            lines@.map_values(|l: String| l@) == ls,
            i <= lines@.len(),
            out@.len() == i,
            forall|j: int| 0 <= j < i ==> #[trigger] out@[j]@ == numbered(ls)[j],
        decreases lines@.len() - i,
    {
        assert(lines@[i as int]@ == ls[i as int]);
        let a = concat(decimal_text((i as u64) + 1).as_str(), ": ");
        out.push(concat(a.as_str(), lines[i].as_str()));
        i = i + 1;
    }
    assert(out@.map_values(|l: String| l@).subrange(0, i as int) =~= numbered(ls));
    join_lines(&out, i)
}

/// What `read_file` reports for the bytes `raw` read from `path`: an error for
/// binary content or text that is not UTF-8, else the numbered lines.
pub fn read_outcome(path: &str, raw: Vec<u8>) -> (r: Result<String, String>)
    ensures
        has_zero_byte(raw@, BINARY_SCAN_BYTES as int) ==> (r matches Err(e) && e@ == path@
            + ": binary file, cannot display contents"@),
        !has_zero_byte(raw@, BINARY_SCAN_BYTES as int) && (exists|t: Seq<char>| encode_utf8(t) == raw@)
            ==> (r matches Ok(s) && s@ == joined(numbered(lines_of(decode_utf8(raw@))))),
        !has_zero_byte(raw@, BINARY_SCAN_BYTES as int) && !(exists|t: Seq<char>| encode_utf8(t) == raw@)
            ==> (r matches Err(e) && e@ == path@ + ": not valid UTF-8"@),
{
    broadcast use vstd::utf8::encode_utf8_decode_utf8;

    if scan_for_zero(&raw, BINARY_SCAN_BYTES) {
        return Err(concat(path, ": binary file, cannot display contents"));
    }
    let ghost bytes = raw@;
    match utf8_text(raw) {
        Some(text) => {
            assert(decode_utf8(bytes) == text@);
            Ok(number_lines(text.as_str()))
        },
        None => Err(concat(path, ": not valid UTF-8")),
    }
}

} // verus!
