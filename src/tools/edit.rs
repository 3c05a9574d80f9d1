//! `edit_file`: replaces one unique occurrence, appends, or creates a file.

use vstd::prelude::*;
use vstd::utf8::encode_utf8;
use crate::api::{str_arg_spec, ToolInput};
use crate::text::{concat, decimal, decimal_text, occurs_at, occurs_at_exec};
use crate::tools::{param, param_is, ToolDef, ToolKind};

verus! {

pub const DESCRIPTION: &'static str = "Make edits to a text file. Replaces 'old_str' with 'new_str' in the given file. 'old_str' and 'new_str' MUST be different from each other. If the file doesn't exist and old_str is empty, it will be created.";

pub fn tool() -> (r: ToolDef)
    ensures
        r.name@ == "edit_file"@,
        r.kind == ToolKind::EditFile,
        r.description == DESCRIPTION,
        r.params@.len() == 3,
        param_is(r.params@[0], "path"@, "string"@, true),
        param_is(r.params@[1], "old_str"@, "string"@, true),
        param_is(r.params@[2], "new_str"@, "string"@, true),
{
    let mut params = Vec::new();
    params.push(param("path", "string", "The path to the file", true));
    params.push(param("old_str", "string", "Text to search for (must match exactly once). Empty string = create/append mode", true));
    params.push(param("new_str", "string", "Text to replace old_str with", true));
    ToolDef { name: "edit_file", description: DESCRIPTION, params, kind: ToolKind::EditFile }
}

/// The arguments of an edit.
#[derive(Debug, Clone, PartialEq)]
pub struct EditRequest {
    pub path: String,
    pub old_str: String,
    pub new_str: String,
}

/// The edit that `input` asks for, or the first argument that is missing, or
/// the refusal of an edit that would change nothing.
pub fn edit_request(input: &ToolInput) -> (r: Result<EditRequest, String>)
    ensures
        match (
            str_arg_spec(*input, "path"@),
            str_arg_spec(*input, "old_str"@),
            str_arg_spec(*input, "new_str"@),
        ) {
            (None, _, _) => r matches Err(e) && e@ == "path is required"@,
            (Some(_), None, _) => r matches Err(e) && e@ == "old_str is required"@,
            (Some(_), Some(_), None) => r matches Err(e) && e@ == "new_str is required"@,
            (Some(p), Some(o), Some(n)) => if o == n {
                r matches Err(e) && e@ == "old_str and new_str must differ"@
            } else {
                r matches Ok(q) && q.path@ == p && q.old_str@ == o && q.new_str@ == n
            },
        },
{
    let path = match input.str_arg("path") {
        Some(p) => p,
        None => return Err(String::from_str("path is required")),
    };
    let old_str = match input.str_arg("old_str") {
        Some(o) => o,
        None => return Err(String::from_str("old_str is required")),
    };
    let new_str = match input.str_arg("new_str") {
        Some(n) => n,
        None => return Err(String::from_str("new_str is required")),
    };
    if old_str == new_str {
        return Err(String::from_str("old_str and new_str must differ"));
    }
    Ok(EditRequest { path, old_str, new_str })
}

/// Whether the edit creates the file: it does not exist and nothing is to be replaced.
pub fn creates_file(exists: bool, old_str: &str) -> (r: bool)
    ensures
        r == (!exists && old_str@.len() == 0),
{
    !exists && old_str.is_empty()
}

/// The report of a file created at `path`.
pub fn created_message(path: &str) -> (r: String)
    ensures
        r@ == "Created "@ + path@,
{
    concat("Created ", path)
}

/// The number of occurrences of `n` in `h` from byte `i` on, counted left to
/// right without overlap.
pub open spec fn count_from(h: Seq<u8>, n: Seq<u8>, i: int) -> nat
    decreases h.len() - i,
{
    if n.len() == 0 || i < 0 || i + n.len() > h.len() {
        0
    } else if occurs_at(h, n, i) {
        1 + count_from(h, n, i + n.len())
    } else {
        count_from(h, n, i + 1)
    }
}

/// The first occurrence of `n` in `h` at or after byte `i`.
pub open spec fn first_from(h: Seq<u8>, n: Seq<u8>, i: int) -> int
    decreases h.len() - i,
{
    if n.len() == 0 || i < 0 || i + n.len() > h.len() {
        h.len() as int
    } else if occurs_at(h, n, i) {
        i
    } else {
        first_from(h, n, i + 1)
    }
}

/// The text of the error for `old_str` occurring `c` times.
pub open spec fn ambiguous_text(c: nat) -> Seq<char> {
    "old_str found "@ + decimal(c) + " times, must be unique"@
}

/// The new content of a file holding `content` after the edit, as bytes.
///
/// An empty `old_str` appends `new_str`. Otherwise `old_str` must occur
/// exactly once, and that occurrence is replaced by `new_str`.
pub fn apply_edit(content: &str, old_str: &str, new_str: &str) -> (r: Result<Vec<u8>, String>)
    ensures
        ({
            let h = encode_utf8(content@);
            let n = encode_utf8(old_str@);
            let c = count_from(h, n, 0);
            let p = first_from(h, n, 0);
            if old_str@.len() == 0 {
                r matches Ok(b) && b@ == h + encode_utf8(new_str@)
            } else if c == 0 {
                r matches Err(e) && e@ == "old_str not found"@
            } else if c == 1 {
                r matches Ok(b) && b@ == h.subrange(0, p) + encode_utf8(new_str@) + h.subrange(
                    p + n.len(),
                    h.len() as int,
                )
            } else {
                r matches Err(e) && e@ == ambiguous_text(c)
            }
        }),
{
    let h = content.as_bytes();
    let n = old_str.as_bytes();
    let nb = new_str.as_bytes();
    let hl = h.len();
    let nl = n.len();
    let mut out: Vec<u8> = Vec::new();
    if nl == 0 {
        proof {
            assert(old_str@.len() == 0) by {
                if old_str@.len() > 0 {
                    assert(encode_utf8(old_str@) =~= vstd::utf8::encode_scalar(old_str@[0] as u32)
                        + encode_utf8(old_str@.drop_first()));
                }
            }
        }
        push_bytes(&mut out, h, 0, hl);
        push_bytes(&mut out, nb, 0, nb.len());
        assert(h@.subrange(0, hl as int) =~= h@);
        assert(nb@.subrange(0, nb@.len() as int) =~= nb@);
        return Ok(out);
    }
    assert(old_str@.len() > 0);
    let mut count: u64 = 0;
    let mut first: usize = 0;
    let mut i: usize = 0;
    while i <= hl && nl <= hl - i
        invariant
            hl == h@.len(),
            nl == n@.len(),
            nl > 0,
            i <= hl,
            count <= i,
            count_from(h@, n@, 0) == count + count_from(h@, n@, i as int),
            count == 0 ==> first_from(h@, n@, 0) == first_from(h@, n@, i as int),
            count > 0 ==> first_from(h@, n@, 0) == first && first + nl <= hl,
        decreases hl - i,
    {
        if occurs_at_exec(h, n, i) {
            if count == 0 {
                first = i;
            }
            count = count + 1;
            i = i + nl;
        } else {
            i = i + 1;
        }
    }
    if count == 0 {
        return Err(String::from_str("old_str not found"));
    }
    if count > 1 {
        let a = concat("old_str found ", decimal_text(count).as_str());
        return Err(concat(a.as_str(), " times, must be unique"));
    }
    push_bytes(&mut out, h, 0, first);
    push_bytes(&mut out, nb, 0, nb.len());
    push_bytes(&mut out, h, first + nl, hl);
    assert(nb@.subrange(0, nb@.len() as int) =~= nb@);
    Ok(out)
}

/// Appends bytes `from..to` of `src` to `out`.
fn push_bytes(out: &mut Vec<u8>, src: &[u8], from: usize, to: usize)
    requires
        from <= to <= src@.len(),
    ensures
        final(out)@ == old(out)@ + src@.subrange(from as int, to as int),
{
    let mut i = from;
    while i < to
        invariant
            from <= i <= to,
            to <= src@.len(),
            out@ == old(out)@ + src@.subrange(from as int, i as int),
        decreases to - i,
    {
        out.push(src[i]);
        assert(src@.subrange(from as int, i + 1) =~= src@.subrange(from as int, i as int).push(src@[i as int]));
        i = i + 1;
    }
}

} // verus!
