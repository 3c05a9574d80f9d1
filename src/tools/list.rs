//! `list_files`: the entries under a directory.

use vstd::prelude::*;
use vstd::utf8::encode_utf8;
use crate::api::{bool_arg_spec, str_arg_spec, ToolInput};
use crate::text::{concat, decimal, decimal_text, same_text};
use crate::tools::{param, param_is, ToolDef, ToolKind};

verus! {

pub const DESCRIPTION: &'static str = "List files and directories at a given path. If no path is provided, lists files in the current directory.";

pub fn tool() -> (r: ToolDef)
    ensures
        r.name@ == "list_files"@,
        r.kind == ToolKind::ListFiles,
        r.description == DESCRIPTION,
        r.params@.len() == 2,
        param_is(r.params@[0], "path"@, "string"@, false),
        param_is(r.params@[1], "recursive"@, "boolean"@, false),
{
    let mut params = Vec::new();
    params.push(param("path", "string", "Optional path to list", false));
    params.push(param("recursive", "boolean", "Recurse into subdirectories (default: false)", false));
    ToolDef { name: "list_files", description: DESCRIPTION, params, kind: ToolKind::ListFiles }
}

/// At most this many entries are listed.
pub const MAX_LIST_ENTRIES: usize = 1000;

/// Directories deeper than this below the listed one are not entered.
pub const MAX_WALK_DEPTH: usize = 20;

/// Names of directories that are never listed nor entered.
pub open spec fn skip_dirs() -> Seq<Seq<char>> {
    seq![".git"@, ".devenv"@, "node_modules"@, "target"@, ".venv"@, "vendor"@]
}

/// Whether a directory named `name` is skipped.
pub fn is_skipped_dir(name: &str) -> (r: bool)
    ensures
        r == skip_dirs().contains(name@),
{
    let mut names: Vec<&'static str> = Vec::new();
    names.push(".git");
    names.push(".devenv");
    names.push("node_modules");
    names.push("target");
    names.push(".venv");
    names.push("vendor");
    let ghost ns = skip_dirs();
    assert(names@.map_values(|n: &'static str| n@) =~= ns);
    let mut i: usize = 0;
    while i < names.len()
        invariant
            names@.map_values(|n: &'static str| n@) == ns,
            ns == skip_dirs(),
            i <= names@.len(),
            forall|j: int| 0 <= j < i ==> ns[j] != name@,
        decreases names@.len() - i,
    {
        assert(names@[i as int]@ == ns[i as int]);
        if same_text(name, names[i]) {
            return true;
        }
        i = i + 1;
    }
    false
}

/// The directory to list (default `.`) and whether to recurse (default no).
pub fn list_request(input: &ToolInput) -> (r: (String, bool))
    ensures
        r.0@ == match str_arg_spec(*input, "path"@) {
            Some(p) => p,
            None => "."@,
        },
        r.1 == (bool_arg_spec(*input, "recursive"@) == Some(true)),
{
    let dir = match input.str_arg("path") {
        Some(p) => p,
        None => String::from_str("."),
    };
    let recursive = match input.bool_arg("recursive") {
        Some(b) => b,
        None => false,
    };
    (dir, recursive)
}

/// Whether `a` comes no later than `b` in lexicographic byte order.
pub open spec fn bytes_le(a: Seq<u8>, b: Seq<u8>) -> bool
    decreases a.len(),
{
    if a.len() == 0 {
        true
    } else if b.len() == 0 {
        false
    } else if a[0] != b[0] {
        a[0] < b[0]
    } else {
        bytes_le(a.drop_first(), b.drop_first())
    }
}

/// Whether `s` is in the order `String`'s `Ord` gives: by the bytes of each text.
pub open spec fn sorted_texts(s: Seq<Seq<char>>) -> bool {
    forall|i: int, j: int| 0 <= i < j < s.len() ==> bytes_le(encode_utf8(#[trigger] s[i]), encode_utf8(#[trigger] s[j]))
}

pub open spec fn texts(v: Seq<String>) -> Seq<Seq<char>> {
    v.map_values(|s: String| s@)
}

/// Relies on slice::sort: the same strings, ordered by `String`'s `Ord`,
/// which compares their bytes lexicographically.
#[verifier::external_body]
fn sort_texts(v: Vec<String>) -> (r: Vec<String>)
    ensures
        texts(r@).to_multiset() == texts(v@).to_multiset(),
        sorted_texts(texts(r@)),
{
    let mut v = v;
    v.sort();
    v
}

/// What serde_json writes for a list of strings: a JSON array.
pub uninterp spec fn json_list_of(items: Seq<Seq<char>>) -> Seq<char>;

/// Relies on serde_json::to_string, which writes a slice of strings as a JSON
/// array and does not fail on one.
#[verifier::external_body]
fn json_list(v: &Vec<String>) -> (r: String)
    ensures
        r@ == json_list_of(texts(v@)),
{
    serde_json::to_string(v).unwrap_or_default()
}

/// The listing of the sorted entries `s`: a JSON array of at most
/// `MAX_LIST_ENTRIES`, with a note of the true total when there are more.
pub open spec fn listing(s: Seq<Seq<char>>) -> Seq<char> {
    if s.len() > MAX_LIST_ENTRIES {
        json_list_of(s.subrange(0, MAX_LIST_ENTRIES as int)) + "\n... (showing 1000 of "@
            + decimal(s.len()) + " entries)"@
    } else {
        json_list_of(s)
    }
}

/// What `list_files` reports for the entries it found, in any order.
pub fn listing_text(files: Vec<String>) -> (r: String)
    ensures
        exists|s: Seq<Seq<char>>| #![auto]
            s.to_multiset() == texts(files@).to_multiset() && sorted_texts(s) && r@ == listing(s),
{
    let mut v = sort_texts(files);
    let ghost s = texts(v@);
    let total = v.len();
    if total > MAX_LIST_ENTRIES {
        v.truncate(MAX_LIST_ENTRIES);
        assert(texts(v@) =~= s.subrange(0, MAX_LIST_ENTRIES as int));
        let out = json_list(&v);
        let a = concat(out.as_str(), "\n... (showing 1000 of ");
        let b = concat(a.as_str(), decimal_text(total as u64).as_str());
        let r = concat(b.as_str(), " entries)");
        assert(r@ == listing(s));
        r
    } else {
        let r = json_list(&v);
        assert(r@ == listing(s));
        r
    }
}

} // verus!
