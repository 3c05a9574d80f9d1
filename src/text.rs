//! Small verified operations on text that the rest of the crate shares.

use vstd::prelude::*;
use vstd::string::StringSliceAdditionalSpecFns;
use vstd::utf8::{decode_utf8, encode_utf8, is_char_boundary};

verus! {

/// Whether `a` and `b` hold the same characters.
pub fn same_text(a: &str, b: &str) -> (r: bool)
    ensures
        r == (a@ == b@),
{
    let n = a.unicode_len();
    if n != b.unicode_len() {
        return false;
    }
    let mut i: usize = 0;
    while i < n
        invariant
            n == a@.len(),
            n == b@.len(),
            i <= n,
            forall|j: int| 0 <= j < i ==> a@[j] == b@[j],
        decreases n - i,
    {
        if a.get_char(i) != b.get_char(i) {
            return false;
        }
        i = i + 1;
    }
    assert(a@ =~= b@);
    true
}

/// Whether `o` holds exactly the text `lit`.
pub open spec fn holds_text(o: Option<String>, lit: Seq<char>) -> bool {
    o is Some && o->0@ == lit
}

/// The text that `o` holds, or the empty text.
pub open spec fn text_or_empty(o: Option<String>) -> Seq<char> {
    match o {
        Some(s) => s@,
        None => Seq::empty(),
    }
}

/// Whether `o` holds text that is not empty.
pub open spec fn holds_nonempty(o: Option<String>) -> bool {
    o is Some && o->0@.len() > 0
}

pub fn opt_is(o: &Option<String>, lit: &str) -> (r: bool)
    ensures
        r == holds_text(*o, lit@),
{
    match o {
        Some(s) => same_text(s.as_str(), lit),
        None => false,
    }
}

/// Whether `s` begins with `p`.
pub open spec fn has_prefix(s: Seq<char>, p: Seq<char>) -> bool {
    p.len() <= s.len() && s.subrange(0, p.len() as int) == p
}

/// The rest of `s` after the prefix `p`, when `s` begins with it.
pub fn strip_prefix<'a>(s: &'a str, p: &str) -> (r: Option<&'a str>)
    ensures
        match r {
            Some(rest) => has_prefix(s@, p@) && rest@ == s@.subrange(p@.len() as int, s@.len() as int),
            None => !has_prefix(s@, p@),
        },
{
    let n = s.unicode_len();
    let m = p.unicode_len();
    if m > n {
        return None;
    }
    let mut i: usize = 0;
    while i < m
        invariant
            n == s@.len(),
            m == p@.len(),
            m <= n,
            i <= m,
            forall|j: int| 0 <= j < i ==> s@[j] == p@[j],
        decreases m - i,
    {
        if s.get_char(i) != p.get_char(i) {
            assert(s@.subrange(0, m as int)[i as int] != p@[i as int]);
            return None;
        }
        i = i + 1;
    }
    assert(s@.subrange(0, m as int) =~= p@);
    Some(s.substring_char(m, n))
}

/// Text followed by more text.
pub fn concat(a: &str, b: &str) -> (r: String)
    ensures
        r@ == a@ + b@,
{
    let mut s = String::from_str(a);
    s.append(b);
    s
}

/// What `str::to_lowercase` makes of a text.
pub uninterp spec fn lower_of(s: Seq<char>) -> Seq<char>;

/// What `str::trim` makes of a text.
pub uninterp spec fn trim_of(s: Seq<char>) -> Seq<char>;

/// The lines that `str::lines` splits a text into.
pub uninterp spec fn lines_of(s: Seq<char>) -> Seq<Seq<char>>;

/// Relies on str::to_lowercase: the result depends on the characters alone.
#[verifier::external_body]
pub fn lowercase(s: &str) -> (r: String)
    ensures
        r@ == lower_of(s@),
{
    s.to_lowercase()
}

/// Relies on str::trim: the text without leading and trailing whitespace.
#[verifier::external_body]
pub fn trim_text(s: &str) -> (r: String)
    ensures
        r@ == trim_of(s@),
{
    s.trim().to_string()
}

/// Relies on str::lines: the text split at line endings; an empty text has no lines.
#[verifier::external_body]
pub fn split_lines(s: &str) -> (r: Vec<String>)
    ensures
        r@.map_values(|l: String| l@) == lines_of(s@),
        s@.len() == 0 ==> r@.len() == 0,
{
    s.lines().map(String::from).collect()
}

/// `lines` joined by line feeds.
pub open spec fn joined(lines: Seq<Seq<char>>) -> Seq<char>
    decreases lines.len(),
{
    if lines.len() == 0 {
        Seq::empty()
    } else if lines.len() == 1 {
        lines[0]
    } else {
        joined(lines.drop_last()) + "\n"@ + lines.last()
    }
}

/// The first `k` of `lines` joined by line feeds.
pub fn join_lines(lines: &Vec<String>, k: usize) -> (r: String)
    requires
        k <= lines@.len(),
    ensures
        r@ == joined(lines@.map_values(|l: String| l@).subrange(0, k as int)),
{
    let ghost v = lines@.map_values(|l: String| l@);
    let mut out = String::new();
    let mut i: usize = 0;
    while i < k
        invariant
            k <= lines@.len(),
            v == lines@.map_values(|l: String| l@),
            i <= k,
            out@ == joined(v.subrange(0, i as int)),
        decreases k - i,
    {
        assert(v.subrange(0, i + 1).drop_last() =~= v.subrange(0, i as int));
        if i > 0 {
            out.append("\n");
        }
        out.append(lines[i].as_str());
        i = i + 1;
    }
    out
}

/// Whether `needle` occurs in `hay` at byte `i`.
pub open spec fn occurs_at(hay: Seq<u8>, needle: Seq<u8>, i: int) -> bool {
    0 <= i && i + needle.len() <= hay.len() && hay.subrange(i, i + needle.len()) == needle
}

/// Whether `needle` occurs in `hay`, compared byte for byte.
pub open spec fn contains_bytes(hay: Seq<u8>, needle: Seq<u8>) -> bool {
    exists|i: int| occurs_at(hay, needle, i)
}

/// Whether `needle` occurs in `hay` at byte `i`.
pub fn occurs_at_exec(hay: &[u8], needle: &[u8], i: usize) -> (r: bool)
    ensures
        r == occurs_at(hay@, needle@, i as int),
{
    if i > hay.len() || needle.len() > hay.len() - i {
        return false;
    }
    let hl = hay.len();
    let mut j: usize = 0;
    while j < needle.len()
        invariant
            hl == hay@.len(),
            i + needle@.len() <= hay@.len(),
            j <= needle@.len(),
            forall|l: int| 0 <= l < j ==> hay@[i + l] == needle@[l],
        decreases needle@.len() - j,
    {
        if hay[i + j] != needle[j] {
            assert(hay@.subrange(i as int, i + needle@.len())[j as int] != needle@[j as int]);
            return false;
        }
        j = j + 1;
    }
    assert(hay@.subrange(i as int, i + needle@.len()) =~= needle@);
    true
}

/// Whether `needle` occurs in `hay`.
pub fn contains_text(hay: &str, needle: &str) -> (r: bool)
    ensures
        r == contains_bytes(encode_utf8(hay@), encode_utf8(needle@)),
{
    let h = hay.as_bytes();
    let n = needle.as_bytes();
    if n.len() == 0 {
        assert(h@.subrange(0, 0) =~= n@);
        assert(occurs_at(h@, n@, 0));
        return true;
    }
    let mut i: usize = 0;
    while i < h.len()
        invariant
            h@ == encode_utf8(hay@),
            n@ == encode_utf8(needle@),
            n@.len() > 0,
            i <= h@.len(),
            forall|l: int| 0 <= l < i ==> !occurs_at(h@, n@, l),
        decreases h@.len() - i,
    {
        if occurs_at_exec(h, n, i) {
            return true;
        }
        i = i + 1;
    }
    assert forall|l: int| !occurs_at(h@, n@, l) by {
        if 0 <= l && l < i {
        }
    }
    false
}

/// The decimal digits of `n`.
pub open spec fn decimal(n: nat) -> Seq<char>
    decreases n,
{
    if n < 10 {
        seq![digit_char(n)]
    } else {
        decimal(n / 10).push(digit_char(n % 10))
    }
}

pub open spec fn digit_char(d: nat) -> char {
    (('0' as u32) + d) as char
}

/// `n` written in decimal.
pub fn decimal_text(n: u64) -> (r: String)
    ensures
        r@ == decimal(n as nat),
    decreases n,
{
    let d = n % 10;
    let digit = if d == 0 {
        "0"
    } else if d == 1 {
        "1"
    } else if d == 2 {
        "2"
    } else if d == 3 {
        "3"
    } else if d == 4 {
        "4"
    } else if d == 5 {
        "5"
    } else if d == 6 {
        "6"
    } else if d == 7 {
        "7"
    } else if d == 8 {
        "8"
    } else {
        "9"
    };
    proof {
        reveal_strlit("0");
        reveal_strlit("1");
        reveal_strlit("2");
        reveal_strlit("3");
        reveal_strlit("4");
        reveal_strlit("5");
        reveal_strlit("6");
        reveal_strlit("7");
        reveal_strlit("8");
        reveal_strlit("9");
    }
    assert(digit@ =~= seq![digit_char(d as nat)]);
    if n < 10 {
        String::from_str(digit)
    } else {
        let mut s = decimal_text(n / 10);
        s.append(digit);
        s
    }
}

/// The length of `t` in bytes of UTF-8.
pub open spec fn byte_len(t: Seq<char>) -> int {
    encode_utf8(t).len() as int
}

/// The last character boundary of `b` at or before byte `k`.
pub open spec fn floor_boundary(b: Seq<u8>, k: int) -> int
    decreases k,
{
    if k >= b.len() {
        b.len() as int
    } else if k <= 0 {
        0
    } else if is_char_boundary(b, k) {
        k
    } else {
        floor_boundary(b, k - 1)
    }
}

pub proof fn lemma_floor_boundary(t: Seq<char>, k: int)
    ensures
        is_char_boundary(encode_utf8(t), floor_boundary(encode_utf8(t), k)),
        0 <= floor_boundary(encode_utf8(t), k) <= encode_utf8(t).len(),
        k >= 0 ==> floor_boundary(encode_utf8(t), k) <= k,
    decreases k,
{
    broadcast use vstd::utf8::encode_utf8_valid_utf8, vstd::utf8::is_char_boundary_start_end_of_seq;

    let b = encode_utf8(t);
    if k >= b.len() {
    } else if k <= 0 {
    } else if is_char_boundary(b, k) {
    } else {
        lemma_floor_boundary(t, k - 1);
    }
}

/// The text made of the first `end` bytes of `t`.
pub open spec fn byte_prefix(t: Seq<char>, end: int) -> Seq<char> {
    decode_utf8(encode_utf8(t).subrange(0, end))
}

/// The last character boundary of `s` at or before byte `k`.
pub fn floor_char_boundary(s: &str, k: usize) -> (r: usize)
    ensures
        r == floor_boundary(encode_utf8(s@), k as int),
{
    let n = byte_count(s);
    if k >= n {
        return n;
    }
    let mut i = k;
    while i > 0 && !s.is_char_boundary(i)
        invariant
            i <= k,
            k < encode_utf8(s@).len(),
            floor_boundary(encode_utf8(s@), k as int) == floor_boundary(encode_utf8(s@), i as int),
        decreases i,
    {
        i = i - 1;
    }
    i
}

/// The length of `s` in bytes.
pub fn byte_count(s: &str) -> (n: usize)
    ensures
        n == encode_utf8(s@).len(),
{
    s.as_bytes().len()
}

/// The first `end` bytes of `s`, where `end` is a character boundary.
pub fn byte_prefix_of(s: &str, end: usize) -> (r: String)
    requires
        is_char_boundary(encode_utf8(s@), end as int),
    ensures
        r@ == byte_prefix(s@, end as int),
{
    broadcast use vstd::utf8::encode_utf8_decode_utf8;

    let (head, _) = s.split_at(end);
    assert(encode_utf8(head@) =~= encode_utf8(s@).subrange(0, end as int));
    String::from_str(head)
}

} // verus!
