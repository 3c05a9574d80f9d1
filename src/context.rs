//! Keeps the conversation inside the context budget, and restores a valid
//! conversation after a failed request.

use vstd::prelude::*;
use vstd::utf8::encode_utf8;
use crate::api::{blocks_model, BlockModel, ContentBlock, Message, Role, starts_exchange};
use crate::text::{
    byte_count, byte_len, byte_prefix, byte_prefix_of, floor_boundary, floor_char_boundary,
    lemma_floor_boundary,
};

verus! {

/// Appended to every text that was shortened to fit the budget.
pub const TRUNCATION_MARKER: &'static str = "\n... (truncated to fit context window)";

/// Texts of at most this many bytes are never shortened.
pub const MIN_TRUNCATE_BYTES: usize = 10_000;

/// A shortened text keeps at least this many bytes.
pub const MIN_KEEP_BYTES: usize = 1_000;

/// The budget for the serialized conversation, in bytes.
pub const MAX_CONVERSATION_BYTES: usize = 720_000;

/// A message, with its blocks as models.
pub struct MessageModel {
    pub role: Role,
    pub content: Seq<BlockModel>,
}

pub open spec fn msg_model(m: Message) -> MessageModel {
    MessageModel { role: m.role, content: blocks_model(m.content@) }
}

pub open spec fn conv_model(c: Seq<Message>) -> Seq<MessageModel> {
    c.map_values(|m: Message| msg_model(m))
}

/// Shortens text `t` while `rem` bytes are still to be saved; returns the new
/// text and the bytes still to be saved after it.
pub open spec fn cut_text(t: Seq<char>, rem: nat) -> (Seq<char>, nat) {
    let len = byte_len(t);
    if rem == 0 || len <= MIN_TRUNCATE_BYTES {
        (t, rem)
    } else {
        let keep = if len - rem >= MIN_KEEP_BYTES {
            len - rem
        } else {
            MIN_KEEP_BYTES as int
        };
        let end = floor_boundary(encode_utf8(t), keep);
        let saved = len - end;
        (
            byte_prefix(t, end) + TRUNCATION_MARKER@,
            if rem > saved {
                (rem - saved) as nat
            } else {
                0
            },
        )
    }
}

pub open spec fn cut_block(b: BlockModel, rem: nat) -> (BlockModel, nat) {
    match b {
        BlockModel::Text { text } => (BlockModel::Text { text: cut_text(text, rem).0 }, cut_text(text, rem).1),
        BlockModel::ToolResult { tool_use_id, content, is_error } => (
            BlockModel::ToolResult { tool_use_id, content: cut_text(content, rem).0, is_error },
            cut_text(content, rem).1,
        ),
        _ => (b, rem),
    }
}

/// The first `k` blocks of `bs` after shortening, in order, starting with `rem`
/// bytes to save; and the bytes still to save after them.
pub open spec fn cut_blocks(bs: Seq<BlockModel>, rem: nat, k: int) -> (Seq<BlockModel>, nat)
    decreases k,
{
    if k <= 0 {
        (Seq::empty(), rem)
    } else {
        let (done, r) = cut_blocks(bs, rem, k - 1);
        let (b, r2) = cut_block(bs[k - 1], r);
        (done.push(b), r2)
    }
}

/// The first `k` messages of `ms` after shortening, as `cut_blocks` does for blocks.
pub open spec fn cut_messages(ms: Seq<MessageModel>, rem: nat, k: int) -> (Seq<MessageModel>, nat)
    decreases k,
{
    if k <= 0 {
        (Seq::empty(), rem)
    } else {
        let (done, r) = cut_messages(ms, rem, k - 1);
        let m = ms[k - 1];
        let (content, r2) = cut_blocks(m.content, r, m.content.len() as int);
        (done.push(MessageModel { role: m.role, content }), r2)
    }
}

/// The whole conversation after shortening its texts to save `rem` bytes.
pub open spec fn cut_conversation(ms: Seq<MessageModel>, rem: nat) -> Seq<MessageModel> {
    cut_messages(ms, rem, ms.len() as int).0
}

/// Shortening never splits a character: a text over `MIN_TRUNCATE_BYTES`
/// bytes, with bytes still to save, becomes exactly its first bytes up to a
/// character boundary, followed by `TRUNCATION_MARKER`; otherwise it is kept.
pub proof fn lemma_cut_text_boundary_safe(t: Seq<char>, rem: nat) -> (end: int)
    ensures
        rem > 0 && byte_len(t) > MIN_TRUNCATE_BYTES ==> {
            &&& vstd::utf8::is_char_boundary(encode_utf8(t), end)
            &&& 0 <= end <= byte_len(t)
            &&& cut_text(t, rem).0 == byte_prefix(t, end) + TRUNCATION_MARKER@
            &&& encode_utf8(byte_prefix(t, end)) == encode_utf8(t).subrange(0, end)
        },
        !(rem > 0 && byte_len(t) > MIN_TRUNCATE_BYTES) ==> cut_text(t, rem).0 == t,
{
    broadcast use vstd::utf8::encode_utf8_valid_utf8, vstd::utf8::valid_utf8_split,
        vstd::utf8::decode_utf8_encode_utf8;

    let len = byte_len(t);
    if rem > 0 && len > MIN_TRUNCATE_BYTES {
        let keep = if len - rem >= MIN_KEEP_BYTES {
            len - rem
        } else {
            MIN_KEEP_BYTES as int
        };
        lemma_floor_boundary(t, keep);
        let end = floor_boundary(encode_utf8(t), keep);
        assert(vstd::utf8::valid_utf8(encode_utf8(t).subrange(0, end)));
        end
    } else {
        0
    }
}

fn cut_text_exec(t: String, rem: usize) -> (r: (String, usize))
    ensures
        (r.0@, r.1 as nat) == cut_text(t@, rem as nat),
{
    let len = byte_count(t.as_str());
    if rem == 0 || len <= MIN_TRUNCATE_BYTES {
        return (t, rem);
    }
    let keep = if len > rem && len - rem >= MIN_KEEP_BYTES {
        len - rem
    } else {
        MIN_KEEP_BYTES
    };
    proof {
        lemma_floor_boundary(t@, keep as int);
    }
    let end = floor_char_boundary(t.as_str(), keep);
    let saved = len - end;
    let rest = if rem > saved {
        rem - saved
    } else {
        0
    };
    let mut head = byte_prefix_of(t.as_str(), end);
    head.append(TRUNCATION_MARKER);
    (head, rest)
}

fn cut_block_exec(b: ContentBlock, rem: usize) -> (r: (ContentBlock, usize))
    ensures
        (r.0@, r.1 as nat) == cut_block(b@, rem as nat),
{
    match b {
        ContentBlock::Text { text } => {
            let (text, r) = cut_text_exec(text, rem);
            (ContentBlock::Text { text }, r)
        },
        ContentBlock::ToolResult { tool_use_id, content, is_error } => {
            let (content, r) = cut_text_exec(content, rem);
            (ContentBlock::ToolResult { tool_use_id, content, is_error }, r)
        },
        other => (other, rem),
    }
}

fn cut_message_exec(m: Message, rem: usize) -> (r: (Message, usize))
    ensures
        r.0.role == m.role,
        (blocks_model(r.0.content@), r.1 as nat) == cut_blocks(
            blocks_model(m.content@),
            rem as nat,
            m.content@.len() as int,
        ),
{
    let Message { role, content } = m;
    let mut content = content;
    let ghost orig = blocks_model(content@);
    let n = content.len();
    let mut left = rem;
    let mut i: usize = 0;
    while i < n
        invariant
            n == content@.len(),
            n == orig.len(),
            i <= n,
            forall|j: int| i <= j < n ==> #[trigger] content@[j]@ == orig[j],
            (blocks_model(content@).subrange(0, i as int), left as nat) == cut_blocks(
                orig,
                rem as nat,
                i as int,
            ),
        decreases n - i,
    {
        let ghost before = content@;
        let mut b = ContentBlock::Text { text: String::new() };
        content.set_and_swap(i, &mut b);
        let (b2, r2) = cut_block_exec(b, left);
        content.set(i, b2);
        assert(blocks_model(content@).subrange(0, i + 1) =~= blocks_model(before).subrange(
            0,
            i as int,
        ).push(b2@));
        left = r2;
        i = i + 1;
    }
    assert(blocks_model(content@).subrange(0, n as int) =~= blocks_model(content@));
    (Message { role, content }, left)
}

/// Shortens oversized texts until the conversation, `total` bytes when
/// serialized, saves what it exceeds `max_bytes` by.
///
/// Each text or tool-result block of more than `MIN_TRUNCATE_BYTES` bytes, in
/// conversation order, loses its tail down to the last character boundary that
/// covers what is still to be saved (keeping at least `MIN_KEEP_BYTES`), and
/// ends with `TRUNCATION_MARKER`; blocks after the deficit is covered stay as they are.
pub fn truncate_oversized_blocks(conversation: &mut Vec<Message>, total: usize, max_bytes: usize)
    ensures
        total <= max_bytes ==> *final(conversation) == *old(conversation),
        total > max_bytes ==> conv_model(final(conversation)@) == cut_conversation(
            conv_model(old(conversation)@),
            (total - max_bytes) as nat,
        ),
{
    if total <= max_bytes {
        return;
    }
    let ghost orig = conv_model(conversation@);
    let n = conversation.len();
    let mut left = total - max_bytes;
    let ghost rem0 = left as nat;
    let mut i: usize = 0;
    while i < n
        invariant
            n == conversation@.len(),
            n == orig.len(),
            i <= n,
            forall|j: int| i <= j < n ==> #[trigger] msg_model(conversation@[j]) == orig[j],
            (conv_model(conversation@).subrange(0, i as int), left as nat) == cut_messages(
                orig,
                rem0,
                i as int,
            ),
        decreases n - i,
    {
        let ghost before = conversation@;
        let mut m = Message { role: Role::User, content: Vec::new() };
        conversation.set_and_swap(i, &mut m);
        assert(msg_model(m) == orig[i as int]);
        let (m2, r2) = cut_message_exec(m, left);
        conversation.set(i, m2);
        assert(conv_model(conversation@).subrange(0, i + 1) =~= conv_model(before).subrange(
            0,
            i as int,
        ).push(msg_model(m2)));
        left = r2;
        i = i + 1;
    }
    assert(conv_model(conversation@).subrange(0, n as int) =~= conv_model(conversation@));
}

/// The sum of `s`.
pub open spec fn sum(s: Seq<usize>) -> int
    decreases s.len(),
{
    if s.len() == 0 {
        0
    } else {
        sum(s.drop_last()) + s.last()
    }
}

proof fn lemma_sum_prefix(s: Seq<usize>, i: int)
    requires
        0 <= i <= s.len(),
    ensures
        0 <= sum(s.subrange(0, i)) <= sum(s),
    decreases s.len(),
{
    if s.len() > 0 {
        if i == s.len() {
            assert(s.subrange(0, i) =~= s);
            lemma_sum_prefix(s.drop_last(), i - 1);
            assert(s.drop_last().subrange(0, i - 1) =~= s.drop_last());
        } else {
            lemma_sum_prefix(s.drop_last(), i);
            assert(s.drop_last().subrange(0, i) =~= s.subrange(0, i));
        }
    }
}

/// Indices, in order, of the messages that open a fresh exchange.
pub open spec fn exchange_starts(c: Seq<Message>) -> Seq<int>
    decreases c.len(),
{
    if c.len() == 0 {
        Seq::empty()
    } else if starts_exchange(c.last()) {
        exchange_starts(c.drop_last()).push(c.len() - 1)
    } else {
        exchange_starts(c.drop_last())
    }
}

proof fn lemma_exchange_starts(c: Seq<Message>)
    ensures
        forall|j: int| 0 <= j < exchange_starts(c).len() ==> 0 <= #[trigger] exchange_starts(c)[j] < c.len()
            && starts_exchange(c[exchange_starts(c)[j]]),
        forall|j: int, l: int| 0 <= j < l < exchange_starts(c).len() ==> exchange_starts(c)[j] < exchange_starts(c)[l],
    decreases c.len(),
{
    if c.len() > 0 {
        let d = c.drop_last();
        lemma_exchange_starts(d);
        let e = exchange_starts(c);
        let f = exchange_starts(d);
        assert forall|j: int| 0 <= j < e.len() implies 0 <= #[trigger] e[j] < c.len() && starts_exchange(
            c[e[j]],
        ) by {
            if j < f.len() {
                assert(e[j] == f[j]);
                assert(c[f[j]] == d[f[j]]);
            }
        }
        assert forall|j: int, l: int| 0 <= j < l < e.len() implies e[j] < e[l] by {
            if l < f.len() {
                assert(e[j] == f[j] && e[l] == f[l]);
            } else {
                assert(e[j] == f[j]);
            }
        }
    }
}

/// The first boundary `b[j]`, from `j` on, whose suffix fits in `max` bytes.
pub open spec fn first_fit(b: Seq<int>, sizes: Seq<usize>, max: int, j: int) -> Option<int>
    decreases b.len() - j,
{
    if j < 0 || j >= b.len() {
        None
    } else if sum(sizes) - sum(sizes.subrange(0, b[j])) <= max {
        Some(b[j])
    } else {
        first_fit(b, sizes, max, j + 1)
    }
}

/// Where trimming cuts the conversation: the messages before it are dropped.
pub open spec fn trim_cut(c: Seq<Message>, sizes: Seq<usize>, max: int) -> int {
    let b = exchange_starts(c);
    if sum(sizes) <= max || b.len() <= 1 {
        0
    } else {
        match first_fit(b, sizes, max, 1) {
            Some(k) => k,
            None => b.last(),
        }
    }
}

/// The conversation after trimming, as models.
///
/// Within budget it is unchanged. Otherwise the oldest exchanges are dropped
/// up to the first exchange start, after the first, from which the rest fits;
/// if none fits, all but the last exchange are dropped and the rest has its
/// texts shortened; with a single exchange only the texts are shortened.
pub open spec fn trimmed(c: Seq<Message>, sizes: Seq<usize>, max: int) -> Seq<MessageModel> {
    let k = trim_cut(c, sizes, max);
    let rest = conv_model(c).subrange(k, c.len() as int);
    let size = sum(sizes) - sum(sizes.subrange(0, k));
    if size <= max {
        rest
    } else {
        cut_conversation(rest, (size - max) as nat)
    }
}

fn drop_front(conversation: &mut Vec<Message>, k: usize)
    requires
        k <= old(conversation)@.len(),
    ensures
        final(conversation)@ == old(conversation)@.subrange(k as int, old(conversation)@.len() as int),
{
    let ghost orig = conversation@;
    let n = conversation.len();
    let mut out: Vec<Message> = Vec::new();
    let mut i = k;
    while i < n
        invariant
            n == conversation@.len(),
            n == orig.len(),
            k <= i <= n,
            forall|j: int| i <= j < n ==> #[trigger] conversation@[j] == orig[j],
            out@ == orig.subrange(k as int, i as int),
        decreases n - i,
    {
        let mut m = Message { role: Role::User, content: Vec::new() };
        conversation.set_and_swap(i, &mut m);
        out.push(m);
        assert(out@ =~= orig.subrange(k as int, i + 1));
        i = i + 1;
    }
    *conversation = out;
}

/// Fits the conversation into `max_bytes`, given the serialized size of each
/// message, by dropping whole exchanges from the front and, where that is not
/// enough, shortening texts (see `trimmed`).
pub fn trim_conversation(conversation: &mut Vec<Message>, sizes: &Vec<usize>, max_bytes: usize)
    requires
        sizes@.len() == old(conversation)@.len(),
        sum(sizes@) <= usize::MAX,
    ensures
        conv_model(final(conversation)@) == trimmed(old(conversation)@, sizes@, max_bytes as int),
{
    let ghost c = conversation@;
    let n = conversation.len();
    // prefix[i] is the size of the first i messages
    let mut prefix: Vec<usize> = Vec::new();
    prefix.push(0);
    let mut i: usize = 0;
    while i < n
        invariant
            n == sizes@.len(),
            n == c.len(),
            i <= n,
            sum(sizes@) <= usize::MAX,
            prefix@.len() == i + 1,
            forall|j: int| 0 <= j <= i ==> #[trigger] prefix@[j] == sum(sizes@.subrange(0, j)),
        decreases n - i,
    {
        proof {
            lemma_sum_prefix(sizes@, i + 1);
            assert(sizes@.subrange(0, i + 1).drop_last() =~= sizes@.subrange(0, i as int));
        }
        let next = prefix[i] + sizes[i];
        prefix.push(next);
        i = i + 1;
    }
    assert(sizes@.subrange(0, n as int) =~= sizes@);
    let total = prefix[n];
    if total <= max_bytes {
        assert(conv_model(c).subrange(0, n as int) =~= conv_model(c));
        return;
    }
    let mut bounds: Vec<usize> = Vec::new();
    let mut i: usize = 0;
    while i < n
        invariant
            n == c.len(),
            c == conversation@,
            i <= n,
            bounds@.len() == exchange_starts(c.subrange(0, i as int)).len(),
            forall|j: int| 0 <= j < bounds@.len() ==> #[trigger] bounds@[j] as int == exchange_starts(
                c.subrange(0, i as int),
            )[j],
        decreases n - i,
    {
        assert(c.subrange(0, i + 1).drop_last() =~= c.subrange(0, i as int));
        let m = &conversation[i];
        let opens = match m.role {
            Role::User => m.content.len() > 0 && match &m.content[0] {
                ContentBlock::Text { .. } => true,
                _ => false,
            },
            Role::Assistant => false,
        };
        assert(c.subrange(0, i + 1).last() == c[i as int]);
        if opens {
            bounds.push(i);
        }
        i = i + 1;
    }
    assert(c.subrange(0, n as int) =~= c);
    let ghost b = exchange_starts(c);
    proof {
        lemma_exchange_starts(c);
    }
    if bounds.len() <= 1 {
        truncate_oversized_blocks(conversation, total, max_bytes);
        assert(conv_model(c).subrange(0, n as int) =~= conv_model(c));
        return;
    }
    let mut j: usize = 1;
    while j < bounds.len()
        invariant
            1 <= j <= bounds@.len(),
            bounds@.len() == b.len(),
            b == exchange_starts(c),
            b.len() >= 2,
            forall|l: int| 0 <= l < bounds@.len() ==> #[trigger] bounds@[l] as int == b[l],
            forall|l: int| 0 <= l < b.len() ==> 0 <= #[trigger] b[l] < n,
            prefix@.len() == n + 1,
            forall|l: int| 0 <= l <= n ==> #[trigger] prefix@[l] == sum(sizes@.subrange(0, l)),
            total == sum(sizes@),
            total > max_bytes,
            c == conversation@,
            c == old(conversation)@,
            n == c.len(),
            sizes@.len() == n,
            first_fit(b, sizes@, max_bytes as int, 1) == first_fit(b, sizes@, max_bytes as int, j as int),
        decreases bounds@.len() - j,
    {
        let cut = bounds[j];
        proof {
            lemma_sum_prefix(sizes@, cut as int);
        }
        if total - prefix[cut] <= max_bytes {
            assert(first_fit(b, sizes@, max_bytes as int, j as int) == Some(cut as int));
            assert(trim_cut(c, sizes@, max_bytes as int) == cut as int);
            drop_front(conversation, cut);
            assert(conv_model(conversation@) =~= conv_model(c).subrange(cut as int, n as int));
            return;
        }
        j = j + 1;
    }
    let last = bounds[bounds.len() - 1];
    proof {
        lemma_sum_prefix(sizes@, last as int);
    }
    let rest = total - prefix[last];
    drop_front(conversation, last);
    assert(conv_model(conversation@) =~= conv_model(c).subrange(last as int, n as int));
    truncate_oversized_blocks(conversation, rest, max_bytes);
}

/// Whether `b` stands where `a` stood: the same kind of block, the same tool
/// call, or a result for the same call; only texts may differ.
pub open spec fn same_kind(a: BlockModel, b: BlockModel) -> bool {
    match a {
        BlockModel::Text { .. } => b is Text,
        BlockModel::ToolUse { .. } => b == a,
        BlockModel::ToolResult { tool_use_id, is_error, .. } => match b {
            BlockModel::ToolResult { tool_use_id: t, is_error: e, .. } => tool_use_id == t && is_error
                == e,
            _ => false,
        },
    }
}

/// Whether `b` is `a` with at most its texts changed.
pub open spec fn same_shape(a: MessageModel, b: MessageModel) -> bool {
    &&& a.role == b.role
    &&& a.content.len() == b.content.len()
    &&& forall|i: int| 0 <= i < a.content.len() ==> same_kind(#[trigger] a.content[i], b.content[i])
}

pub open spec fn opens_with_tool_result(m: MessageModel) -> bool {
    m.role == Role::User && m.content.len() > 0 && m.content[0] is ToolResult
}

proof fn lemma_cut_blocks_shape(bs: Seq<BlockModel>, rem: nat, k: int)
    requires
        0 <= k <= bs.len(),
    ensures
        cut_blocks(bs, rem, k).0.len() == k,
        forall|i: int| 0 <= i < k ==> same_kind(#[trigger] cut_blocks(bs, rem, k).0[i], bs[i]),
    decreases k,
{
    if k > 0 {
        lemma_cut_blocks_shape(bs, rem, k - 1);
    }
}

proof fn lemma_cut_messages_shape(ms: Seq<MessageModel>, rem: nat, k: int)
    requires
        0 <= k <= ms.len(),
    ensures
        cut_messages(ms, rem, k).0.len() == k,
        forall|i: int| 0 <= i < k ==> same_shape(#[trigger] cut_messages(ms, rem, k).0[i], ms[i]),
    decreases k,
{
    if k > 0 {
        lemma_cut_messages_shape(ms, rem, k - 1);
        let r = cut_messages(ms, rem, k - 1).1;
        let m = ms[k - 1];
        lemma_cut_blocks_shape(m.content, r, m.content.len() as int);
    }
}

proof fn lemma_first_fit(b: Seq<int>, sizes: Seq<usize>, max: int, j: int)
    ensures
        first_fit(b, sizes, max, j) matches Some(x) ==> exists|l: int| 0 <= j <= l < b.len() && x == b[l],
    decreases b.len() - j,
{
    if 0 <= j < b.len() && !(sum(sizes) - sum(sizes.subrange(0, b[j])) <= max) {
        lemma_first_fit(b, sizes, max, j + 1);
    }
}

/// Trimming never separates a tool result from the call it answers.
///
/// What survives is the conversation from some message `k` on, message for
/// message, with at most texts shortened. When anything was dropped, message
/// `k` opens a fresh exchange with user text, so the result starts with a tool
/// result only if the conversation itself did, and every later tool result
/// still follows the assistant message it answered.
pub proof fn lemma_trim_keeps_pairing(c: Seq<Message>, sizes: Seq<usize>, max: int) -> (k: int)
    requires
        sizes.len() == c.len(),
    ensures
        0 <= k <= c.len(),
        trimmed(c, sizes, max).len() == c.len() - k,
        forall|i: int| 0 <= i < c.len() - k ==> same_shape(#[trigger] trimmed(c, sizes, max)[i], msg_model(c[k + i])),
        k > 0 ==> starts_exchange(c[k]),
        forall|i: int| 0 <= i < c.len() - k && opens_with_tool_result(#[trigger] trimmed(c, sizes, max)[i])
            ==> i > 0 || k == 0,
{
    let k = trim_cut(c, sizes, max);
    let b = exchange_starts(c);
    lemma_exchange_starts(c);
    if !(sum(sizes) <= max || b.len() <= 1) {
        lemma_first_fit(b, sizes, max, 1);
        assert(b[0] < b[b.len() - 1]);
    }
    let rest = conv_model(c).subrange(k, c.len() as int);
    let size = sum(sizes) - sum(sizes.subrange(0, k));
    if !(size <= max) {
        lemma_cut_messages_shape(rest, (size - max) as nat, rest.len() as int);
    }
    let r = trimmed(c, sizes, max);
    assert forall|i: int| 0 <= i < c.len() - k implies same_shape(#[trigger] r[i], msg_model(c[k + i])) by {
        assert(rest[i] == msg_model(c[k + i]));
    }
    if k > 0 && c.len() - k > 0 {
        assert(blocks_model(c[k].content@)[0] == c[k].content@[0]@);
        assert(same_kind(r[0].content[0], msg_model(c[k]).content[0]));
    }
    k
}

/// Restores a sendable conversation after a failed request: drops a trailing
/// user message and, when that message answered tool calls, the assistant
/// message that issued them.
pub fn recover_conversation(conversation: &mut Vec<Message>)
    ensures
        ({
            let c = old(conversation)@;
            let n = c.len();
            if n > 0 && c[n - 1].role == Role::User {
                if c[n - 1].content@.len() > 0 && c[n - 1].content@[0] is ToolResult && n > 1
                    && c[n - 2].role == Role::Assistant {
                    final(conversation)@ == c.subrange(0, n - 2)
                } else {
                    final(conversation)@ == c.subrange(0, n - 1)
                }
            } else {
                final(conversation)@ == c
            }
        }),
{
    let n = conversation.len();
    if n == 0 {
        return;
    }
    let was_tool_results = match conversation[n - 1].role {
        Role::User => {
            let m = &conversation[n - 1];
            m.content.len() > 0 && match &m.content[0] {
                ContentBlock::ToolResult { .. } => true,
                _ => false,
            }
        },
        Role::Assistant => return,
    };
    conversation.pop();
    if was_tool_results && n > 1 {
        let is_assistant = match conversation[n - 2].role {
            Role::Assistant => true,
            Role::User => false,
        };
        if is_assistant {
            conversation.pop();
        }
    }
}

/// The blocks that are not tool calls left without input, in their order.
pub open spec fn complete_blocks(s: Seq<BlockModel>) -> Seq<BlockModel>
    decreases s.len(),
{
    if s.len() == 0 {
        s
    } else if s.last() matches BlockModel::ToolUse { input: None, .. } {
        complete_blocks(s.drop_last())
    } else {
        complete_blocks(s.drop_last()).push(s.last())
    }
}

/// Removes the tool calls whose input never arrived complete: a response cut
/// short by the token ceiling can leave one that can never be answered.
pub fn drop_incomplete_tool_uses(message: &mut Message)
    ensures
        final(message).role == old(message).role,
        blocks_model(final(message).content@) == complete_blocks(blocks_model(old(message).content@)),
{
    let mut content = Vec::new();
    std::mem::swap(&mut content, &mut message.content);
    let ghost src = blocks_model(content@);
    let n = content.len();
    let mut out: Vec<ContentBlock> = Vec::new();
    let mut i: usize = 0;
    while i < n
        invariant
            n == content@.len(),
            n == src.len(),
            i <= n,
            forall|j: int| i <= j < n ==> #[trigger] content@[j]@ == src[j],
            blocks_model(out@) == complete_blocks(src.subrange(0, i as int)),
        decreases n - i,
    {
        let mut b = ContentBlock::Text { text: String::new() };
        content.set_and_swap(i, &mut b);
        let keep = match &b {
            ContentBlock::ToolUse { input, .. } => input.is_some(),
            _ => true,
        };
        let ghost before = out@;
        assert(b@ == src[i as int]);
        assert(keep == !(src[i as int] matches BlockModel::ToolUse { input: None, .. }));
        assert(src.subrange(0, i + 1).last() == src[i as int]);
        assert(src.subrange(0, i + 1).drop_last() =~= src.subrange(0, i as int));
        if keep {
            out.push(b);
            assert(blocks_model(out@) =~= blocks_model(before).push(src[i as int]));
        }
        i = i + 1;
    }
    assert(src.subrange(0, n as int) =~= src);
    message.content = out;
}

} // verus!
