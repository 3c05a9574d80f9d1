//! The decisions of the agent loop between model requests. The loop itself,
//! which performs the requests and runs the tools, lives with the caller.

use vstd::prelude::*;
use crate::api::{blocks_model, BlockModel, ContentBlock, Message, Role, StopReason};
use crate::context::{complete_blocks, drop_incomplete_tool_uses};

verus! {

/// Tool rounds allowed within one user turn before the turn is abandoned.
pub const MAX_TOOL_ITERATIONS: usize = 50;

/// Whether the turn has used up its tool rounds.
pub fn iteration_limit_reached(iterations: usize) -> (r: bool)
    ensures
        r == (iterations >= MAX_TOOL_ITERATIONS),
{
    iterations >= MAX_TOOL_ITERATIONS
}

/// Appends the model's response to the conversation as an assistant message
/// and says whether the model asked for tools. A response cut off by the
/// token ceiling loses the tool calls whose input never arrived complete.
pub fn record_response(conversation: &mut Vec<Message>, blocks: Vec<ContentBlock>, stop: StopReason) -> (wants_tools: bool)
    ensures
        wants_tools == (stop == StopReason::ToolUse),
        final(conversation)@.len() == old(conversation)@.len() + 1,
        final(conversation)@.subrange(0, old(conversation)@.len() as int) == old(conversation)@,
        final(conversation)@.last().role == Role::Assistant,
        stop == StopReason::MaxTokens ==> blocks_model(final(conversation)@.last().content@)
            == complete_blocks(blocks_model(blocks@)),
        stop != StopReason::MaxTokens ==> final(conversation)@.last().content@ == blocks@,
{
    let mut message = Message { role: Role::Assistant, content: blocks };
    if stop == StopReason::MaxTokens {
        drop_incomplete_tool_uses(&mut message);
    }
    let ghost before = conversation@;
    conversation.push(message);
    assert(conversation@.subrange(0, before.len() as int) =~= before);
    stop == StopReason::ToolUse
}

/// The positions of the tool calls among `blocks`, from position `i` on.
pub open spec fn tool_call_positions(blocks: Seq<BlockModel>, i: int) -> Seq<int>
    decreases blocks.len() - i,
{
    if i < 0 || i >= blocks.len() {
        Seq::empty()
    } else if blocks[i] is ToolUse {
        seq![i] + tool_call_positions(blocks, i + 1)
    } else {
        tool_call_positions(blocks, i + 1)
    }
}

/// The positions, in order, of the tool calls in message `m`.
pub fn tool_calls(m: &Message) -> (r: Vec<usize>)
    ensures
        r@.map_values(|i: usize| i as int) == tool_call_positions(blocks_model(m.content@), 0),
{
    let ghost b = blocks_model(m.content@);
    let n = m.content.len();
    let mut out: Vec<usize> = Vec::new();
    let mut i = n;
    while i > 0
        invariant
            i <= n,
            n == b.len(),
            b == blocks_model(m.content@),
            out@.map_values(|k: usize| k as int) == tool_call_positions(b, i as int),
        decreases i,
    {
        i = i - 1;
        let is_call = match &m.content[i] {
            ContentBlock::ToolUse { .. } => true,
            _ => false,
        };
        assert(is_call == (b[i as int] is ToolUse));
        if is_call {
            out.insert(0, i);
            assert(out@.map_values(|k: usize| k as int) =~= seq![i as int] + tool_call_positions(b, i + 1));
        }
    }
    out
}

} // verus!
