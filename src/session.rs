//! The bookkeeping of a session transcript: which prompt opened it, how its
//! lines chain, and the summary of the actions taken. Writing the files, and
//! drawing identifiers and timestamps, is left to the caller.

use vstd::prelude::*;
use crate::api::{blocks_model, ArgValue, BlockModel, ContentBlock, Message, ToolInput};
use crate::text::concat;

verus! {

pub struct Session {
    pub session_id: String,
    pub cwd: String,
    pub model: String,
    pub start_time: String,
    /// The identifier of the last transcript line written.
    pub parent_uuid: Option<String>,
    /// The text of the first user message that began with text.
    pub first_prompt: Option<String>,
}

/// The first argument of a tool call when it holds a string, else the empty text.
pub open spec fn first_arg(input: Option<ToolInput>) -> Seq<char> {
    match input {
        Some(i) => if i.args@.len() > 0 {
            match i.args@[0].1 {
                ArgValue::Str(s) => s@,
                _ => Seq::empty(),
            }
        } else {
            Seq::empty()
        },
        None => Seq::empty(),
    }
}

/// The summary line of a tool call; other blocks have none.
pub open spec fn action_line(b: BlockModel) -> Seq<char> {
    match b {
        BlockModel::ToolUse { name, input, .. } => "- **"@ + name + "**: "@ + first_arg(input) + "\n"@,
        _ => Seq::empty(),
    }
}

pub open spec fn block_actions(bs: Seq<BlockModel>) -> Seq<char>
    decreases bs.len(),
{
    if bs.len() == 0 {
        Seq::empty()
    } else {
        block_actions(bs.drop_last()) + action_line(bs.last())
    }
}

/// The summary lines of every tool call in the conversation, in order.
pub open spec fn conversation_actions(c: Seq<Message>) -> Seq<char>
    decreases c.len(),
{
    if c.len() == 0 {
        Seq::empty()
    } else {
        conversation_actions(c.drop_last()) + block_actions(blocks_model(c.last().content@))
    }
}

fn action_text(b: &ContentBlock) -> (r: String)
    ensures
        r@ == action_line(b@),
{
    match b {
        ContentBlock::ToolUse { name, input, .. } => {
            let arg = match input {
                Some(i) => if i.args.len() > 0 {
                    match &i.args[0].1 {
                        ArgValue::Str(s) => s.clone(),
                        _ => String::new(),
                    }
                } else {
                    String::new()
                },
                None => String::new(),
            };
            let a = concat("- **", name.as_str());
            let b = concat(a.as_str(), "**: ");
            let c = concat(b.as_str(), arg.as_str());
            concat(c.as_str(), "\n")
        },
        _ => String::new(),
    }
}

impl Session {
    pub fn new(session_id: String, cwd: String, model: String, start_time: String) -> (r: Session)
        ensures
            r.session_id == session_id,
            r.cwd == cwd,
            r.model == model,
            r.start_time == start_time,
            r.parent_uuid is None,
            r.first_prompt is None,
    {
        Session { session_id, cwd, model, start_time, parent_uuid: None, first_prompt: None }
    }

    /// Notes a user message: the first that begins with text gives the session its prompt.
    pub fn note_user_turn(&mut self, message: &Message)
        ensures
            final(self).parent_uuid == old(self).parent_uuid,
            final(self).session_id == old(self).session_id,
            final(self).cwd == old(self).cwd,
            final(self).model == old(self).model,
            final(self).start_time == old(self).start_time,
            final(self).first_prompt == (if old(self).first_prompt is None && message.content@.len() > 0
                && message.content@[0] is Text {
                Some(message.content@[0]->text)
            } else {
                old(self).first_prompt
            }),
    {
        if self.first_prompt.is_none() && message.content.len() > 0 {
            match &message.content[0] {
                ContentBlock::Text { text } => {
                    self.first_prompt = Some(text.clone());
                },
                _ => {},
            }
        }
    }

    /// Chains a new transcript line with identifier `uuid`: returns the line's
    /// parent, the previous line, and makes the new line the parent of the next.
    pub fn chain(&mut self, uuid: String) -> (parent: Option<String>)
        ensures
            parent == old(self).parent_uuid,
            final(self).parent_uuid == Some(uuid),
            final(self).first_prompt == old(self).first_prompt,
            final(self).session_id == old(self).session_id,
            final(self).cwd == old(self).cwd,
            final(self).model == old(self).model,
            final(self).start_time == old(self).start_time,
    {
        let parent = self.parent_uuid.take();
        self.parent_uuid = Some(uuid);
        parent
    }

    /// The session summary: a header, then one line per tool call.
    pub fn context_markdown(&self, conversation: &Vec<Message>) -> (r: String)
        ensures
            r@ == "# Session "@ + self.session_id@ + "\n\n- Model: "@ + self.model@ + "\n- Started: "@
                + self.start_time@ + "\n- CWD: "@ + self.cwd@ + "\n\n## Key Actions\n\n"@
                + conversation_actions(conversation@),
    {
        let a = concat("# Session ", self.session_id.as_str());
        let b = concat(a.as_str(), "\n\n- Model: ");
        let c = concat(b.as_str(), self.model.as_str());
        let d = concat(c.as_str(), "\n- Started: ");
        let e = concat(d.as_str(), self.start_time.as_str());
        let f = concat(e.as_str(), "\n- CWD: ");
        let g = concat(f.as_str(), self.cwd.as_str());
        let mut out = concat(g.as_str(), "\n\n## Key Actions\n\n");
        let ghost head = out@;
        let n = conversation.len();
        let mut i: usize = 0;
        while i < n
            invariant
                n == conversation@.len(),
                i <= n,
                out@ == head + conversation_actions(conversation@.subrange(0, i as int)),
            decreases n - i,
        {
            let m = &conversation[i];
            let ghost bs = blocks_model(m.content@);
            let ghost before = out@;
            let k = m.content.len();
            let mut j: usize = 0;
            while j < k
                invariant
                    k == m.content@.len(),
                    bs == blocks_model(m.content@),
                    j <= k,
                    out@ == before + block_actions(bs.subrange(0, j as int)),
                decreases k - j,
            {
                let line = action_text(&m.content[j]);
                out.append(line.as_str());
                assert(bs.subrange(0, j + 1).drop_last() =~= bs.subrange(0, j as int));
                j = j + 1;
            }
            assert(bs.subrange(0, k as int) =~= bs);
            assert(conversation@.subrange(0, i + 1).drop_last() =~= conversation@.subrange(0, i as int));
            i = i + 1;
        }
        assert(conversation@.subrange(0, n as int) =~= conversation@);
        out
    }
}

} // verus!
