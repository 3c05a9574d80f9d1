//! Decoder for the model's streamed response: protocol lines in, typed
//! content blocks and a stop reason out.

use vstd::prelude::*;
use serde_json::Value;
use crate::api::{
    blocks_model, AgentError, ArgValue, BlockModel, ContentBlock, StopReason, ToolInput,
};
use crate::text::{
    concat, has_prefix, holds_nonempty, holds_text, opt_is, strip_prefix, text_or_empty,
};

verus! {

/// The fields of an event payload that the decoder reads; each is `None`
/// where the payload lacks it or holds a value of another type there.
#[derive(Debug, Clone, PartialEq)]
pub struct EventFields {
    pub index: Option<u64>,
    pub block_type: Option<String>,
    pub block_id: Option<String>,
    pub block_name: Option<String>,
    pub delta_type: Option<String>,
    pub delta_text: Option<String>,
    pub partial_json: Option<String>,
    pub stop_reason: Option<String>,
    pub error_message: Option<String>,
}

/// What serde_json reads from an event payload; `None` when it is not JSON.
pub uninterp spec fn event_fields_of(data: Seq<char>) -> Option<EventFields>;

/// What serde_json reads from a tool call's argument text; `None` when it is
/// not JSON or is `null`.
pub uninterp spec fn tool_input_of(text: Seq<char>) -> Option<ToolInput>;

/// Relies on serde_json::from_str to parse a payload, and on indexing the
/// parsed `Value` (which yields `Null` for a missing key) to pick its fields.
#[verifier::external_body]
fn parse_event_fields(data: &str) -> (r: Option<EventFields>)
    ensures
        r == event_fields_of(data@),
{
    let p: Value = serde_json::from_str(data).ok()?;
    let s = |v: &Value| v.as_str().map(String::from);
    let (b, d) = (&p["content_block"], &p["delta"]);
    Some(EventFields {
        index: p["index"].as_u64(),
        block_type: s(&b["type"]), block_id: s(&b["id"]), block_name: s(&b["name"]),
        delta_type: s(&d["type"]), delta_text: s(&d["text"]),
        partial_json: s(&d["partial_json"]), stop_reason: s(&d["stop_reason"]),
        error_message: s(&p["error"]["message"]),
    })
}

/// Relies on serde_json::from_str to parse a tool call's arguments, and on
/// iterating the parsed object's entries.
#[verifier::external_body]
fn parse_tool_input(text: &str) -> (r: Option<ToolInput>)
    ensures
        r == tool_input_of(text@),
{
    let v: Value = serde_json::from_str(text).ok()?;
    let args = match &v {
        Value::Null => return None,
        Value::Object(m) => m.iter().map(|(k, x)| (k.clone(), match x {
            Value::String(s) => ArgValue::Str(s.clone()),
            Value::Bool(b) => ArgValue::Bool(*b),
            _ => ArgValue::Other,
        })).collect(),
        _ => Vec::new(),
    };
    Some(ToolInput { json: v.to_string(), args })
}

/// The decoder's state, with its texts as character sequences.
pub struct DecoderModel {
    pub event: Seq<char>,
    pub blocks: Seq<BlockModel>,
    pub fragments: Seq<Seq<char>>,
    pub stop: Option<StopReason>,
    pub complete: bool,
}

pub open spec fn initial_model() -> DecoderModel {
    DecoderModel {
        event: Seq::empty(),
        blocks: Seq::empty(),
        fragments: Seq::empty(),
        stop: None,
        complete: false,
    }
}

/// The block that a `content_block_start` event opens.
pub open spec fn start_block(f: EventFields) -> BlockModel {
    if holds_text(f.block_type, "tool_use"@) && holds_nonempty(f.block_id) && holds_nonempty(
        f.block_name,
    ) {
        BlockModel::ToolUse { id: f.block_id->0@, name: f.block_name->0@, input: None }
    } else {
        BlockModel::Text { text: Seq::empty() }
    }
}

pub open spec fn stop_reason_named(s: Option<String>) -> Option<StopReason> {
    if holds_text(s, "end_turn"@) {
        Some(StopReason::EndTurn)
    } else if holds_text(s, "tool_use"@) {
        Some(StopReason::ToolUse)
    } else if holds_text(s, "max_tokens"@) {
        Some(StopReason::MaxTokens)
    } else {
        None
    }
}

pub open spec fn after_text_delta(m: DecoderModel, i: int, t: Seq<char>) -> DecoderModel {
    if 0 <= i < m.blocks.len() {
        match m.blocks[i] {
            BlockModel::Text { text } => DecoderModel {
                blocks: m.blocks.update(i, BlockModel::Text { text: text + t }),
                ..m
            },
            _ => m,
        }
    } else {
        m
    }
}

pub open spec fn after_json_delta(m: DecoderModel, i: int, t: Seq<char>) -> DecoderModel {
    if 0 <= i < m.fragments.len() {
        DecoderModel { fragments: m.fragments.update(i, m.fragments[i] + t), ..m }
    } else {
        m
    }
}

pub open spec fn after_block_stop(m: DecoderModel, i: int) -> DecoderModel {
    if 0 <= i < m.blocks.len() && i < m.fragments.len() && m.fragments[i].len() > 0 {
        match m.blocks[i] {
            BlockModel::ToolUse { id, name, input } => DecoderModel {
                blocks: m.blocks.update(
                    i,
                    BlockModel::ToolUse { id, name, input: tool_input_of(m.fragments[i]) },
                ),
                ..m
            },
            _ => m,
        }
    } else {
        m
    }
}

/// The state after a payload `f` of the current event, for every event but `error`.
pub open spec fn after_event(m: DecoderModel, f: EventFields) -> DecoderModel {
    if m.event == "content_block_start"@ {
        DecoderModel {
            blocks: m.blocks.push(start_block(f)),
            fragments: m.fragments.push(Seq::empty()),
            ..m
        }
    } else if m.event == "content_block_delta"@ {
        match f.index {
            None => m,
            Some(i) => if holds_text(f.delta_type, "text_delta"@) {
                after_text_delta(m, i as int, text_or_empty(f.delta_text))
            } else if holds_text(f.delta_type, "input_json_delta"@) {
                after_json_delta(m, i as int, text_or_empty(f.partial_json))
            } else {
                m
            },
        }
    } else if m.event == "content_block_stop"@ {
        match f.index {
            None => m,
            Some(i) => after_block_stop(m, i as int),
        }
    } else if m.event == "message_delta"@ {
        match stop_reason_named(f.stop_reason) {
            Some(r) => DecoderModel { stop: Some(r), ..m },
            None => m,
        }
    } else if m.event == "message_stop"@ {
        DecoderModel { complete: true, ..m }
    } else {
        m
    }
}

/// The text of the error that an `error` event with payload `f` ends the decode with.
pub open spec fn remote_error_text(f: EventFields) -> Seq<char> {
    "stream error: "@ + match f.error_message {
        Some(s) => s@,
        None => "unknown stream error"@,
    }
}

/// How a line can end the decode.
pub enum LineFailure {
    /// A `data:` line whose payload is not JSON.
    Malformed,
    /// An `error` event, with the text of the error it ends the decode with.
    Remote(Seq<char>),
}

/// The state after one protocol line, or why the line ends the decode.
pub open spec fn after_line(m: DecoderModel, line: Seq<char>) -> Result<DecoderModel, LineFailure> {
    if line.len() == 0 {
        Ok(m)
    } else if has_prefix(line, "event: "@) {
        Ok(DecoderModel { event: line.subrange("event: "@.len() as int, line.len() as int), ..m })
    } else if has_prefix(line, "data: "@) {
        match event_fields_of(line.subrange("data: "@.len() as int, line.len() as int)) {
            None => Err(LineFailure::Malformed),
            Some(f) => if m.event == "error"@ {
                Err(LineFailure::Remote(remote_error_text(f)))
            } else {
                Ok(after_event(m, f))
            },
        }
    } else {
        Ok(m)
    }
}

/// A text block that never received text: it stood for a block kind that is not modeled.
pub open spec fn is_placeholder(b: BlockModel) -> bool {
    match b {
        BlockModel::Text { text } => text.len() == 0,
        _ => false,
    }
}

/// The blocks that are not placeholders, in their order.
pub open spec fn visible_blocks(s: Seq<BlockModel>) -> Seq<BlockModel>
    decreases s.len(),
{
    if s.len() == 0 {
        s
    } else if is_placeholder(s.last()) {
        visible_blocks(s.drop_last())
    } else {
        visible_blocks(s.drop_last()).push(s.last())
    }
}

/// The stop reason a finished decode reports: the one delivered, else `EndTurn`
/// after an explicit end of message, else none.
pub open spec fn final_stop(m: DecoderModel) -> Option<StopReason> {
    if m.stop is Some {
        m.stop
    } else if m.complete {
        Some(StopReason::EndTurn)
    } else {
        None
    }
}

/// The state after event `e`, a name and a payload, that is not `error`.
pub open spec fn step(m: DecoderModel, e: (Seq<char>, EventFields)) -> DecoderModel {
    after_event(DecoderModel { event: e.0, ..m }, e.1)
}

/// The state after the events `evs`, in order.
pub open spec fn run(m: DecoderModel, evs: Seq<(Seq<char>, EventFields)>) -> DecoderModel
    decreases evs.len(),
{
    if evs.len() == 0 {
        m
    } else {
        step(run(m, evs.drop_last()), evs.last())
    }
}

/// Whether `e` is a block event: a start, a delta or a stop.
pub open spec fn is_block_event(e: (Seq<char>, EventFields)) -> bool {
    e.0 == "content_block_start"@ || e.0 == "content_block_delta"@ || e.0 == "content_block_stop"@
}

/// Whether `e` addresses block `i`.
pub open spec fn addresses(e: (Seq<char>, EventFields), i: int) -> bool {
    e.1.index matches Some(k) && k as int == i
}

/// The blocks that the start events among `evs` open, in order.
pub open spec fn opened(evs: Seq<(Seq<char>, EventFields)>) -> Seq<BlockModel>
    decreases evs.len(),
{
    if evs.len() == 0 {
        Seq::empty()
    } else if evs.last().0 == "content_block_start"@ {
        opened(evs.drop_last()).push(start_block(evs.last().1))
    } else {
        opened(evs.drop_last())
    }
}

/// The text that the text deltas among `evs` sent to block `i` once it was open as text.
pub open spec fn sent_text(evs: Seq<(Seq<char>, EventFields)>, i: int) -> Seq<char>
    decreases evs.len(),
{
    if evs.len() == 0 {
        Seq::empty()
    } else {
        let prev = evs.drop_last();
        let e = evs.last();
        if e.0 == "content_block_delta"@ && addresses(e, i) && holds_text(e.1.delta_type, "text_delta"@)
            && 0 <= i < opened(prev).len() && opened(prev)[i] is Text {
            sent_text(prev, i) + text_or_empty(e.1.delta_text)
        } else {
            sent_text(prev, i)
        }
    }
}

/// The argument text that the JSON deltas among `evs` sent to block `i` once it was open.
pub open spec fn sent_json(evs: Seq<(Seq<char>, EventFields)>, i: int) -> Seq<char>
    decreases evs.len(),
{
    if evs.len() == 0 {
        Seq::empty()
    } else {
        let prev = evs.drop_last();
        let e = evs.last();
        if e.0 == "content_block_delta"@ && addresses(e, i) && !holds_text(
            e.1.delta_type,
            "text_delta"@,
        ) && holds_text(e.1.delta_type, "input_json_delta"@) && 0 <= i < opened(prev).len() {
            sent_json(prev, i) + text_or_empty(e.1.partial_json)
        } else {
            sent_json(prev, i)
        }
    }
}

/// The input of tool call `i`: what its argument text parsed to at its last
/// stop event that found argument text.
pub open spec fn input_for(evs: Seq<(Seq<char>, EventFields)>, i: int) -> Option<ToolInput>
    decreases evs.len(),
{
    if evs.len() == 0 {
        None
    } else {
        let prev = evs.drop_last();
        let e = evs.last();
        if e.0 == "content_block_stop"@ && addresses(e, i) && 0 <= i < opened(prev).len()
            && opened(prev)[i] is ToolUse && sent_json(prev, i).len() > 0 {
            tool_input_of(sent_json(prev, i))
        } else {
            input_for(prev, i)
        }
    }
}

/// Block `i` as the events `evs` assembled it.
pub open spec fn assembled(evs: Seq<(Seq<char>, EventFields)>, i: int) -> BlockModel {
    match opened(evs)[i] {
        BlockModel::ToolUse { id, name, .. } => BlockModel::ToolUse { id, name, input: input_for(evs, i) },
        _ => BlockModel::Text { text: sent_text(evs, i) },
    }
}

proof fn lemma_event_names()
    ensures
        "content_block_start"@ != "content_block_delta"@,
        "content_block_start"@ != "content_block_stop"@,
        "content_block_delta"@ != "content_block_stop"@,
        "text_delta"@ != "input_json_delta"@,
{
    reveal_strlit("content_block_start");
    reveal_strlit("content_block_delta");
    reveal_strlit("content_block_stop");
    reveal_strlit("text_delta");
    reveal_strlit("input_json_delta");
    assert("content_block_start"@[14] != "content_block_delta"@[14]);
    assert("content_block_start"@[16] != "content_block_stop"@[16]);
    assert("content_block_delta"@.len() != "content_block_stop"@.len());
    assert("text_delta"@.len() != "input_json_delta"@.len());
}

proof fn lemma_opened(evs: Seq<(Seq<char>, EventFields)>)
    ensures
        evs.len() > 0 ==> opened(evs.drop_last()).len() <= opened(evs).len(),
        forall|i: int| 0 <= i < opened(evs).len() ==> (#[trigger] opened(evs)[i] is Text) || opened(
            evs,
        )[i] is ToolUse,
        forall|i: int| i >= opened(evs).len() ==> #[trigger] sent_text(evs, i) == Seq::<char>::empty()
            && sent_json(evs, i) == Seq::<char>::empty() && input_for(evs, i) is None,
    decreases evs.len(),
{
    if evs.len() > 0 {
        let prev = evs.drop_last();
        lemma_opened(prev);
        assert(opened(prev).len() <= opened(evs).len());
        assert forall|i: int| i >= opened(evs).len() implies #[trigger] sent_text(evs, i)
            == Seq::<char>::empty() && sent_json(evs, i) == Seq::<char>::empty() && input_for(evs, i) is None by {
            assert(sent_text(prev, i) == Seq::<char>::empty());
        }
        assert forall|i: int| 0 <= i < opened(evs).len() implies (#[trigger] opened(evs)[i] is Text)
            || opened(evs)[i] is ToolUse by {
            if i < opened(prev).len() {
                assert(opened(evs)[i] == opened(prev)[i]);
            }
        }
    }
}

/// Block events keep every block aligned with its index: however the start,
/// delta and stop events of several blocks interleave, block `i` is the one
/// the `i`-th start opened, a text block holds exactly the text sent to index
/// `i`, and a tool call holds its identity, all its argument text, and the
/// input parsed from that text at its stop. `finish` then returns exactly the
/// blocks that are not placeholders, in index order.
pub proof fn lemma_blocks_aligned(evs: Seq<(Seq<char>, EventFields)>)
    requires
        forall|j: int| 0 <= j < evs.len() ==> is_block_event(#[trigger] evs[j]),
    ensures
        run(initial_model(), evs).blocks.len() == opened(evs).len(),
        run(initial_model(), evs).fragments.len() == opened(evs).len(),
        forall|i: int| 0 <= i < opened(evs).len() ==> #[trigger] run(initial_model(), evs).blocks[i]
            == assembled(evs, i),
        forall|i: int| 0 <= i < opened(evs).len() ==> #[trigger] run(initial_model(), evs).fragments[i]
            == sent_json(evs, i),
        run(initial_model(), evs).stop is None && !run(initial_model(), evs).complete,
    decreases evs.len(),
{
    if evs.len() > 0 {
        let prev = evs.drop_last();
        assert forall|j: int| 0 <= j < prev.len() implies is_block_event(#[trigger] prev[j]) by {
            assert(prev[j] == evs[j]);
        }
        lemma_blocks_aligned(prev);
        assert(is_block_event(evs[evs.len() - 1]));
        lemma_event_names();
        lemma_opened(prev);
        lemma_opened(evs);
        let m = run(initial_model(), prev);
        let r = run(initial_model(), evs);
        let e = evs.last();
        let n = opened(prev).len();
        let mm = DecoderModel { event: e.0, ..m };
        assert(r == after_event(mm, e.1));
        assert forall|i: int| 0 <= i < n implies opened(evs)[i] == opened(prev)[i] by {}
        if e.0 == "content_block_start"@ {
            assert forall|i: int| 0 <= i < opened(evs).len() implies #[trigger] r.blocks[i] == assembled(evs, i)
                && r.fragments[i] == sent_json(evs, i) by {
                if i < n {
                    assert(m.blocks[i] == assembled(prev, i));
                    assert(m.fragments[i] == sent_json(prev, i));
                }
            }
        } else if e.0 == "content_block_delta"@ {
            assert forall|i: int| 0 <= i < opened(evs).len() implies #[trigger] r.blocks[i] == assembled(evs, i)
                && r.fragments[i] == sent_json(evs, i) by {
                assert(m.blocks[i] == assembled(prev, i));
                assert(m.fragments[i] == sent_json(prev, i));
                assert(opened(prev)[i] is Text || opened(prev)[i] is ToolUse);
            }
        } else {
            assert forall|i: int| 0 <= i < opened(evs).len() implies #[trigger] r.blocks[i] == assembled(evs, i)
                && r.fragments[i] == sent_json(evs, i) by {
                assert(m.blocks[i] == assembled(prev, i));
                assert(m.fragments[i] == sent_json(prev, i));
                assert(opened(prev)[i] is Text || opened(prev)[i] is ToolUse);
            }
        }
        assert forall|i: int| 0 <= i < opened(evs).len() implies #[trigger] r.fragments[i] == sent_json(evs, i) by {
            assert(r.blocks[i] == assembled(evs, i));
        }
    }
}

/// A stream of block events alone, with no `message_delta` or `message_stop`,
/// leaves no stop reason: `finish` then fails with "stream ended without stop_reason".
pub proof fn lemma_missing_stop_reason(evs: Seq<(Seq<char>, EventFields)>)
    requires
        forall|j: int| 0 <= j < evs.len() ==> is_block_event(#[trigger] evs[j]),
    ensures
        final_stop(run(initial_model(), evs)) is None,
{
    lemma_blocks_aligned(evs);
}

/// The payload of a `content_block_stop` event never ends the decode, even
/// when the tool call's argument text does not parse: the call's input is then
/// whatever parsing gave, `None` for text that is not JSON.
pub proof fn lemma_block_stop_never_fails(m: DecoderModel, data: Seq<char>, f: EventFields)
    requires
        m.event == "content_block_stop"@,
        event_fields_of(data) == Some(f),
        f.index matches Some(i) && (i as int) < m.blocks.len() && (i as int) < m.fragments.len()
            && m.blocks[i as int] is ToolUse && m.fragments[i as int].len() > 0,
    ensures
        after_line(m, "data: "@ + data) matches Ok(m2) && m2.blocks[f.index->0 as int]
            matches BlockModel::ToolUse { input, .. } && input == tool_input_of(
            m.fragments[f.index->0 as int],
        ),
{
    lemma_event_names();
    reveal_strlit("data: ");
    reveal_strlit("event: ");
    reveal_strlit("error");
    reveal_strlit("content_block_stop");
    let line = "data: "@ + data;
    assert(line[0] != "event: "@[0]);
    assert(!has_prefix(line, "event: "@));
    assert(line.subrange(0, "data: "@.len() as int) =~= "data: "@);
    assert(line.subrange("data: "@.len() as int, line.len() as int) =~= data);
    assert(m.event.len() != "error"@.len());
}

/// Decodes the event stream of one model response, line by line.
pub struct SseParser {
    event: String,
    blocks: Vec<ContentBlock>,
    fragments: Vec<String>,
    stop_reason: Option<StopReason>,
    message_complete: bool,
}

impl SseParser {
    pub closed spec fn model(&self) -> DecoderModel {
        DecoderModel {
            event: self.event@,
            blocks: blocks_model(self.blocks@),
            fragments: self.fragments@.map_values(|s: String| s@),
            stop: self.stop_reason,
            complete: self.message_complete,
        }
    }

    /// Each block has its fragment slot.
    pub closed spec fn wf(&self) -> bool {
        self.blocks@.len() == self.fragments@.len()
    }

    pub fn new() -> (r: SseParser)
        ensures
            r.wf(),
            r.model() == initial_model(),
    {
        let r = SseParser {
            event: String::new(),
            blocks: Vec::new(),
            fragments: Vec::new(),
            stop_reason: None,
            message_complete: false,
        };
        assert(r.model().blocks =~= Seq::<BlockModel>::empty());
        assert(r.model().fragments =~= Seq::<Seq<char>>::empty());
        r
    }

    /// Applies the payload of one `data:` line to the current event.
    pub fn apply_event(&mut self, f: EventFields) -> (r: Result<(), AgentError>)
        requires
            old(self).wf(),
        ensures
            final(self).wf(),
            old(self).model().event == "error"@ ==> *final(self) == *old(self),
            old(self).model().event == "error"@ ==> match r {
                Err(AgentError::StreamParse(s)) => s@ == remote_error_text(f),
                _ => false,
            },
            old(self).model().event != "error"@ ==> r is Ok && final(self).model()
                == after_event(old(self).model(), f),
    {
        let ghost m = self.model();
        proof {
            reveal_strlit("error");
            reveal_strlit("content_block_start");
            reveal_strlit("content_block_delta");
            reveal_strlit("content_block_stop");
            reveal_strlit("message_delta");
            reveal_strlit("message_stop");
            assert("error"@.len() != "content_block_start"@.len());
        }
        if same_event(&self.event, "content_block_start") {
            let tool = opt_is(&f.block_type, "tool_use") && is_nonempty(&f.block_id)
                && is_nonempty(&f.block_name);
            let block = match (f.block_id, f.block_name) {
                (Some(id), Some(name)) if tool => ContentBlock::ToolUse { id, name, input: None },
                _ => ContentBlock::Text { text: String::new() },
            };
            self.blocks.push(block);
            self.fragments.push(String::new());
            assert(self.model().blocks =~= m.blocks.push(start_block(f)));
            assert(self.model().fragments =~= m.fragments.push(Seq::empty()));
        } else if same_event(&self.event, "content_block_delta") {
            if let Some(i) = f.index {
                if opt_is(&f.delta_type, "text_delta") {
                    let t = take_text(f.delta_text);
                    self.append_text(i, &t);
                } else if opt_is(&f.delta_type, "input_json_delta") {
                    let t = take_text(f.partial_json);
                    self.append_fragment(i, &t);
                }
            }
        } else if same_event(&self.event, "content_block_stop") {
            if let Some(i) = f.index {
                self.close_block(i);
            }
        } else if same_event(&self.event, "message_delta") {
            if opt_is(&f.stop_reason, "end_turn") {
                self.stop_reason = Some(StopReason::EndTurn);
            } else if opt_is(&f.stop_reason, "tool_use") {
                self.stop_reason = Some(StopReason::ToolUse);
            } else if opt_is(&f.stop_reason, "max_tokens") {
                self.stop_reason = Some(StopReason::MaxTokens);
            }
        } else if same_event(&self.event, "message_stop") {
            self.message_complete = true;
        } else if same_event(&self.event, "error") {
            let msg = match f.error_message {
                Some(s) => s,
                None => String::from_str("unknown stream error"),
            };
            return Err(AgentError::StreamParse(concat("stream error: ", msg.as_str())));
        }
        Ok(())
    }

    /// Feeds one protocol line, without its line terminator.
    pub fn process_line(&mut self, line: &str) -> (r: Result<(), AgentError>)
        requires
            old(self).wf(),
        ensures
            final(self).wf(),
            match after_line(old(self).model(), line@) {
                Ok(m) => r is Ok && final(self).model() == m,
                Err(LineFailure::Malformed) => r == Err::<(), AgentError>(AgentError::Json),
                Err(LineFailure::Remote(t)) => match r {
                    Err(AgentError::StreamParse(s)) => s@ == t,
                    _ => false,
                },
            },
    {
        if line.is_empty() {
            return Ok(());
        }
        if let Some(ev) = strip_prefix(line, "event: ") {
            self.event = String::from_str(ev);
            return Ok(());
        }
        match strip_prefix(line, "data: ") {
            None => Ok(()),
            Some(data) => match parse_event_fields(data) {
                None => Err(AgentError::Json),
                Some(f) => self.apply_event(f),
            },
        }
    }

    /// Ends the decode: the blocks that are not placeholders, and the stop reason.
    pub fn finish(self) -> (r: Result<(Vec<ContentBlock>, StopReason), AgentError>)
        requires
            self.wf(),
        ensures
            match final_stop(self.model()) {
                Some(stop) => match r {
                    Ok((bs, s)) => s == stop && blocks_model(bs@) == visible_blocks(
                        self.model().blocks,
                    ),
                    Err(_) => false,
                },
                None => match r {
                    Err(AgentError::StreamParse(e)) => e@ == "stream ended without stop_reason"@,
                    _ => false,
                },
            },
    {
        let ghost src = self.model().blocks;
        let stop = match self.stop_reason {
            Some(s) => s,
            None => if self.message_complete {
                StopReason::EndTurn
            } else {
                return Err(
                    AgentError::StreamParse(String::from_str("stream ended without stop_reason")),
                );
            },
        };
        let mut blocks = self.blocks;
        let n = blocks.len();
        let mut out: Vec<ContentBlock> = Vec::new();
        let mut i: usize = 0;
        while i < n
            invariant
                n == blocks@.len(),
                n == src.len(),
                i <= n,
                forall|j: int| i <= j < n ==> #[trigger] blocks@[j]@ == src[j],
                blocks_model(out@) == visible_blocks(src.subrange(0, i as int)),
            decreases n - i,
        {
            let mut b = ContentBlock::Text { text: String::new() };
            blocks.set_and_swap(i, &mut b);
            let keep = match &b {
                ContentBlock::Text { text } => !text.as_str().is_empty(),
                _ => true,
            };
            let ghost before = out@;
            let ghost sub = src.subrange(0, i + 1);
            assert(sub.last() == src[i as int]);
            assert(b@ == src[i as int]);
            assert(keep == !is_placeholder(src[i as int]));
            if keep {
                out.push(b);
                assert(blocks_model(out@) =~= blocks_model(before).push(src[i as int]));
            }
            assert(src.subrange(0, i + 1).drop_last() =~= src.subrange(0, i as int));
            i = i + 1;
        }
        assert(src.subrange(0, n as int) =~= src);
        Ok((out, stop))
    }

    fn append_text(&mut self, i: u64, t: &String)
        requires
            old(self).wf(),
        ensures
            final(self).wf(),
            final(self).model() == after_text_delta(old(self).model(), i as int, t@),
    {
        let ghost m = self.model();
        if i < self.blocks.len() as u64 {
            let k = i as usize;
            let mut b = ContentBlock::Text { text: String::new() };
            self.blocks.set_and_swap(k, &mut b);
            match b {
                ContentBlock::Text { text } => {
                    let mut text = text;
                    text.append(t.as_str());
                    self.blocks.set(k, ContentBlock::Text { text });
                    assert(self.model().blocks =~= m.blocks.update(
                        k as int,
                        BlockModel::Text { text: m.blocks[k as int]->text + t@ },
                    ));
                },
                other => {
                    self.blocks.set(k, other);
                    assert(self.model().blocks =~= m.blocks);
                },
            }
        }
    }

    fn append_fragment(&mut self, i: u64, t: &String)
        requires
            old(self).wf(),
        ensures
            final(self).wf(),
            final(self).model() == after_json_delta(old(self).model(), i as int, t@),
    {
        let ghost m = self.model();
        if i < self.fragments.len() as u64 {
            let k = i as usize;
            let mut s = String::new();
            self.fragments.set_and_swap(k, &mut s);
            s.append(t.as_str());
            self.fragments.set(k, s);
            assert(self.model().fragments =~= m.fragments.update(
                k as int,
                m.fragments[k as int] + t@,
            ));
        }
    }

    fn close_block(&mut self, i: u64)
        requires
            old(self).wf(),
        ensures
            final(self).wf(),
            final(self).model() == after_block_stop(old(self).model(), i as int),
    {
        let ghost m = self.model();
        if i < self.blocks.len() as u64 {
            let k = i as usize;
            if self.fragments[k].as_str().is_empty() {
                return;
            }
            let mut b = ContentBlock::Text { text: String::new() };
            self.blocks.set_and_swap(k, &mut b);
            match b {
                ContentBlock::ToolUse { id, name, input } => {
                    let parsed = parse_tool_input(self.fragments[k].as_str());
                    self.blocks.set(k, ContentBlock::ToolUse { id, name, input: parsed });
                    assert(self.model().blocks =~= after_block_stop(m, k as int).blocks);
                },
                other => {
                    self.blocks.set(k, other);
                    assert(self.model().blocks =~= m.blocks);
                },
            }
        }
    }
}

fn same_event(event: &String, name: &str) -> (r: bool)
    ensures
        r == (event@ == name@),
{
    crate::text::same_text(event.as_str(), name)
}

fn is_nonempty(o: &Option<String>) -> (r: bool)
    ensures
        r == holds_nonempty(*o),
{
    match o {
        Some(s) => !s.as_str().is_empty(),
        None => false,
    }
}

fn take_text(o: Option<String>) -> (r: String)
    ensures
        r@ == text_or_empty(o),
{
    match o {
        Some(s) => s,
        None => String::new(),
    }
}

} // verus!
