//! The conversation vocabulary shared by every part of the agent.

use vstd::prelude::*;

verus! {

/// Returns `code` when colored output is enabled, and the empty string otherwise.
pub fn color(code: &str, enabled: bool) -> (r: &str)
    ensures
        r@ == (if enabled { code@ } else { Seq::<char>::empty() }),
{
    if enabled {
        code
    } else {
        proof {
            reveal_strlit("");
        }
        ""
    }
}

/// Why the model stopped producing output.
#[derive(Debug, Clone, Copy, PartialEq, Eq, Structural)]
pub enum StopReason {
    EndTurn,
    ToolUse,
    MaxTokens,
}

#[derive(Debug, Clone, Copy, PartialEq, Eq, Structural)]
pub enum Role {
    User,
    Assistant,
}

/// One argument of a tool call, as far as the tools read it.
#[derive(Debug, Clone, PartialEq)]
pub enum ArgValue {
    Str(String),
    Bool(bool),
    /// A number, an array, an object or `null`.
    Other,
}

/// The structured input of a tool call: its JSON text, and its top-level
/// fields in the order of the object's keys.
#[derive(Debug, Clone, PartialEq)]
pub struct ToolInput {
    pub json: String,
    pub args: Vec<(String, ArgValue)>,
}

/// The value of the first field named `key`, if any.
pub open spec fn arg_lookup(args: Seq<(String, ArgValue)>, key: Seq<char>) -> Option<ArgValue>
    decreases args.len(),
{
    if args.len() == 0 {
        None
    } else if args[0].0@ == key {
        Some(args[0].1)
    } else {
        arg_lookup(args.drop_first(), key)
    }
}

/// The text of field `key` when it holds a string.
pub open spec fn str_arg_spec(input: ToolInput, key: Seq<char>) -> Option<Seq<char>> {
    match arg_lookup(input.args@, key) {
        Some(ArgValue::Str(s)) => Some(s@),
        _ => None,
    }
}

/// The value of field `key` when it holds a boolean.
pub open spec fn bool_arg_spec(input: ToolInput, key: Seq<char>) -> Option<bool> {
    match arg_lookup(input.args@, key) {
        Some(ArgValue::Bool(b)) => Some(b),
        _ => None,
    }
}

impl ToolInput {
    /// Position of the first field named `key`, if any.
    fn find(&self, key: &str) -> (r: Option<usize>)
        ensures
            match r {
                Some(i) => i < self.args@.len() && arg_lookup(self.args@, key@) == Some(
                    self.args@[i as int].1,
                ),
                None => arg_lookup(self.args@, key@) is None,
            },
    {
        let k = key.to_owned();
        let mut i: usize = 0;
        assert(self.args@.subrange(0, self.args@.len() as int) =~= self.args@);
        while i < self.args.len()
            invariant
                i <= self.args@.len(),
                k@ == key@,
                arg_lookup(self.args@, key@) == arg_lookup(
                    self.args@.subrange(i as int, self.args@.len() as int),
                    key@,
                ),
            decreases self.args@.len() - i,
        {
            let ghost rest = self.args@.subrange(i as int, self.args@.len() as int);
            assert(rest[0] == self.args@[i as int]);
            if self.args[i].0 == k {
                return Some(i);
            }
            assert(rest.drop_first() =~= self.args@.subrange(i + 1, self.args@.len() as int));
            i = i + 1;
        }
        None
    }

    /// The text of field `key` when it holds a string.
    pub fn str_arg(&self, key: &str) -> (r: Option<String>)
        ensures
            match r {
                Some(v) => str_arg_spec(*self, key@) == Some(v@),
                None => str_arg_spec(*self, key@) is None,
            },
    {
        match self.find(key) {
            Some(i) => match &self.args[i].1 {
                ArgValue::Str(s) => Some(s.clone()),
                _ => None,
            },
            None => None,
        }
    }

    /// The value of field `key` when it holds a boolean.
    pub fn bool_arg(&self, key: &str) -> (r: Option<bool>)
        ensures
            r == bool_arg_spec(*self, key@),
    {
        match self.find(key) {
            Some(i) => match &self.args[i].1 {
                ArgValue::Bool(b) => Some(*b),
                _ => None,
            },
            None => None,
        }
    }
}

/// One typed unit of message content.
#[derive(Debug, Clone, PartialEq)]
pub enum ContentBlock {
    Text { text: String },
    /// A tool call issued by the model. `input` is `None` when the call's
    /// arguments never arrived complete or could not be parsed.
    ToolUse { id: String, name: String, input: Option<ToolInput> },
    ToolResult { tool_use_id: String, content: String, is_error: Option<bool> },
}

/// What a content block holds, with its texts as character sequences.
pub enum BlockModel {
    Text { text: Seq<char> },
    ToolUse { id: Seq<char>, name: Seq<char>, input: Option<ToolInput> },
    ToolResult { tool_use_id: Seq<char>, content: Seq<char>, is_error: Option<bool> },
}

impl View for ContentBlock {
    type V = BlockModel;

    open spec fn view(&self) -> BlockModel {
        match self {
            ContentBlock::Text { text } => BlockModel::Text { text: text@ },
            ContentBlock::ToolUse { id, name, input } => BlockModel::ToolUse {
                id: id@,
                name: name@,
                input: *input,
            },
            ContentBlock::ToolResult { tool_use_id, content, is_error } => BlockModel::ToolResult {
                tool_use_id: tool_use_id@,
                content: content@,
                is_error: *is_error,
            },
        }
    }
}

/// The models of a sequence of blocks.
pub open spec fn blocks_model(v: Seq<ContentBlock>) -> Seq<BlockModel> {
    v.map_values(|b: ContentBlock| b@)
}

#[derive(Debug, Clone, PartialEq)]
pub struct Message {
    pub role: Role,
    pub content: Vec<ContentBlock>,
}

/// A user message whose first block is text: the start of a fresh exchange.
pub open spec fn starts_exchange(m: Message) -> bool {
    m.role == Role::User && m.content@.len() > 0 && m.content@[0] is Text
}

/// A user message whose first block answers a tool call.
pub open spec fn starts_with_tool_result(m: Message) -> bool {
    m.role == Role::User && m.content@.len() > 0 && m.content@[0] is ToolResult
}

/// Why a request to the model failed.
#[derive(Debug, Clone, PartialEq)]
pub enum AgentError {
    /// The transport failed; the text describes how.
    Api(String),
    /// An event's payload was not valid JSON.
    Json,
    MissingApiKey,
    /// The stream was well-formed but did not describe a complete response.
    StreamParse(String),
}

impl AgentError {
    /// A one-line description for the operator.
    pub fn message(&self) -> (r: String)
        ensures
            match self {
                AgentError::Api(s) => r@ == "API: "@ + s@,
                AgentError::Json => r@ == "JSON: malformed event payload"@,
                AgentError::MissingApiKey => r@ == "ANTHROPIC_API_KEY not set"@,
                AgentError::StreamParse(s) => r@ == "stream: "@ + s@,
            },
    {
        match self {
            AgentError::Api(s) => crate::text::concat("API: ", s.as_str()),
            AgentError::Json => String::from_str("JSON: malformed event payload"),
            AgentError::MissingApiKey => String::from_str("ANTHROPIC_API_KEY not set"),
            AgentError::StreamParse(s) => crate::text::concat("stream: ", s.as_str()),
        }
    }
}

} // verus!
