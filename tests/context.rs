use forgeflare::api::{ArgValue, ContentBlock, Message, Role, ToolInput};
use forgeflare::context::{
    drop_incomplete_tool_uses, recover_conversation, trim_conversation, truncate_oversized_blocks,
};
use serde_json::Value;

fn ls_input() -> ToolInput {
    ToolInput {
        json: r#"{"command":"ls"}"#.to_string(),
        args: vec![("command".to_string(), ArgValue::Str("ls".to_string()))],
    }
}

fn user_text(s: &str) -> Message {
    Message {
        role: Role::User,
        content: vec![ContentBlock::Text {
            text: s.to_string(),
        }],
    }
}

fn assistant_text(s: &str) -> Message {
    Message {
        role: Role::Assistant,
        content: vec![ContentBlock::Text {
            text: s.to_string(),
        }],
    }
}

fn assistant_tool_use() -> Message {
    Message {
        role: Role::Assistant,
        content: vec![ContentBlock::ToolUse {
            id: "t1".into(),
            name: "bash".into(),
            input: Some(ls_input()),
        }],
    }
}

fn user_tool_result(content: &str) -> Message {
    Message {
        role: Role::User,
        content: vec![ContentBlock::ToolResult {
            tool_use_id: "t1".into(),
            content: content.to_string(),
            is_error: None,
        }],
    }
}

/// The message as it goes over the wire.
fn message_json(m: &Message) -> Value {
    let blocks: Vec<Value> = m
        .content
        .iter()
        .map(|b| {
            let mut o = serde_json::Map::new();
            match b {
                ContentBlock::Text { text } => {
                    o.insert("type".into(), Value::from("text"));
                    o.insert("text".into(), Value::from(text.as_str()));
                }
                ContentBlock::ToolUse { id, name, input } => {
                    o.insert("type".into(), Value::from("tool_use"));
                    o.insert("id".into(), Value::from(id.as_str()));
                    o.insert("name".into(), Value::from(name.as_str()));
                    let v = match input {
                        Some(i) => serde_json::from_str(&i.json).unwrap(),
                        None => Value::Null,
                    };
                    o.insert("input".into(), v);
                }
                ContentBlock::ToolResult {
                    tool_use_id,
                    content,
                    is_error,
                } => {
                    o.insert("type".into(), Value::from("tool_result"));
                    o.insert("tool_use_id".into(), Value::from(tool_use_id.as_str()));
                    o.insert("content".into(), Value::from(content.as_str()));
                    if let Some(e) = is_error {
                        o.insert("is_error".into(), Value::from(*e));
                    }
                }
            }
            Value::Object(o)
        })
        .collect();
    let mut o = serde_json::Map::new();
    let role = match m.role {
        Role::User => "user",
        Role::Assistant => "assistant",
    };
    o.insert("role".into(), Value::from(role));
    o.insert("content".into(), Value::Array(blocks));
    Value::Object(o)
}

fn sizes(msgs: &[Message]) -> Vec<usize> {
    msgs.iter()
        .map(|m| serde_json::to_string(&message_json(m)).unwrap().len())
        .collect()
}

fn conversation_bytes(msgs: &[Message]) -> usize {
    sizes(msgs).iter().sum()
}

#[test]
fn trim_no_op_when_under_budget() {
    let mut conv = vec![user_text("hello"), assistant_text("hi")];
    let original_len = conv.len();
    let sz = sizes(&conv);
    trim_conversation(&mut conv, &sz, 100_000);
    assert_eq!(conv.len(), original_len);
}

#[test]
fn trim_removes_oldest_exchange() {
    let mut conv = vec![
        user_text("first question"),
        assistant_text("first answer"),
        user_text("second question"),
        assistant_text("second answer"),
        user_text("third question"),
        assistant_text("third answer"),
    ];
    // Set budget to fit 2 exchanges but not 3
    let two_exchange_size = conversation_bytes(&conv[2..]);
    let sz = sizes(&conv);
    trim_conversation(&mut conv, &sz, two_exchange_size);
    assert_eq!(conv.len(), 4); // exchanges 2 and 3 remain
    assert!(
        matches!(&conv[0].content[0], ContentBlock::Text { text } if text == "second question")
    );
}

#[test]
fn trim_preserves_tool_use_pairing() {
    // Exchange 1: user text -> assistant tool_use -> user tool_result -> assistant text
    // Exchange 2: user text -> assistant text
    let mut conv = vec![
        user_text("read the file"),
        assistant_tool_use(),
        user_tool_result("file contents here"),
        assistant_text("I see the file"),
        user_text("thanks"),
        assistant_text("you're welcome"),
    ];
    // Budget fits only exchange 2
    let last_exchange_size = conversation_bytes(&conv[4..]);
    let sz = sizes(&conv);
    trim_conversation(&mut conv, &sz, last_exchange_size);
    assert_eq!(conv.len(), 2);
    assert!(matches!(&conv[0].content[0], ContentBlock::Text { text } if text == "thanks"));
}

#[test]
fn trim_never_splits_tool_exchange() {
    // Ensure tool_use and tool_result stay together
    let mut conv = vec![
        user_text("q1"),
        assistant_tool_use(),
        user_tool_result("result1"),
        assistant_text("a1"),
        user_text("q2"),
        assistant_tool_use(),
        user_tool_result("result2"),
        assistant_text("a2"),
    ];
    // Budget fits exchange 2 but not both
    let exchange2_size = conversation_bytes(&conv[4..]);
    let sz = sizes(&conv);
    trim_conversation(&mut conv, &sz, exchange2_size);
    // Should cut at index 4 (user text "q2"), keeping tool pair intact
    assert_eq!(conv.len(), 4);
    assert!(matches!(&conv[0].content[0], ContentBlock::Text { text } if text == "q2"));
    assert!(matches!(&conv[1].content[0], ContentBlock::ToolUse { .. }));
    assert!(matches!(
        &conv[2].content[0],
        ContentBlock::ToolResult { .. }
    ));
}

#[test]
fn trim_single_exchange_untouched() {
    let mut conv = vec![
        user_text(&"x".repeat(10_000)),
        assistant_text(&"y".repeat(10_000)),
    ];
    // Budget smaller than the single exchange — can't trim further
    let sz = sizes(&conv);
    trim_conversation(&mut conv, &sz, 100);
    assert_eq!(conv.len(), 2); // preserved, nothing to cut
}

#[test]
fn trim_large_tool_result_triggers_trim() {
    let big_result = "x".repeat(500_000);
    let mut conv = vec![
        user_text("old question"),
        assistant_text("old answer"),
        user_text("read big file"),
        assistant_tool_use(),
        user_tool_result(&big_result),
        assistant_text("that's a big file"),
        user_text("now what"),
        assistant_text("let me help"),
    ];
    // Budget that can't hold everything but can hold last 2 exchanges
    let last_two_size = conversation_bytes(&conv[2..]);
    let budget = last_two_size; // fits exchanges 2+3 but not 1+2+3
    let sz = sizes(&conv);
    trim_conversation(&mut conv, &sz, budget);
    assert!(conv.len() < 8); // something was trimmed
    // First remaining message should be a user text (exchange boundary)
    assert!(matches!(&conv[0].content[0], ContentBlock::Text { .. }));
}

#[test]
fn trim_fallback_when_everything_huge() {
    let huge = "x".repeat(400_000);
    let mut conv = vec![
        user_text(&huge),
        assistant_text(&huge),
        user_text("small"),
        assistant_text("small"),
    ];
    // Budget too small for even the last exchange of the big ones
    let sz = sizes(&conv);
    trim_conversation(&mut conv, &sz, 1000);
    // Should trim to last exchange
    assert_eq!(conv.len(), 2);
    assert!(matches!(&conv[0].content[0], ContentBlock::Text { text } if text == "small"));
}

#[test]
fn trim_empty_conversation() {
    let mut conv: Vec<Message> = Vec::new();
    let sz = sizes(&conv);
    trim_conversation(&mut conv, &sz, 100); // should not panic
    assert!(conv.is_empty());
}

#[test]
fn truncate_oversized_single_exchange() {
    // When a single exchange has a huge tool result that exceeds the budget,
    // trim_conversation falls back to truncating content blocks
    let huge_result = "x".repeat(800_000); // 800KB > 720KB budget
    let mut conv = vec![
        user_text("read the big file"),
        assistant_tool_use(),
        user_tool_result(&huge_result),
        assistant_text("got it"),
    ];
    // Budget much smaller than the huge result
    let budget = 100_000;
    let sz = sizes(&conv);
    trim_conversation(&mut conv, &sz, budget);
    // Conversation should still have all 4 messages (single exchange can't be split)
    assert_eq!(conv.len(), 4);
    // But the huge tool result should be truncated
    if let ContentBlock::ToolResult { content, .. } = &conv[2].content[0] {
        assert!(
            content.len() < huge_result.len(),
            "content should be truncated"
        );
        assert!(
            content.contains("truncated to fit context window"),
            "should have truncation marker"
        );
    } else {
        panic!("expected ToolResult");
    }
}

#[test]
fn truncate_oversized_skips_small_blocks() {
    // Only blocks >10KB should be eligible for truncation
    let mut conv = vec![
        user_text("small text that should not be truncated"),
        assistant_text(&"y".repeat(5_000)), // 5KB — below threshold
    ];
    // Even with tiny budget, small blocks should not be truncated
    let total = conversation_bytes(&conv);
    truncate_oversized_blocks(&mut conv, total, 100);
    assert!(
        matches!(&conv[0].content[0], ContentBlock::Text { text } if text == "small text that should not be truncated")
    );
}

#[test]
fn truncate_oversized_multibyte_char_boundary() {
    // 'é' is 2 bytes (0xC3 0xA9): the cut must snap to a character boundary
    // rather than split one.
    let text = "é".repeat(6_000); // 12KB of 2-byte chars → eligible (>10KB)
    let mut conv = vec![Message {
        role: Role::User,
        content: vec![ContentBlock::Text { text }],
    }];
    // Budget tiny enough to force truncation, should not panic
    let total = conversation_bytes(&conv);
    truncate_oversized_blocks(&mut conv, total, 100);
    if let ContentBlock::Text { text } = &conv[0].content[0] {
        assert!(text.contains("truncated"), "should have truncation marker");
        // Verify the truncated text is valid UTF-8 (no panic on iteration)
        assert!(text.chars().count() > 0);
    } else {
        panic!("expected Text block");
    }
}

#[test]
fn partial_tool_use_filtered_on_truncation() {
    // Simulates what happens when MaxTokens truncates mid-tool_use:
    // the ToolUse block has input: None because content_block_stop never fired
    let mut msg = Message {
        role: Role::Assistant,
        content: vec![
            ContentBlock::Text {
                text: "Let me check".into(),
            },
            ContentBlock::ToolUse {
                id: "t1".into(),
                name: "bash".into(),
                input: Some(ls_input()),
            },
            ContentBlock::ToolUse {
                id: "t2".into(),
                name: "read_file".into(),
                input: None, // partial — never completed
            },
        ],
    };
    drop_incomplete_tool_uses(&mut msg);
    assert_eq!(msg.content.len(), 2);
    assert!(matches!(&msg.content[0], ContentBlock::Text { .. }));
    assert!(matches!(&msg.content[1], ContentBlock::ToolUse { name, .. } if name == "bash"));
}

#[test]
fn api_error_recovery_pops_dangling_user_text() {
    // send_message fails on first inner-loop iteration: pop the user's text message
    let mut conv = vec![
        user_text("first question"),
        assistant_text("first answer"),
        user_text("second question"),
    ];
    recover_conversation(&mut conv);
    assert_eq!(conv.len(), 2);
    assert!(matches!(conv.last().unwrap().role, Role::Assistant));
}

#[test]
fn api_error_recovery_pops_tool_results_and_orphaned_tool_use() {
    // send_message fails mid-tool-loop: pop tool_results AND the orphaned tool_use.
    // Without this, the API rejects because tool_use has no matching tool_result.
    let mut conv = vec![
        user_text("do something"),
        assistant_tool_use(),
        user_tool_result("tool output"),
    ];
    recover_conversation(&mut conv);
    assert_eq!(conv.len(), 1);
    assert!(
        matches!(&conv[0].content[0], ContentBlock::Text { text } if text == "do something")
    );
}

#[test]
fn api_error_recovery_noop_when_last_is_assistant() {
    let mut conv = vec![user_text("hello"), assistant_text("hi")];
    recover_conversation(&mut conv);
    assert_eq!(conv.len(), 2);
    assert!(matches!(conv.last().unwrap().role, Role::Assistant));
}

#[test]
fn api_error_recovery_empty_conversation() {
    let mut conv: Vec<Message> = Vec::new();
    recover_conversation(&mut conv); // should not panic
    assert!(conv.is_empty());
}

#[test]
fn trim_all_tool_result_exchanges_falls_through() {
    // When every User message starts with ToolResult (no text boundaries after index 0),
    // trim_conversation should fall through to truncate_oversized_blocks since there
    // are no safe exchange boundaries to cut at (except the very first message).
    let mut conv = vec![
        user_text("initial question"),
        assistant_tool_use(),
        user_tool_result("result 1"),
        assistant_tool_use(),
        user_tool_result("result 2"),
        assistant_text("done"),
    ];
    // Set budget too small to hold everything
    let budget = conversation_bytes(&conv[..2]); // only fits first exchange
    let sz = sizes(&conv);
    trim_conversation(&mut conv, &sz, budget);
    // The only boundary is at index 0; keep_last = 0 → falls through to truncation
    // Conversation should be preserved (single boundary can't trim)
    assert!(!conv.is_empty());
}

#[test]
fn tool_iteration_limit_recovery_cleans_trailing_tool_results() {
    // When the tool loop hits MAX_TOOL_ITERATIONS, the last message is a User
    // message with tool_results (no matching Assistant reply). recover_conversation
    // must pop both the tool_results AND the orphaned tool_use to prevent
    // consecutive User messages that the API would reject with 400.
    let mut conv = vec![
        user_text("start task"),
        assistant_tool_use(),
        user_tool_result("iteration result"),
    ];
    // Simulates what happens at the iteration limit break
    recover_conversation(&mut conv);
    assert_eq!(
        conv.len(),
        1,
        "should pop tool_result and orphaned tool_use"
    );
    assert!(matches!(&conv[0].content[0], ContentBlock::Text { text } if text == "start task"));
}

#[test]
fn tool_iteration_limit_recovery_with_assistant_text_only() {
    // If the loop breaks when the last message is an Assistant text (no pending
    // tool results), recover_conversation should be a no-op.
    let mut conv = vec![user_text("question"), assistant_text("answer")];
    recover_conversation(&mut conv);
    assert_eq!(conv.len(), 2, "should not modify clean conversation");
}
