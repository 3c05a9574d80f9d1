use forgeflare::api::{AgentError, ContentBlock, StopReason};
use forgeflare::decoder::SseParser;

/// Feeds lines into a decoder and returns its result.
fn parse_sse(lines: &[&str]) -> Result<(Vec<ContentBlock>, StopReason), AgentError> {
    let mut parser = SseParser::new();
    for line in lines {
        parser.process_line(line)?;
    }
    parser.finish()
}

#[test]
fn stop_reason_equality() {
    assert_eq!(StopReason::EndTurn, StopReason::EndTurn);
    assert_eq!(StopReason::ToolUse, StopReason::ToolUse);
    assert_eq!(StopReason::MaxTokens, StopReason::MaxTokens);
    assert_ne!(StopReason::EndTurn, StopReason::ToolUse);
    assert_ne!(StopReason::EndTurn, StopReason::MaxTokens);
    assert_ne!(StopReason::ToolUse, StopReason::MaxTokens);
}

#[test]
fn stop_reason_debug_format() {
    assert_eq!(format!("{:?}", StopReason::EndTurn), "EndTurn");
    assert_eq!(format!("{:?}", StopReason::ToolUse), "ToolUse");
    assert_eq!(format!("{:?}", StopReason::MaxTokens), "MaxTokens");
}

#[test]
fn sse_text_response() {
    let (blocks, stop) = parse_sse(&[
        r#"event: content_block_start"#,
        r#"data: {"type":"content_block_start","index":0,"content_block":{"type":"text","text":""}}"#,
        r#"event: content_block_delta"#,
        r#"data: {"type":"content_block_delta","index":0,"delta":{"type":"text_delta","text":"Hello"}}"#,
        r#"event: content_block_delta"#,
        r#"data: {"type":"content_block_delta","index":0,"delta":{"type":"text_delta","text":" world"}}"#,
        r#"event: content_block_stop"#,
        r#"data: {"type":"content_block_stop","index":0}"#,
        r#"event: message_delta"#,
        r#"data: {"type":"message_delta","delta":{"stop_reason":"end_turn"}}"#,
        r#"event: message_stop"#,
        r#"data: {"type":"message_stop"}"#,
    ])
    .unwrap();
    assert_eq!(stop, StopReason::EndTurn);
    assert_eq!(blocks.len(), 1);
    assert!(matches!(&blocks[0], ContentBlock::Text { text } if text == "Hello world"));
}

#[test]
fn sse_tool_use_response() {
    let (blocks, stop) = parse_sse(&[
        r#"event: content_block_start"#,
        r#"data: {"type":"content_block_start","index":0,"content_block":{"type":"tool_use","id":"t1","name":"bash"}}"#,
        r#"event: content_block_delta"#,
        r#"data: {"type":"content_block_delta","index":0,"delta":{"type":"input_json_delta","partial_json":"{\"comm"}}"#,
        r#"event: content_block_delta"#,
        r#"data: {"type":"content_block_delta","index":0,"delta":{"type":"input_json_delta","partial_json":"and\":\"ls\"}"}}"#,
        r#"event: content_block_stop"#,
        r#"data: {"type":"content_block_stop","index":0}"#,
        r#"event: message_delta"#,
        r#"data: {"type":"message_delta","delta":{"stop_reason":"tool_use"}}"#,
        r#"event: message_stop"#,
        r#"data: {"type":"message_stop"}"#,
    ])
    .unwrap();
    assert_eq!(stop, StopReason::ToolUse);
    assert_eq!(blocks.len(), 1);
    if let ContentBlock::ToolUse { id, name, input } = &blocks[0] {
        assert_eq!(id, "t1");
        assert_eq!(name, "bash");
        assert_eq!(input.as_ref().unwrap().str_arg("command"), Some("ls".to_string()));
    } else {
        panic!("expected ToolUse");
    }
}

#[test]
fn sse_mixed_text_and_tool() {
    let (blocks, stop) = parse_sse(&[
        r#"event: content_block_start"#,
        r#"data: {"type":"content_block_start","index":0,"content_block":{"type":"text","text":""}}"#,
        r#"event: content_block_delta"#,
        r#"data: {"type":"content_block_delta","index":0,"delta":{"type":"text_delta","text":"Let me check"}}"#,
        r#"event: content_block_stop"#,
        r#"data: {"type":"content_block_stop","index":0}"#,
        r#"event: content_block_start"#,
        r#"data: {"type":"content_block_start","index":1,"content_block":{"type":"tool_use","id":"t1","name":"read_file"}}"#,
        r#"event: content_block_delta"#,
        r#"data: {"type":"content_block_delta","index":1,"delta":{"type":"input_json_delta","partial_json":"{\"path\":\"src/main.rs\"}"}}"#,
        r#"event: content_block_stop"#,
        r#"data: {"type":"content_block_stop","index":1}"#,
        r#"event: message_delta"#,
        r#"data: {"type":"message_delta","delta":{"stop_reason":"tool_use"}}"#,
    ])
    .unwrap();
    assert_eq!(stop, StopReason::ToolUse);
    assert_eq!(blocks.len(), 2);
    assert!(matches!(&blocks[0], ContentBlock::Text { text } if text == "Let me check"));
    assert!(matches!(&blocks[1], ContentBlock::ToolUse { name, .. } if name == "read_file"));
}

#[test]
fn sse_unknown_block_type_filtered() {
    // Unknown block types (like thinking) should produce placeholder blocks
    // that are filtered out in finish()
    let (blocks, stop) = parse_sse(&[
        r#"event: content_block_start"#,
        r#"data: {"type":"content_block_start","index":0,"content_block":{"type":"thinking","thinking":""}}"#,
        r#"event: content_block_stop"#,
        r#"data: {"type":"content_block_stop","index":0}"#,
        r#"event: content_block_start"#,
        r#"data: {"type":"content_block_start","index":1,"content_block":{"type":"text","text":""}}"#,
        r#"event: content_block_delta"#,
        r#"data: {"type":"content_block_delta","index":1,"delta":{"type":"text_delta","text":"visible"}}"#,
        r#"event: content_block_stop"#,
        r#"data: {"type":"content_block_stop","index":1}"#,
        r#"event: message_delta"#,
        r#"data: {"type":"message_delta","delta":{"stop_reason":"end_turn"}}"#,
    ])
    .unwrap();
    assert_eq!(stop, StopReason::EndTurn);
    assert_eq!(blocks.len(), 1);
    assert!(matches!(&blocks[0], ContentBlock::Text { text } if text == "visible"));
}

#[test]
fn sse_missing_index_skipped() {
    // Delta events without an index field should be silently skipped
    let (blocks, _) = parse_sse(&[
        r#"event: content_block_start"#,
        r#"data: {"type":"content_block_start","index":0,"content_block":{"type":"text","text":""}}"#,
        r#"event: content_block_delta"#,
        r#"data: {"type":"content_block_delta","delta":{"type":"text_delta","text":"no index"}}"#,
        r#"event: content_block_delta"#,
        r#"data: {"type":"content_block_delta","index":0,"delta":{"type":"text_delta","text":"has index"}}"#,
        r#"event: content_block_stop"#,
        r#"data: {"type":"content_block_stop","index":0}"#,
        r#"event: message_delta"#,
        r#"data: {"type":"message_delta","delta":{"stop_reason":"end_turn"}}"#,
    ])
    .unwrap();
    assert_eq!(blocks.len(), 1);
    assert!(matches!(&blocks[0], ContentBlock::Text { text } if text == "has index"));
}

#[test]
fn sse_out_of_bounds_index_safe() {
    // Index beyond blocks array should not panic
    let (blocks, _) = parse_sse(&[
        r#"event: content_block_start"#,
        r#"data: {"type":"content_block_start","index":0,"content_block":{"type":"text","text":""}}"#,
        r#"event: content_block_delta"#,
        r#"data: {"type":"content_block_delta","index":99,"delta":{"type":"text_delta","text":"orphan"}}"#,
        r#"event: content_block_delta"#,
        r#"data: {"type":"content_block_delta","index":0,"delta":{"type":"text_delta","text":"ok"}}"#,
        r#"event: content_block_stop"#,
        r#"data: {"type":"content_block_stop","index":0}"#,
        r#"event: message_delta"#,
        r#"data: {"type":"message_delta","delta":{"stop_reason":"end_turn"}}"#,
    ])
    .unwrap();
    assert_eq!(blocks.len(), 1);
    assert!(matches!(&blocks[0], ContentBlock::Text { text } if text == "ok"));
}

#[test]
fn sse_stream_error_event() {
    let err = parse_sse(&[
        r#"event: content_block_start"#,
        r#"data: {"type":"content_block_start","index":0,"content_block":{"type":"text","text":""}}"#,
        r#"event: error"#,
        r#"data: {"type":"error","error":{"type":"overloaded_error","message":"Overloaded"}}"#,
    ]);
    assert!(err.is_err());
    let msg = err.unwrap_err().message();
    assert!(msg.contains("Overloaded"), "error message: {msg}");
}

#[test]
fn sse_incomplete_stream_detected() {
    // Stream ends without message_delta or message_stop — connection dropped
    let err = parse_sse(&[
        r#"event: content_block_start"#,
        r#"data: {"type":"content_block_start","index":0,"content_block":{"type":"text","text":""}}"#,
        r#"event: content_block_delta"#,
        r#"data: {"type":"content_block_delta","index":0,"delta":{"type":"text_delta","text":"partial"}}"#,
    ]);
    assert!(err.is_err());
    assert!(err.unwrap_err().message().contains("stop_reason"));
}

#[test]
fn sse_message_stop_fallback() {
    // message_stop without message_delta should default to EndTurn
    let (_, stop) = parse_sse(&[
        r#"event: content_block_start"#,
        r#"data: {"type":"content_block_start","index":0,"content_block":{"type":"text","text":""}}"#,
        r#"event: content_block_delta"#,
        r#"data: {"type":"content_block_delta","index":0,"delta":{"type":"text_delta","text":"hi"}}"#,
        r#"event: content_block_stop"#,
        r#"data: {"type":"content_block_stop","index":0}"#,
        r#"event: message_stop"#,
        r#"data: {"type":"message_stop"}"#,
    ])
    .unwrap();
    assert_eq!(stop, StopReason::EndTurn);
}

#[test]
fn sse_max_tokens_stop() {
    let (_, stop) = parse_sse(&[
        r#"event: content_block_start"#,
        r#"data: {"type":"content_block_start","index":0,"content_block":{"type":"text","text":""}}"#,
        r#"event: content_block_delta"#,
        r#"data: {"type":"content_block_delta","index":0,"delta":{"type":"text_delta","text":"truncated"}}"#,
        r#"event: message_delta"#,
        r#"data: {"type":"message_delta","delta":{"stop_reason":"max_tokens"}}"#,
    ])
    .unwrap();
    assert_eq!(stop, StopReason::MaxTokens);
}

#[test]
fn sse_corrupt_tool_json_produces_null_input() {
    let (blocks, _) = parse_sse(&[
        r#"event: content_block_start"#,
        r#"data: {"type":"content_block_start","index":0,"content_block":{"type":"tool_use","id":"t1","name":"bash"}}"#,
        r#"event: content_block_delta"#,
        r#"data: {"type":"content_block_delta","index":0,"delta":{"type":"input_json_delta","partial_json":"{\"broken"}}"#,
        r#"event: content_block_stop"#,
        r#"data: {"type":"content_block_stop","index":0}"#,
        r#"event: message_delta"#,
        r#"data: {"type":"message_delta","delta":{"stop_reason":"tool_use"}}"#,
    ])
    .unwrap();
    assert_eq!(blocks.len(), 1);
    if let ContentBlock::ToolUse { input, .. } = &blocks[0] {
        assert!(input.is_none(), "corrupt JSON should produce null input");
    } else {
        panic!("expected ToolUse");
    }
}

#[test]
fn sse_empty_lines_ignored() {
    let mut parser = SseParser::new();
    parser.process_line("").unwrap();
    parser.process_line("").unwrap();
    // Feeding a complete response after empty lines
    parser.process_line("event: message_delta").unwrap();
    parser
        .process_line(r#"data: {"type":"message_delta","delta":{"stop_reason":"end_turn"}}"#)
        .unwrap();
    parser.process_line("event: message_stop").unwrap();
    parser
        .process_line(r#"data: {"type":"message_stop"}"#)
        .unwrap();
    let (blocks, stop) = parser.finish().unwrap();
    assert_eq!(stop, StopReason::EndTurn);
    assert!(blocks.is_empty());
}

#[test]
fn sse_trailing_data_without_newline() {
    // Simulates a stream whose final message_delta line has no trailing newline:
    // the caller still hands it over as the last line.
    let mut parser = SseParser::new();
    parser
        .process_line(r#"event: content_block_start"#)
        .unwrap();
    parser
        .process_line(r#"data: {"type":"content_block_start","index":0,"content_block":{"type":"text","text":""}}"#)
        .unwrap();
    parser
        .process_line(r#"event: content_block_delta"#)
        .unwrap();
    parser
        .process_line(r#"data: {"type":"content_block_delta","index":0,"delta":{"type":"text_delta","text":"hi"}}"#)
        .unwrap();
    parser.process_line(r#"event: content_block_stop"#).unwrap();
    parser
        .process_line(r#"data: {"type":"content_block_stop","index":0}"#)
        .unwrap();
    parser.process_line(r#"event: message_delta"#).unwrap();
    // This is the "trailing" line that would be in the buffer without a newline
    parser
        .process_line(r#"data: {"type":"message_delta","delta":{"stop_reason":"end_turn"}}"#)
        .unwrap();
    let (blocks, stop) = parser.finish().unwrap();
    assert_eq!(stop, StopReason::EndTurn);
    assert_eq!(blocks.len(), 1);
    assert!(matches!(&blocks[0], ContentBlock::Text { text } if text == "hi"));
}

#[test]
fn sse_non_sse_lines_ignored() {
    let mut parser = SseParser::new();
    parser.process_line(":comment").unwrap();
    parser.process_line("random garbage").unwrap();
    parser.process_line("event: message_delta").unwrap();
    parser
        .process_line(r#"data: {"type":"message_delta","delta":{"stop_reason":"end_turn"}}"#)
        .unwrap();
    let (_, stop) = parser.finish().unwrap();
    assert_eq!(stop, StopReason::EndTurn);
}

#[test]
fn sse_tool_use_empty_id_filtered() {
    // A tool_use block with empty id should be treated as corrupt and filtered out
    let (blocks, stop) = parse_sse(&[
        r#"event: content_block_start"#,
        r#"data: {"type":"content_block_start","index":0,"content_block":{"type":"tool_use","id":"","name":"bash"}}"#,
        r#"event: content_block_stop"#,
        r#"data: {"type":"content_block_stop","index":0}"#,
        r#"event: content_block_start"#,
        r#"data: {"type":"content_block_start","index":1,"content_block":{"type":"text","text":""}}"#,
        r#"event: content_block_delta"#,
        r#"data: {"type":"content_block_delta","index":1,"delta":{"type":"text_delta","text":"fallback"}}"#,
        r#"event: content_block_stop"#,
        r#"data: {"type":"content_block_stop","index":1}"#,
        r#"event: message_delta"#,
        r#"data: {"type":"message_delta","delta":{"stop_reason":"end_turn"}}"#,
    ])
    .unwrap();
    assert_eq!(stop, StopReason::EndTurn);
    assert_eq!(blocks.len(), 1);
    assert!(matches!(&blocks[0], ContentBlock::Text { text } if text == "fallback"));
}

#[test]
fn sse_tool_use_empty_name_filtered() {
    // A tool_use block with empty name should be treated as corrupt and filtered out
    let (blocks, _) = parse_sse(&[
        r#"event: content_block_start"#,
        r#"data: {"type":"content_block_start","index":0,"content_block":{"type":"tool_use","id":"t1","name":""}}"#,
        r#"event: content_block_stop"#,
        r#"data: {"type":"content_block_stop","index":0}"#,
        r#"event: message_delta"#,
        r#"data: {"type":"message_delta","delta":{"stop_reason":"end_turn"}}"#,
    ])
    .unwrap();
    // Empty-name tool_use becomes placeholder text (empty), which is filtered
    assert!(blocks.is_empty());
}

#[test]
fn sse_tool_use_missing_id_filtered() {
    // A tool_use block with no id field should be treated as corrupt
    let (blocks, _) = parse_sse(&[
        r#"event: content_block_start"#,
        r#"data: {"type":"content_block_start","index":0,"content_block":{"type":"tool_use","name":"bash"}}"#,
        r#"event: content_block_stop"#,
        r#"data: {"type":"content_block_stop","index":0}"#,
        r#"event: message_delta"#,
        r#"data: {"type":"message_delta","delta":{"stop_reason":"end_turn"}}"#,
    ])
    .unwrap();
    assert!(blocks.is_empty());
}

#[test]
fn sse_interleaved_blocks_stay_aligned() {
    let (blocks, stop) = parse_sse(&[
        r#"event: content_block_start"#,
        r#"data: {"type":"content_block_start","index":0,"content_block":{"type":"text","text":""}}"#,
        r#"event: content_block_start"#,
        r#"data: {"type":"content_block_start","index":1,"content_block":{"type":"thinking","thinking":""}}"#,
        r#"event: content_block_start"#,
        r#"data: {"type":"content_block_start","index":2,"content_block":{"type":"tool_use","id":"t9","name":"edit_file"}}"#,
        r#"event: content_block_delta"#,
        r#"data: {"type":"content_block_delta","index":2,"delta":{"type":"input_json_delta","partial_json":"{\"path\":"}}"#,
        r#"event: content_block_delta"#,
        r#"data: {"type":"content_block_delta","index":0,"delta":{"type":"text_delta","text":"One "}}"#,
        r#"event: content_block_delta"#,
        r#"data: {"type":"content_block_delta","index":2,"delta":{"type":"input_json_delta","partial_json":"\"a.txt\"}"}}"#,
        r#"event: content_block_delta"#,
        r#"data: {"type":"content_block_delta","index":0,"delta":{"type":"text_delta","text":"two"}}"#,
        r#"event: content_block_stop"#,
        r#"data: {"type":"content_block_stop","index":2}"#,
        r#"event: content_block_stop"#,
        r#"data: {"type":"content_block_stop","index":0}"#,
        r#"event: content_block_stop"#,
        r#"data: {"type":"content_block_stop","index":1}"#,
        r#"event: message_delta"#,
        r#"data: {"type":"message_delta","delta":{"stop_reason":"tool_use"}}"#,
    ])
    .unwrap();
    assert_eq!(stop, StopReason::ToolUse);
    assert_eq!(blocks.len(), 2);
    assert!(matches!(&blocks[0], ContentBlock::Text { text } if text == "One two"));
    if let ContentBlock::ToolUse { id, name, input } = &blocks[1] {
        assert_eq!(id, "t9");
        assert_eq!(name, "edit_file");
        let input = input.as_ref().unwrap();
        assert_eq!(input.str_arg("path"), Some("a.txt".to_string()));
        assert_eq!(input.json, r#"{"path":"a.txt"}"#);
    } else {
        panic!("expected ToolUse");
    }
}

#[test]
fn sse_malformed_payload_is_error() {
    let err = parse_sse(&["event: message_delta", "data: {not json"]).unwrap_err();
    assert_eq!(err, AgentError::Json);
}
