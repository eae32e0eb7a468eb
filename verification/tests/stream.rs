use llms_sdk::anthropic::{
    AntMessagePart, AntResponse, AntTextPart, AntThinkingPart, AntToolCallPart, AntUsage,
    StreamContentBlock, StreamContentStart, StreamError, StreamEventType, StreamMessageDelta,
    StreamMessageStart, StreamTextBlock, StreamTextDelta, StreamThinkingBlock,
    StreamThinkingDelta, StreamThinkingSignatureBlock, StreamThinkingSignatureDelta,
    StreamToolBlock, StreamToolDelta,
};
use llms_sdk::anthropic_stream::{AntStreamAction, AntStreamEvent, AntStreamState};
use llms_sdk::{LLMStreamingResponse, MessagePart, MessageRole};

fn start(id: &str) -> AntStreamEvent {
    AntStreamEvent::MessageStart(StreamMessageStart {
        message_type: "message_start".to_string(),
        message: AntResponse {
            id: id.to_string(),
            content: vec![],
            usage: AntUsage {
                input_tokens: 1,
                cache_creation_input_tokens: 0,
                cache_read_input_tokens: 0,
                output_tokens: 0,
            },
        },
    })
}

fn open_block(index: u32, block: AntMessagePart) -> AntStreamEvent {
    AntStreamEvent::ContentBlockStart(StreamContentStart {
        content_type: "content_block_start".to_string(),
        content_block: block,
        index,
    })
}

fn text_block(text: &str) -> AntMessagePart {
    AntMessagePart::Text(AntTextPart {
        part_type: "text".to_string(),
        text: text.to_string(),
    })
}

fn tool_block(id: &str, name: &str) -> AntMessagePart {
    AntMessagePart::ToolCall(AntToolCallPart {
        id: id.to_string(),
        name: name.to_string(),
        input: "{}".to_string(),
        part_type: "tool_use".to_string(),
    })
}

fn text_delta(index: u32, text: &str) -> AntStreamEvent {
    AntStreamEvent::ContentBlockDelta(StreamContentBlock::Text(StreamTextBlock {
        block_type: "content_block_delta".to_string(),
        index,
        delta: StreamTextDelta {
            delta_type: "text_delta".to_string(),
            text: text.to_string(),
        },
    }))
}

fn tool_delta(index: u32, json: &str) -> AntStreamEvent {
    AntStreamEvent::ContentBlockDelta(StreamContentBlock::Tool(StreamToolBlock {
        block_type: "content_block_delta".to_string(),
        index,
        delta: StreamToolDelta {
            delta_type: "input_json_delta".to_string(),
            partial_json: json.to_string(),
        },
    }))
}

fn thinking_delta(index: u32, text: &str) -> AntStreamEvent {
    AntStreamEvent::ContentBlockDelta(StreamContentBlock::Thinking(StreamThinkingBlock {
        block_type: "content_block_delta".to_string(),
        index,
        delta: StreamThinkingDelta {
            delta_type: "thinking_delta".to_string(),
            thinking: text.to_string(),
        },
    }))
}

fn signature_delta(index: u32, sig: &str) -> AntStreamEvent {
    AntStreamEvent::ContentBlockDelta(StreamContentBlock::ThinkingSignature(
        StreamThinkingSignatureBlock {
            block_type: "content_block_delta".to_string(),
            index,
            delta: StreamThinkingSignatureDelta {
                delta_type: "signature_delta".to_string(),
                signature: sig.to_string(),
            },
        },
    ))
}

fn run(state: &mut AntStreamState, event: AntStreamEvent) -> AntStreamAction {
    assert!(state.admits_event(&event));
    state.step(event)
}

#[test]
fn stream_event_type_parses_every_event_name() {
    assert_eq!(
        StreamEventType::from_str("message_start").unwrap(),
        StreamEventType::MessageStart
    );
    assert_eq!(
        StreamEventType::from_str("content_block_delta").unwrap(),
        StreamEventType::ContentBlockDelta
    );
    assert_eq!(StreamEventType::from_str("ping").unwrap(), StreamEventType::Ping);
    assert_eq!(StreamEventType::from_str("error").unwrap(), StreamEventType::Error);
    let err = StreamEventType::from_str("Message_Start").unwrap_err();
    assert_eq!(err.unsupported_type, "Message_Start");
}

#[test]
fn stream_text_deltas_accumulate_into_the_final_message() {
    let mut state = AntStreamState::new();
    assert!(matches!(run(&mut state, start("msg_1")), AntStreamAction::Continue));
    assert!(matches!(
        run(&mut state, open_block(0, text_block(""))),
        AntStreamAction::Continue
    ));
    match run(&mut state, text_delta(0, "Hel")) {
        AntStreamAction::Emit(LLMStreamingResponse::Delta(d)) => {
            assert_eq!(d.response_id, "msg_1");
            assert_eq!(d.delta, Some("Hel".to_string()));
            assert!(!d.stop);
        }
        other => panic!("unexpected action {:?}", other),
    }
    run(&mut state, text_delta(0, "lo"));
    run(&mut state, AntStreamEvent::ContentBlockStop);
    run(
        &mut state,
        AntStreamEvent::MessageDelta(StreamMessageDelta {
            message_type: "message_delta".to_string(),
            usage: AntUsage {
                input_tokens: 3,
                cache_creation_input_tokens: 1,
                cache_read_input_tokens: 2,
                output_tokens: 4,
            },
        }),
    );
    match run(&mut state, AntStreamEvent::MessageStop) {
        AntStreamAction::Finish(c) => {
            assert_eq!(c.id, "msg_1");
            assert_eq!(c.created_at, None);
            assert_eq!(c.deltas.len(), 2);
            assert_eq!(c.thinking_deltas.map(|v| v.len()), Some(0));
            assert!(c.tool_calls.is_none());
            assert_eq!(c.message.role, MessageRole::Assistant);
            assert_eq!(c.message.content.len(), 1);
            assert!(matches!(&c.message.content[0], MessagePart::Text(t) if t.text == "Hello"));
            let usage = c.usage.unwrap();
            assert_eq!(usage.input_tokens, 3);
            assert_eq!(usage.output_tokens, 4);
            assert_eq!(usage.cache_read_tokens, Some(2));
            assert_eq!(usage.cache_write_tokens, Some(1));
        }
        other => panic!("unexpected action {:?}", other),
    }
}

#[test]
fn stream_tool_call_with_valid_arguments_joins_the_message_in_index_order() {
    let mut state = AntStreamState::new();
    run(&mut state, start("msg_2"));
    run(&mut state, open_block(1, tool_block("call_1", "get_weather")));
    run(&mut state, open_block(0, text_block("Checking. ")));
    match run(&mut state, tool_delta(1, "{\"city\":")) {
        AntStreamAction::Emit(LLMStreamingResponse::ToolDelta(d)) => {
            assert_eq!(d.tool_call_id, "call_1");
            assert_eq!(d.name, "get_weather");
            assert_eq!(d.partial_arguments, "{\"city\":");
            assert_eq!(d.response_id, "msg_2");
        }
        other => panic!("unexpected action {:?}", other),
    }
    run(&mut state, tool_delta(1, "\"Paris\"}"));
    match run(&mut state, AntStreamEvent::MessageStop) {
        AntStreamAction::Finish(c) => {
            let calls = c.tool_calls.unwrap();
            assert_eq!(calls.len(), 1);
            assert_eq!(calls[0].arguments, "{\"city\":\"Paris\"}");
            assert_eq!(c.message.content.len(), 2);
            assert!(matches!(&c.message.content[0], MessagePart::Text(t) if t.text == "Checking. "));
            assert!(matches!(&c.message.content[1], MessagePart::ToolCall(t) if t.id == "call_1"));
        }
        other => panic!("unexpected action {:?}", other),
    }
}

#[test]
fn stream_tool_call_with_incomplete_arguments_is_dropped() {
    let mut state = AntStreamState::new();
    run(&mut state, start("msg_3"));
    run(&mut state, open_block(0, tool_block("call_1", "f")));
    run(&mut state, tool_delta(0, "{\"a\":"));
    match run(&mut state, AntStreamEvent::MessageStop) {
        AntStreamAction::Finish(c) => {
            assert!(c.tool_calls.is_none());
            assert!(c.message.content.is_empty());
        }
        other => panic!("unexpected action {:?}", other),
    }
}

#[test]
fn stream_thinking_and_signature_deltas_build_the_thinking_part() {
    let mut state = AntStreamState::new();
    run(&mut state, start("msg_4"));
    run(
        &mut state,
        open_block(
            0,
            AntMessagePart::Thinking(AntThinkingPart {
                thinking: String::new(),
                signature: None,
                part_type: "thinking".to_string(),
            }),
        ),
    );
    match run(&mut state, thinking_delta(0, "Let me ")) {
        AntStreamAction::Emit(LLMStreamingResponse::ThinkingDelta(d)) => {
            assert_eq!(d.delta, Some("Let me ".to_string()));
        }
        other => panic!("unexpected action {:?}", other),
    }
    run(&mut state, thinking_delta(0, "think."));
    assert!(matches!(
        run(&mut state, signature_delta(0, "sig")),
        AntStreamAction::Continue
    ));
    run(&mut state, signature_delta(0, "ned"));
    match run(&mut state, AntStreamEvent::MessageStop) {
        AntStreamAction::Finish(c) => {
            assert_eq!(c.thinking_deltas.map(|v| v.len()), Some(2));
            match &c.message.content[0] {
                MessagePart::Thinking(t) => {
                    assert_eq!(t.thinking, "Let me think.");
                    assert_eq!(t.signature, Some("signed".to_string()));
                }
                other => panic!("unexpected part {:?}", other),
            }
        }
        other => panic!("unexpected action {:?}", other),
    }
}

#[test]
fn stream_error_event_fails_with_its_message() {
    let mut state = AntStreamState::new();
    let action = run(
        &mut state,
        AntStreamEvent::Error(StreamError {
            error_type: "error".to_string(),
            error: "overloaded".to_string(),
        }),
    );
    assert!(matches!(action, AntStreamAction::Fail(m) if m == "overloaded"));
}

#[test]
fn stream_ping_and_unknown_blocks_change_nothing() {
    let mut state = AntStreamState::new();
    assert!(matches!(run(&mut state, AntStreamEvent::Ping), AntStreamAction::Continue));
    run(&mut state, start("msg_5"));
    run(&mut state, text_delta(7, "orphan"));
    match run(&mut state, AntStreamEvent::MessageStop) {
        AntStreamAction::Finish(c) => {
            assert!(c.message.content.is_empty());
            assert_eq!(c.deltas.len(), 1);
        }
        other => panic!("unexpected action {:?}", other),
    }
}

#[test]
fn stream_state_refuses_deltas_before_the_message_starts() {
    let state = AntStreamState::new();
    assert!(!state.admits_event(&text_delta(0, "x")));
    assert!(!state.admits_event(&AntStreamEvent::MessageStop));
    assert!(!state.admits_event(&tool_delta(0, "{")));
    assert!(state.admits_event(&AntStreamEvent::Ping));
    assert!(state.admits_event(&signature_delta(0, "s")));
}
