use llms_sdk::openai::{
    ChatCompletion, CompletionMessage, OpenAICompletionTokensDetails, OpenAIFunctionCall,
    OpenAIImagePart, OpenAIMessage, OpenAIMessagePart, OpenAIMessageRole,
    OpenAIPromptTokensDetails, OpenAIReasoningEffort, OpenAIRequest, OpenAIResponse,
    OpenAIToolCallPart, OpenAIUsage, PromptCacheMode, PromptCacheOptions, ResponseFormatType,
};
use llms_sdk::{
    ApiType, AudioPart, DocumentPart, ImagePart, LLMRequest, LLMResponse, LLMUsage, Message,
    MessagePart, MessageRole, OutputFormat, ReasoningEffort, Schema, TextPart, ThinkingPart, Tool,
    ToolCallPart, ToolResultPart,
};

fn text(t: &str) -> MessagePart {
    MessagePart::Text(TextPart { text: t.to_string() })
}

fn request_with(messages: Vec<Message>) -> LLMRequest {
    LLMRequest {
        api_type: ApiType::OpenAI,
        base_url: None,
        api_key: "key".to_string(),
        model: "gpt".to_string(),
        messages,
        max_output_tokens: None,
        temperature: None,
        top_p: None,
        reasoning_effort: None,
        prompt_cache_ttl: None,
        stream: false,
        output_format: None,
        tools: None,
        tool_choice: None,
        parallel_tool_calls: false,
    }
}

fn usage(prompt_audio: u32, completion_audio: u32, reasoning: u32) -> OpenAIUsage {
    OpenAIUsage {
        prompt_tokens: 11,
        completion_tokens: 7,
        total_tokens: 18,
        prompt_tokens_details: OpenAIPromptTokensDetails {
            cached_tokens: 4,
            audio_tokens: prompt_audio,
        },
        completion_tokens_details: OpenAICompletionTokensDetails {
            reasoning_tokens: reasoning,
            audio_tokens: completion_audio,
            accepted_prediction_tokens: 0,
            rejected_prediction_tokens: 0,
        },
    }
}

#[test]
fn openai_role_maps_system_to_developer() {
    assert_eq!(
        OpenAIMessageRole::from_message_role(MessageRole::System),
        OpenAIMessageRole::Developer
    );
    assert_eq!(
        OpenAIMessageRole::from_message_role(MessageRole::Tool),
        OpenAIMessageRole::Tool
    );
}

#[test]
fn openai_base64_image_becomes_a_data_url() {
    let part = OpenAIImagePart::from_image_part(ImagePart {
        data: "abc".to_string(),
        is_base64: true,
        mime_type: Some("image/png".to_string()),
    });
    assert_eq!(part.part_type, "image_url");
    assert_eq!(part.image_url, "data:image/png;base64,abc");
    let url = OpenAIImagePart::from_image_part(ImagePart::from_url("https://x/y.png".to_string()));
    assert_eq!(url.image_url, "https://x/y.png");
}

#[test]
fn openai_refuses_thinking_and_document_parts() {
    let e = OpenAIMessagePart::try_from_part(MessagePart::Thinking(ThinkingPart::new(
        "hm".to_string(),
    )))
    .unwrap_err();
    assert_eq!(e.part_type, "thinking");
    assert_eq!(e.api_type, "openai");
    let e = OpenAIMessagePart::try_from_part(MessagePart::Document(DocumentPart::from_text(
        "doc".to_string(),
    )))
    .unwrap_err();
    assert_eq!(e.part_type, "unknown");
}

#[test]
fn openai_user_message_refuses_tool_calls() {
    let msg = Message {
        role: MessageRole::User,
        content: vec![
            text("hi"),
            MessagePart::ToolCall(ToolCallPart {
                id: "1".to_string(),
                name: "f".to_string(),
                arguments: "{}".to_string(),
            }),
        ],
    };
    let e = OpenAIMessage::try_from_message(msg).unwrap_err();
    assert_eq!(e.part_type, "tool_call or tool_result (for user/system message)");
}

#[test]
fn openai_assistant_message_separates_tool_calls() {
    let msg = Message {
        role: MessageRole::Assistant,
        content: vec![
            text("calling"),
            MessagePart::ToolCall(ToolCallPart {
                id: "c1".to_string(),
                name: "f".to_string(),
                arguments: "{\"x\":1}".to_string(),
            }),
        ],
    };
    match OpenAIMessage::try_from_message(msg).unwrap() {
        OpenAIMessage::Assistant(a) => {
            assert_eq!(a.role, OpenAIMessageRole::Assistant);
            assert_eq!(a.content.len(), 1);
            let calls = a.tool_calls.unwrap();
            assert_eq!(calls.len(), 1);
            assert_eq!(calls[0].id, "c1");
            assert_eq!(calls[0].function.name, "f");
            assert_eq!(calls[0].function.arguments, "{\"x\":1}");
            assert_eq!(calls[0].part_type, "function");
        }
        other => panic!("unexpected message {:?}", other),
    }
}

#[test]
fn openai_assistant_message_refuses_tool_results() {
    let msg = Message {
        role: MessageRole::Assistant,
        content: vec![MessagePart::ToolResult(ToolResultPart {
            tool_call_id: "c1".to_string(),
            result: "ok".to_string(),
        })],
    };
    let e = OpenAIMessage::try_from_message(msg).unwrap_err();
    assert_eq!(e.part_type, "tool_result (for assistant message)");
}

#[test]
fn openai_tool_message_carries_one_result() {
    let msg = Message {
        role: MessageRole::Tool,
        content: vec![MessagePart::ToolResult(ToolResultPart {
            tool_call_id: "c1".to_string(),
            result: "sunny".to_string(),
        })],
    };
    match OpenAIMessage::try_from_message(msg).unwrap() {
        OpenAIMessage::Tool(t) => {
            assert_eq!(t.content, "sunny");
            assert_eq!(t.tool_call_id, "c1");
            assert_eq!(t.role, OpenAIMessageRole::Tool);
        }
        other => panic!("unexpected message {:?}", other),
    }
    let two = Message {
        role: MessageRole::Tool,
        content: vec![text("a"), text("b")],
    };
    assert_eq!(
        OpenAIMessage::try_from_message(two).unwrap_err().part_type,
        "multiple tool results"
    );
    let not_result = Message {
        role: MessageRole::Tool,
        content: vec![text("a")],
    };
    assert_eq!(
        OpenAIMessage::try_from_message(not_result).unwrap_err().part_type,
        "non-tool_result parts are not supported as tool results"
    );
}

#[test]
fn openai_request_maps_options() {
    let request = LLMRequest {
        max_output_tokens: Some(64),
        temperature: Some(0.5_f32.to_bits()),
        reasoning_effort: Some(ReasoningEffort::Maximum),
        prompt_cache_ttl: Some("1h".to_string()),
        tools: Some(vec![Tool {
            name: "f".to_string(),
            description: "does f".to_string(),
            parameters: Schema { json: "{}".to_string() },
        }]),
        parallel_tool_calls: true,
        output_format: Some(OutputFormat {
            name: "out".to_string(),
            description: "shape".to_string(),
            schema: Schema { json: "{}".to_string() },
        }),
        ..request_with(vec![Message {
            role: MessageRole::System,
            content: vec![text("be brief")],
        }])
    };
    let r = OpenAIRequest::try_from_request(request).unwrap();
    assert_eq!(r.model, "gpt");
    assert_eq!(r.messages.len(), 1);
    assert!(matches!(&r.messages[0], OpenAIMessage::User(u) if u.role == OpenAIMessageRole::Developer));
    assert_eq!(r.max_completion_tokens, Some(64));
    assert_eq!(r.temperature, Some(0.5_f32.to_bits()));
    assert_eq!(r.reasoning_effort, Some(OpenAIReasoningEffort::Xhigh));
    assert_eq!(
        r.prompt_cache_options,
        Some(PromptCacheOptions {
            mode: PromptCacheMode::Implicit,
            ttl: "1h".to_string()
        })
    );
    assert_eq!(r.parallel_tool_calls, Some(true));
    let rf = r.response_format.unwrap();
    assert_eq!(rf.format_type, ResponseFormatType::JsonSchema);
    assert_eq!(rf.json_schema.name, "out");
}

#[test]
fn openai_request_without_tools_sends_no_parallel_flag() {
    let r = OpenAIRequest::try_from_request(LLMRequest {
        parallel_tool_calls: true,
        ..request_with(vec![])
    })
    .unwrap();
    assert_eq!(r.parallel_tool_calls, None);
    assert!(r.prompt_cache_options.is_none());
}

#[test]
fn openai_request_reports_the_first_refused_message() {
    let request = request_with(vec![
        Message {
            role: MessageRole::User,
            content: vec![text("ok")],
        },
        Message {
            role: MessageRole::User,
            content: vec![MessagePart::Thinking(ThinkingPart::new("x".to_string()))],
        },
        Message {
            role: MessageRole::Tool,
            content: vec![],
        },
    ]);
    let e = OpenAIRequest::try_from_request(request).unwrap_err();
    assert_eq!(e.part_type, "thinking");
}

#[test]
fn openai_prompt_cache_options_default() {
    let d = PromptCacheOptions::default();
    assert_eq!(d.mode, PromptCacheMode::Implicit);
    assert_eq!(d.ttl, "30m");
}

#[test]
fn openai_usage_maps_cache_and_other_counters() {
    let u = LLMUsage::from_openai_usage(usage(2, 3, 5));
    assert_eq!(u.input_tokens, 11);
    assert_eq!(u.output_tokens, 7);
    assert_eq!(u.cache_read_tokens, Some(4));
    assert_eq!(u.cache_write_tokens, None);
    assert_eq!(
        u.other_tokens,
        Some(vec![("other".to_string(), 10)])
    );
}

#[test]
fn openai_response_takes_the_first_choice() {
    let response = OpenAIResponse {
        id: "chatcmpl-1".to_string(),
        created: 1700,
        model: "gpt".to_string(),
        usage: usage(0, 0, 0),
        choices: vec![ChatCompletion {
            index: 0,
            message: CompletionMessage {
                role: OpenAIMessageRole::Assistant,
                content: "hello".to_string(),
                tool_calls: Some(vec![OpenAIToolCallPart {
                    id: "c1".to_string(),
                    function: OpenAIFunctionCall {
                        name: "f".to_string(),
                        arguments: "{}".to_string(),
                    },
                    part_type: "function".to_string(),
                }]),
            },
            finish_reason: "stop".to_string(),
        }],
    };
    let r = LLMResponse::from_openai_response(response);
    assert_eq!(r.id, "chatcmpl-1");
    assert_eq!(r.created_at, Some(1700));
    assert_eq!(r.message.role, MessageRole::Assistant);
    assert_eq!(r.message.content.len(), 2);
    assert!(matches!(&r.message.content[0], MessagePart::Text(t) if t.text == "hello"));
    assert!(matches!(&r.message.content[1], MessagePart::ToolCall(t) if t.id == "c1" && t.name == "f"));
}

#[test]
fn openai_response_without_choices_has_an_empty_message() {
    let response = OpenAIResponse {
        id: "x".to_string(),
        created: 1,
        model: "gpt".to_string(),
        usage: usage(0, 0, 0),
        choices: vec![],
    };
    let r = LLMResponse::from_openai_response(response);
    assert_eq!(r.message.role, MessageRole::Assistant);
    assert!(r.message.content.is_empty());
}

#[test]
fn openai_user_message_reads_back_data_urls() {
    let m = OpenAIMessage::User(llms_sdk::openai::OpenAISimpleMessage {
        role: OpenAIMessageRole::User,
        content: vec![
            OpenAIMessagePart::Image(OpenAIImagePart {
                part_type: "image_url".to_string(),
                image_url: "data: image/png ;base64,QUJD".to_string(),
            }),
            OpenAIMessagePart::Image(OpenAIImagePart {
                part_type: "image_url".to_string(),
                image_url: "https://x/y.png".to_string(),
            }),
        ],
    })
    .into_message();
    assert_eq!(m.role, MessageRole::User);
    assert_eq!(
        m.content[0],
        MessagePart::Image(ImagePart {
            data: "QUJD".to_string(),
            is_base64: true,
            mime_type: Some("image/png".to_string()),
        })
    );
    assert_eq!(
        m.content[1],
        MessagePart::Image(ImagePart {
            data: "https://x/y.png".to_string(),
            is_base64: false,
            mime_type: None,
        })
    );
}

#[test]
fn openai_user_message_round_trip() {
    let original = Message {
        role: MessageRole::User,
        content: vec![
            text("look"),
            MessagePart::Image(ImagePart {
                data: "QUJD".to_string(),
                is_base64: true,
                mime_type: Some("image/jpeg".to_string()),
            }),
            MessagePart::Audio(AudioPart {
                data: "UklG".to_string(),
                mime_type: "audio/wav".to_string(),
            }),
        ],
    };
    let sent = OpenAIMessage::try_from_message(original.clone()).unwrap();
    let back = sent.into_message();
    assert_eq!(back, original);
}
