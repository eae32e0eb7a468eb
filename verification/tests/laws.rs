use llms_sdk::anthropic::{
    AllowedCacheTtl, AntDocumentPart, AntEffort, AntMessagePart, AntRequest, AntToolCallPart,
    AntToolChoice, AntToolResultPart, Base64PDFDocumentSource, DocumentSource, StreamEventType,
};
use llms_sdk::errors::{
    InvalidAntRequestConversion, InvalidInput, InvalidTtl, StreamParamError, UnsupportedPartType,
    UnsupportedType,
};
use llms_sdk::{
    ApiType, DocumentPart, ImagePart, LLMRequest, Message, MessagePart, MessageRole,
    ReasoningEffort, RetryJitter, RetryPolicy, TextPart, ThinkingPart, ToolCallPart,
    ToolChoice, ToolResultPart,
};

fn base_request() -> LLMRequest {
    LLMRequest {
        api_type: ApiType::Anthropic,
        base_url: None,
        api_key: "key".to_string(),
        model: "anthropic-model".to_string(),
        messages: vec![],
        max_output_tokens: None,
        temperature: None,
        top_p: None,
        reasoning_effort: None,
        prompt_cache_ttl: None,
        stream: false,
        output_format: None,
        tools: None,
        tool_choice: None,
        parallel_tool_calls: false,
    }
}

#[test]
fn api_type_name_round_trips() {
    for a in [ApiType::OpenAI, ApiType::Anthropic] {
        assert_eq!(ApiType::from_str(&a.to_string()).unwrap(), a);
    }
    assert_eq!(ApiType::from_str("OpenAI").unwrap(), ApiType::OpenAI);
    assert_eq!(ApiType::from_str("mistral").unwrap_err().unsupported_type, "mistral");
}

#[test]
fn reasoning_effort_name_round_trips() {
    for e in [
        ReasoningEffort::NoReasoning,
        ReasoningEffort::Minimal,
        ReasoningEffort::Low,
        ReasoningEffort::Medium,
        ReasoningEffort::High,
        ReasoningEffort::Xhigh,
        ReasoningEffort::Maximum,
    ] {
        assert_eq!(ReasoningEffort::from_str(&e.to_string()).unwrap(), e);
    }
    assert_eq!(ReasoningEffort::from_str("MAX").unwrap(), ReasoningEffort::Maximum);
    assert_eq!(ReasoningEffort::from_str("minimal").unwrap(), ReasoningEffort::Minimal);
    assert_eq!(ReasoningEffort::from_str("XHigh").unwrap(), ReasoningEffort::Xhigh);
    assert!(ReasoningEffort::from_str("extreme").is_err());
}

#[test]
fn cache_ttl_name_round_trips() {
    for t in [AllowedCacheTtl::FiveMinutes, AllowedCacheTtl::OneHour] {
        assert_eq!(AllowedCacheTtl::from_str(&t.to_string()).unwrap(), t);
    }
    assert_eq!(AllowedCacheTtl::from_str("5M").unwrap_err().ttl, "5M");
}

#[test]
fn role_and_tool_choice_names_parse_ignoring_case() {
    assert_eq!(MessageRole::from_str("ASSISTANT").unwrap(), MessageRole::Assistant);
    assert_eq!(ToolChoice::from_str("Required").unwrap(), ToolChoice::Required);
    assert_eq!(ToolChoice::from_str("none").unwrap(), ToolChoice::NoTool);
    assert!(ToolChoice::from_str("any").is_err());
    assert!(matches!(StreamEventType::from_str("nope"), Err(UnsupportedType { .. })));
}

#[test]
fn ant_part_round_trip_keeps_faithful_parts() {
    let parts = vec![
        MessagePart::Text(TextPart::new("hi".to_string())),
        MessagePart::Image(ImagePart::new("QUJD".to_string(), "image/png".to_string()).unwrap()),
        MessagePart::Image(ImagePart::from_url("https://x/y.png".to_string())),
        MessagePart::Document(DocumentPart::from_url("https://x/doc.pdf".to_string())),
        MessagePart::Document(DocumentPart::from_text("plain".to_string())),
        MessagePart::Thinking(ThinkingPart::new_with_signature(
            "hm".to_string(),
            "sig".to_string(),
        )),
        MessagePart::ToolCall(ToolCallPart {
            id: "c".to_string(),
            name: "f".to_string(),
            arguments: "{\"a\":1}".to_string(),
        }),
        MessagePart::ToolResult(ToolResultPart {
            tool_call_id: "c".to_string(),
            result: "r".to_string(),
        }),
    ];
    let message = Message { role: MessageRole::User, content: parts.clone() };
    let ant = llms_sdk::anthropic::AntMessage::try_from_message(message).unwrap();
    for (a, p) in ant.content.into_iter().zip(parts.iter()) {
        assert_eq!(&MessagePart::from_ant_part(a), p);
    }
}

#[test]
fn ant_tool_call_input_is_normalized_json() {
    let ant = AntToolCallPart::from_tool_call_part(ToolCallPart {
        id: "c".to_string(),
        name: "f".to_string(),
        arguments: "{ \"a\" : 1 }".to_string(),
    });
    assert_eq!(ant.input, "{\"a\":1}");
    assert_eq!(ant.part_type, "tool_use");
    let back = MessagePart::from_ant_part(AntMessagePart::ToolCall(ant));
    assert!(matches!(back, MessagePart::ToolCall(t) if t.arguments == "{\"a\":1}"));
}

#[test]
fn ant_request_never_sends_system_messages_nor_both_sampling_parameters() {
    let request = LLMRequest {
        messages: vec![
            Message {
                role: MessageRole::System,
                content: vec![MessagePart::Text(TextPart::new("first".to_string()))],
            },
            Message {
                role: MessageRole::User,
                content: vec![MessagePart::Text(TextPart::new("q".to_string()))],
            },
            Message {
                role: MessageRole::System,
                content: vec![
                    MessagePart::Text(TextPart::new("second ".to_string())),
                    MessagePart::Text(TextPart::new("prompt".to_string())),
                ],
            },
            Message {
                role: MessageRole::Tool,
                content: vec![MessagePart::ToolResult(ToolResultPart {
                    tool_call_id: "c".to_string(),
                    result: "r".to_string(),
                })],
            },
        ],
        temperature: Some(0.2_f32.to_bits()),
        top_p: Some(0.3_f32.to_bits()),
        ..base_request()
    };
    let r = AntRequest::try_from_request(request).unwrap();
    assert_eq!(r.messages.len(), 2);
    assert!(r
        .messages
        .iter()
        .all(|m| m.role != llms_sdk::anthropic::AntMessageRole::System));
    assert_eq!(r.messages[1].role, llms_sdk::anthropic::AntMessageRole::User);
    assert_eq!(r.system, Some("second prompt".to_string()));
    assert!(!(r.temperature.is_some() && r.top_p.is_some()));
}

#[test]
fn ant_request_reports_audio_before_an_invalid_ttl() {
    let request = LLMRequest {
        messages: vec![Message {
            role: MessageRole::User,
            content: vec![MessagePart::Audio(llms_sdk::AudioPart {
                data: "d".to_string(),
                mime_type: "audio/wav".to_string(),
            })],
        }],
        prompt_cache_ttl: Some("2h".to_string()),
        ..base_request()
    };
    let e = AntRequest::try_from_request(request).unwrap_err();
    assert_eq!(
        e.message(),
        "Unable to convert request to Anthropic request: unsupported part type (audio) for API anthropic"
    );
    let e = AntRequest::try_from_request(LLMRequest {
        prompt_cache_ttl: Some("2h".to_string()),
        ..base_request()
    })
    .unwrap_err();
    assert_eq!(
        e.message(),
        "Unable to convert request to Anthropic request: The requested TTL is not supported: 2h"
    );
}

#[test]
fn checked_ant_conversion_refuses_unconvertible_messages() {
    let request = LLMRequest {
        messages: vec![Message {
            role: MessageRole::User,
            content: vec![MessagePart::Image(ImagePart {
                data: "QUJD".to_string(),
                is_base64: true,
                mime_type: None,
            })],
        }],
        ..base_request()
    };
    assert!(AntRequest::try_from_request_checked(request).is_none());
    assert!(AntRequest::try_from_request_checked(base_request()).unwrap().is_ok());
}

#[test]
fn stream_flag_must_match_the_method() {
    let plain = base_request();
    assert!(plain.check_stream(false).is_ok());
    let e = plain.check_stream(true).unwrap_err();
    assert!(e.should_stream);
    assert_eq!(
        e.message(),
        "stream is set to False, but a method that implies streaming has been called"
    );
    let streaming = LLMRequest { stream: true, ..base_request() };
    let e = streaming.check_stream(false).unwrap_err();
    assert!(!e.should_stream);
    assert_eq!(
        e.message(),
        "stream is set to True, but a method that does not imply streaming has been called"
    );
}

#[test]
fn error_messages() {
    assert_eq!(
        UnsupportedType { unsupported_type: "x".to_string() }.message(),
        "unsupported enum type: x"
    );
    assert_eq!(
        InvalidInput { reason: "bad".to_string() }.message(),
        "invalid input data: bad"
    );
    assert_eq!(
        UnsupportedPartType { part_type: "audio".to_string(), api_type: "anthropic".to_string() }
            .message(),
        "unsupported part type (audio) for API anthropic"
    );
    assert_eq!(
        InvalidTtl { ttl: "9s".to_string() }.message(),
        "The requested TTL is not supported: 9s"
    );
    let e = InvalidAntRequestConversion::from_invalid_ttl(InvalidTtl { ttl: "9s".to_string() });
    assert_eq!(e.reason, "The requested TTL is not supported: 9s");
    let e = StreamParamError { should_stream: true };
    assert!(e.message().starts_with("stream is set to False"));
}

#[test]
fn media_type_checks_reject_unsupported_types() {
    let e = ImagePart::new("d".to_string(), "image/bmp".to_string()).unwrap_err();
    assert!(e.reason.contains("image/bmp"));
    assert!(llms_sdk::AudioPart::new("d".to_string(), "audio/ogg".to_string()).is_err());
    assert!(DocumentPart::new("d".to_string(), "application/zip".to_string()).is_err());
    assert!(DocumentPart::new("d".to_string(), "text/plain".to_string()).is_ok());
}

#[test]
fn bytes_are_base64_encoded() {
    let png = [0x89, 0x50, 0x4E, 0x47, 0x0D, 0x0A, 0x1A, 0x0A];
    let part = ImagePart::try_from_bytes(png.to_vec()).unwrap();
    assert_eq!(part.data, "iVBORw0KGgo=");
    let pdf = DocumentPart::try_from_pdf_bytes(b"%PDF-1.4".to_vec()).unwrap();
    assert_eq!(pdf.data, "JVBERi0xLjQ=");
}

#[test]
fn retry_policy_defaults_and_setters() {
    let p = RetryPolicy::default();
    assert_eq!(p.max_retries, 3);
    assert_eq!(p.min_retry_interval, 500);
    assert_eq!(p.max_retry_interval, 3000);
    assert_eq!(p.jitter, RetryJitter::Bounded);
    assert_eq!(p.base, 2);
    let q = p.max_retries(5).base(3).jitter(RetryJitter::Full).min_retry_interval(10).max_retry_interval(20);
    assert_eq!(
        q,
        RetryPolicy {
            max_retries: 5,
            min_retry_interval: 10,
            max_retry_interval: 20,
            jitter: RetryJitter::Full,
            base: 3
        }
    );
}

#[test]
fn builder_fills_in_the_default_base_url() {
    let request = LLMRequest::builder()
        .api_type(ApiType::Anthropic)
        .api_key("k".to_string())
        .model("m".to_string())
        .max_output_tokens(256)
        .stream(true)
        .build();
    assert_eq!(request.base_url, Some("https://api.anthropic.com/v1".to_string()));
    assert_eq!(request.max_output_tokens, Some(256));
    assert!(request.stream);
    let custom = LLMRequest::builder().base_url("http://localhost".to_string()).build();
    assert_eq!(custom.base_url, Some("http://localhost".to_string()));
    assert_eq!(custom.api_type, ApiType::OpenAI);
}

#[test]
fn builder_adds_tools_and_output_formats() {
    let tool = |name: &str| llms_sdk::Tool {
        name: name.to_string(),
        description: "d".to_string(),
        parameters: llms_sdk::Schema { json: "{}".to_string() },
    };
    let request = LLMRequest::builder()
        .add_tool(tool("a"))
        .add_tool(tool("b"))
        .output_format_from_schema(
            "out".to_string(),
            "shape".to_string(),
            llms_sdk::Schema { json: "{\"type\":\"object\"}".to_string() },
        )
        .tool_choice(ToolChoice::Required)
        .parallel_tool_calls(true)
        .reasoning_effort(ReasoningEffort::Low)
        .prompt_cache_ttl("5m".to_string())
        .temperature(0.5_f32.to_bits())
        .top_p(0.25_f32.to_bits())
        .build();
    let names: Vec<String> = request.tools.unwrap().into_iter().map(|t| t.name).collect();
    assert_eq!(names, vec!["a".to_string(), "b".to_string()]);
    let format = request.output_format.unwrap();
    assert_eq!(format.name, "out");
    assert_eq!(format.schema.json, "{\"type\":\"object\"}");
    assert_eq!(request.tool_choice, Some(ToolChoice::Required));
    assert!(request.parallel_tool_calls);
    assert_eq!(request.reasoning_effort, Some(ReasoningEffort::Low));
    assert_eq!(request.prompt_cache_ttl, Some("5m".to_string()));
    assert_eq!(request.temperature, Some(0.5_f32.to_bits()));
    assert_eq!(request.top_p, Some(0.25_f32.to_bits()));
}

#[test]
fn ant_effort_and_tool_choice_conversions() {
    assert_eq!(AntEffort::try_from_reasoning_effort(ReasoningEffort::Minimal).unwrap(), AntEffort::Low);
    assert_eq!(AntEffort::try_from_reasoning_effort(ReasoningEffort::Maximum).unwrap(), AntEffort::Max);
    assert_eq!(
        AntEffort::try_from_reasoning_effort(ReasoningEffort::NoReasoning)
            .unwrap_err()
            .unsupported_type,
        "none"
    );
    match AntToolChoice::from_tool_choice(ToolChoice::Required, false) {
        AntToolChoice::Any(a) => {
            assert_eq!(a.tool_choice_type, "any");
            assert!(a.disable_parallel_tool_use);
        }
        other => panic!("unexpected choice {:?}", other),
    }
    match AntToolChoice::from_tool_choice(ToolChoice::NoTool, true) {
        AntToolChoice::NoTool(n) => assert_eq!(n.tool_choice_type, "none"),
        other => panic!("unexpected choice {:?}", other),
    }
}

#[test]
fn ant_request_sends_tools_only_when_there_are_some() {
    let tool = llms_sdk::Tool {
        name: "f".to_string(),
        description: "does f".to_string(),
        parameters: llms_sdk::Schema { json: "{}".to_string() },
    };
    let with_tools = AntRequest::try_from_request(LLMRequest {
        tools: Some(vec![tool]),
        tool_choice: Some(ToolChoice::Auto),
        parallel_tool_calls: true,
        ..base_request()
    })
    .unwrap();
    let tools = with_tools.tools.unwrap();
    assert_eq!(tools[0].name, "f");
    assert_eq!(tools[0].input_schema.json, "{}");
    assert!(matches!(
        with_tools.tool_choice,
        Some(llms_sdk::anthropic::AntToolChoice::Auto(a)) if !a.disable_parallel_tool_use
    ));
    let without = AntRequest::try_from_request(LLMRequest {
        tools: Some(vec![]),
        tool_choice: Some(ToolChoice::Auto),
        ..base_request()
    })
    .unwrap();
    assert!(without.tools.is_none());
    assert!(without.tool_choice.is_none());
}

#[test]
fn defaults_of_the_options() {
    assert_eq!(ReasoningEffort::default(), ReasoningEffort::NoReasoning);
    assert_eq!(ToolChoice::default(), ToolChoice::Auto);
    assert_eq!(ApiType::OpenAI.default_base_url(), "https://api.openai.com/v1");
    assert_eq!(ApiType::Anthropic.default_base_url(), "https://api.anthropic.com/v1");
}

#[test]
fn ant_documents_and_tool_results_convert_back() {
    let back = MessagePart::from_ant_part(AntMessagePart::Document(AntDocumentPart {
        source: DocumentSource::Base64PDF(Base64PDFDocumentSource {
            data: "JVBE".to_string(),
            media_type: "application/pdf".to_string(),
            source_type: "base64".to_string(),
        }),
        part_type: "document".to_string(),
    }));
    assert_eq!(
        back,
        MessagePart::Document(DocumentPart {
            data: "JVBE".to_string(),
            mime_type: Some("application/pdf".to_string()),
            is_base64: true,
        })
    );
    let back = MessagePart::from_ant_part(AntMessagePart::ToolResult(AntToolResultPart {
        tool_use_id: "c1".to_string(),
        content: "done".to_string(),
        part_type: "tool_result".to_string(),
    }));
    assert_eq!(
        back,
        MessagePart::ToolResult(ToolResultPart {
            tool_call_id: "c1".to_string(),
            result: "done".to_string(),
        })
    );
}
