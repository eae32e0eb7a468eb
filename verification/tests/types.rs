use llms_sdk::{
    is_valid_json, ApiType, AudioPart, DocumentPart, ImagePart, LLMRequest, ALLOWED_AUDIO_TYPES,
    DEFAULT_ANTHROPIC_BASE_URL, DEFAULT_OPENAI_BASE_URL,
};

#[test]
fn is_valid_json_accepts_complete_object() {
    assert!(is_valid_json(r#"{"key": "value"}"#));
}

#[test]
fn is_valid_json_rejects_incomplete_object() {
    assert!(!is_valid_json(r#"{"key": "value""#));
}

#[test]
fn request_without_base_url_uses_the_provider_default() {
    let mut request = LLMRequest {
        api_type: ApiType::OpenAI,
        base_url: None,
        api_key: "key".to_string(),
        model: "model".to_string(),
        messages: vec![],
        max_output_tokens: None,
        temperature: None,
        top_p: None,
        reasoning_effort: None,
        prompt_cache_ttl: None,
        stream: false,
        output_format: None,
        tools: None,
        tool_choice: None,
        parallel_tool_calls: false,
    };

    assert_eq!(request.base_url_or_default(), DEFAULT_OPENAI_BASE_URL);
    request.api_type = ApiType::Anthropic;
    assert_eq!(request.base_url_or_default(), DEFAULT_ANTHROPIC_BASE_URL);
}

#[test]
fn image_part_try_from_bytes_accepts_png() {
    let png = [0x89, 0x50, 0x4E, 0x47, 0x0D, 0x0A, 0x1A, 0x0A];
    let part = ImagePart::try_from_bytes(png.to_vec()).unwrap();
    assert_eq!(part.mime_type, Some("image/png".to_string()));
    assert!(part.is_base64);
}

#[test]
fn image_part_try_from_bytes_rejects_unknown_format() {
    let part = ImagePart::try_from_bytes(vec![0x00, 0x01, 0x02, 0x03]);
    assert!(part.is_err());
}

#[test]
fn audio_part_try_from_bytes_accepts_wav() {
    let wav = [
        0x52, 0x49, 0x46, 0x46, // RIFF
        0x00, 0x00, 0x00, 0x00, // size
        0x57, 0x41, 0x56, 0x45, // WAVE
    ];
    let part = AudioPart::try_from_bytes(wav.to_vec()).unwrap();
    assert!(ALLOWED_AUDIO_TYPES.contains(&part.mime_type.as_str()));
}

#[test]
fn audio_part_try_from_bytes_accepts_mp3() {
    let mp3 = [
        0xFF, 0xFB, 0x90, 0x00, 0x00, 0x00, 0x00, 0x00, 0x00, 0x00, 0x00, 0x00, 0x00, 0x00, 0x00,
        0x00,
    ];
    let part = AudioPart::try_from_bytes(mp3.to_vec()).unwrap();
    assert_eq!(part.mime_type, "audio/mpeg");
}

#[test]
fn document_part_try_from_pdf_bytes_accepts_pdf() {
    let pdf = b"%PDF-1.4".to_vec();
    let part = DocumentPart::try_from_pdf_bytes(pdf).unwrap();
    assert_eq!(part.mime_type, Some("application/pdf".to_string()));
    assert!(part.is_base64);
}

#[test]
fn document_part_try_from_pdf_bytes_rejects_non_pdf() {
    let part = DocumentPart::try_from_pdf_bytes(b"not a pdf".to_vec());
    assert!(part.is_err());
}
