//! The provider-independent request and response model.

use vstd::prelude::*;
use vstd::string::*;

use crate::encoding::{
    base64_encode, base64_encoded_len, base64_standard, detect_media_type, detected_media_type,
    same_text,
    all_ascii, ascii_lowercase, lowercase, to_lowercase,
};
use crate::errors::{InvalidInput, StreamParamError, UnsupportedType};
use crate::json::{is_valid_json_text, json_value_parses};

verus! {

/// Default base URL for the OpenAI API.
pub const DEFAULT_OPENAI_BASE_URL: &'static str = "https://api.openai.com/v1";

/// Default base URL for the Anthropic API.
pub const DEFAULT_ANTHROPIC_BASE_URL: &'static str = "https://api.anthropic.com/v1";

/// OpenAI chat completions API endpoint path.
pub const CHAT_COMPLETIONS_ENDPOINT: &'static str = "/chat/completions";

/// Anthropic messages API endpoint path.
pub const MESSAGES_ENDPOINT: &'static str = "/messages";

/// MIME types accepted for audio message parts.
pub const ALLOWED_AUDIO_TYPES: [&'static str; 5] = [
    "audio/wav",
    "audio/mp3",
    "audio/mpeg",
    "audio/vnd.wav",
    "audio/vnd.wave",
];

/// MIME types accepted for document message parts.
pub const ALLOWED_DOCUMENT_TYPES: [&'static str; 2] = ["application/pdf", "text/plain"];

/// MIME types accepted for image message parts.
pub const ALLOWED_IMAGE_TYPES: [&'static str; 4] = [
    "image/png",
    "image/jpeg",
    "image/webp",
    "image/gif",
];

// ---------------------------------------------------------------------------
// Media types
// ---------------------------------------------------------------------------

/// Whether `m` is one of [`ALLOWED_IMAGE_TYPES`].
pub open spec fn is_allowed_image_type(m: Seq<char>) -> bool {
    m == "image/png"@ || m == "image/jpeg"@ || m == "image/webp"@ || m == "image/gif"@
}

/// Whether `m` is one of [`ALLOWED_AUDIO_TYPES`].
pub open spec fn is_allowed_audio_type(m: Seq<char>) -> bool {
    m == "audio/wav"@ || m == "audio/mp3"@ || m == "audio/mpeg"@ || m == "audio/vnd.wav"@
        || m == "audio/vnd.wave"@
}

/// Whether `m` is one of [`ALLOWED_DOCUMENT_TYPES`].
pub open spec fn is_allowed_document_type(m: Seq<char>) -> bool {
    m == "application/pdf"@ || m == "text/plain"@
}

/// Decides [`is_allowed_image_type`].
pub fn allowed_image_type(m: &str) -> (res: bool)
    ensures
        res == is_allowed_image_type(m@),
{
    same_text(m, "image/png") || same_text(m, "image/jpeg") || same_text(m, "image/webp")
        || same_text(m, "image/gif")
}

/// Decides [`is_allowed_audio_type`].
pub fn allowed_audio_type(m: &str) -> (res: bool)
    ensures
        res == is_allowed_audio_type(m@),
{
    same_text(m, "audio/wav") || same_text(m, "audio/mp3") || same_text(m, "audio/mpeg")
        || same_text(m, "audio/vnd.wav") || same_text(m, "audio/vnd.wave")
}

/// Decides [`is_allowed_document_type`].
pub fn allowed_document_type(m: &str) -> (res: bool)
    ensures
        res == is_allowed_document_type(m@),
{
    same_text(m, "application/pdf") || same_text(m, "text/plain")
}

/// A media type is accepted for images exactly when it is one of the entries of
/// [`ALLOWED_IMAGE_TYPES`].
pub proof fn lemma_allowed_image_types(m: Seq<char>)
    ensures
        is_allowed_image_type(m) <==> exists|i: int|
            0 <= i < ALLOWED_IMAGE_TYPES@.len() && (#[trigger] ALLOWED_IMAGE_TYPES@[i])@ == m,
        ALLOWED_IMAGE_TYPES@.len() == 4,
{
    let a = ALLOWED_IMAGE_TYPES@;
    assert(a[0] == "image/png");
    assert(a[1] == "image/jpeg");
    assert(a[2] == "image/webp");
    assert(a[3] == "image/gif");
}

/// A media type is accepted for audio exactly when it is one of the entries of
/// [`ALLOWED_AUDIO_TYPES`].
pub proof fn lemma_allowed_audio_types(m: Seq<char>)
    ensures
        is_allowed_audio_type(m) <==> exists|i: int|
            0 <= i < ALLOWED_AUDIO_TYPES@.len() && (#[trigger] ALLOWED_AUDIO_TYPES@[i])@ == m,
        ALLOWED_AUDIO_TYPES@.len() == 5,
{
    let a = ALLOWED_AUDIO_TYPES@;
    assert(a[0] == "audio/wav");
    assert(a[1] == "audio/mp3");
    assert(a[2] == "audio/mpeg");
    assert(a[3] == "audio/vnd.wav");
    assert(a[4] == "audio/vnd.wave");
}

/// A media type is accepted for documents exactly when it is one of the entries of
/// [`ALLOWED_DOCUMENT_TYPES`].
pub proof fn lemma_allowed_document_types(m: Seq<char>)
    ensures
        is_allowed_document_type(m) <==> exists|i: int|
            0 <= i < ALLOWED_DOCUMENT_TYPES@.len() && (#[trigger] ALLOWED_DOCUMENT_TYPES@[i])@
                == m,
        ALLOWED_DOCUMENT_TYPES@.len() == 2,
{
    let a = ALLOWED_DOCUMENT_TYPES@;
    assert(a[0] == "application/pdf");
    assert(a[1] == "text/plain");
}

/// Reason given when an image has a media type outside [`ALLOWED_IMAGE_TYPES`].
pub open spec fn unsupported_image_reason(media_type: Seq<char>) -> Seq<char> {
    "Unsupported image type: "@ + media_type + ". The supported image types are: "@
        + "image/png, image/jpeg, image/webp, image/gif"@
}

/// Reason given when audio has a media type outside [`ALLOWED_AUDIO_TYPES`].
pub open spec fn unsupported_audio_reason(media_type: Seq<char>) -> Seq<char> {
    "Unsupported audio type: "@ + media_type + ". The supported audio types are: "@
        + "audio/wav, audio/mp3, audio/mpeg, audio/vnd.wav, audio/vnd.wave"@
}

/// Reason given when a document has a media type outside [`ALLOWED_DOCUMENT_TYPES`].
pub open spec fn unsupported_document_reason(media_type: Seq<char>) -> Seq<char> {
    "Unsupported document type: "@ + media_type + ". The supported document types are: "@
        + "application/pdf, text/plain"@
}

/// Reason given when bytes meant as a PDF were detected as something else.
pub open spec fn not_a_pdf_reason(media_type: Seq<char>) -> Seq<char> {
    "The bytes do not appear to belong to a PDF. Inferred file format: "@ + media_type
}

fn unsupported_image_input(media_type: &str) -> (res: InvalidInput)
    ensures
        res.reason@ == unsupported_image_reason(media_type@),
{
    let mut reason = String::from_str("Unsupported image type: ");
    reason.append(media_type);
    reason.append(". The supported image types are: ");
    reason.append("image/png, image/jpeg, image/webp, image/gif");
    InvalidInput { reason }
}

fn unsupported_audio_input(media_type: &str) -> (res: InvalidInput)
    ensures
        res.reason@ == unsupported_audio_reason(media_type@),
{
    let mut reason = String::from_str("Unsupported audio type: ");
    reason.append(media_type);
    reason.append(". The supported audio types are: ");
    reason.append("audio/wav, audio/mp3, audio/mpeg, audio/vnd.wav, audio/vnd.wave");
    InvalidInput { reason }
}

fn unsupported_document_input(media_type: &str) -> (res: InvalidInput)
    ensures
        res.reason@ == unsupported_document_reason(media_type@),
{
    let mut reason = String::from_str("Unsupported document type: ");
    reason.append(media_type);
    reason.append(". The supported document types are: ");
    reason.append("application/pdf, text/plain");
    InvalidInput { reason }
}

// ---------------------------------------------------------------------------
// Roles
// ---------------------------------------------------------------------------

/// Role of a participant in a chat message.
#[derive(Debug, Clone, Copy, PartialEq, Eq, Structural)]
pub enum MessageRole {
    User,
    Assistant,
    System,
    Tool,
}

/// The role that a lowercase name denotes, if any.
pub open spec fn message_role_named(name: Seq<char>) -> Option<MessageRole> {
    if name == "user"@ {
        Some(MessageRole::User)
    } else if name == "assistant"@ {
        Some(MessageRole::Assistant)
    } else if name == "tool"@ {
        Some(MessageRole::Tool)
    } else if name == "system"@ {
        Some(MessageRole::System)
    } else {
        None
    }
}

impl MessageRole {
    /// Parses a role name, ignoring case.
    pub fn from_str(s: &str) -> (res: Result<MessageRole, UnsupportedType>)
        ensures
            match res {
                Ok(r) => message_role_named(lowercase(s@)) == Some(r),
                Err(e) => message_role_named(lowercase(s@)) is None
                    && e.unsupported_type@ == s@,
            },
    {
        let lower = to_lowercase(s);
        let l = lower.as_str();
        if same_text(l, "user") {
            Ok(MessageRole::User)
        } else if same_text(l, "assistant") {
            Ok(MessageRole::Assistant)
        } else if same_text(l, "tool") {
            Ok(MessageRole::Tool)
        } else if same_text(l, "system") {
            Ok(MessageRole::System)
        } else {
            Err(UnsupportedType { unsupported_type: s.to_owned() })
        }
    }
}

// ---------------------------------------------------------------------------
// Message parts
// ---------------------------------------------------------------------------

/// A plain text content part.
#[derive(Debug, PartialEq)]
pub struct TextPart {
    pub text: String,
}

impl Clone for TextPart {
    fn clone(&self) -> (res: Self)
        ensures
            res == *self,
    {
        TextPart { text: self.text.clone() }
    }
}

impl TextPart {
    /// Creates a new text part.
    pub fn new(text: String) -> (res: Self)
        ensures
            res.text == text,
    {
        Self { text }
    }
}

/// The text of an optional string.
pub open spec fn opt_text(o: Option<String>) -> Option<Seq<char>> {
    match o {
        Some(s) => Some(s@),
        None => None,
    }
}

/// Clones an optional string, keeping it equal to the original.
pub fn clone_opt_string(s: &Option<String>) -> (res: Option<String>)
    ensures
        res == *s,
{
    match s {
        Some(t) => Some(t.clone()),
        None => None,
    }
}

/// A reasoning/thinking content part, optionally signed by the model.
#[derive(Debug, PartialEq)]
pub struct ThinkingPart {
    pub thinking: String,
    pub signature: Option<String>,
}

impl Clone for ThinkingPart {
    fn clone(&self) -> (res: Self)
        ensures
            res == *self,
    {
        ThinkingPart { thinking: self.thinking.clone(), signature: clone_opt_string(&self.signature) }
    }
}

impl ThinkingPart {
    /// Creates a new thinking part without a signature.
    pub fn new(thinking: String) -> (res: Self)
        ensures
            res.thinking == thinking,
            res.signature is None,
    {
        Self { thinking, signature: None }
    }

    /// Creates a new thinking part with an associated signature.
    pub fn new_with_signature(thinking: String, signature: String) -> (res: Self)
        ensures
            res.thinking == thinking,
            res.signature == Some(signature),
    {
        Self { thinking, signature: Some(signature) }
    }
}

/// An image content part, either base64-encoded or referenced by URL.
#[derive(Debug, PartialEq)]
pub struct ImagePart {
    pub data: String,
    pub is_base64: bool,
    pub mime_type: Option<String>,
}

impl Clone for ImagePart {
    fn clone(&self) -> (res: Self)
        ensures
            res == *self,
    {
        ImagePart {
            data: self.data.clone(),
            is_base64: self.is_base64,
            mime_type: clone_opt_string(&self.mime_type),
        }
    }
}

impl ImagePart {
    /// Creates a new base64-encoded image part after validating its MIME type.
    pub fn new(data: String, mime_type: String) -> (res: Result<Self, InvalidInput>)
        ensures
            is_allowed_image_type(mime_type@) ==> (res matches Ok(p) && p.data == data
                && p.is_base64 && p.mime_type == Some(mime_type)),
            !is_allowed_image_type(mime_type@) ==> (res matches Err(e)
                && e.reason@ == unsupported_image_reason(mime_type@)),
    {
        if !allowed_image_type(mime_type.as_str()) {
            return Err(unsupported_image_input(mime_type.as_str()));
        }
        Ok(Self { data, is_base64: true, mime_type: Some(mime_type) })
    }

    /// Creates an image part from raw bytes whose media type has already been
    /// inferred as `media_type`: the bytes are base64-encoded when that type is an
    /// accepted image type.
    pub fn from_detected_bytes(data: &[u8], media_type: String) -> (res: Result<Self, InvalidInput>)
        requires
            base64_encoded_len(data@.len()) <= usize::MAX,
        ensures
            is_allowed_image_type(media_type@) ==> (res matches Ok(p)
                && p.data@ == base64_standard(data@) && p.is_base64
                && p.mime_type == Some(media_type)),
            !is_allowed_image_type(media_type@) ==> (res matches Err(e)
                && e.reason@ == unsupported_image_reason(media_type@)),
    {
        if !allowed_image_type(media_type.as_str()) {
            return Err(unsupported_image_input(media_type.as_str()));
        }
        let b64 = base64_encode(data);
        Ok(Self { data: b64, mime_type: Some(media_type), is_base64: true })
    }

    /// Creates an image part from raw bytes, inferring the MIME type from their content.
    pub fn try_from_bytes(data: Vec<u8>) -> (res: Result<Self, InvalidInput>)
        requires
            base64_encoded_len(data@.len()) <= usize::MAX,
        ensures
            is_allowed_image_type(detected_media_type(data@)) ==> (res matches Ok(p)
                && p.data@ == base64_standard(data@) && p.is_base64
                && (p.mime_type matches Some(m) && m@ == detected_media_type(data@))),
            !is_allowed_image_type(detected_media_type(data@)) ==> (res matches Err(e)
                && e.reason@ == unsupported_image_reason(detected_media_type(data@))),
    {
        let kind = detect_media_type(data.as_slice());
        Self::from_detected_bytes(data.as_slice(), kind)
    }

    /// Creates an image part that references an image URL.
    pub fn from_url(url: String) -> (res: Self)
        ensures
            res.data == url,
            !res.is_base64,
            res.mime_type is None,
    {
        Self { data: url, is_base64: false, mime_type: None }
    }
}

/// An audio content part, base64-encoded.
#[derive(Debug, PartialEq)]
pub struct AudioPart {
    pub data: String,
    pub mime_type: String,
}

impl Clone for AudioPart {
    fn clone(&self) -> (res: Self)
        ensures
            res == *self,
    {
        AudioPart { data: self.data.clone(), mime_type: self.mime_type.clone() }
    }
}

impl AudioPart {
    /// Creates a new base64-encoded audio part after validating its MIME type.
    pub fn new(data: String, mime_type: String) -> (res: Result<Self, InvalidInput>)
        ensures
            is_allowed_audio_type(mime_type@) ==> (res matches Ok(p) && p.data == data
                && p.mime_type == mime_type),
            !is_allowed_audio_type(mime_type@) ==> (res matches Err(e)
                && e.reason@ == unsupported_audio_reason(mime_type@)),
    {
        if !allowed_audio_type(mime_type.as_str()) {
            return Err(unsupported_audio_input(mime_type.as_str()));
        }
        Ok(Self { data, mime_type })
    }

    /// Creates an audio part from raw bytes whose media type has already been
    /// inferred as `media_type`.
    pub fn from_detected_bytes(data: &[u8], media_type: String) -> (res: Result<Self, InvalidInput>)
        requires
            base64_encoded_len(data@.len()) <= usize::MAX,
        ensures
            is_allowed_audio_type(media_type@) ==> (res matches Ok(p)
                && p.data@ == base64_standard(data@) && p.mime_type == media_type),
            !is_allowed_audio_type(media_type@) ==> (res matches Err(e)
                && e.reason@ == unsupported_audio_reason(media_type@)),
    {
        if !allowed_audio_type(media_type.as_str()) {
            return Err(unsupported_audio_input(media_type.as_str()));
        }
        let b64 = base64_encode(data);
        Ok(Self { data: b64, mime_type: media_type })
    }

    /// Creates an audio part from raw bytes, inferring the MIME type from their content.
    pub fn try_from_bytes(data: Vec<u8>) -> (res: Result<Self, InvalidInput>)
        requires
            base64_encoded_len(data@.len()) <= usize::MAX,
        ensures
            is_allowed_audio_type(detected_media_type(data@)) ==> (res matches Ok(p)
                && p.data@ == base64_standard(data@)
                && p.mime_type@ == detected_media_type(data@)),
            !is_allowed_audio_type(detected_media_type(data@)) ==> (res matches Err(e)
                && e.reason@ == unsupported_audio_reason(detected_media_type(data@))),
    {
        let kind = detect_media_type(data.as_slice());
        Self::from_detected_bytes(data.as_slice(), kind)
    }
}

/// A document content part, either base64-encoded, plain text, or referenced by URL.
#[derive(Debug, PartialEq)]
pub struct DocumentPart {
    pub data: String,
    pub mime_type: Option<String>,
    pub is_base64: bool,
}

impl Clone for DocumentPart {
    fn clone(&self) -> (res: Self)
        ensures
            res == *self,
    {
        DocumentPart {
            data: self.data.clone(),
            mime_type: clone_opt_string(&self.mime_type),
            is_base64: self.is_base64,
        }
    }
}

impl DocumentPart {
    /// Creates a new document part after validating its MIME type; only PDF data is
    /// marked as base64.
    pub fn new(data: String, mime_type: String) -> (res: Result<Self, InvalidInput>)
        ensures
            is_allowed_document_type(mime_type@) ==> (res matches Ok(p) && p.data == data
                && p.mime_type == Some(mime_type)
                && p.is_base64 == (mime_type@ == "application/pdf"@)),
            !is_allowed_document_type(mime_type@) ==> (res matches Err(e)
                && e.reason@ == unsupported_document_reason(mime_type@)),
    {
        if !allowed_document_type(mime_type.as_str()) {
            return Err(unsupported_document_input(mime_type.as_str()));
        }
        let is_base64 = same_text(mime_type.as_str(), "application/pdf");
        Ok(Self { data, is_base64, mime_type: Some(mime_type) })
    }

    /// Creates a base64-encoded PDF document part from raw bytes whose media type has
    /// already been inferred as `media_type`.
    pub fn from_detected_pdf_bytes(data: &[u8], media_type: &str) -> (res: Result<Self, InvalidInput>)
        requires
            base64_encoded_len(data@.len()) <= usize::MAX,
        ensures
            media_type@ == "application/pdf"@ ==> (res matches Ok(p)
                && p.data@ == base64_standard(data@) && p.is_base64
                && (p.mime_type matches Some(m) && m@ == "application/pdf"@)),
            media_type@ != "application/pdf"@ ==> (res matches Err(e)
                && e.reason@ == not_a_pdf_reason(media_type@)),
    {
        if !same_text(media_type, "application/pdf") {
            let mut reason = String::from_str(
                "The bytes do not appear to belong to a PDF. Inferred file format: ",
            );
            reason.append(media_type);
            return Err(InvalidInput { reason });
        }
        let b64 = base64_encode(data);
        Ok(Self { data: b64, mime_type: Some(String::from_str("application/pdf")), is_base64: true })
    }

    /// Creates a base64-encoded PDF document part from raw bytes, checking from their
    /// content that they are a PDF.
    pub fn try_from_pdf_bytes(data: Vec<u8>) -> (res: Result<Self, InvalidInput>)
        requires
            base64_encoded_len(data@.len()) <= usize::MAX,
        ensures
            detected_media_type(data@) == "application/pdf"@ ==> (res matches Ok(p)
                && p.data@ == base64_standard(data@) && p.is_base64
                && (p.mime_type matches Some(m) && m@ == "application/pdf"@)),
            detected_media_type(data@) != "application/pdf"@ ==> (res matches Err(e)
                && e.reason@ == not_a_pdf_reason(detected_media_type(data@))),
    {
        let kind = detect_media_type(data.as_slice());
        Self::from_detected_pdf_bytes(data.as_slice(), kind.as_str())
    }

    /// Creates a plain-text document part from text already read from a file.
    pub fn from_text(content: String) -> (res: Self)
        ensures
            res.data == content,
            (res.mime_type matches Some(m) && m@ == "text/plain"@),
            !res.is_base64,
    {
        Self { data: content, mime_type: Some(String::from_str("text/plain")), is_base64: false }
    }

    /// Creates a document part that references a document URL.
    pub fn from_url(url: String) -> (res: Self)
        ensures
            res.data == url,
            res.mime_type is None,
            !res.is_base64,
    {
        Self { data: url, mime_type: None, is_base64: false }
    }
}

/// A tool/function call produced by the model.
#[derive(Debug, PartialEq)]
pub struct ToolCallPart {
    pub id: String,
    pub name: String,
    pub arguments: String,
}

impl Clone for ToolCallPart {
    fn clone(&self) -> (res: Self)
        ensures
            res == *self,
    {
        ToolCallPart { id: self.id.clone(), name: self.name.clone(), arguments: self.arguments.clone() }
    }
}

/// The result of a tool/function call returned to the model.
#[derive(Debug, PartialEq)]
pub struct ToolResultPart {
    pub tool_call_id: String,
    pub result: String,
}

impl Clone for ToolResultPart {
    fn clone(&self) -> (res: Self)
        ensures
            res == *self,
    {
        ToolResultPart { tool_call_id: self.tool_call_id.clone(), result: self.result.clone() }
    }
}

/// A single content item inside a [`Message`].
#[derive(Debug, PartialEq)]
#[non_exhaustive]
pub enum MessagePart {
    Text(TextPart),
    Image(ImagePart),
    Audio(AudioPart),
    Document(DocumentPart),
    Thinking(ThinkingPart),
    ToolCall(ToolCallPart),
    ToolResult(ToolResultPart),
}

impl Clone for MessagePart {
    fn clone(&self) -> (res: Self)
        ensures
            res == *self,
    {
        match self {
            MessagePart::Text(p) => MessagePart::Text(p.clone()),
            MessagePart::Image(p) => MessagePart::Image(p.clone()),
            MessagePart::Audio(p) => MessagePart::Audio(p.clone()),
            MessagePart::Document(p) => MessagePart::Document(p.clone()),
            MessagePart::Thinking(p) => MessagePart::Thinking(p.clone()),
            MessagePart::ToolCall(p) => MessagePart::ToolCall(p.clone()),
            MessagePart::ToolResult(p) => MessagePart::ToolResult(p.clone()),
        }
    }
}

/// A chat message with a role and one or more content parts.
#[derive(Debug, PartialEq)]
pub struct Message {
    pub role: MessageRole,
    pub content: Vec<MessagePart>,
}

/// Clones a vector of message parts, keeping it equal to the original.
pub fn clone_parts(parts: &Vec<MessagePart>) -> (res: Vec<MessagePart>)
    ensures
        res@ == parts@,
{
    let mut res: Vec<MessagePart> = Vec::new();
    let mut i: usize = 0;
    while i < parts.len()
        invariant
            i <= parts@.len(),
            res@ == parts@.subrange(0, i as int),
        decreases parts@.len() - i,
    {
        res.push(parts[i].clone());
        i = i + 1;
    }
    res
}

/// The elements of a vector in reverse order.
pub fn reversed<T>(v: Vec<T>) -> (res: Vec<T>)
    ensures
        res@.len() == v@.len(),
        forall|k: int| 0 <= k < v@.len() ==> #[trigger] res@[k] == v@[v@.len() - 1 - k],
{
    let ghost original = v@;
    let mut v = v;
    let mut res: Vec<T> = Vec::new();
    while v.len() > 0
        invariant
            original.len() == v@.len() + res@.len(),
            v@ == original.subrange(0, v@.len() as int),
            forall|k: int|
                0 <= k < res@.len() ==> #[trigger] res@[k] == original[original.len() - 1 - k],
        decreases v@.len(),
    {
        let e = v.pop().unwrap();
        res.push(e);
    }
    res
}

impl Clone for Message {
    fn clone(&self) -> (res: Self)
        ensures
            res.role == self.role,
            res.content@ == self.content@,
    {
        let content = clone_parts(&self.content);
        proof {
            assert(content@ =~= self.content@);
        }
        Message { role: self.role, content }
    }
}

// ---------------------------------------------------------------------------
// Providers and options
// ---------------------------------------------------------------------------

/// Supported LLM API provider.
#[derive(Debug, Clone, Copy, PartialEq, Eq, Structural)]
pub enum ApiType {
    OpenAI,
    Anthropic,
}

/// The lowercase name of an API provider.
pub open spec fn api_type_text(a: ApiType) -> Seq<char> {
    match a {
        ApiType::OpenAI => "openai"@,
        ApiType::Anthropic => "anthropic"@,
    }
}

/// The provider that a lowercase name denotes, if any.
pub open spec fn api_type_named(name: Seq<char>) -> Option<ApiType> {
    if name == "openai"@ {
        Some(ApiType::OpenAI)
    } else if name == "anthropic"@ {
        Some(ApiType::Anthropic)
    } else {
        None
    }
}

/// The base URL used for a provider when a request names none.
pub open spec fn default_base_url_text(a: ApiType) -> Seq<char> {
    match a {
        ApiType::Anthropic => DEFAULT_ANTHROPIC_BASE_URL@,
        ApiType::OpenAI => DEFAULT_OPENAI_BASE_URL@,
    }
}

/// The base URL a request is sent to: its own, or else the provider's default.
pub open spec fn resolved_base_url(a: ApiType, base_url: Option<String>) -> Seq<char> {
    match base_url {
        Some(u) => u@,
        None => default_base_url_text(a),
    }
}

impl ApiType {
    /// Parses a provider name, ignoring case.
    pub fn from_str(s: &str) -> (res: Result<ApiType, UnsupportedType>)
        ensures
            match res {
                Ok(a) => api_type_named(lowercase(s@)) == Some(a),
                Err(e) => api_type_named(lowercase(s@)) is None
                    && e.unsupported_type@ == s@,
            },
    {
        let lower = to_lowercase(s);
        let l = lower.as_str();
        if same_text(l, "openai") {
            Ok(ApiType::OpenAI)
        } else if same_text(l, "anthropic") {
            Ok(ApiType::Anthropic)
        } else {
            Err(UnsupportedType { unsupported_type: s.to_owned() })
        }
    }

    /// The lowercase name of the provider, as it is displayed.
    pub fn to_string(&self) -> (res: String)
        ensures
            res@ == api_type_text(*self),
    {
        match self {
            ApiType::OpenAI => String::from_str("openai"),
            ApiType::Anthropic => String::from_str("anthropic"),
        }
    }

    /// The provider's default base URL.
    pub fn default_base_url(self) -> (res: &'static str)
        ensures
            res@ == default_base_url_text(self),
    {
        match self {
            ApiType::Anthropic => DEFAULT_ANTHROPIC_BASE_URL,
            ApiType::OpenAI => DEFAULT_OPENAI_BASE_URL,
        }
    }
}

/// Parsing the displayed name of a provider gives the provider back.
pub proof fn lemma_api_type_name_round_trip(a: ApiType)
    ensures
        api_type_named(lowercase(api_type_text(a))) == Some(a),
{
    reveal_strlit("openai");
    reveal_strlit("anthropic");
    let t = api_type_text(a);
    assert(all_ascii(t));
    assert(ascii_lowercase(t) =~= t);
}

/// Amount of reasoning effort requested from the model.
#[derive(Debug, Clone, Copy, PartialEq, Eq, Structural)]
pub enum ReasoningEffort {
    /// No reasoning (displayed and parsed as `none`).
    NoReasoning,
    Minimal,
    Low,
    Medium,
    High,
    Xhigh,
    Maximum,
}

/// The lowercase name of a reasoning effort, as it is displayed.
pub open spec fn reasoning_effort_text(e: ReasoningEffort) -> Seq<char> {
    match e {
        ReasoningEffort::NoReasoning => "none"@,
        ReasoningEffort::Minimal => "minimal"@,
        ReasoningEffort::Low => "low"@,
        ReasoningEffort::Medium => "medium"@,
        ReasoningEffort::High => "high"@,
        ReasoningEffort::Maximum => "maximum"@,
        ReasoningEffort::Xhigh => "xhigh"@,
    }
}

/// The reasoning effort that a lowercase name denotes, if any; `max` also names
/// `maximum`.
pub open spec fn reasoning_effort_named(name: Seq<char>) -> Option<ReasoningEffort> {
    if name == "none"@ {
        Some(ReasoningEffort::NoReasoning)
    } else if name == "minimal"@ {
        Some(ReasoningEffort::Minimal)
    } else if name == "low"@ {
        Some(ReasoningEffort::Low)
    } else if name == "medium"@ {
        Some(ReasoningEffort::Medium)
    } else if name == "high"@ {
        Some(ReasoningEffort::High)
    } else if name == "xhigh"@ {
        Some(ReasoningEffort::Xhigh)
    } else if name == "maximum"@ || name == "max"@ {
        Some(ReasoningEffort::Maximum)
    } else {
        None
    }
}

impl Default for ReasoningEffort {
    fn default() -> (res: Self)
        ensures
            res == ReasoningEffort::NoReasoning,
    {
        ReasoningEffort::NoReasoning
    }
}

impl ReasoningEffort {
    /// The lowercase name of the effort, as it is displayed.
    pub fn to_string(&self) -> (res: String)
        ensures
            res@ == reasoning_effort_text(*self),
    {
        match self {
            ReasoningEffort::NoReasoning => String::from_str("none"),
            ReasoningEffort::Minimal => String::from_str("minimal"),
            ReasoningEffort::Low => String::from_str("low"),
            ReasoningEffort::Medium => String::from_str("medium"),
            ReasoningEffort::High => String::from_str("high"),
            ReasoningEffort::Maximum => String::from_str("maximum"),
            ReasoningEffort::Xhigh => String::from_str("xhigh"),
        }
    }

    /// Parses a reasoning effort name, ignoring case.
    pub fn from_str(s: &str) -> (res: Result<ReasoningEffort, UnsupportedType>)
        ensures
            match res {
                Ok(e) => reasoning_effort_named(lowercase(s@)) == Some(e),
                Err(e) => reasoning_effort_named(lowercase(s@)) is None
                    && e.unsupported_type@ == s@,
            },
    {
        let lower = to_lowercase(s);
        let l = lower.as_str();
        if same_text(l, "none") {
            Ok(ReasoningEffort::NoReasoning)
        } else if same_text(l, "minimal") {
            Ok(ReasoningEffort::Minimal)
        } else if same_text(l, "low") {
            Ok(ReasoningEffort::Low)
        } else if same_text(l, "medium") {
            Ok(ReasoningEffort::Medium)
        } else if same_text(l, "high") {
            Ok(ReasoningEffort::High)
        } else if same_text(l, "xhigh") {
            Ok(ReasoningEffort::Xhigh)
        } else if same_text(l, "maximum") || same_text(l, "max") {
            Ok(ReasoningEffort::Maximum)
        } else {
            Err(UnsupportedType { unsupported_type: s.to_owned() })
        }
    }
}

/// Parsing the displayed name of a reasoning effort gives the effort back.
pub proof fn lemma_reasoning_effort_name_round_trip(e: ReasoningEffort)
    ensures
        reasoning_effort_named(lowercase(reasoning_effort_text(e))) == Some(e),
{
    reveal_strlit("none");
    reveal_strlit("minimal");
    reveal_strlit("low");
    reveal_strlit("medium");
    reveal_strlit("high");
    reveal_strlit("xhigh");
    reveal_strlit("maximum");
    reveal_strlit("max");
    let t = reasoning_effort_text(e);
    assert(all_ascii(t));
    assert(ascii_lowercase(t) =~= t);
    assert("none"@[0] != "minimal"@[0] && "none"@[0] != "low"@[0] && "none"@[0] != "medium"@[0]
        && "none"@[0] != "high"@[0] && "none"@[0] != "xhigh"@[0] && "none"@[0] != "maximum"@[0]);
    assert("minimal"@[1] != "medium"@[1] && "minimal"@[1] != "maximum"@[1] && "minimal"@[0]
        != "low"@[0] && "minimal"@[0] != "high"@[0] && "minimal"@[0] != "xhigh"@[0]);
    assert("low"@[0] != "medium"@[0] && "low"@[0] != "high"@[0] && "low"@[0] != "xhigh"@[0]
        && "low"@[0] != "maximum"@[0]);
    assert("medium"@[1] != "maximum"@[1] && "medium"@[0] != "high"@[0] && "medium"@[0]
        != "xhigh"@[0]);
    assert("high"@[0] != "xhigh"@[0] && "high"@[0] != "maximum"@[0]);
    assert("xhigh"@[0] != "maximum"@[0]);
}

/// Controls whether and how the model is allowed to call tools.
#[derive(Debug, Clone, Copy, PartialEq, Eq, Structural)]
pub enum ToolChoice {
    /// The model may not call tools (displayed and parsed as `none`).
    NoTool,
    Auto,
    Required,
}

/// The tool choice that a lowercase name denotes, if any.
pub open spec fn tool_choice_named(name: Seq<char>) -> Option<ToolChoice> {
    if name == "none"@ {
        Some(ToolChoice::NoTool)
    } else if name == "auto"@ {
        Some(ToolChoice::Auto)
    } else if name == "required"@ {
        Some(ToolChoice::Required)
    } else {
        None
    }
}

impl Default for ToolChoice {
    fn default() -> (res: Self)
        ensures
            res == ToolChoice::Auto,
    {
        ToolChoice::Auto
    }
}

impl ToolChoice {
    /// Parses a tool choice name, ignoring case.
    pub fn from_str(s: &str) -> (res: Result<ToolChoice, UnsupportedType>)
        ensures
            match res {
                Ok(c) => tool_choice_named(lowercase(s@)) == Some(c),
                Err(e) => tool_choice_named(lowercase(s@)) is None
                    && e.unsupported_type@ == s@,
            },
    {
        let lower = to_lowercase(s);
        let l = lower.as_str();
        if same_text(l, "none") {
            Ok(ToolChoice::NoTool)
        } else if same_text(l, "auto") {
            Ok(ToolChoice::Auto)
        } else if same_text(l, "required") {
            Ok(ToolChoice::Required)
        } else {
            Err(UnsupportedType { unsupported_type: s.to_owned() })
        }
    }
}

// ---------------------------------------------------------------------------
// Schemas, tools and output formats
// ---------------------------------------------------------------------------

/// A JSON Schema (an object or a boolean), held as its JSON text.
#[derive(Debug, PartialEq)]
pub struct Schema {
    pub json: String,
}

impl Clone for Schema {
    fn clone(&self) -> (res: Self)
        ensures
            res == *self,
    {
        Schema { json: self.json.clone() }
    }
}

impl Schema {
    /// Looks up an entry of the schema: `None` when the key is absent, otherwise the
    /// entry's boolean value (`Some(None)` when the entry is not a boolean).
    pub fn entry_as_bool(&self, key: &str) -> (res: Option<Option<bool>>)
        ensures
            res == crate::json::schema_entry_as_bool(self.json@, key@),
    {
        crate::json::schema_get_as_bool(self.json.as_str(), key)
    }
}

/// A tool definition exposed to the model.
#[derive(Debug, PartialEq)]
pub struct Tool {
    pub name: String,
    pub description: String,
    pub parameters: Schema,
}

impl Clone for Tool {
    fn clone(&self) -> (res: Self)
        ensures
            res == *self,
    {
        Tool {
            name: self.name.clone(),
            description: self.description.clone(),
            parameters: self.parameters.clone(),
        }
    }
}

/// JSON schema describing a structured output format.
#[derive(Debug, PartialEq)]
pub struct OutputFormat {
    pub name: String,
    pub description: String,
    pub schema: Schema,
}

impl Clone for OutputFormat {
    fn clone(&self) -> (res: Self)
        ensures
            res == *self,
    {
        OutputFormat {
            name: self.name.clone(),
            description: self.description.clone(),
            schema: self.schema.clone(),
        }
    }
}

// ---------------------------------------------------------------------------
// Requests
// ---------------------------------------------------------------------------

/// A unified request to send to an LLM API.
///
/// `temperature` and `top_p` are 32-bit IEEE-754 floating-point numbers, held as
/// their bit patterns (`f32::to_bits`).
#[derive(Debug)]
pub struct LLMRequest {
    /// Target API provider.
    pub api_type: ApiType,
    /// Custom base URL for the API. When `None`, the provider's default is used.
    pub base_url: Option<String>,
    /// API key used to authenticate the request.
    pub api_key: String,
    /// Model identifier to use for the request.
    pub model: String,
    /// Conversation history sent to the model.
    pub messages: Vec<Message>,
    /// Maximum number of tokens the model is allowed to generate.
    pub max_output_tokens: Option<u32>,
    /// Sampling temperature (bits of an `f32`).
    pub temperature: Option<u32>,
    /// Nucleus sampling parameter (bits of an `f32`).
    pub top_p: Option<u32>,
    /// Level of reasoning effort requested from the model.
    pub reasoning_effort: Option<ReasoningEffort>,
    /// Prompt cache time-to-live hint (provider-specific format).
    pub prompt_cache_ttl: Option<String>,
    /// Whether to request a streamed response.
    pub stream: bool,
    /// Optional JSON schema for structured outputs.
    pub output_format: Option<OutputFormat>,
    /// Tool definitions made available to the model.
    pub tools: Option<Vec<Tool>>,
    /// Controls whether the model may call tools.
    pub tool_choice: Option<ToolChoice>,
    /// Whether the model may call multiple tools in parallel.
    pub parallel_tool_calls: bool,
}

impl LLMRequest {
    /// The request's base URL, or the provider's default when it has none.
    pub fn base_url_or_default(&self) -> (res: String)
        ensures
            res@ == resolved_base_url(self.api_type, self.base_url),
    {
        match &self.base_url {
            Some(u) => u.clone(),
            None => self.api_type.default_base_url().to_owned(),
        }
    }

    /// Checks that the `stream` flag of the request fits the method it is sent
    /// through: a streaming method needs it set, any other needs it unset.
    pub fn check_stream(&self, streaming: bool) -> (res: Result<(), StreamParamError>)
        ensures
            res is Ok <==> self.stream == streaming,
            res matches Err(e) ==> e.should_stream == streaming,
    {
        if self.stream == streaming {
            Ok(())
        } else {
            Err(StreamParamError { should_stream: streaming })
        }
    }

    /// Starts building a request with [`LLMRequestBuilder`].
    pub fn builder() -> (res: LLMRequestBuilder)
        ensures
            res.draft() == LLMRequestBuilder::initial_draft(res.draft().api_key,
                res.draft().model, res.draft().messages),
            res.draft().api_key@ == Seq::<char>::empty(),
            res.draft().model@ == Seq::<char>::empty(),
            res.draft().messages@ == Seq::<Message>::empty(),
    {
        LLMRequestBuilder::new()
    }
}

/// Builder for constructing an [`LLMRequest`].
pub struct LLMRequestBuilder {
    api_type: ApiType,
    base_url: Option<String>,
    api_key: String,
    model: String,
    messages: Vec<Message>,
    max_output_tokens: Option<u32>,
    temperature: Option<u32>,
    top_p: Option<u32>,
    reasoning_effort: Option<ReasoningEffort>,
    prompt_cache_ttl: Option<String>,
    stream: bool,
    output_format: Option<OutputFormat>,
    tools: Option<Vec<Tool>>,
    tool_choice: Option<ToolChoice>,
    parallel_tool_calls: bool,
}

impl Default for LLMRequestBuilder {
    fn default() -> (res: Self)
        ensures
            res.draft() == LLMRequestBuilder::initial_draft(res.draft().api_key,
                res.draft().model, res.draft().messages),
            res.draft().api_key@ == Seq::<char>::empty(),
            res.draft().model@ == Seq::<char>::empty(),
            res.draft().messages@ == Seq::<Message>::empty(),
    {
        Self::new()
    }
}

impl LLMRequestBuilder {
    /// The request gathered so far, with the base URL as it was set (or `None`).
    pub closed spec fn draft(self) -> LLMRequest {
        LLMRequest {
            api_type: self.api_type,
            base_url: self.base_url,
            api_key: self.api_key,
            model: self.model,
            messages: self.messages,
            max_output_tokens: self.max_output_tokens,
            temperature: self.temperature,
            top_p: self.top_p,
            reasoning_effort: self.reasoning_effort,
            prompt_cache_ttl: self.prompt_cache_ttl,
            stream: self.stream,
            output_format: self.output_format,
            tools: self.tools,
            tool_choice: self.tool_choice,
            parallel_tool_calls: self.parallel_tool_calls,
        }
    }

    /// The draft of a fresh builder: an OpenAI request with every option unset, given
    /// its (empty) key, model and messages.
    pub open spec fn initial_draft(api_key: String, model: String, messages: Vec<Message>) -> LLMRequest {
        LLMRequest {
            api_type: ApiType::OpenAI,
            base_url: None,
            api_key,
            model,
            messages,
            max_output_tokens: None,
            temperature: None,
            top_p: None,
            reasoning_effort: None,
            prompt_cache_ttl: None,
            stream: false,
            output_format: None,
            tools: None,
            tool_choice: None,
            parallel_tool_calls: false,
        }
    }

    /// A builder for an OpenAI request with an empty key, model and message list and
    /// every option unset.
    pub fn new() -> (res: Self)
        ensures
            res.draft() == LLMRequestBuilder::initial_draft(res.draft().api_key,
                res.draft().model, res.draft().messages),
            res.draft().api_key@ == Seq::<char>::empty(),
            res.draft().model@ == Seq::<char>::empty(),
            res.draft().messages@ == Seq::<Message>::empty(),
    {
        Self {
            api_type: ApiType::OpenAI,
            base_url: None,
            api_key: String::new(),
            model: String::new(),
            messages: Vec::new(),
            max_output_tokens: None,
            reasoning_effort: None,
            prompt_cache_ttl: None,
            stream: false,
            output_format: None,
            tools: None,
            tool_choice: None,
            parallel_tool_calls: false,
            temperature: None,
            top_p: None,
        }
    }

    /// Sets the target provider.
    pub fn api_type(self, api_type: ApiType) -> (res: Self)
        ensures
            res.draft() == (LLMRequest { api_type, ..self.draft() }),
    {
        Self { api_type, ..self }
    }

    /// Sets a custom base URL.
    pub fn base_url(self, base_url: String) -> (res: Self)
        ensures
            res.draft() == (LLMRequest { base_url: Some(base_url), ..self.draft() }),
    {
        Self { base_url: Some(base_url), ..self }
    }

    /// Sets the API key.
    pub fn api_key(self, api_key: String) -> (res: Self)
        ensures
            res.draft() == (LLMRequest { api_key, ..self.draft() }),
    {
        Self { api_key, ..self }
    }

    /// Sets the model.
    pub fn model(self, model: String) -> (res: Self)
        ensures
            res.draft() == (LLMRequest { model, ..self.draft() }),
    {
        Self { model, ..self }
    }

    /// Sets the maximum number of output tokens.
    pub fn max_output_tokens(self, max_output_tokens: u32) -> (res: Self)
        ensures
            res.draft() == (LLMRequest { max_output_tokens: Some(max_output_tokens), ..self.draft() }),
    {
        Self { max_output_tokens: Some(max_output_tokens), ..self }
    }

    /// Sets the sampling temperature (bits of an `f32`).
    pub fn temperature(self, temperature: u32) -> (res: Self)
        ensures
            res.draft() == (LLMRequest { temperature: Some(temperature), ..self.draft() }),
    {
        Self { temperature: Some(temperature), ..self }
    }

    /// Sets the nucleus sampling parameter (bits of an `f32`).
    pub fn top_p(self, top_p: u32) -> (res: Self)
        ensures
            res.draft() == (LLMRequest { top_p: Some(top_p), ..self.draft() }),
    {
        Self { top_p: Some(top_p), ..self }
    }

    /// Appends a tool to the request's tools, starting the list when there is none.
    pub fn add_tool(self, tool: Tool) -> (res: Self)
        ensures
            res.draft().tools matches Some(ts) && ts@ == (match self.draft().tools {
                Some(old) => old@,
                None => Seq::<Tool>::empty(),
            }).push(tool),
            res.draft() == (LLMRequest { tools: res.draft().tools, ..self.draft() }),
    {
        let LLMRequestBuilder {
            api_type,
            base_url,
            api_key,
            model,
            messages,
            max_output_tokens,
            temperature,
            top_p,
            reasoning_effort,
            prompt_cache_ttl,
            stream,
            output_format,
            tools,
            tool_choice,
            parallel_tool_calls,
        } = self;
        let mut ts = match tools {
            Some(v) => v,
            None => Vec::new(),
        };
        ts.push(tool);
        LLMRequestBuilder {
            api_type,
            base_url,
            api_key,
            model,
            messages,
            max_output_tokens,
            temperature,
            top_p,
            reasoning_effort,
            prompt_cache_ttl,
            stream,
            output_format,
            tools: Some(ts),
            tool_choice,
            parallel_tool_calls,
        }
    }

    /// Sets the messages of the conversation.
    pub fn messages(self, messages: Vec<Message>) -> (res: Self)
        ensures
            res.draft() == (LLMRequest { messages, ..self.draft() }),
    {
        Self { messages, ..self }
    }

    /// Sets the tool choice.
    pub fn tool_choice(self, tool_choice: ToolChoice) -> (res: Self)
        ensures
            res.draft() == (LLMRequest { tool_choice: Some(tool_choice), ..self.draft() }),
    {
        Self { tool_choice: Some(tool_choice), ..self }
    }

    /// Sets whether the response is streamed.
    pub fn stream(self, stream: bool) -> (res: Self)
        ensures
            res.draft() == (LLMRequest { stream, ..self.draft() }),
    {
        Self { stream, ..self }
    }

    /// Sets whether tools may be called in parallel.
    pub fn parallel_tool_calls(self, parallel_tool_calls: bool) -> (res: Self)
        ensures
            res.draft() == (LLMRequest { parallel_tool_calls, ..self.draft() }),
    {
        Self { parallel_tool_calls, ..self }
    }

    /// Sets the reasoning effort.
    pub fn reasoning_effort(self, reasoning_effort: ReasoningEffort) -> (res: Self)
        ensures
            res.draft() == (LLMRequest { reasoning_effort: Some(reasoning_effort), ..self.draft() }),
    {
        Self { reasoning_effort: Some(reasoning_effort), ..self }
    }

    /// Sets the structured output format from a name, a description and a schema.
    pub fn output_format_from_schema(self, name: String, description: String, schema: Schema) -> (res: Self)
        ensures
            res.draft() == (LLMRequest {
                output_format: Some(OutputFormat { name, description, schema }),
                ..self.draft()
            }),
    {
        Self { output_format: Some(OutputFormat { name, description, schema }), ..self }
    }

    /// Sets the prompt cache time-to-live.
    pub fn prompt_cache_ttl(self, ttl: String) -> (res: Self)
        ensures
            res.draft() == (LLMRequest { prompt_cache_ttl: Some(ttl), ..self.draft() }),
    {
        Self { prompt_cache_ttl: Some(ttl), ..self }
    }

    fn get_base_url(&self) -> (res: String)
        ensures
            res@ == resolved_base_url(self.api_type, self.base_url),
    {
        match &self.base_url {
            Some(url) => url.clone(),
            None => self.api_type.default_base_url().to_owned(),
        }
    }

    /// Builds the request, filling in the provider's default base URL when none was set.
    pub fn build(self) -> (res: LLMRequest)
        ensures
            res.base_url matches Some(u) && u@ == resolved_base_url(self.draft().api_type,
                self.draft().base_url),
            res == (LLMRequest { base_url: res.base_url, ..self.draft() }),
    {
        let base_url = self.get_base_url();
        LLMRequest {
            api_type: self.api_type,
            api_key: self.api_key,
            base_url: Some(base_url),
            model: self.model,
            stream: self.stream,
            reasoning_effort: self.reasoning_effort,
            temperature: self.temperature,
            top_p: self.top_p,
            max_output_tokens: self.max_output_tokens,
            tool_choice: self.tool_choice,
            tools: self.tools,
            parallel_tool_calls: self.parallel_tool_calls,
            prompt_cache_ttl: self.prompt_cache_ttl,
            output_format: self.output_format,
            messages: self.messages,
        }
    }
}

// ---------------------------------------------------------------------------
// Sequences of builder calls
// ---------------------------------------------------------------------------

/// One setter call on an [`LLMRequestBuilder`], with its argument.
#[derive(Debug)]
pub enum BuilderCall {
    ApiType(ApiType),
    BaseUrl(String),
    ApiKey(String),
    Model(String),
    Messages(Vec<Message>),
    MaxOutputTokens(u32),
    Temperature(u32),
    TopP(u32),
    AddTool(Tool),
    ToolChoice(ToolChoice),
    Stream(bool),
    ParallelToolCalls(bool),
    ReasoningEffort(ReasoningEffort),
    OutputFormat(OutputFormat),
    PromptCacheTtl(String),
}

/// The option of a request that a builder call sets.
#[derive(Debug, Clone, Copy, PartialEq, Eq, Structural)]
pub enum BuilderOption {
    ApiType,
    BaseUrl,
    ApiKey,
    Model,
    Messages,
    MaxOutputTokens,
    Temperature,
    TopP,
    Tools,
    ToolChoice,
    Stream,
    ParallelToolCalls,
    ReasoningEffort,
    OutputFormat,
    PromptCacheTtl,
}

/// The option that the call `c` sets.
pub open spec fn option_of(c: BuilderCall) -> BuilderOption {
    match c {
        BuilderCall::ApiType(_) => BuilderOption::ApiType,
        BuilderCall::BaseUrl(_) => BuilderOption::BaseUrl,
        BuilderCall::ApiKey(_) => BuilderOption::ApiKey,
        BuilderCall::Model(_) => BuilderOption::Model,
        BuilderCall::Messages(_) => BuilderOption::Messages,
        BuilderCall::MaxOutputTokens(_) => BuilderOption::MaxOutputTokens,
        BuilderCall::Temperature(_) => BuilderOption::Temperature,
        BuilderCall::TopP(_) => BuilderOption::TopP,
        BuilderCall::AddTool(_) => BuilderOption::Tools,
        BuilderCall::ToolChoice(_) => BuilderOption::ToolChoice,
        BuilderCall::Stream(_) => BuilderOption::Stream,
        BuilderCall::ParallelToolCalls(_) => BuilderOption::ParallelToolCalls,
        BuilderCall::ReasoningEffort(_) => BuilderOption::ReasoningEffort,
        BuilderCall::OutputFormat(_) => BuilderOption::OutputFormat,
        BuilderCall::PromptCacheTtl(_) => BuilderOption::PromptCacheTtl,
    }
}

/// The tools of a draft, as a sequence.
pub open spec fn tools_of(d: LLMRequest) -> Seq<Tool> {
    match d.tools {
        Some(ts) => ts@,
        None => Seq::empty(),
    }
}

/// The call `c` turns the draft `d1` into `d2`, as the setter of the same name does.
pub open spec fn call_made(d1: LLMRequest, d2: LLMRequest, c: BuilderCall) -> bool {
    match c {
        BuilderCall::ApiType(a) => d2 == LLMRequest { api_type: a, ..d1 },
        BuilderCall::BaseUrl(u) => d2 == LLMRequest { base_url: Some(u), ..d1 },
        BuilderCall::ApiKey(k) => d2 == LLMRequest { api_key: k, ..d1 },
        BuilderCall::Model(m) => d2 == LLMRequest { model: m, ..d1 },
        BuilderCall::Messages(ms) => d2 == LLMRequest { messages: ms, ..d1 },
        BuilderCall::MaxOutputTokens(n) => d2 == LLMRequest { max_output_tokens: Some(n), ..d1 },
        BuilderCall::Temperature(t) => d2 == LLMRequest { temperature: Some(t), ..d1 },
        BuilderCall::TopP(t) => d2 == LLMRequest { top_p: Some(t), ..d1 },
        BuilderCall::AddTool(t) => {
            &&& d2 == LLMRequest { tools: d2.tools, ..d1 }
            &&& d2.tools matches Some(ts) && ts@ == tools_of(d1).push(t)
        },
        BuilderCall::ToolChoice(c) => d2 == LLMRequest { tool_choice: Some(c), ..d1 },
        BuilderCall::Stream(b) => d2 == LLMRequest { stream: b, ..d1 },
        BuilderCall::ParallelToolCalls(b) => d2 == LLMRequest { parallel_tool_calls: b, ..d1 },
        BuilderCall::ReasoningEffort(e) => d2 == LLMRequest { reasoning_effort: Some(e), ..d1 },
        BuilderCall::OutputFormat(f) => d2 == LLMRequest { output_format: Some(f), ..d1 },
        BuilderCall::PromptCacheTtl(t) => d2 == LLMRequest { prompt_cache_ttl: Some(t), ..d1 },
    }
}

/// The position of the last call in `calls` that sets the option `o`, if any.
pub open spec fn last_setting(calls: Seq<BuilderCall>, o: BuilderOption) -> Option<int>
    decreases calls.len(),
{
    if calls.len() == 0 {
        None
    } else if option_of(calls.last()) == o {
        Some(calls.len() - 1)
    } else {
        last_setting(calls.drop_last(), o)
    }
}

/// The tools added by `calls`, in call order.
pub open spec fn tools_added(calls: Seq<BuilderCall>) -> Seq<Tool>
    decreases calls.len(),
{
    if calls.len() == 0 {
        Seq::empty()
    } else {
        match calls.last() {
            BuilderCall::AddTool(t) => tools_added(calls.drop_last()).push(t),
            _ => tools_added(calls.drop_last()),
        }
    }
}

/// In the draft `d` that `calls` make of a fresh builder, the option `o` holds the
/// value of the last call that set it, or its initial value when none did; the
/// tools are those added, in call order.
pub open spec fn option_drafted(d: LLMRequest, calls: Seq<BuilderCall>, o: BuilderOption) -> bool {
    match o {
        BuilderOption::ApiType => match last_setting(calls, BuilderOption::ApiType) {
            Some(i) => calls[i] matches BuilderCall::ApiType(a) && d.api_type == a,
            None => d.api_type == ApiType::OpenAI,
        },
        BuilderOption::BaseUrl => match last_setting(calls, BuilderOption::BaseUrl) {
            Some(i) => calls[i] matches BuilderCall::BaseUrl(u) && d.base_url == Some(u),
            None => d.base_url is None,
        },
        BuilderOption::ApiKey => match last_setting(calls, BuilderOption::ApiKey) {
            Some(i) => calls[i] matches BuilderCall::ApiKey(k) && d.api_key == k,
            None => d.api_key@ == Seq::<char>::empty(),
        },
        BuilderOption::Model => match last_setting(calls, BuilderOption::Model) {
            Some(i) => calls[i] matches BuilderCall::Model(m) && d.model == m,
            None => d.model@ == Seq::<char>::empty(),
        },
        BuilderOption::Messages => match last_setting(calls, BuilderOption::Messages) {
            Some(i) => calls[i] matches BuilderCall::Messages(ms) && d.messages == ms,
            None => d.messages@ == Seq::<Message>::empty(),
        },
        BuilderOption::MaxOutputTokens => match last_setting(calls, BuilderOption::MaxOutputTokens) {
            Some(i) => calls[i] matches BuilderCall::MaxOutputTokens(n) && d.max_output_tokens
                == Some(n),
            None => d.max_output_tokens is None,
        },
        BuilderOption::Temperature => match last_setting(calls, BuilderOption::Temperature) {
            Some(i) => calls[i] matches BuilderCall::Temperature(t) && d.temperature == Some(t),
            None => d.temperature is None,
        },
        BuilderOption::TopP => match last_setting(calls, BuilderOption::TopP) {
            Some(i) => calls[i] matches BuilderCall::TopP(t) && d.top_p == Some(t),
            None => d.top_p is None,
        },
        BuilderOption::ToolChoice => match last_setting(calls, BuilderOption::ToolChoice) {
            Some(i) => calls[i] matches BuilderCall::ToolChoice(c) && d.tool_choice == Some(c),
            None => d.tool_choice is None,
        },
        BuilderOption::Stream => match last_setting(calls, BuilderOption::Stream) {
            Some(i) => calls[i] matches BuilderCall::Stream(b) && d.stream == b,
            None => !d.stream,
        },
        BuilderOption::ParallelToolCalls => match last_setting(calls, BuilderOption::ParallelToolCalls) {
            Some(i) => calls[i] matches BuilderCall::ParallelToolCalls(b) && d.parallel_tool_calls
                == b,
            None => !d.parallel_tool_calls,
        },
        BuilderOption::ReasoningEffort => match last_setting(calls, BuilderOption::ReasoningEffort) {
            Some(i) => calls[i] matches BuilderCall::ReasoningEffort(e) && d.reasoning_effort
                == Some(e),
            None => d.reasoning_effort is None,
        },
        BuilderOption::OutputFormat => match last_setting(calls, BuilderOption::OutputFormat) {
            Some(i) => calls[i] matches BuilderCall::OutputFormat(f) && d.output_format == Some(f),
            None => d.output_format is None,
        },
        BuilderOption::PromptCacheTtl => match last_setting(calls, BuilderOption::PromptCacheTtl) {
            Some(i) => calls[i] matches BuilderCall::PromptCacheTtl(t) && d.prompt_cache_ttl
                == Some(t),
            None => d.prompt_cache_ttl is None,
        },
        BuilderOption::Tools => if tools_added(calls).len() == 0 {
            d.tools is None
        } else {
            d.tools matches Some(ts) && ts@ == tools_added(calls)
        },
    }
}

/// The draft `d` is what `calls` make of a fresh builder: each option holds the
/// value of the last call that set it, or its initial value when none did, and the
/// tools are those added, in call order.
pub open spec fn drafted(d: LLMRequest, calls: Seq<BuilderCall>) -> bool {
    forall|o: BuilderOption| #[trigger] option_drafted(d, calls, o)
}

/// The last setting of an option among the first calls stays the last one when a
/// call for another option follows.
proof fn lemma_last_setting_step(calls: Seq<BuilderCall>, o: BuilderOption)
    requires
        calls.len() > 0,
    ensures
        last_setting(calls, o) == if option_of(calls.last()) == o {
            Some(calls.len() - 1)
        } else {
            last_setting(calls.drop_last(), o)
        },
        last_setting(calls.drop_last(), o) matches Some(i) ==> 0 <= i < calls.len() - 1,
    decreases calls.len(),
{
    if calls.len() > 1 {
        lemma_last_setting_step(calls.drop_last(), o);
    }
}

/// One more call keeps each option as [`option_drafted`] describes it.
proof fn lemma_option_step(d0: LLMRequest, d: LLMRequest, calls: Seq<BuilderCall>, o: BuilderOption)
    requires
        calls.len() > 0,
        option_drafted(d0, calls.drop_last(), o),
        call_made(d0, d, calls.last()),
    ensures
        option_drafted(d, calls, o),
{
    let n = calls.len() - 1;
    let pc = calls.drop_last();
    assert forall|i: int| 0 <= i < pc.len() implies #[trigger] pc[i] == calls[i] by {}
    assert(calls.last() == calls[n]);
    lemma_last_setting_step(calls, o);
    if o == BuilderOption::Tools {
        if let BuilderCall::AddTool(t) = calls.last() {
            assert(tools_added(calls) == tools_added(pc).push(t));
            assert(tools_of(d0) =~= tools_added(pc));
        } else {
            assert(tools_added(calls) == tools_added(pc));
        }
    }
}

/// Builder calls made one after another from a fresh builder give a draft in which
/// every option is its last set value, or its initial value when never set, and the
/// tools are those added, in call order.
proof fn lemma_drafted(builders: Seq<LLMRequestBuilder>, calls: Seq<BuilderCall>)
    requires
        builders.len() == calls.len() + 1,
        builders[0].draft() == LLMRequestBuilder::initial_draft(
            builders[0].draft().api_key,
            builders[0].draft().model,
            builders[0].draft().messages,
        ),
        builders[0].draft().api_key@ == Seq::<char>::empty(),
        builders[0].draft().model@ == Seq::<char>::empty(),
        builders[0].draft().messages@ == Seq::<Message>::empty(),
        forall|i: int|
            0 <= i < calls.len() ==> call_made(
                builders[i].draft(),
                builders[i + 1].draft(),
                #[trigger] calls[i],
            ),
    ensures
        drafted(builders.last().draft(), calls),
    decreases calls.len(),
{
    if calls.len() == 0 {
        assert forall|o: BuilderOption| #[trigger] option_drafted(builders.last().draft(), calls, o) by {
            assert(builders.last() == builders[0]);
        }
    } else {
        let n = calls.len() - 1;
        let pb = builders.drop_last();
        let pc = calls.drop_last();
        assert forall|i: int| 0 <= i < pc.len() implies call_made(
            pb[i].draft(),
            pb[i + 1].draft(),
            #[trigger] pc[i],
        ) by {
            assert(pc[i] == calls[i]);
            assert(call_made(builders[i].draft(), builders[i + 1].draft(), calls[i]));
        }
        lemma_drafted(pb, pc);
        let d0 = pb.last().draft();
        assert(d0 == builders[n].draft());
        let d = builders.last().draft();
        assert(calls.last() == calls[n]);
        assert(call_made(d0, d, calls[n]));
        assert forall|o: BuilderOption| #[trigger] option_drafted(d, calls, o) by {
            assert(option_drafted(d0, pc, o));
            lemma_option_step(d0, d, calls, o);
        }
    }
}

/// Building a request after a sequence of setter calls on a fresh builder: every
/// option is its last set value, or its initial value when never set (an OpenAI
/// request with an empty key, model and message list, not streamed, without
/// parallel tool calls and with every other option unset); the tools are those
/// added, in call order, and absent when none was; and the base URL is the last one
/// set, or else the default URL of the request's provider.
pub proof fn lemma_builder_calls(
    builders: Seq<LLMRequestBuilder>,
    calls: Seq<BuilderCall>,
    r: LLMRequest,
)
    requires
        builders.len() == calls.len() + 1,
        builders[0].draft() == LLMRequestBuilder::initial_draft(
            builders[0].draft().api_key,
            builders[0].draft().model,
            builders[0].draft().messages,
        ),
        builders[0].draft().api_key@ == Seq::<char>::empty(),
        builders[0].draft().model@ == Seq::<char>::empty(),
        builders[0].draft().messages@ == Seq::<Message>::empty(),
        forall|i: int|
            0 <= i < calls.len() ==> call_made(
                builders[i].draft(),
                builders[i + 1].draft(),
                #[trigger] calls[i],
            ),
        r.base_url matches Some(u) && u@ == resolved_base_url(
            builders.last().draft().api_type,
            builders.last().draft().base_url,
        ),
        r == (LLMRequest { base_url: r.base_url, ..builders.last().draft() }),
    ensures
        drafted(LLMRequest { base_url: builders.last().draft().base_url, ..r }, calls),
        r.base_url matches Some(u) && u@ == match last_setting(calls, BuilderOption::BaseUrl) {
            Some(i) => calls[i]->BaseUrl_0@,
            None => default_base_url_text(r.api_type),
        },
{
    lemma_drafted(builders, calls);
    let d = builders.last().draft();
    assert(LLMRequest { base_url: d.base_url, ..r } == d);
    assert(option_drafted(d, calls, BuilderOption::BaseUrl));
    assert(option_drafted(d, calls, BuilderOption::ApiType));
}

// ---------------------------------------------------------------------------
// Retries
// ---------------------------------------------------------------------------

/// How retry delays are randomized.
#[derive(Debug, Clone, Copy, PartialEq, Eq, Structural)]
pub enum RetryJitter {
    /// No jitter (the policy's `None`).
    NoJitter,
    /// Between zero and the computed backoff.
    Full,
    /// Between the minimal interval and the computed backoff.
    Bounded,
}

/// Configuration for transient request retries; intervals are in milliseconds.
#[derive(Debug, Clone, Copy, PartialEq, Eq, Structural)]
pub struct RetryPolicy {
    pub max_retries: u32,
    pub min_retry_interval: u64,
    pub max_retry_interval: u64,
    pub jitter: RetryJitter,
    pub base: u32,
}

impl Default for RetryPolicy {
    fn default() -> (res: Self)
        ensures
            res == (RetryPolicy {
                max_retries: 3,
                min_retry_interval: 500,
                max_retry_interval: 3000,
                jitter: RetryJitter::Bounded,
                base: 2,
            }),
    {
        RetryPolicy {
            max_retries: 3,
            min_retry_interval: 500,
            max_retry_interval: 3000,
            jitter: RetryJitter::Bounded,
            base: 2,
        }
    }
}

impl RetryPolicy {
    /// Sets the number of retries.
    pub fn max_retries(self, max_retries: u32) -> (res: Self)
        ensures
            res == (RetryPolicy { max_retries, ..self }),
    {
        RetryPolicy { max_retries, ..self }
    }

    /// Sets the minimal interval between retries.
    pub fn min_retry_interval(self, min_retry_interval: u64) -> (res: Self)
        ensures
            res == (RetryPolicy { min_retry_interval, ..self }),
    {
        RetryPolicy { min_retry_interval, ..self }
    }

    /// Sets the maximal interval between retries.
    pub fn max_retry_interval(self, max_retry_interval: u64) -> (res: Self)
        ensures
            res == (RetryPolicy { max_retry_interval, ..self }),
    {
        RetryPolicy { max_retry_interval, ..self }
    }

    /// Sets the jitter.
    pub fn jitter(self, jitter: RetryJitter) -> (res: Self)
        ensures
            res == (RetryPolicy { jitter, ..self }),
    {
        RetryPolicy { jitter, ..self }
    }

    /// Sets the base of the exponential backoff.
    pub fn base(self, base: u32) -> (res: Self)
        ensures
            res == (RetryPolicy { base, ..self }),
    {
        RetryPolicy { base, ..self }
    }
}

// ---------------------------------------------------------------------------
// Responses
// ---------------------------------------------------------------------------

/// Token usage reported by the LLM API. `other_tokens` lists provider-specific
/// counters by name, each name once.
#[derive(Debug, PartialEq)]
pub struct LLMUsage {
    pub input_tokens: u32,
    pub output_tokens: u32,
    pub cache_read_tokens: Option<u32>,
    pub cache_write_tokens: Option<u32>,
    pub other_tokens: Option<Vec<(String, u32)>>,
}

/// No counter name occurs twice in `v`.
pub open spec fn distinct_counter_names(v: Seq<(String, u32)>) -> bool {
    forall|i: int, j: int| 0 <= i < j < v.len() ==> (#[trigger] v[i]).0@ != (#[trigger] v[j]).0@
}

impl LLMUsage {
    /// The other counters, when present, are keyed by distinct names.
    pub open spec fn wf(self) -> bool {
        self.other_tokens matches Some(v) ==> distinct_counter_names(v@)
    }
}

/// A complete, non-streaming response from the LLM.
#[derive(Debug)]
pub struct LLMResponse {
    /// Provider-generated response identifier.
    pub id: String,
    /// Unix timestamp of the response, when provided by the API.
    pub created_at: Option<u64>,
    /// The generated message.
    pub message: Message,
    /// Token usage reported for the request.
    pub usage: LLMUsage,
}

/// A partial text delta in a streaming response.
#[derive(Debug, PartialEq)]
pub struct LLMStreamingDelta {
    /// Identifier of the response this delta belongs to.
    pub response_id: String,
    /// Unix timestamp of the response, when provided by the API.
    pub created_at: Option<u64>,
    /// Chunk of generated text, if any.
    pub delta: Option<String>,
    /// Whether this delta signals the end of the stream.
    pub stop: bool,
}

impl Clone for LLMStreamingDelta {
    fn clone(&self) -> (res: Self)
        ensures
            res == *self,
    {
        LLMStreamingDelta {
            response_id: self.response_id.clone(),
            created_at: self.created_at,
            delta: clone_opt_string(&self.delta),
            stop: self.stop,
        }
    }
}

/// A partial reasoning/thinking delta in a streaming response.
#[derive(Debug, PartialEq)]
pub struct LLMThinkingDelta {
    /// Identifier of the response this delta belongs to.
    pub response_id: String,
    /// Unix timestamp of the response, when provided by the API.
    pub created_at: Option<u64>,
    /// Chunk of reasoning text, if any.
    pub delta: Option<String>,
}

impl Clone for LLMThinkingDelta {
    fn clone(&self) -> (res: Self)
        ensures
            res == *self,
    {
        LLMThinkingDelta {
            response_id: self.response_id.clone(),
            created_at: self.created_at,
            delta: clone_opt_string(&self.delta),
        }
    }
}

/// A partial tool call argument delta in a streaming response.
#[derive(Debug, PartialEq)]
pub struct LLMToolDelta {
    /// Identifier of the response this delta belongs to.
    pub response_id: String,
    /// Identifier for the in-progress tool call.
    pub tool_call_id: String,
    /// Name of the tool being called.
    pub name: String,
    /// Partial JSON arguments of this chunk.
    pub partial_arguments: String,
}

/// Final aggregated payload emitted at the end of a streaming response.
#[derive(Debug)]
pub struct LLMStreamingComplete {
    /// Provider-generated response identifier.
    pub id: String,
    /// Unix timestamp of the response, when provided by the API.
    pub created_at: Option<u64>,
    /// The final assembled message.
    pub message: Message,
    /// All text deltas that make up the response.
    pub deltas: Vec<LLMStreamingDelta>,
    /// All reasoning deltas, if the model produced any.
    pub thinking_deltas: Option<Vec<LLMThinkingDelta>>,
    /// Token usage reported for the request, if provided.
    pub usage: Option<LLMUsage>,
    /// Complete tool calls parsed from the stream.
    pub tool_calls: Option<Vec<ToolCallPart>>,
}

/// A single item emitted while a response streams in.
#[derive(Debug)]
pub enum LLMStreamingResponse {
    /// A chunk of generated text.
    Delta(LLMStreamingDelta),
    /// A chunk of tool call arguments.
    ToolDelta(LLMToolDelta),
    /// A chunk of reasoning text.
    ThinkingDelta(LLMThinkingDelta),
    /// The final aggregated response.
    Complete(LLMStreamingComplete),
}

/// Checks whether a string is valid JSON.
///
/// Useful for validating accumulated streaming tool arguments before yielding
/// a complete [`ToolCallPart`].
pub fn is_valid_json(s: &str) -> (res: bool)
    ensures
        res == is_valid_json_text(s@),
{
    json_value_parses(s)
}

} // verus!
