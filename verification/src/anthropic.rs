//! The Anthropic Messages API wire format and its conversions to and from the
//! provider-independent model.

use vstd::prelude::*;
use vstd::string::*;

use crate::encoding::same_text;
use crate::errors::{
    invalid_ttl_text, unsupported_part_type_text, InvalidAntRequestConversion, InvalidTtl,
    UnsupportedPartType, UnsupportedType,
};
use crate::json::{
    json_object_normal_form, normalize_json_object, schema_entry_as_bool, schema_get_as_bool,
    schema_insert_bool, schema_with_bool_entry,
};
use crate::types::{
    opt_text, DocumentPart, ImagePart, LLMRequest, LLMResponse, LLMUsage, Message, MessagePart,
    MessageRole, OutputFormat, ReasoningEffort, Schema, TextPart, ThinkingPart, Tool,
    ToolCallPart, ToolChoice, ToolResultPart,
};

verus! {

/// Number of output tokens requested when a request sets no limit.
pub const DEFAULT_MAX_TOKENS: u32 = 128_000;

/// Role of a message in the Anthropic format.
#[derive(Debug, Clone, Copy, PartialEq, Eq, Structural)]
pub enum AntMessageRole {
    System,
    User,
    Assistant,
}

/// The Anthropic role of a message role: tool results are sent as user messages.
pub open spec fn ant_role_of(role: MessageRole) -> AntMessageRole {
    match role {
        MessageRole::Assistant => AntMessageRole::Assistant,
        MessageRole::Tool => AntMessageRole::User,
        MessageRole::System => AntMessageRole::System,
        MessageRole::User => AntMessageRole::User,
    }
}

impl AntMessageRole {
    /// Converts a message role.
    pub fn from_message_role(value: MessageRole) -> (res: Self)
        ensures
            res == ant_role_of(value),
    {
        match value {
            MessageRole::Assistant => AntMessageRole::Assistant,
            MessageRole::Tool => AntMessageRole::User,
            MessageRole::System => AntMessageRole::System,
            MessageRole::User => AntMessageRole::User,
        }
    }
}

/// Prompt-cache settings of a request.
#[derive(Debug, PartialEq)]
pub struct CacheControl {
    pub cache_type: String,
    pub ttl: String,
}

/// A text content block.
#[derive(Debug, PartialEq)]
pub struct AntTextPart {
    pub part_type: String,
    pub text: String,
}

/// A base64-encoded image source.
#[derive(Debug, PartialEq)]
pub struct Base64ImageSource {
    pub data: String,
    pub media_type: String,
    pub source_type: String,
}

/// An image source given by URL.
#[derive(Debug, PartialEq)]
pub struct URLImageSource {
    pub url: String,
    pub source_type: String,
}

/// Where an image comes from.
#[derive(Debug, PartialEq)]
pub enum ImageSource {
    Base64(Base64ImageSource),
    URL(URLImageSource),
}

/// An image content block.
#[derive(Debug, PartialEq)]
pub struct AntImagePart {
    pub part_type: String,
    pub source: ImageSource,
}

/// A tool-use content block. `input` holds the JSON text of the call's input object.
#[derive(Debug, PartialEq)]
pub struct AntToolCallPart {
    pub id: String,
    pub name: String,
    pub input: String,
    pub part_type: String,
}

/// A tool-result content block.
#[derive(Debug, PartialEq)]
pub struct AntToolResultPart {
    pub tool_use_id: String,
    pub content: String,
    pub part_type: String,
}

/// A thinking content block.
#[derive(Debug, PartialEq)]
pub struct AntThinkingPart {
    pub thinking: String,
    pub signature: Option<String>,
    pub part_type: String,
}

/// A base64-encoded PDF document source.
#[derive(Debug, PartialEq)]
pub struct Base64PDFDocumentSource {
    pub data: String,
    pub media_type: String,
    pub source_type: String,
}

/// A plain-text document source.
#[derive(Debug, PartialEq)]
pub struct PlainTextDocumentSource {
    pub data: String,
    pub media_type: String,
    pub source_type: String,
}

/// A PDF document given by URL.
#[derive(Debug, PartialEq)]
pub struct UrlPdfDocumentSource {
    pub url: String,
    pub source_type: String,
}

/// Where a document comes from.
#[derive(Debug, PartialEq)]
pub enum DocumentSource {
    Base64PDF(Base64PDFDocumentSource),
    PlainText(PlainTextDocumentSource),
    UrlPdf(UrlPdfDocumentSource),
}

/// A document content block.
#[derive(Debug, PartialEq)]
pub struct AntDocumentPart {
    pub source: DocumentSource,
    pub part_type: String,
}

/// A content block of an Anthropic message.
#[derive(Debug, PartialEq)]
pub enum AntMessagePart {
    Text(AntTextPart),
    Thinking(AntThinkingPart),
    Image(AntImagePart),
    Document(AntDocumentPart),
    ToolCall(AntToolCallPart),
    ToolResult(AntToolResultPart),
}

// ---------------------------------------------------------------------------
// From the provider-independent parts
// ---------------------------------------------------------------------------

/// `a` is the Anthropic form of the text part `t`.
pub open spec fn is_ant_text(a: AntTextPart, t: TextPart) -> bool {
    a.part_type@ == "text"@ && a.text == t.text
}

/// An image part can be sent to Anthropic when base64 data comes with a media type.
pub open spec fn image_convertible(i: ImagePart) -> bool {
    i.is_base64 ==> i.mime_type is Some
}

/// `a` is the Anthropic form of the image part `i`.
pub open spec fn is_ant_image(a: AntImagePart, i: ImagePart) -> bool {
    &&& a.part_type@ == "image"@
    &&& if i.is_base64 {
        a.source matches ImageSource::Base64(b) && b.data == i.data && i.mime_type == Some(
            b.media_type,
        ) && b.source_type@ == "base64"@
    } else {
        a.source matches ImageSource::URL(u) && u.url == i.data && u.source_type@ == "url"@
    }
}

/// A tool call can be sent to Anthropic when its arguments are a JSON object.
pub open spec fn tool_call_convertible(t: ToolCallPart) -> bool {
    json_object_normal_form(t.arguments@) is Some
}

/// `a` is the Anthropic form of the tool call `t`: its input is the arguments'
/// object as `serde_json` writes it.
pub open spec fn is_ant_tool_call(a: AntToolCallPart, t: ToolCallPart) -> bool {
    &&& a.id == t.id
    &&& a.name == t.name
    &&& json_object_normal_form(t.arguments@) == Some(a.input@)
    &&& a.part_type@ == "tool_use"@
}

/// `a` is the Anthropic form of the tool result `t`.
pub open spec fn is_ant_tool_result(a: AntToolResultPart, t: ToolResultPart) -> bool {
    a.tool_use_id == t.tool_call_id && a.content == t.result && a.part_type@ == "tool_result"@
}

/// `a` is the Anthropic form of the thinking part `t`.
pub open spec fn is_ant_thinking(a: AntThinkingPart, t: ThinkingPart) -> bool {
    a.thinking == t.thinking && a.signature == t.signature && a.part_type@ == "thinking"@
}

/// A document can be sent to Anthropic when it is a URL, a PDF or plain text.
pub open spec fn document_convertible(d: DocumentPart) -> bool {
    match d.mime_type {
        Some(m) => m@ == "application/pdf"@ || m@ == "text/plain"@,
        None => true,
    }
}

/// `a` is the Anthropic form of the document `d`: a URL when it has no media type,
/// otherwise a base64 PDF or plain text according to its media type.
pub open spec fn is_ant_document(a: AntDocumentPart, d: DocumentPart) -> bool {
    &&& a.part_type@ == "document"@
    &&& match d.mime_type {
        None => a.source matches DocumentSource::UrlPdf(u) && u.url == d.data && u.source_type@
            == "url"@,
        Some(m) => if m@ == "application/pdf"@ {
            a.source matches DocumentSource::Base64PDF(b) && b.data == d.data && b.media_type@
                == "application/pdf"@ && b.source_type@ == "base64"@
        } else {
            a.source matches DocumentSource::PlainText(t) && t.data == d.data && t.media_type@
                == "text/plain"@ && t.source_type@ == "text"@
        },
    }
}

/// A message part can be converted to the Anthropic form without failing: audio is
/// refused with an error, and these conditions rule out the remaining failures.
pub open spec fn part_convertible(p: MessagePart) -> bool {
    match p {
        MessagePart::Image(i) => image_convertible(i),
        MessagePart::Document(d) => document_convertible(d),
        MessagePart::ToolCall(t) => tool_call_convertible(t),
        _ => true,
    }
}

/// `a` is the Anthropic form of the message part `p` (audio has none).
pub open spec fn is_ant_part(a: AntMessagePart, p: MessagePart) -> bool {
    match p {
        MessagePart::Text(t) => a matches AntMessagePart::Text(x) && is_ant_text(x, t),
        MessagePart::Image(i) => a matches AntMessagePart::Image(x) && is_ant_image(x, i),
        MessagePart::Document(d) => a matches AntMessagePart::Document(x) && is_ant_document(x, d),
        MessagePart::Thinking(t) => a matches AntMessagePart::Thinking(x) && is_ant_thinking(x, t),
        MessagePart::ToolCall(t) => a matches AntMessagePart::ToolCall(x) && is_ant_tool_call(x, t),
        MessagePart::ToolResult(t) => a matches AntMessagePart::ToolResult(x) && is_ant_tool_result(
            x,
            t,
        ),
        MessagePart::Audio(_) => false,
    }
}

impl AntTextPart {
    /// Converts a text part.
    pub fn from_text_part(value: TextPart) -> (res: Self)
        ensures
            is_ant_text(res, value),
    {
        Self { part_type: String::from_str("text"), text: value.text }
    }
}

impl AntImagePart {
    /// Converts an image part: base64 data with its media type, or a URL.
    pub fn from_image_part(value: ImagePart) -> (res: Self)
        requires
            image_convertible(value),
        ensures
            is_ant_image(res, value),
    {
        let source = if value.is_base64 {
            let media_type = match value.mime_type {
                Some(m) => m,
                None => {
                    proof {
                        assert(false);
                    }
                    String::new()
                },
            };
            ImageSource::Base64(
                Base64ImageSource {
                    data: value.data,
                    media_type,
                    source_type: String::from_str("base64"),
                },
            )
        } else {
            ImageSource::URL(URLImageSource { url: value.data, source_type: String::from_str("url") })
        };
        Self { part_type: String::from_str("image"), source }
    }
}

impl AntToolCallPart {
    /// Converts a tool call, parsing its arguments as a JSON object.
    pub fn from_tool_call_part(value: ToolCallPart) -> (res: Self)
        requires
            tool_call_convertible(value),
        ensures
            is_ant_tool_call(res, value),
    {
        let input = match normalize_json_object(value.arguments.as_str()) {
            Some(t) => t,
            None => {
                proof {
                    assert(false);
                }
                String::new()
            },
        };
        Self { id: value.id, name: value.name, input, part_type: String::from_str("tool_use") }
    }
}

impl ToolCallPart {
    /// Converts an Anthropic tool-use block back: the arguments are the input's JSON text.
    pub fn from_ant_tool_call(val: AntToolCallPart) -> (res: Self)
        ensures
            res.id == val.id,
            res.name == val.name,
            res.arguments == val.input,
    {
        ToolCallPart { id: val.id, name: val.name, arguments: val.input }
    }
}

impl AntToolResultPart {
    /// Converts a tool result.
    pub fn from_tool_result_part(value: ToolResultPart) -> (res: Self)
        ensures
            is_ant_tool_result(res, value),
    {
        Self {
            tool_use_id: value.tool_call_id,
            content: value.result,
            part_type: String::from_str("tool_result"),
        }
    }
}

impl AntThinkingPart {
    /// Converts a thinking part.
    pub fn from_thinking_part(value: ThinkingPart) -> (res: Self)
        ensures
            is_ant_thinking(res, value),
    {
        Self {
            thinking: value.thinking,
            signature: value.signature,
            part_type: String::from_str("thinking"),
        }
    }
}

impl AntDocumentPart {
    /// Converts a document: a URL when it has no media type, otherwise a base64 PDF or
    /// plain text.
    pub fn from_document_part(value: DocumentPart) -> (res: Self)
        requires
            document_convertible(value),
        ensures
            is_ant_document(res, value),
    {
        match value.mime_type {
            None => Self {
                source: DocumentSource::UrlPdf(
                    UrlPdfDocumentSource { url: value.data, source_type: String::from_str("url") },
                ),
                part_type: String::from_str("document"),
            },
            Some(m) => {
                if same_text(m.as_str(), "application/pdf") {
                    Self {
                        source: DocumentSource::Base64PDF(
                            Base64PDFDocumentSource {
                                data: value.data,
                                media_type: String::from_str("application/pdf"),
                                source_type: String::from_str("base64"),
                            },
                        ),
                        part_type: String::from_str("document"),
                    }
                } else {
                    Self {
                        source: DocumentSource::PlainText(
                            PlainTextDocumentSource {
                                data: value.data,
                                media_type: String::from_str("text/plain"),
                                source_type: String::from_str("text"),
                            },
                        ),
                        part_type: String::from_str("document"),
                    }
                }
            },
        }
    }
}

// ---------------------------------------------------------------------------
// Back to the provider-independent parts
// ---------------------------------------------------------------------------

/// The provider-independent part that an Anthropic content block stands for.
pub open spec fn part_of_ant(a: AntMessagePart) -> MessagePart {
    match a {
        AntMessagePart::Text(t) => MessagePart::Text(TextPart { text: t.text }),
        AntMessagePart::Document(d) => match d.source {
            DocumentSource::Base64PDF(b) => MessagePart::Document(
                DocumentPart { data: b.data, mime_type: Some(b.media_type), is_base64: true },
            ),
            DocumentSource::UrlPdf(u) => MessagePart::Document(
                DocumentPart { data: u.url, mime_type: None, is_base64: false },
            ),
            DocumentSource::PlainText(t) => MessagePart::Document(
                DocumentPart { data: t.data, mime_type: Some(t.media_type), is_base64: false },
            ),
        },
        AntMessagePart::Image(i) => match i.source {
            ImageSource::Base64(b) => MessagePart::Image(
                ImagePart { data: b.data, is_base64: true, mime_type: Some(b.media_type) },
            ),
            ImageSource::URL(u) => MessagePart::Image(
                ImagePart { data: u.url, is_base64: false, mime_type: None },
            ),
        },
        AntMessagePart::Thinking(t) => MessagePart::Thinking(
            ThinkingPart { thinking: t.thinking, signature: t.signature },
        ),
        AntMessagePart::ToolCall(tc) => MessagePart::ToolCall(
            ToolCallPart { id: tc.id, name: tc.name, arguments: tc.input },
        ),
        AntMessagePart::ToolResult(tr) => MessagePart::ToolResult(
            ToolResultPart { tool_call_id: tr.tool_use_id, result: tr.content },
        ),
    }
}

impl MessagePart {
    /// Converts an Anthropic content block back into a message part.
    pub fn from_ant_part(val: AntMessagePart) -> (res: Self)
        ensures
            res == part_of_ant(val),
    {
        match val {
            AntMessagePart::Text(t) => MessagePart::Text(TextPart { text: t.text }),
            AntMessagePart::Document(d) => {
                let (data, is_base64, mime_type) = match d.source {
                    DocumentSource::Base64PDF(b) => (b.data, true, Some(b.media_type)),
                    DocumentSource::UrlPdf(u) => (u.url, false, None),
                    DocumentSource::PlainText(t) => (t.data, false, Some(t.media_type)),
                };
                MessagePart::Document(DocumentPart { data, mime_type, is_base64 })
            },
            AntMessagePart::Image(i) => {
                let (data, is_base64, mime_type) = match i.source {
                    ImageSource::Base64(b) => (b.data, true, Some(b.media_type)),
                    ImageSource::URL(u) => (u.url, false, None),
                };
                MessagePart::Image(ImagePart { data, is_base64, mime_type })
            },
            AntMessagePart::Thinking(t) => MessagePart::Thinking(
                ThinkingPart { thinking: t.thinking, signature: t.signature },
            ),
            AntMessagePart::ToolCall(tc) => MessagePart::ToolCall(
                ToolCallPart::from_ant_tool_call(tc),
            ),
            AntMessagePart::ToolResult(tr) => MessagePart::ToolResult(
                ToolResultPart { tool_call_id: tr.tool_use_id, result: tr.content },
            ),
        }
    }
}

// ---------------------------------------------------------------------------
// Messages
// ---------------------------------------------------------------------------

/// A message in the Anthropic format.
#[derive(Debug, PartialEq)]
pub struct AntMessage {
    pub role: AntMessageRole,
    pub content: Vec<AntMessagePart>,
}

/// Whether some part of a message is audio.
pub open spec fn has_audio(parts: Seq<MessagePart>) -> bool {
    exists|i: int| 0 <= i < parts.len() && #[trigger] parts[i] is Audio
}

/// Every part that the conversion reaches (those before the first audio part) can be
/// converted without failing.
pub open spec fn parts_convertible(parts: Seq<MessagePart>) -> bool {
    forall|i: int|
        0 <= i < parts.len() && (forall|k: int| 0 <= k < i ==> !(#[trigger] parts[k] is Audio))
            ==> part_convertible(#[trigger] parts[i])
}

/// `a` is the Anthropic form of the message `m`.
pub open spec fn is_ant_message(a: AntMessage, m: Message) -> bool {
    &&& a.role == ant_role_of(m.role)
    &&& a.content@.len() == m.content@.len()
    &&& forall|i: int|
        0 <= i < m.content@.len() ==> is_ant_part(#[trigger] a.content@[i], m.content@[i])
}

/// The error reported for an audio part sent to Anthropic.
pub open spec fn is_audio_refusal(e: UnsupportedPartType) -> bool {
    e.part_type@ == "audio"@ && e.api_type@ == "anthropic"@
}

impl AntMessage {
    /// Converts a message part by part; audio is refused.
    pub fn try_from_message(value: Message) -> (res: Result<Self, UnsupportedPartType>)
        requires
            parts_convertible(value.content@),
        ensures
            res is Ok <==> !has_audio(value.content@),
            res matches Ok(a) ==> is_ant_message(a, value),
            res matches Err(e) ==> is_audio_refusal(e),
    {
        let role = AntMessageRole::from_message_role(value.role);
        let mut content: Vec<AntMessagePart> = Vec::new();
        let n = value.content.len();
        let mut i: usize = 0;
        while i < n
            invariant
                n == value.content@.len(),
                i <= n,
                parts_convertible(value.content@),
                content@.len() == i,
                forall|j: int| 0 <= j < i ==> !(#[trigger] value.content@[j] is Audio),
                forall|j: int|
                    0 <= j < i ==> is_ant_part(#[trigger] content@[j], value.content@[j]),
            decreases n - i,
        {
            let p = value.content[i].clone();
            proof {
                assert(part_convertible(value.content@[i as int]));
            }
            match p {
                MessagePart::Text(t) => {
                    content.push(AntMessagePart::Text(AntTextPart::from_text_part(t)));
                },
                MessagePart::Document(d) => {
                    content.push(AntMessagePart::Document(AntDocumentPart::from_document_part(d)));
                },
                MessagePart::Thinking(t) => {
                    content.push(AntMessagePart::Thinking(AntThinkingPart::from_thinking_part(t)));
                },
                MessagePart::Image(im) => {
                    content.push(AntMessagePart::Image(AntImagePart::from_image_part(im)));
                },
                MessagePart::ToolCall(tc) => {
                    content.push(AntMessagePart::ToolCall(AntToolCallPart::from_tool_call_part(tc)));
                },
                MessagePart::ToolResult(tr) => {
                    content.push(
                        AntMessagePart::ToolResult(AntToolResultPart::from_tool_result_part(tr)),
                    );
                },
                MessagePart::Audio(_) => {
                    return Err(
                        UnsupportedPartType {
                            part_type: String::from_str("audio"),
                            api_type: String::from_str("anthropic"),
                        },
                    );
                },
            }
            i = i + 1;
        }
        Ok(Self { role, content })
    }
}

// ---------------------------------------------------------------------------
// Request options
// ---------------------------------------------------------------------------

/// Prompt-cache lifetimes that the Anthropic API offers.
#[derive(Debug, Clone, Copy, PartialEq, Eq, Structural)]
pub enum AllowedCacheTtl {
    FiveMinutes,
    OneHour,
}

/// The name of a cache lifetime.
pub open spec fn cache_ttl_text(t: AllowedCacheTtl) -> Seq<char> {
    match t {
        AllowedCacheTtl::FiveMinutes => "5m"@,
        AllowedCacheTtl::OneHour => "1h"@,
    }
}

/// The cache lifetime a name denotes (case-sensitive), if any.
pub open spec fn cache_ttl_named(s: Seq<char>) -> Option<AllowedCacheTtl> {
    if s == "5m"@ {
        Some(AllowedCacheTtl::FiveMinutes)
    } else if s == "1h"@ {
        Some(AllowedCacheTtl::OneHour)
    } else {
        None
    }
}

impl AllowedCacheTtl {
    /// Parses a cache lifetime: `5m` or `1h`.
    pub fn from_str(s: &str) -> (res: Result<Self, InvalidTtl>)
        ensures
            match res {
                Ok(t) => cache_ttl_named(s@) == Some(t),
                Err(e) => cache_ttl_named(s@) is None && e.ttl@ == s@,
            },
    {
        if same_text(s, "5m") {
            Ok(AllowedCacheTtl::FiveMinutes)
        } else if same_text(s, "1h") {
            Ok(AllowedCacheTtl::OneHour)
        } else {
            Err(InvalidTtl { ttl: s.to_owned() })
        }
    }

    /// The name of the lifetime, as it is displayed.
    pub fn to_string(&self) -> (res: String)
        ensures
            res@ == cache_ttl_text(*self),
    {
        match self {
            AllowedCacheTtl::FiveMinutes => String::from_str("5m"),
            AllowedCacheTtl::OneHour => String::from_str("1h"),
        }
    }
}

/// Parsing the displayed name of a cache lifetime gives the lifetime back.
pub proof fn lemma_cache_ttl_name_round_trip(t: AllowedCacheTtl)
    ensures
        cache_ttl_named(cache_ttl_text(t)) == Some(t),
{
    reveal_strlit("5m");
    reveal_strlit("1h");
    assert("1h"@[0] != "5m"@[0]);
}

/// Tool choice `auto`.
#[derive(Debug, PartialEq)]
pub struct AntAutoToolChoice {
    pub tool_choice_type: String,
    pub disable_parallel_tool_use: bool,
}

/// Tool choice `any`.
#[derive(Debug, PartialEq)]
pub struct AntAnyToolChoice {
    pub tool_choice_type: String,
    pub disable_parallel_tool_use: bool,
}

/// Tool choice `none`.
#[derive(Debug, PartialEq)]
pub struct AntNoneToolChoice {
    pub tool_choice_type: String,
}

/// How the model may use tools.
#[derive(Debug, PartialEq)]
pub enum AntToolChoice {
    Auto(AntAutoToolChoice),
    Any(AntAnyToolChoice),
    /// The model may not use tools (`"type": "none"`).
    NoTool(AntNoneToolChoice),
}

/// `a` is the Anthropic form of the tool choice `c`, given whether parallel tool
/// calls are allowed.
pub open spec fn is_ant_tool_choice(a: AntToolChoice, c: ToolChoice, parallel: bool) -> bool {
    match c {
        ToolChoice::Auto => a matches AntToolChoice::Auto(x) && x.tool_choice_type@ == "auto"@
            && x.disable_parallel_tool_use == !parallel,
        ToolChoice::Required => a matches AntToolChoice::Any(x) && x.tool_choice_type@ == "any"@
            && x.disable_parallel_tool_use == !parallel,
        ToolChoice::NoTool => a matches AntToolChoice::NoTool(x) && x.tool_choice_type@
            == "none"@,
    }
}

impl AntToolChoice {
    /// Converts a tool choice; `parallel_tool_calls` decides whether parallel use is
    /// disabled.
    pub fn from_tool_choice(c: ToolChoice, parallel_tool_calls: bool) -> (res: Self)
        ensures
            is_ant_tool_choice(res, c, parallel_tool_calls),
    {
        match c {
            ToolChoice::Auto => AntToolChoice::Auto(
                AntAutoToolChoice {
                    tool_choice_type: String::from_str("auto"),
                    disable_parallel_tool_use: !parallel_tool_calls,
                },
            ),
            ToolChoice::Required => AntToolChoice::Any(
                AntAnyToolChoice {
                    tool_choice_type: String::from_str("any"),
                    disable_parallel_tool_use: !parallel_tool_calls,
                },
            ),
            ToolChoice::NoTool => AntToolChoice::NoTool(
                AntNoneToolChoice { tool_choice_type: String::from_str("none") },
            ),
        }
    }
}

/// Reasoning effort levels of the Anthropic API.
#[derive(Debug, Clone, Copy, PartialEq, Eq, Structural)]
pub enum AntEffort {
    Low,
    Medium,
    High,
    Xhigh,
    Max,
}

/// The Anthropic effort for a reasoning effort; `none` has no counterpart.
pub open spec fn ant_effort_of(e: ReasoningEffort) -> Option<AntEffort> {
    match e {
        ReasoningEffort::Low => Some(AntEffort::Low),
        ReasoningEffort::Medium => Some(AntEffort::Medium),
        ReasoningEffort::High => Some(AntEffort::High),
        ReasoningEffort::Minimal => Some(AntEffort::Low),
        ReasoningEffort::Xhigh => Some(AntEffort::Xhigh),
        ReasoningEffort::Maximum => Some(AntEffort::Max),
        ReasoningEffort::NoReasoning => None,
    }
}

impl AntEffort {
    /// Converts a reasoning effort; `none` is refused.
    pub fn try_from_reasoning_effort(value: ReasoningEffort) -> (res: Result<Self, UnsupportedType>)
        ensures
            match res {
                Ok(a) => ant_effort_of(value) == Some(a),
                Err(e) => ant_effort_of(value) is None && e.unsupported_type@ == "none"@,
            },
    {
        match value {
            ReasoningEffort::Low => Ok(AntEffort::Low),
            ReasoningEffort::Medium => Ok(AntEffort::Medium),
            ReasoningEffort::High => Ok(AntEffort::High),
            ReasoningEffort::Minimal => Ok(AntEffort::Low),
            ReasoningEffort::Xhigh => Ok(AntEffort::Xhigh),
            ReasoningEffort::Maximum => Ok(AntEffort::Max),
            ReasoningEffort::NoReasoning => Err(
                UnsupportedType { unsupported_type: String::from_str("none") },
            ),
        }
    }
}

/// A structured output format.
#[derive(Debug, PartialEq)]
pub struct AntOutputFormat {
    pub format_type: String,
    pub schema: Schema,
}

/// Output settings of a request.
#[derive(Debug, PartialEq)]
pub struct AntOutputConfig {
    pub effort: Option<AntEffort>,
    pub format: Option<AntOutputFormat>,
}

/// The schema text sent for a structured output: the schema closed to additional
/// properties, unless its `additionalProperties` already is `false`.
pub open spec fn closed_schema_text(json: Seq<char>) -> Seq<char> {
    if schema_entry_as_bool(json, "additionalProperties"@) == Some(Some(false)) {
        json
    } else {
        schema_with_bool_entry(json, "additionalProperties"@, false)
    }
}

/// `a` is the Anthropic form of the output format `f`.
pub open spec fn is_ant_output_format(a: AntOutputFormat, f: OutputFormat) -> bool {
    a.format_type@ == "json_schema"@ && a.schema.json@ == closed_schema_text(f.schema.json@)
}

impl AntOutputFormat {
    /// Converts an output format, setting `additionalProperties` to `false` in its schema
    /// unless it already is `false`.
    pub fn from_output_format(f: OutputFormat) -> (res: Self)
        ensures
            is_ant_output_format(res, f),
    {
        let keep = match schema_get_as_bool(f.schema.json.as_str(), "additionalProperties") {
            Some(Some(b)) => !b,
            _ => false,
        };
        let schema = if keep {
            f.schema
        } else {
            Schema { json: schema_insert_bool(f.schema.json.as_str(), "additionalProperties", false) }
        };
        Self { format_type: String::from_str("json_schema"), schema }
    }
}

/// A tool definition.
#[derive(Debug, PartialEq)]
pub struct AntTool {
    pub name: String,
    pub description: String,
    pub input_schema: Schema,
}

/// `a` is the Anthropic form of the tool `t`.
pub open spec fn is_ant_tool(a: AntTool, t: Tool) -> bool {
    a.name == t.name && a.description == t.description && a.input_schema == t.parameters
}

impl AntTool {
    /// Converts a tool definition.
    pub fn from_tool(value: Tool) -> (res: Self)
        ensures
            is_ant_tool(res, value),
    {
        Self { name: value.name, description: value.description, input_schema: value.parameters }
    }
}

/// Thinking turned off.
#[derive(Debug, PartialEq)]
pub struct AntThinkingConfigDisabled {
    pub config_type: String,
}

/// Adaptive thinking, with summarized display.
#[derive(Debug, PartialEq)]
pub struct AntThinkingConfigAdaptive {
    pub config_type: String,
    pub display: String,
}

/// Thinking settings of a request.
#[derive(Debug, PartialEq)]
pub enum AntThinkingConfig {
    Disabled(AntThinkingConfigDisabled),
    Adaptive(AntThinkingConfigAdaptive),
}

/// `t` is the adaptive thinking setting.
pub open spec fn is_adaptive_thinking(t: AntThinkingConfig) -> bool {
    t matches AntThinkingConfig::Adaptive(a) && a.config_type@ == "adaptive"@ && a.display@
        == "summarized"@
}

/// `t` is the disabled thinking setting.
pub open spec fn is_disabled_thinking(t: AntThinkingConfig) -> bool {
    t matches AntThinkingConfig::Disabled(d) && d.config_type@ == "disabled"@
}

// ---------------------------------------------------------------------------
// Requests
// ---------------------------------------------------------------------------

/// `top_p` sent with adaptive thinking: the bits of `0.95_f32`.
pub const ADAPTIVE_TOP_P_BITS: u32 = 0x3F73_3333;

/// Temperature sent with adaptive thinking: the bits of `1.0_f32`.
pub const ADAPTIVE_TEMPERATURE_BITS: u32 = 0x3F80_0000;

/// Serialized request body sent to the Anthropic Messages API.
///
/// `top_p` and `temperature` are bits of `f32` values, as in [`LLMRequest`].
#[derive(Debug)]
pub struct AntRequest {
    pub model: String,
    pub messages: Vec<AntMessage>,
    pub max_tokens: u32,
    pub cache_control: Option<CacheControl>,
    pub output_config: Option<AntOutputConfig>,
    pub stream: bool,
    pub tool_choice: Option<AntToolChoice>,
    pub tools: Option<Vec<AntTool>>,
    pub thinking: Option<AntThinkingConfig>,
    pub top_p: Option<u32>,
    pub temperature: Option<u32>,
    pub system: Option<String>,
}

/// Concatenation of the text parts of a message.
pub open spec fn message_text(parts: Seq<MessagePart>) -> Seq<char>
    decreases parts.len(),
{
    if parts.len() == 0 {
        Seq::empty()
    } else {
        message_text(parts.drop_last()) + match parts.last() {
            MessagePart::Text(t) => t.text@,
            _ => Seq::empty(),
        }
    }
}

/// Concatenation of the text blocks of an Anthropic message.
pub open spec fn ant_text(parts: Seq<AntMessagePart>) -> Seq<char>
    decreases parts.len(),
{
    if parts.len() == 0 {
        Seq::empty()
    } else {
        ant_text(parts.drop_last()) + match parts.last() {
            AntMessagePart::Text(t) => t.text@,
            _ => Seq::empty(),
        }
    }
}

/// The messages that are not system messages, in order.
pub open spec fn non_system(msgs: Seq<Message>) -> Seq<Message>
    decreases msgs.len(),
{
    if msgs.len() == 0 {
        Seq::empty()
    } else if msgs.last().role == MessageRole::System {
        non_system(msgs.drop_last())
    } else {
        non_system(msgs.drop_last()).push(msgs.last())
    }
}

/// The text of the last system message, if there is one: it is the system prompt.
pub open spec fn last_system_text(msgs: Seq<Message>) -> Option<Seq<char>>
    decreases msgs.len(),
{
    if msgs.len() == 0 {
        None
    } else if msgs.last().role == MessageRole::System {
        Some(message_text(msgs.last().content@))
    } else {
        last_system_text(msgs.drop_last())
    }
}

/// Whether some message holds an audio part.
pub open spec fn any_audio(msgs: Seq<Message>) -> bool {
    exists|i: int| 0 <= i < msgs.len() && has_audio(#[trigger] msgs[i].content@)
}

/// Every message that the conversion reaches (up to the first one holding audio) can
/// be converted without failing.
pub open spec fn messages_convertible(msgs: Seq<Message>) -> bool {
    forall|i: int|
        0 <= i < msgs.len() && (forall|k: int| 0 <= k < i ==> !has_audio(#[trigger] msgs[k].content@))
            ==> parts_convertible(#[trigger] msgs[i].content@)
}

/// The prompt-cache lifetime of a request is set but not one the API offers.
pub open spec fn ttl_invalid(ttl: Option<String>) -> bool {
    ttl matches Some(t) && cache_ttl_named(t@) is None
}

/// The Anthropic effort that a request asks for.
pub open spec fn request_effort(v: LLMRequest) -> Option<AntEffort> {
    match v.reasoning_effort {
        Some(e) => ant_effort_of(e),
        None => None,
    }
}

/// The messages and system prompt of `r` are those of `v`.
pub open spec fn ant_messages_agree(r: AntRequest, v: LLMRequest) -> bool {
    &&& r.messages@.len() == non_system(v.messages@).len()
    &&& forall|j: int|
        0 <= j < r.messages@.len() ==> is_ant_message(
            #[trigger] r.messages@[j],
            non_system(v.messages@)[j],
        )
    &&& opt_text(r.system) == last_system_text(v.messages@)
}

/// The tools and tool choice of `r` are those of `v`: both are sent only when `v`
/// has at least one tool.
pub open spec fn ant_tools_agree(r: AntRequest, v: LLMRequest) -> bool {
    match v.tools {
        Some(ts) => if ts@.len() > 0 {
            &&& r.tools matches Some(ats) && ats@.len() == ts@.len() && forall|k: int|
                0 <= k < ts@.len() ==> is_ant_tool(#[trigger] ats@[k], ts@[k])
            &&& match v.tool_choice {
                Some(c) => r.tool_choice matches Some(x) && is_ant_tool_choice(
                    x,
                    c,
                    v.parallel_tool_calls,
                ),
                None => r.tool_choice is None,
            }
        } else {
            r.tools is None && r.tool_choice is None
        },
        None => r.tools is None && r.tool_choice is None,
    }
}

/// The output settings, thinking and sampling parameters of `r` follow from `v`:
/// an effort turns on adaptive thinking, which fixes `top_p` and `temperature`, and a
/// temperature turns `top_p` off.
pub open spec fn ant_options_agree(r: AntRequest, v: LLMRequest) -> bool {
    let eff = request_effort(v);
    &&& if v.output_format is Some || eff is Some {
        r.output_config matches Some(oc) && oc.effort == eff && match v.output_format {
            Some(f) => oc.format matches Some(af) && is_ant_output_format(af, f),
            None => oc.format is None,
        }
    } else {
        r.output_config is None
    }
    &&& r.thinking matches Some(t) && if eff is Some {
        is_adaptive_thinking(t)
    } else {
        is_disabled_thinking(t)
    }
    &&& r.top_p == match v.top_p {
        Some(tp) => if v.temperature is Some {
            None
        } else if eff is Some {
            Some(ADAPTIVE_TOP_P_BITS)
        } else {
            Some(tp)
        },
        None => None,
    }
    &&& r.temperature == match v.temperature {
        Some(t) => if eff is Some {
            Some(ADAPTIVE_TEMPERATURE_BITS)
        } else {
            Some(t)
        },
        None => None,
    }
}

/// `r` is the Anthropic request for `v`.
pub open spec fn is_ant_request(r: AntRequest, v: LLMRequest) -> bool {
    &&& r.model == v.model
    &&& r.max_tokens == match v.max_output_tokens {
        Some(m) => m,
        None => DEFAULT_MAX_TOKENS,
    }
    &&& r.stream == v.stream
    &&& ant_messages_agree(r, v)
    &&& match v.prompt_cache_ttl {
        None => r.cache_control is None,
        Some(t) => r.cache_control matches Some(c) && c.ttl@ == t@ && c.cache_type@
            == "ephemeral"@,
    }
    &&& ant_tools_agree(r, v)
    &&& ant_options_agree(r, v)
}

/// The conversion of `v` fails with `e`: audio anywhere in the messages is reported
/// first, then an unknown cache lifetime.
pub open spec fn is_ant_request_error(e: InvalidAntRequestConversion, v: LLMRequest) -> bool {
    if any_audio(v.messages@) {
        e.reason@ == unsupported_part_type_text("audio"@, "anthropic"@)
    } else {
        v.prompt_cache_ttl matches Some(t) && e.reason@ == invalid_ttl_text(t@)
    }
}

proof fn lemma_text_agrees(a: Seq<AntMessagePart>, p: Seq<MessagePart>)
    requires
        a.len() == p.len(),
        forall|i: int| 0 <= i < p.len() ==> is_ant_part(#[trigger] a[i], p[i]),
    ensures
        ant_text(a) == message_text(p),
    decreases p.len(),
{
    if p.len() > 0 {
        lemma_text_agrees(a.drop_last(), p.drop_last());
        assert(is_ant_part(a[a.len() - 1], p[p.len() - 1]));
    }
}

fn ant_message_text(parts: &Vec<AntMessagePart>) -> (res: String)
    ensures
        res@ == ant_text(parts@),
{
    let mut text = String::new();
    let n = parts.len();
    let mut j: usize = 0;
    while j < n
        invariant
            n == parts@.len(),
            j <= n,
            text@ == ant_text(parts@.subrange(0, j as int)),
        decreases n - j,
    {
        proof {
            assert(parts@.subrange(0, j + 1).drop_last() =~= parts@.subrange(0, j as int));
        }
        match &parts[j] {
            AntMessagePart::Text(t) => {
                text.append(t.text.as_str());
            },
            _ => {},
        }
        j = j + 1;
    }
    proof {
        assert(parts@.subrange(0, n as int) =~= parts@);
    }
    text
}

impl AntRequest {
    /// Converts a request: system messages become the system prompt (the last one
    /// wins), the other messages are converted in order, and the options are mapped
    /// to their Anthropic form.
    pub fn try_from_request(value: LLMRequest) -> (res: Result<Self, InvalidAntRequestConversion>)
        requires
            messages_convertible(value.messages@),
        ensures
            res is Err <==> (any_audio(value.messages@) || ttl_invalid(value.prompt_cache_ttl)),
            res matches Err(e) ==> is_ant_request_error(e, value),
            res matches Ok(r) ==> is_ant_request(r, value),
    {
        let ghost msgs = value.messages@;
        let mut messages: Vec<AntMessage> = Vec::new();
        let mut system: Option<String> = None;
        let n = value.messages.len();
        let mut i: usize = 0;
        while i < n
            invariant
                n == msgs.len(),
                msgs == value.messages@,
                i <= n,
                messages_convertible(msgs),
                forall|k: int| 0 <= k < i ==> !has_audio(#[trigger] msgs[k].content@),
                messages@.len() == non_system(msgs.subrange(0, i as int)).len(),
                forall|j: int|
                    0 <= j < messages@.len() ==> is_ant_message(
                        #[trigger] messages@[j],
                        non_system(msgs.subrange(0, i as int))[j],
                    ),
                opt_text(system) == last_system_text(msgs.subrange(0, i as int)),
            decreases n - i,
        {
            let m = value.messages[i].clone();
            proof {
                assert(parts_convertible(msgs[i as int].content@));
                assert(msgs.subrange(0, i + 1).drop_last() =~= msgs.subrange(0, i as int));
                assert(msgs.subrange(0, i + 1).last() == msgs[i as int]);
            }
            let message = match AntMessage::try_from_message(m) {
                Ok(a) => a,
                Err(e) => {
                    proof {
                        assert(has_audio(msgs[i as int].content@));
                        assert(any_audio(msgs));
                    }
                    return Err(InvalidAntRequestConversion::from_unsupported_part_type(e));
                },
            };
            proof {
                assert(is_ant_message(message, msgs[i as int]));
            }
            match message.role {
                AntMessageRole::System => {
                    let text = ant_message_text(&message.content);
                    proof {
                        lemma_text_agrees(message.content@, msgs[i as int].content@);
                    }
                    system = Some(text);
                },
                _ => {
                    let ghost before = messages@;
                    messages.push(message);
                    proof {
                        assert forall|j: int| 0 <= j < messages@.len() implies is_ant_message(
                            #[trigger] messages@[j],
                            non_system(msgs.subrange(0, i + 1))[j],
                        ) by {
                            if j < before.len() {
                                assert(messages@[j] == before[j]);
                            }
                        }
                    }
                },
            }
            i = i + 1;
        }
        proof {
            assert(msgs.subrange(0, n as int) =~= msgs);
            assert(!any_audio(msgs));
        }
        let cache_control = match value.prompt_cache_ttl {
            Some(p) => match AllowedCacheTtl::from_str(p.as_str()) {
                Ok(t) => Some(CacheControl { ttl: t.to_string(), cache_type: String::from_str("ephemeral") }),
                Err(e) => {
                    return Err(InvalidAntRequestConversion::from_invalid_ttl(e));
                },
            },
            None => None,
        };
        let (tools, tool_choice) = match value.tools {
            Some(ts) => {
                if ts.len() > 0 {
                    let tc = match value.tool_choice {
                        Some(c) => Some(AntToolChoice::from_tool_choice(c, value.parallel_tool_calls)),
                        None => None,
                    };
                    let mut ats: Vec<AntTool> = Vec::new();
                    let tn = ts.len();
                    let mut k: usize = 0;
                    while k < tn
                        invariant
                            tn == ts@.len(),
                            k <= tn,
                            ats@.len() == k,
                            forall|q: int| 0 <= q < k ==> is_ant_tool(#[trigger] ats@[q], ts@[q]),
                        decreases tn - k,
                    {
                        ats.push(AntTool::from_tool(ts[k].clone()));
                        k = k + 1;
                    }
                    (Some(ats), tc)
                } else {
                    (None, None)
                }
            },
            None => (None, None),
        };
        let effort = match value.reasoning_effort {
            Some(re) => match AntEffort::try_from_reasoning_effort(re) {
                Ok(e) => Some(e),
                Err(_) => None,
            },
            None => None,
        };
        let output_format = match value.output_format {
            Some(f) => Some(AntOutputFormat::from_output_format(f)),
            None => None,
        };
        let has_format = match &output_format {
            Some(_) => true,
            None => false,
        };
        let has_effort = match effort {
            Some(_) => true,
            None => false,
        };
        let output_config = if has_format || has_effort {
            Some(AntOutputConfig { effort, format: output_format })
        } else {
            None
        };
        let thinking = if has_effort {
            AntThinkingConfig::Adaptive(
                AntThinkingConfigAdaptive {
                    config_type: String::from_str("adaptive"),
                    display: String::from_str("summarized"),
                },
            )
        } else {
            AntThinkingConfig::Disabled(
                AntThinkingConfigDisabled { config_type: String::from_str("disabled") },
            )
        };
        let has_temperature = match value.temperature {
            Some(_) => true,
            None => false,
        };
        let top_p = match value.top_p {
            Some(tp) => {
                if has_temperature {
                    None
                } else if has_effort {
                    Some(ADAPTIVE_TOP_P_BITS)
                } else {
                    Some(tp)
                }
            },
            None => None,
        };
        let temperature = match value.temperature {
            Some(t) => {
                if has_effort {
                    Some(ADAPTIVE_TEMPERATURE_BITS)
                } else {
                    Some(t)
                }
            },
            None => None,
        };
        let max_tokens = match value.max_output_tokens {
            Some(m) => m,
            None => DEFAULT_MAX_TOKENS,
        };
        Ok(
            Self {
                model: value.model,
                max_tokens,
                messages,
                stream: value.stream,
                cache_control,
                tool_choice,
                tools,
                output_config,
                thinking: Some(thinking),
                temperature,
                top_p,
                system,
            },
        )
    }
}

/// Decides [`part_convertible`].
pub fn part_is_convertible(p: &MessagePart) -> (res: bool)
    ensures
        res == part_convertible(*p),
{
    match p {
        MessagePart::Image(i) => {
            if i.is_base64 {
                match &i.mime_type {
                    Some(_) => true,
                    None => false,
                }
            } else {
                true
            }
        },
        MessagePart::Document(d) => match &d.mime_type {
            Some(m) => same_text(m.as_str(), "application/pdf") || same_text(m.as_str(), "text/plain"),
            None => true,
        },
        MessagePart::ToolCall(t) => match normalize_json_object(t.arguments.as_str()) {
            Some(_) => true,
            None => false,
        },
        _ => true,
    }
}

/// Decides [`parts_convertible`]; when the parts are convertible it also tells
/// whether one of them is audio.
fn check_parts(parts: &Vec<MessagePart>) -> (res: (bool, bool))
    ensures
        res.0 == parts_convertible(parts@),
        res.0 ==> res.1 == has_audio(parts@),
{
    let n = parts.len();
    let mut j: usize = 0;
    while j < n
        invariant
            n == parts@.len(),
            j <= n,
            forall|k: int| 0 <= k < j ==> !(#[trigger] parts@[k] is Audio),
            forall|k: int| 0 <= k < j ==> part_convertible(#[trigger] parts@[k]),
        decreases n - j,
    {
        match &parts[j] {
            MessagePart::Audio(_) => {
                proof {
                    assert(has_audio(parts@));
                    assert forall|i: int|
                        0 <= i < parts@.len() && (forall|k: int|
                            0 <= k < i ==> !(#[trigger] parts@[k] is Audio)) implies part_convertible(
                        #[trigger] parts@[i],
                    ) by {
                        if i > j {
                            assert(parts@[j as int] is Audio);
                        }
                    }
                }
                return (true, true);
            },
            _ => {},
        }
        if !part_is_convertible(&parts[j]) {
            return (false, false);
        }
        j = j + 1;
    }
    (true, false)
}

/// Decides [`messages_convertible`].
pub fn messages_are_convertible(msgs: &Vec<Message>) -> (res: bool)
    ensures
        res == messages_convertible(msgs@),
{
    let n = msgs.len();
    let mut i: usize = 0;
    while i < n
        invariant
            n == msgs@.len(),
            i <= n,
            forall|k: int| 0 <= k < i ==> !has_audio(#[trigger] msgs@[k].content@),
            forall|k: int| 0 <= k < i ==> parts_convertible(#[trigger] msgs@[k].content@),
        decreases n - i,
    {
        let (ok, audio) = check_parts(&msgs[i].content);
        if !ok {
            return false;
        }
        if audio {
            proof {
                assert forall|q: int|
                    0 <= q < msgs@.len() && (forall|k: int|
                        0 <= k < q ==> !has_audio(#[trigger] msgs@[k].content@)) implies parts_convertible(
                    #[trigger] msgs@[q].content@,
                ) by {
                    if q > i {
                        assert(has_audio(msgs@[i as int].content@));
                    }
                }
            }
            return true;
        }
        i = i + 1;
    }
    true
}

impl AntRequest {
    /// Converts a request as [`AntRequest::try_from_request`] does, after checking the
    /// parts that conversion cannot take; returns `None` when some reached part is a
    /// base64 image without a media type, a document that is neither a URL, a PDF nor
    /// plain text, or a tool call whose arguments are not a JSON object.
    pub fn try_from_request_checked(value: LLMRequest) -> (res: Option<
        Result<Self, InvalidAntRequestConversion>,
    >)
        ensures
            res is None <==> !messages_convertible(value.messages@),
            res matches Some(r) ==> (r is Err <==> (any_audio(value.messages@) || ttl_invalid(
                value.prompt_cache_ttl,
            ))),
            res matches Some(Err(e)) ==> is_ant_request_error(e, value),
            res matches Some(Ok(r)) ==> is_ant_request(r, value),
    {
        if !messages_are_convertible(&value.messages) {
            return None;
        }
        Some(Self::try_from_request(value))
    }
}

// ---------------------------------------------------------------------------
// Responses
// ---------------------------------------------------------------------------

/// Token usage reported by the Anthropic API.
#[derive(Debug, Clone, Copy, PartialEq, Eq)]
pub struct AntUsage {
    pub input_tokens: u32,
    pub cache_creation_input_tokens: u32,
    pub cache_read_input_tokens: u32,
    pub output_tokens: u32,
}

/// `u` reports the same counts as the Anthropic usage `a`: cache reads and writes
/// are always present, and there are no other counters.
pub open spec fn is_usage_of_ant(u: LLMUsage, a: AntUsage) -> bool {
    &&& u.input_tokens == a.input_tokens
    &&& u.output_tokens == a.output_tokens
    &&& u.cache_read_tokens == Some(a.cache_read_input_tokens)
    &&& u.cache_write_tokens == Some(a.cache_creation_input_tokens)
    &&& u.other_tokens is None
}

impl LLMUsage {
    /// Converts the usage reported by the Anthropic API.
    pub fn from_ant_usage(value: AntUsage) -> (res: Self)
        ensures
            is_usage_of_ant(res, value),
            res.wf(),
    {
        Self {
            input_tokens: value.input_tokens,
            cache_read_tokens: Some(value.cache_read_input_tokens),
            cache_write_tokens: Some(value.cache_creation_input_tokens),
            output_tokens: value.output_tokens,
            other_tokens: None,
        }
    }
}

/// Response body returned by the Anthropic Messages API.
#[derive(Debug)]
pub struct AntResponse {
    pub id: String,
    pub content: Vec<AntMessagePart>,
    pub usage: AntUsage,
}

impl LLMResponse {
    /// Converts an Anthropic response: its blocks, in order, form one assistant
    /// message; Anthropic reports no creation time.
    pub fn from_ant_response(value: AntResponse) -> (res: Self)
        ensures
            res.id == value.id,
            res.created_at is None,
            res.message.role == MessageRole::Assistant,
            res.message.content@ == value.content@.map_values(|a: AntMessagePart| part_of_ant(a)),
            is_usage_of_ant(res.usage, value.usage),
    {
        let AntResponse { id, content: blocks, usage } = value;
        let ghost original = blocks@;
        let mut blocks = blocks;
        let mut reversed: Vec<MessagePart> = Vec::new();
        while blocks.len() > 0
            invariant
                original.len() == blocks@.len() + reversed@.len(),
                blocks@ == original.subrange(0, blocks@.len() as int),
                forall|k: int|
                    0 <= k < reversed@.len() ==> #[trigger] reversed@[k] == part_of_ant(
                        original[original.len() - 1 - k],
                    ),
            decreases blocks@.len(),
        {
            let b = blocks.pop().unwrap();
            reversed.push(MessagePart::from_ant_part(b));
        }
        let mut content: Vec<MessagePart> = Vec::new();
        while reversed.len() > 0
            invariant
                original.len() == content@.len() + reversed@.len(),
                forall|k: int|
                    0 <= k < reversed@.len() ==> #[trigger] reversed@[k] == part_of_ant(
                        original[original.len() - 1 - k],
                    ),
                forall|k: int|
                    0 <= k < content@.len() ==> #[trigger] content@[k] == part_of_ant(original[k]),
            decreases reversed@.len(),
        {
            let p = reversed.pop().unwrap();
            content.push(p);
        }
        proof {
            assert(content@ =~= original.map_values(|a: AntMessagePart| part_of_ant(a)));
        }
        Self {
            id,
            message: Message { role: MessageRole::Assistant, content },
            created_at: None,
            usage: LLMUsage::from_ant_usage(usage),
        }
    }
}


// ---------------------------------------------------------------------------
// Properties of the conversions
// ---------------------------------------------------------------------------

/// A part that the Anthropic format carries exactly: an image is base64 data or a
/// bare URL, a document is a URL, a base64 PDF or plain text, and tool-call
/// arguments are written as `serde_json` writes their object. Audio is not carried.
pub open spec fn ant_faithful(p: MessagePart) -> bool {
    match p {
        MessagePart::Image(i) => i.is_base64 || i.mime_type is None,
        MessagePart::Document(d) => match d.mime_type {
            None => !d.is_base64,
            Some(m) => (m@ == "application/pdf"@ && d.is_base64) || (m@ == "text/plain"@
                && !d.is_base64),
        },
        MessagePart::ToolCall(t) => json_object_normal_form(t.arguments@) == Some(t.arguments@),
        MessagePart::Audio(_) => false,
        _ => true,
    }
}

/// `q` is the part `p`, a document's media type compared by its text.
pub open spec fn same_part(q: MessagePart, p: MessagePart) -> bool {
    match p {
        MessagePart::Document(y) => q matches MessagePart::Document(x) && x.data == y.data
            && x.is_base64 == y.is_base64 && opt_text(x.mime_type) == opt_text(y.mime_type),
        MessagePart::ToolCall(y) => q matches MessagePart::ToolCall(x) && x.id == y.id && x.name
            == y.name && x.arguments@ == y.arguments@,
        _ => q == p,
    }
}

/// Converting a part to its Anthropic content block and back gives the part again,
/// for every part that the Anthropic format carries exactly.
pub proof fn lemma_ant_part_round_trip(a: AntMessagePart, p: MessagePart)
    requires
        is_ant_part(a, p),
        ant_faithful(p),
    ensures
        same_part(part_of_ant(a), p),
{
    reveal_strlit("application/pdf");
    reveal_strlit("text/plain");
    assert("application/pdf"@ != "text/plain"@) by {
        assert("application/pdf"@.len() != "text/plain"@.len());
    }
    if let MessagePart::Document(d) = p {
        if let AntMessagePart::Document(x) = a {
            match x.source {
                DocumentSource::Base64PDF(b) => {
                    assert(d.mime_type matches Some(m) && m@ == "application/pdf"@);
                    assert(opt_text(d.mime_type) == Some("application/pdf"@));
                },
                DocumentSource::UrlPdf(u) => {},
                DocumentSource::PlainText(t) => {
                    assert(d.mime_type matches Some(m) && m@ == "text/plain"@);
                },
            }
        }
    }
}

/// The non-system messages of a conversation have no system role.
proof fn lemma_non_system_roles(msgs: Seq<Message>)
    ensures
        forall|j: int|
            0 <= j < non_system(msgs).len() ==> (#[trigger] non_system(msgs)[j]).role
                != MessageRole::System,
    decreases msgs.len(),
{
    if msgs.len() > 0 {
        lemma_non_system_roles(msgs.drop_last());
        let rest = non_system(msgs.drop_last());
        assert forall|j: int| 0 <= j < non_system(msgs).len() implies (
        #[trigger] non_system(msgs)[j]).role != MessageRole::System by {
            if j < rest.len() {
                assert(non_system(msgs)[j] == rest[j]);
            }
        }
    }
}

/// No message of an Anthropic request has the system role: system messages become
/// the system prompt.
pub proof fn lemma_ant_request_has_no_system_message(r: AntRequest, v: LLMRequest)
    requires
        is_ant_request(r, v),
    ensures
        forall|j: int|
            0 <= j < r.messages@.len() ==> (#[trigger] r.messages@[j]).role
                != AntMessageRole::System,
{
    lemma_non_system_roles(v.messages@);
    assert forall|j: int| 0 <= j < r.messages@.len() implies (#[trigger] r.messages@[j]).role
        != AntMessageRole::System by {
        assert(is_ant_message(r.messages@[j], non_system(v.messages@)[j]));
    }
}

/// The non-system messages are the messages kept by a filter on their role.
proof fn lemma_non_system_is_filter(msgs: Seq<Message>)
    ensures
        non_system(msgs) == msgs.filter(|m: Message| m.role != MessageRole::System),
    decreases msgs.len(),
{
    if msgs.len() > 0 {
        lemma_non_system_is_filter(msgs.drop_last());
        assert(msgs.drop_last().push(msgs.last()) =~= msgs);
        msgs.drop_last().lemma_filter_push(msgs.last(), |m: Message| m.role != MessageRole::System);
    } else {
        reveal(Seq::filter);
    }
}

/// The roles sent to Anthropic: an assistant message stays an assistant message,
/// user and tool messages are user messages, and a system message keeps the system
/// role; no other role becomes an assistant or a system message.
pub proof fn lemma_ant_roles(role: MessageRole)
    ensures
        role == MessageRole::Assistant ==> ant_role_of(role) == AntMessageRole::Assistant,
        role == MessageRole::User ==> ant_role_of(role) == AntMessageRole::User,
        role == MessageRole::Tool ==> ant_role_of(role) == AntMessageRole::User,
        ant_role_of(role) == AntMessageRole::Assistant <==> role == MessageRole::Assistant,
        ant_role_of(role) == AntMessageRole::System <==> role == MessageRole::System,
{
}

/// A converted message is spoken by the same party: an assistant message is sent
/// with the assistant role, a user or tool message with the user role, and it keeps
/// one part for each of its parts.
pub proof fn lemma_ant_message_keeps_speaker(a: AntMessage, m: Message)
    requires
        is_ant_message(a, m),
    ensures
        m.role == MessageRole::Assistant ==> a.role == AntMessageRole::Assistant,
        m.role == MessageRole::User ==> a.role == AntMessageRole::User,
        m.role == MessageRole::Tool ==> a.role == AntMessageRole::User,
        m.role == MessageRole::System ==> a.role == AntMessageRole::System,
        a.content@.len() == m.content@.len(),
{
    lemma_ant_roles(m.role);
}

/// The messages of an Anthropic request are the conversation's non-system
/// messages, all of them and in order: the `j`-th message sent is the `j`-th
/// message that is not a system message, with its speaker kept (assistant turns as
/// assistant messages, user and tool turns as user messages) and one part for each
/// of its parts.
pub proof fn lemma_ant_request_keeps_conversation(r: AntRequest, v: LLMRequest)
    requires
        is_ant_request(r, v),
    ensures
        r.messages@.len() == v.messages@.filter(|m: Message| m.role != MessageRole::System).len(),
        forall|j: int|
            0 <= j < r.messages@.len() ==> {
                let m = v.messages@.filter(|m: Message| m.role != MessageRole::System)[j];
                &&& m.role != MessageRole::System
                &&& m.role == MessageRole::Assistant ==> (#[trigger] r.messages@[j]).role
                    == AntMessageRole::Assistant
                &&& m.role == MessageRole::User ==> r.messages@[j].role == AntMessageRole::User
                &&& m.role == MessageRole::Tool ==> r.messages@[j].role == AntMessageRole::User
                &&& r.messages@[j].content@.len() == m.content@.len()
            },
{
    lemma_non_system_is_filter(v.messages@);
    lemma_non_system_roles(v.messages@);
    assert forall|j: int| 0 <= j < r.messages@.len() implies {
        let m = v.messages@.filter(|m: Message| m.role != MessageRole::System)[j];
        &&& m.role != MessageRole::System
        &&& m.role == MessageRole::Assistant ==> (#[trigger] r.messages@[j]).role
            == AntMessageRole::Assistant
        &&& m.role == MessageRole::User ==> r.messages@[j].role == AntMessageRole::User
        &&& m.role == MessageRole::Tool ==> r.messages@[j].role == AntMessageRole::User
        &&& r.messages@[j].content@.len() == m.content@.len()
    } by {
        assert(is_ant_message(r.messages@[j], non_system(v.messages@)[j]));
        lemma_ant_message_keeps_speaker(r.messages@[j], non_system(v.messages@)[j]);
    }
}

/// The text of a message is the text of its text parts put end to end: a text part
/// gives its text, any other part gives nothing, and the text of two runs of parts
/// one after the other is the text of the first followed by that of the second.
pub proof fn lemma_message_text_concat(a: Seq<MessagePart>, b: Seq<MessagePart>)
    ensures
        message_text(a + b) == message_text(a) + message_text(b),
        forall|p: MessagePart|
            message_text(#[trigger] seq![p]) == match p {
                MessagePart::Text(t) => t.text@,
                _ => Seq::<char>::empty(),
            },
    decreases b.len(),
{
    assert forall|p: MessagePart|
        message_text(#[trigger] seq![p]) == match p {
            MessagePart::Text(t) => t.text@,
            _ => Seq::<char>::empty(),
        } by {
        assert(seq![p].drop_last() =~= Seq::<MessagePart>::empty());
        assert(seq![p].last() == p);
        assert(message_text(Seq::<MessagePart>::empty()) == Seq::<char>::empty());
        assert(message_text(seq![p]) == message_text(seq![p].drop_last()) + match p {
            MessagePart::Text(t) => t.text@,
            _ => Seq::<char>::empty(),
        });
        assert(Seq::<char>::empty() + match p {
            MessagePart::Text(t) => t.text@,
            _ => Seq::<char>::empty(),
        } =~= match p {
            MessagePart::Text(t) => t.text@,
            _ => Seq::<char>::empty(),
        });
    }
    if b.len() == 0 {
        assert(a + b =~= a);
        assert(message_text(a) + message_text(b) =~= message_text(a));
    } else {
        lemma_message_text_concat(a, b.drop_last());
        assert((a + b).drop_last() =~= a + b.drop_last());
        assert((a + b).last() == b.last());
        let tail = match b.last() {
            MessagePart::Text(t) => t.text@,
            _ => Seq::<char>::empty(),
        };
        assert(message_text(a) + message_text(b.drop_last()) + tail =~= message_text(a) + (
        message_text(b.drop_last()) + tail));
    }
}

/// The system prompt of a conversation whose message `j` is a system message
/// followed by no other system message is the text of message `j`.
proof fn lemma_last_system_text_at(msgs: Seq<Message>, j: int)
    requires
        0 <= j < msgs.len(),
        msgs[j].role == MessageRole::System,
        forall|k: int| j < k < msgs.len() ==> (#[trigger] msgs[k]).role != MessageRole::System,
    ensures
        last_system_text(msgs) == Some(message_text(msgs[j].content@)),
    decreases msgs.len(),
{
    if j < msgs.len() - 1 {
        let r = msgs.drop_last();
        assert forall|k: int| j < k < r.len() implies (#[trigger] r[k]).role
            != MessageRole::System by {
            assert(r[k] == msgs[k]);
        }
        lemma_last_system_text_at(r, j);
    }
}

/// A conversation without system messages has no system prompt.
proof fn lemma_no_system_text(msgs: Seq<Message>)
    requires
        forall|k: int| 0 <= k < msgs.len() ==> (#[trigger] msgs[k]).role != MessageRole::System,
    ensures
        last_system_text(msgs) is None,
    decreases msgs.len(),
{
    if msgs.len() > 0 {
        let r = msgs.drop_last();
        assert forall|k: int| 0 <= k < r.len() implies (#[trigger] r[k]).role
            != MessageRole::System by {
            assert(r[k] == msgs[k]);
        }
        lemma_no_system_text(r);
    }
}

/// The system prompt of an Anthropic request is the text of the conversation's last
/// system message, and the request has none when the conversation has no system
/// message.
pub proof fn lemma_ant_system_prompt_is_last(r: AntRequest, v: LLMRequest)
    requires
        is_ant_request(r, v),
    ensures
        (forall|k: int| 0 <= k < v.messages@.len() ==> (#[trigger] v.messages@[k]).role
            != MessageRole::System) ==> r.system is None,
        forall|j: int|
            0 <= j < v.messages@.len() && (#[trigger] v.messages@[j]).role == MessageRole::System
                && (forall|k: int|
                j < k < v.messages@.len() ==> (#[trigger] v.messages@[k]).role
                    != MessageRole::System) ==> (r.system matches Some(s) && s@ == message_text(
                v.messages@[j].content@,
            )),
{
    if forall|k: int| 0 <= k < v.messages@.len() ==> (#[trigger] v.messages@[k]).role
        != MessageRole::System {
        lemma_no_system_text(v.messages@);
    }
    assert forall|j: int|
        0 <= j < v.messages@.len() && (#[trigger] v.messages@[j]).role == MessageRole::System
            && (forall|k: int|
            j < k < v.messages@.len() ==> (#[trigger] v.messages@[k]).role
                != MessageRole::System) implies (r.system matches Some(s) && s@ == message_text(
        v.messages@[j].content@,
    )) by {
        lemma_last_system_text_at(v.messages@, j);
    }
}

/// The effort sent to Anthropic: `low`, `medium`, `high` and `xhigh` keep their
/// names, `minimal` is sent as `low`, `maximum` as `max`, and `none` has no effort.
pub proof fn lemma_ant_efforts(e: ReasoningEffort)
    ensures
        ant_effort_of(e) is None <==> e == ReasoningEffort::NoReasoning,
        ant_effort_of(e) == Some(AntEffort::Low) <==> (e == ReasoningEffort::Low || e
            == ReasoningEffort::Minimal),
        ant_effort_of(e) == Some(AntEffort::Medium) <==> e == ReasoningEffort::Medium,
        ant_effort_of(e) == Some(AntEffort::High) <==> e == ReasoningEffort::High,
        ant_effort_of(e) == Some(AntEffort::Xhigh) <==> e == ReasoningEffort::Xhigh,
        ant_effort_of(e) == Some(AntEffort::Max) <==> e == ReasoningEffort::Maximum,
{
}

/// An Anthropic request never sends both a temperature and a `top_p`.
pub proof fn lemma_ant_request_sampling(r: AntRequest, v: LLMRequest)
    requires
        is_ant_request(r, v),
    ensures
        !(r.temperature is Some && r.top_p is Some),
{
}

// ---------------------------------------------------------------------------
// Streaming events
// ---------------------------------------------------------------------------

/// Kind of a server-sent event of a streamed Anthropic response.
#[derive(Debug, Clone, Copy, PartialEq, Eq, Structural)]
pub enum StreamEventType {
    MessageStart,
    ContentBlockStart,
    ContentBlockDelta,
    ContentBlockStop,
    MessageDelta,
    MessageStop,
    Ping,
    Error,
}

/// The event kind that an event name denotes (case-sensitive), if any.
pub open spec fn stream_event_named(s: Seq<char>) -> Option<StreamEventType> {
    if s == "message_start"@ {
        Some(StreamEventType::MessageStart)
    } else if s == "message_delta"@ {
        Some(StreamEventType::MessageDelta)
    } else if s == "message_stop"@ {
        Some(StreamEventType::MessageStop)
    } else if s == "content_block_start"@ {
        Some(StreamEventType::ContentBlockStart)
    } else if s == "content_block_delta"@ {
        Some(StreamEventType::ContentBlockDelta)
    } else if s == "content_block_stop"@ {
        Some(StreamEventType::ContentBlockStop)
    } else if s == "error"@ {
        Some(StreamEventType::Error)
    } else if s == "ping"@ {
        Some(StreamEventType::Ping)
    } else {
        None
    }
}

impl StreamEventType {
    /// Parses the name of a server-sent event.
    pub fn from_str(s: &str) -> (res: Result<Self, UnsupportedType>)
        ensures
            match res {
                Ok(t) => stream_event_named(s@) == Some(t),
                Err(e) => stream_event_named(s@) is None && e.unsupported_type@ == s@,
            },
    {
        if same_text(s, "message_start") {
            Ok(StreamEventType::MessageStart)
        } else if same_text(s, "message_delta") {
            Ok(StreamEventType::MessageDelta)
        } else if same_text(s, "message_stop") {
            Ok(StreamEventType::MessageStop)
        } else if same_text(s, "content_block_start") {
            Ok(StreamEventType::ContentBlockStart)
        } else if same_text(s, "content_block_delta") {
            Ok(StreamEventType::ContentBlockDelta)
        } else if same_text(s, "content_block_stop") {
            Ok(StreamEventType::ContentBlockStop)
        } else if same_text(s, "error") {
            Ok(StreamEventType::Error)
        } else if same_text(s, "ping") {
            Ok(StreamEventType::Ping)
        } else {
            Err(UnsupportedType { unsupported_type: s.to_owned() })
        }
    }
}

/// A chunk of text in a `content_block_delta` event.
#[derive(Debug, PartialEq)]
pub struct StreamTextDelta {
    pub delta_type: String,
    pub text: String,
}

/// A chunk of tool-call arguments (partial JSON) in a `content_block_delta` event.
#[derive(Debug, PartialEq)]
pub struct StreamToolDelta {
    pub delta_type: String,
    pub partial_json: String,
}

/// A chunk of reasoning text in a `content_block_delta` event.
#[derive(Debug, PartialEq)]
pub struct StreamThinkingDelta {
    pub delta_type: String,
    pub thinking: String,
}

/// A chunk of a reasoning signature in a `content_block_delta` event.
#[derive(Debug, PartialEq)]
pub struct StreamThinkingSignatureDelta {
    pub delta_type: String,
    pub signature: String,
}

/// A text delta for the content block at `index`.
#[derive(Debug, PartialEq)]
pub struct StreamTextBlock {
    pub block_type: String,
    pub index: u32,
    pub delta: StreamTextDelta,
}

/// A tool-arguments delta for the content block at `index`.
#[derive(Debug, PartialEq)]
pub struct StreamToolBlock {
    pub block_type: String,
    pub index: u32,
    pub delta: StreamToolDelta,
}

/// A reasoning delta for the content block at `index`.
#[derive(Debug, PartialEq)]
pub struct StreamThinkingBlock {
    pub block_type: String,
    pub index: u32,
    pub delta: StreamThinkingDelta,
}

/// A signature delta for the content block at `index`.
#[derive(Debug, PartialEq)]
pub struct StreamThinkingSignatureBlock {
    pub block_type: String,
    pub index: u32,
    pub delta: StreamThinkingSignatureDelta,
}

/// The payload of a `content_block_delta` event.
#[derive(Debug, PartialEq)]
pub enum StreamContentBlock {
    Text(StreamTextBlock),
    Tool(StreamToolBlock),
    Thinking(StreamThinkingBlock),
    ThinkingSignature(StreamThinkingSignatureBlock),
}

/// The payload of a `content_block_start` event: the block that opens at `index`.
#[derive(Debug, PartialEq)]
pub struct StreamContentStart {
    pub content_type: String,
    pub content_block: AntMessagePart,
    pub index: u32,
}

/// The payload of a `content_block_stop` event.
#[derive(Debug, PartialEq)]
pub struct StreamContentStop {
    pub content_type: String,
    pub index: u32,
}

/// The payload of an `error` event.
#[derive(Debug, PartialEq)]
pub struct StreamError {
    pub error_type: String,
    pub error: String,
}

/// The payload of a `message_start` event.
#[derive(Debug)]
pub struct StreamMessageStart {
    pub message_type: String,
    pub message: AntResponse,
}

/// The payload of a `message_delta` event.
#[derive(Debug, PartialEq)]
pub struct StreamMessageDelta {
    pub message_type: String,
    pub usage: AntUsage,
}

} // verus!
