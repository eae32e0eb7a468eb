//! The OpenAI chat completions wire format and its conversions to and from the
//! provider-independent model.

use vstd::prelude::*;
use vstd::string::*;

use crate::encoding::{
    char_index, has_no_match, has_prefix, is_white_space, lemma_char_index_concat,
    lemma_char_index_first, lemma_replaced_all_absent, lemma_trimmed_clean, replace_all,
    replace_first, replaced_all, replaced_first, split_once_char, starts_with, trim, trimmed,
};
use crate::errors::UnsupportedPartType;
use crate::types::{
    opt_text, reversed, AudioPart, ImagePart, LLMRequest, LLMResponse, LLMUsage, Message,
    MessagePart, MessageRole, OutputFormat, ReasoningEffort, TextPart, Tool, ToolCallPart,
    ToolChoice, ToolResultPart,
};

verus! {

/// Role of a message in the OpenAI format.
#[derive(Debug, Clone, Copy, PartialEq, Eq, Structural)]
pub enum OpenAIMessageRole {
    Developer,
    User,
    Assistant,
    Tool,
}

/// The OpenAI role of a message role: system messages are developer messages.
pub open spec fn openai_role_of(role: MessageRole) -> OpenAIMessageRole {
    match role {
        MessageRole::Assistant => OpenAIMessageRole::Assistant,
        MessageRole::System => OpenAIMessageRole::Developer,
        MessageRole::Tool => OpenAIMessageRole::Tool,
        MessageRole::User => OpenAIMessageRole::User,
    }
}

impl OpenAIMessageRole {
    /// Converts a message role.
    pub fn from_message_role(value: MessageRole) -> (res: Self)
        ensures
            res == openai_role_of(value),
    {
        match value {
            MessageRole::Assistant => OpenAIMessageRole::Assistant,
            MessageRole::System => OpenAIMessageRole::Developer,
            MessageRole::Tool => OpenAIMessageRole::Tool,
            MessageRole::User => OpenAIMessageRole::User,
        }
    }
}

/// A text content part.
#[derive(Debug, PartialEq)]
pub struct OpenAITextPart {
    pub part_type: String,
    pub text: String,
}

/// An image content part, referenced by URL (a `data:` URL for base64 data).
#[derive(Debug, PartialEq)]
pub struct OpenAIImagePart {
    pub part_type: String,
    pub image_url: String,
}

/// Base64 audio data with its format.
#[derive(Debug, PartialEq)]
pub struct OpenAIInputAudio {
    pub data: String,
    pub format: String,
}

/// An audio content part.
#[derive(Debug, PartialEq)]
pub struct OpenAIAudioPart {
    pub part_type: String,
    pub input_audio: OpenAIInputAudio,
}

/// The function called by a tool call.
#[derive(Debug, PartialEq)]
pub struct OpenAIFunctionCall {
    pub name: String,
    pub arguments: String,
}

/// A tool call made by the assistant.
#[derive(Debug, PartialEq)]
pub struct OpenAIToolCallPart {
    pub id: String,
    pub function: OpenAIFunctionCall,
    pub part_type: String,
}

/// The result of a tool call.
#[derive(Debug, PartialEq)]
pub struct OpenAIToolResultPart {
    pub tool_call_id: String,
    pub content: String,
}

/// A content part of an OpenAI message.
#[derive(Debug, PartialEq)]
pub enum OpenAIMessagePart {
    Text(OpenAITextPart),
    Audio(OpenAIAudioPart),
    Image(OpenAIImagePart),
    ToolCall(OpenAIToolCallPart),
    ToolResult(OpenAIToolResultPart),
}

/// The URL an image is sent under: a `data:` URL holding the media type and the
/// data when the image is base64 data, the image's own URL otherwise.
pub open spec fn image_url_text(i: ImagePart) -> Seq<char> {
    if i.is_base64 {
        "data:"@ + i.mime_type->Some_0@ + ";base64,"@ + i.data@
    } else {
        i.data@
    }
}

/// `o` is the OpenAI form of the tool call `t`.
pub open spec fn is_openai_tool_call(o: OpenAIToolCallPart, t: ToolCallPart) -> bool {
    &&& o.id == t.id
    &&& o.function.name == t.name
    &&& o.function.arguments == t.arguments
    &&& o.part_type@ == "function"@
}

/// `o` is the OpenAI form of the message part `p` (thinking and documents have none).
pub open spec fn is_openai_part(o: OpenAIMessagePart, p: MessagePart) -> bool {
    match p {
        MessagePart::Text(t) => o matches OpenAIMessagePart::Text(x) && x.part_type@ == "text"@
            && x.text == t.text,
        MessagePart::Image(i) => o matches OpenAIMessagePart::Image(x) && x.part_type@
            == "image_url"@ && x.image_url@ == image_url_text(i),
        MessagePart::Audio(a) => o matches OpenAIMessagePart::Audio(x) && x.part_type@
            == "input_audio"@ && x.input_audio.data == a.data && x.input_audio.format
            == a.mime_type,
        MessagePart::ToolCall(t) => o matches OpenAIMessagePart::ToolCall(x)
            && is_openai_tool_call(x, t),
        MessagePart::ToolResult(r) => o matches OpenAIMessagePart::ToolResult(x) && x.tool_call_id
            == r.tool_call_id && x.content == r.result,
        _ => false,
    }
}

/// The part type reported when a message part has no OpenAI form.
pub open spec fn openai_part_refusal(p: MessagePart) -> Option<Seq<char>> {
    match p {
        MessagePart::Thinking(_) => Some("thinking"@),
        MessagePart::Document(_) => Some("unknown"@),
        _ => None,
    }
}

/// A message part can be converted without failing: base64 image data comes with a
/// media type.
pub open spec fn openai_part_convertible(p: MessagePart) -> bool {
    p matches MessagePart::Image(i) ==> (i.is_base64 ==> i.mime_type is Some)
}

/// The error for a part type that the OpenAI format does not take.
fn openai_refusal(part_type: &str) -> (res: UnsupportedPartType)
    ensures
        res.part_type@ == part_type@,
        res.api_type@ == "openai"@,
{
    UnsupportedPartType { part_type: part_type.to_owned(), api_type: String::from_str("openai") }
}

impl OpenAIImagePart {
    /// Converts an image part: base64 data becomes a `data:` URL.
    pub fn from_image_part(value: ImagePart) -> (res: Self)
        requires
            value.is_base64 ==> value.mime_type is Some,
        ensures
            res.part_type@ == "image_url"@,
            res.image_url@ == image_url_text(value),
    {
        let image_url = if value.is_base64 {
            let mut url = String::from_str("data:");
            match &value.mime_type {
                Some(m) => url.append(m.as_str()),
                None => {},
            }
            url.append(";base64,");
            url.append(value.data.as_str());
            url
        } else {
            value.data
        };
        Self { part_type: String::from_str("image_url"), image_url }
    }
}

impl OpenAIMessagePart {
    /// Converts a message part; thinking parts and documents are refused.
    pub fn try_from_part(value: MessagePart) -> (res: Result<Self, UnsupportedPartType>)
        requires
            openai_part_convertible(value),
        ensures
            match res {
                Ok(o) => openai_part_refusal(value) is None && is_openai_part(o, value),
                Err(e) => openai_part_refusal(value) == Some(e.part_type@) && e.api_type@
                    == "openai"@,
            },
    {
        match value {
            MessagePart::Text(t) => Ok(
                OpenAIMessagePart::Text(
                    OpenAITextPart { part_type: String::from_str("text"), text: t.text },
                ),
            ),
            MessagePart::Audio(a) => Ok(
                OpenAIMessagePart::Audio(
                    OpenAIAudioPart {
                        part_type: String::from_str("input_audio"),
                        input_audio: OpenAIInputAudio { data: a.data, format: a.mime_type },
                    },
                ),
            ),
            MessagePart::Image(i) => Ok(OpenAIMessagePart::Image(OpenAIImagePart::from_image_part(i))),
            MessagePart::Thinking(_) => Err(openai_refusal("thinking")),
            MessagePart::ToolCall(tc) => Ok(
                OpenAIMessagePart::ToolCall(
                    OpenAIToolCallPart {
                        id: tc.id,
                        function: OpenAIFunctionCall { name: tc.name, arguments: tc.arguments },
                        part_type: String::from_str("function"),
                    },
                ),
            ),
            MessagePart::ToolResult(tr) => Ok(
                OpenAIMessagePart::ToolResult(
                    OpenAIToolResultPart { tool_call_id: tr.tool_call_id, content: tr.result },
                ),
            ),
            MessagePart::Document(_) => Err(openai_refusal("unknown")),
        }
    }
}

/// A user or developer message.
#[derive(Debug)]
pub struct OpenAISimpleMessage {
    pub role: OpenAIMessageRole,
    pub content: Vec<OpenAIMessagePart>,
}

/// An assistant message, with the tool calls it makes.
#[derive(Debug)]
pub struct OpenAIAssistantMessage {
    pub role: OpenAIMessageRole,
    pub content: Vec<OpenAIMessagePart>,
    pub tool_calls: Option<Vec<OpenAIToolCallPart>>,
}

/// A message carrying the result of a tool call.
#[derive(Debug)]
pub struct OpenAIToolResultMessage {
    pub role: OpenAIMessageRole,
    pub content: String,
    pub tool_call_id: String,
}

/// A message in the OpenAI format.
#[derive(Debug)]
pub enum OpenAIMessage {
    User(OpenAISimpleMessage),
    Developer(OpenAISimpleMessage),
    Assistant(OpenAIAssistantMessage),
    Tool(OpenAIToolResultMessage),
}

/// The part type reported when the part `p` may not stand in a message of role
/// `role` (not a tool message): its own refusal first, then tool calls and results
/// outside an assistant message, and tool results in one.
pub open spec fn openai_role_part_refusal(role: MessageRole, p: MessagePart) -> Option<Seq<char>> {
    match openai_part_refusal(p) {
        Some(t) => Some(t),
        None => if role == MessageRole::Assistant {
            if p is ToolResult {
                Some("tool_result (for assistant message)"@)
            } else {
                None
            }
        } else if p is ToolCall || p is ToolResult {
            Some("tool_call or tool_result (for user/system message)"@)
        } else {
            None
        },
    }
}

/// The first refusal among the parts of a message of role `role`, in order.
pub open spec fn first_part_refusal(role: MessageRole, parts: Seq<MessagePart>) -> Option<
    Seq<char>,
>
    decreases parts.len(),
{
    if parts.len() == 0 {
        None
    } else {
        match first_part_refusal(role, parts.drop_last()) {
            Some(t) => Some(t),
            None => openai_role_part_refusal(role, parts.last()),
        }
    }
}

/// The parts of a message that are not tool calls, in order.
pub open spec fn non_call_parts(parts: Seq<MessagePart>) -> Seq<MessagePart>
    decreases parts.len(),
{
    if parts.len() == 0 {
        Seq::empty()
    } else if parts.last() is ToolCall {
        non_call_parts(parts.drop_last())
    } else {
        non_call_parts(parts.drop_last()).push(parts.last())
    }
}

/// The tool calls of a message, in order.
pub open spec fn call_parts(parts: Seq<MessagePart>) -> Seq<ToolCallPart>
    decreases parts.len(),
{
    if parts.len() == 0 {
        Seq::empty()
    } else {
        match parts.last() {
            MessagePart::ToolCall(t) => call_parts(parts.drop_last()).push(t),
            _ => call_parts(parts.drop_last()),
        }
    }
}

/// Each OpenAI part is the form of the part at the same position.
pub open spec fn parts_agree(os: Seq<OpenAIMessagePart>, ps: Seq<MessagePart>) -> bool {
    os.len() == ps.len() && forall|i: int| 0 <= i < ps.len() ==> is_openai_part(#[trigger] os[i], ps[i])
}

/// Each OpenAI tool call is the form of the call at the same position.
pub open spec fn calls_agree(os: Seq<OpenAIToolCallPart>, ts: Seq<ToolCallPart>) -> bool {
    os.len() == ts.len() && forall|i: int|
        0 <= i < ts.len() ==> is_openai_tool_call(#[trigger] os[i], ts[i])
}

/// The part type reported when the message `m` has no OpenAI form: a tool message
/// must hold exactly one part, a tool result; other messages report their first
/// refused part.
pub open spec fn openai_message_refusal(m: Message) -> Option<Seq<char>> {
    if m.role == MessageRole::Tool {
        if m.content@.len() != 1 {
            Some("multiple tool results"@)
        } else {
            match openai_part_refusal(m.content@[0]) {
                Some(t) => Some(t),
                None => if m.content@[0] is ToolResult {
                    None
                } else {
                    Some("non-tool_result parts are not supported as tool results"@)
                },
            }
        }
    } else {
        first_part_refusal(m.role, m.content@)
    }
}

/// A message can be converted without failing: every part that the conversion
/// reaches is convertible.
pub open spec fn openai_message_convertible(m: Message) -> bool {
    if m.role == MessageRole::Tool {
        m.content@.len() == 1 ==> openai_part_convertible(m.content@[0])
    } else {
        forall|i: int|
            0 <= i < m.content@.len() && first_part_refusal(m.role, m.content@.subrange(0, i))
                is None ==> openai_part_convertible(#[trigger] m.content@[i])
    }
}

/// `o` is the OpenAI form of the message `m`: user and system messages keep their
/// parts, an assistant message sends its tool calls apart from its other parts, and
/// a tool message carries the result of its one part.
pub open spec fn is_openai_message(o: OpenAIMessage, m: Message) -> bool {
    match m.role {
        MessageRole::Assistant => o matches OpenAIMessage::Assistant(a) && {
            &&& a.role == OpenAIMessageRole::Assistant
            &&& parts_agree(a.content@, non_call_parts(m.content@))
            &&& if call_parts(m.content@).len() == 0 {
                a.tool_calls is None
            } else {
                a.tool_calls matches Some(v) && calls_agree(v@, call_parts(m.content@))
            }
        },
        MessageRole::Tool => o matches OpenAIMessage::Tool(t) && {
            &&& t.role == OpenAIMessageRole::Tool
            &&& m.content@[0] matches MessagePart::ToolResult(r) && t.content == r.result
                && t.tool_call_id == r.tool_call_id
        },
        _ => o matches OpenAIMessage::User(u) && {
            &&& u.role == openai_role_of(m.role)
            &&& parts_agree(u.content@, non_call_parts(m.content@))
        },
    }
}

/// The role an OpenAI message is sent with.
pub open spec fn openai_message_role(o: OpenAIMessage) -> OpenAIMessageRole {
    match o {
        OpenAIMessage::User(u) => u.role,
        OpenAIMessage::Developer(u) => u.role,
        OpenAIMessage::Assistant(a) => a.role,
        OpenAIMessage::Tool(t) => t.role,
    }
}

/// The roles sent to OpenAI: user, assistant and tool messages keep their role,
/// and only a system message is sent as a developer message.
pub proof fn lemma_openai_roles(role: MessageRole)
    ensures
        role == MessageRole::User ==> openai_role_of(role) == OpenAIMessageRole::User,
        role == MessageRole::Assistant ==> openai_role_of(role) == OpenAIMessageRole::Assistant,
        role == MessageRole::Tool ==> openai_role_of(role) == OpenAIMessageRole::Tool,
        openai_role_of(role) == OpenAIMessageRole::Developer <==> role == MessageRole::System,
{
}

/// A converted message is spoken by the same party: a user message is sent with the
/// user role, an assistant message with the assistant role, a tool message with
/// the tool role, and a system message with the developer role.
pub proof fn lemma_openai_message_keeps_speaker(o: OpenAIMessage, m: Message)
    requires
        is_openai_message(o, m),
    ensures
        m.role == MessageRole::User ==> openai_message_role(o) == OpenAIMessageRole::User,
        m.role == MessageRole::Assistant ==> openai_message_role(o)
            == OpenAIMessageRole::Assistant,
        m.role == MessageRole::Tool ==> openai_message_role(o) == OpenAIMessageRole::Tool,
        m.role == MessageRole::System ==> openai_message_role(o)
            == OpenAIMessageRole::Developer,
{
    lemma_openai_roles(m.role);
}

/// Every message of an OpenAI request is sent, in order, by the party that spoke
/// it: the `i`-th message sent has the user role exactly for a user message, the
/// assistant role for an assistant message, the tool role for a tool message, and
/// the developer role for a system message.
pub proof fn lemma_openai_request_keeps_speakers(r: OpenAIRequest, v: LLMRequest)
    requires
        is_openai_request(r, v),
    ensures
        r.messages@.len() == v.messages@.len(),
        forall|i: int|
            0 <= i < v.messages@.len() ==> {
                &&& (openai_message_role(#[trigger] r.messages@[i]) == OpenAIMessageRole::User
                    <==> v.messages@[i].role == MessageRole::User)
                &&& (openai_message_role(r.messages@[i]) == OpenAIMessageRole::Assistant
                    <==> v.messages@[i].role == MessageRole::Assistant)
                &&& (openai_message_role(r.messages@[i]) == OpenAIMessageRole::Tool
                    <==> v.messages@[i].role == MessageRole::Tool)
                &&& (openai_message_role(r.messages@[i]) == OpenAIMessageRole::Developer
                    <==> v.messages@[i].role == MessageRole::System)
            },
{
    assert forall|i: int| 0 <= i < v.messages@.len() implies {
        &&& (openai_message_role(#[trigger] r.messages@[i]) == OpenAIMessageRole::User
            <==> v.messages@[i].role == MessageRole::User)
        &&& (openai_message_role(r.messages@[i]) == OpenAIMessageRole::Assistant
            <==> v.messages@[i].role == MessageRole::Assistant)
        &&& (openai_message_role(r.messages@[i]) == OpenAIMessageRole::Tool
            <==> v.messages@[i].role == MessageRole::Tool)
        &&& (openai_message_role(r.messages@[i]) == OpenAIMessageRole::Developer
            <==> v.messages@[i].role == MessageRole::System)
    } by {
        assert(is_openai_message(r.messages@[i], v.messages@[i]));
        lemma_openai_message_keeps_speaker(r.messages@[i], v.messages@[i]);
    }
}

/// The parts of a message that are not tool calls are those kept by a filter.
proof fn lemma_non_call_parts_filter(ps: Seq<MessagePart>)
    ensures
        non_call_parts(ps) == ps.filter(|p: MessagePart| !(p is ToolCall)),
    decreases ps.len(),
{
    if ps.len() > 0 {
        lemma_non_call_parts_filter(ps.drop_last());
        assert(ps.drop_last().push(ps.last()) =~= ps);
        ps.drop_last().lemma_filter_push(ps.last(), |p: MessagePart| !(p is ToolCall));
    } else {
        reveal(Seq::filter);
    }
}

/// The tool calls of a message are its tool-call parts, kept by a filter.
proof fn lemma_call_parts_filter(ps: Seq<MessagePart>)
    ensures
        call_parts(ps) == ps.filter(|p: MessagePart| p is ToolCall).map_values(
            |p: MessagePart| p->ToolCall_0,
        ),
    decreases ps.len(),
{
    let is_call = |p: MessagePart| p is ToolCall;
    let get = |p: MessagePart| p->ToolCall_0;
    if ps.len() > 0 {
        lemma_call_parts_filter(ps.drop_last());
        assert(ps.drop_last().push(ps.last()) =~= ps);
        ps.drop_last().lemma_filter_push(ps.last(), is_call);
        let f = ps.drop_last().filter(is_call);
        assert(f.push(ps.last()).map_values(get) =~= f.map_values(get).push(get(ps.last())));
    } else {
        reveal(Seq::filter);
        assert(ps.filter(is_call).map_values(get) =~= Seq::<ToolCallPart>::empty());
    }
}

/// An assistant message sent to OpenAI keeps all its tool calls, in order, apart
/// from its other parts: its content has one part for each part that is not a tool
/// call, and its tool calls are absent when it makes none and otherwise carry the id,
/// name and arguments of each call it makes.
pub proof fn lemma_openai_assistant_keeps_calls(o: OpenAIMessage, m: Message)
    requires
        is_openai_message(o, m),
        m.role == MessageRole::Assistant,
    ensures
        o matches OpenAIMessage::Assistant(a) && a.content@.len() == m.content@.filter(
            |p: MessagePart| !(p is ToolCall),
        ).len(),
        m.content@.filter(|p: MessagePart| p is ToolCall).len() == 0 ==> (
        o matches OpenAIMessage::Assistant(a) && a.tool_calls is None),
        m.content@.filter(|p: MessagePart| p is ToolCall).len() > 0 ==> (
        o matches OpenAIMessage::Assistant(a) && a.tool_calls matches Some(v) && v@.len()
            == m.content@.filter(|p: MessagePart| p is ToolCall).len() && forall|i: int|
            0 <= i < v@.len() ==> (m.content@.filter(|p: MessagePart| p is ToolCall)[i] matches MessagePart::ToolCall(
            t,
        ) && (#[trigger] v@[i]).id == t.id && v@[i].function.name == t.name
            && v@[i].function.arguments == t.arguments)),
{
    let is_call = |p: MessagePart| p is ToolCall;
    lemma_non_call_parts_filter(m.content@);
    lemma_call_parts_filter(m.content@);
    let calls = m.content@.filter(is_call);
    if calls.len() > 0 {
        if let OpenAIMessage::Assistant(a) = o {
            if let Some(v) = a.tool_calls {
                assert forall|i: int| 0 <= i < v@.len() implies (calls[i] matches MessagePart::ToolCall(
                    t,
                ) && (#[trigger] v@[i]).id == t.id && v@[i].function.name == t.name
                    && v@[i].function.arguments == t.arguments) by {
                    m.content@.lemma_filter_pred(is_call, i);
                    assert(is_openai_tool_call(v@[i], call_parts(m.content@)[i]));
                }
            }
        }
    }
}

/// The effort sent to OpenAI: every level keeps its own name, and `maximum`, which
/// OpenAI does not know, is sent as its highest level, `xhigh`.
pub proof fn lemma_openai_efforts(e: ReasoningEffort)
    ensures
        e == ReasoningEffort::NoReasoning ==> openai_effort_of(e)
            == OpenAIReasoningEffort::NoReasoning,
        e == ReasoningEffort::Minimal ==> openai_effort_of(e) == OpenAIReasoningEffort::Minimal,
        e == ReasoningEffort::Low ==> openai_effort_of(e) == OpenAIReasoningEffort::Low,
        e == ReasoningEffort::Medium ==> openai_effort_of(e) == OpenAIReasoningEffort::Medium,
        e == ReasoningEffort::High ==> openai_effort_of(e) == OpenAIReasoningEffort::High,
        openai_effort_of(e) == OpenAIReasoningEffort::Xhigh <==> (e == ReasoningEffort::Xhigh
            || e == ReasoningEffort::Maximum),
{
}

/// A refusal among the first parts is the first refusal of all of them.
proof fn lemma_first_refusal_prefix(role: MessageRole, parts: Seq<MessagePart>, j: int)
    requires
        0 <= j <= parts.len(),
        first_part_refusal(role, parts.subrange(0, j)) is Some,
    ensures
        first_part_refusal(role, parts) == first_part_refusal(role, parts.subrange(0, j)),
    decreases parts.len(),
{
    if j == parts.len() {
        assert(parts.subrange(0, j) =~= parts);
    } else {
        let r = parts.drop_last();
        assert(r.subrange(0, j) =~= parts.subrange(0, j));
        lemma_first_refusal_prefix(role, r, j);
    }
}

/// One more part: its refusal, if any, is the first refusal of all the parts, and
/// otherwise it joins the parts or the tool calls.
proof fn lemma_next_part(role: MessageRole, all: Seq<MessagePart>, i: int)
    requires
        0 <= i < all.len(),
        first_part_refusal(role, all.subrange(0, i)) is None,
    ensures
        first_part_refusal(role, all.subrange(0, i + 1)) == openai_role_part_refusal(role, all[i]),
        openai_role_part_refusal(role, all[i]) is Some ==> first_part_refusal(role, all)
            == openai_role_part_refusal(role, all[i]),
        non_call_parts(all.subrange(0, i + 1)) == if all[i] is ToolCall {
            non_call_parts(all.subrange(0, i))
        } else {
            non_call_parts(all.subrange(0, i)).push(all[i])
        },
        call_parts(all.subrange(0, i + 1)) == match all[i] {
            MessagePart::ToolCall(t) => call_parts(all.subrange(0, i)).push(t),
            _ => call_parts(all.subrange(0, i)),
        },
{
    let prefix = all.subrange(0, i + 1);
    assert(prefix.drop_last() =~= all.subrange(0, i));
    assert(prefix.last() == all[i]);
    if openai_role_part_refusal(role, all[i]) is Some {
        lemma_first_refusal_prefix(role, all, i + 1);
    }
}

/// Converts the parts of a message of role `role` (not a tool message) in order:
/// gives back the OpenAI forms of the parts that are not tool calls and those of
/// the tool calls, or the first refusal.
#[verifier::rlimit(50)]
fn convert_parts(role: MessageRole, parts: Vec<MessagePart>) -> (res: Result<
    (Vec<OpenAIMessagePart>, Vec<OpenAIToolCallPart>),
    UnsupportedPartType,
>)
    requires
        role != MessageRole::Tool,
        forall|i: int|
            0 <= i < parts@.len() && first_part_refusal(role, parts@.subrange(0, i)) is None
                ==> openai_part_convertible(#[trigger] parts@[i]),
    ensures
        match res {
            Ok(r) => first_part_refusal(role, parts@) is None && parts_agree(
                r.0@,
                non_call_parts(parts@),
            ) && calls_agree(r.1@, call_parts(parts@)),
            Err(e) => first_part_refusal(role, parts@) == Some(e.part_type@) && e.api_type@
                == "openai"@,
        },
{
    let is_assistant = role == MessageRole::Assistant;
    let ghost all = parts@;
    let n = parts.len();
    let mut rest = reversed(parts);
    let mut content: Vec<OpenAIMessagePart> = Vec::new();
    let mut calls: Vec<OpenAIToolCallPart> = Vec::new();
    let mut i: usize = 0;
    while rest.len() > 0
        invariant
            role != MessageRole::Tool,
            is_assistant == (role == MessageRole::Assistant),
            all == parts@,
            n == all.len(),
            i + rest@.len() == n,
            forall|k: int| 0 <= k < rest@.len() ==> #[trigger] rest@[k] == all[n - 1 - k],
            forall|k: int|
                0 <= k < all.len() && first_part_refusal(role, all.subrange(0, k)) is None
                    ==> openai_part_convertible(#[trigger] all[k]),
            first_part_refusal(role, all.subrange(0, i as int)) is None,
            parts_agree(content@, non_call_parts(all.subrange(0, i as int))),
            calls_agree(calls@, call_parts(all.subrange(0, i as int))),
        decreases rest@.len(),
    {
        let p = rest.pop().unwrap();
        proof {
            assert(p == all[i as int]);
            lemma_next_part(role, all, i as int);
        }
        let part = match OpenAIMessagePart::try_from_part(p) {
            Ok(x) => x,
            Err(e) => {
                return Err(e);
            },
        };
        match part {
            OpenAIMessagePart::ToolCall(tc) => {
                if !is_assistant {
                    return Err(
                        openai_refusal("tool_call or tool_result (for user/system message)"),
                    );
                }
                calls.push(tc);
            },
            OpenAIMessagePart::ToolResult(_) => {
                if is_assistant {
                    return Err(openai_refusal("tool_result (for assistant message)"));
                } else {
                    return Err(
                        openai_refusal("tool_call or tool_result (for user/system message)"),
                    );
                }
            },
            other => {
                content.push(other);
            },
        }
        i = i + 1;
    }
    proof {
        assert(all.subrange(0, n as int) =~= all);
    }
    Ok((content, calls))
}

impl OpenAIMessage {
    /// Converts a message; the parts are converted in order and the first refusal is
    /// reported.
    pub fn try_from_message(value: Message) -> (res: Result<Self, UnsupportedPartType>)
        requires
            openai_message_convertible(value),
        ensures
            match res {
                Ok(o) => openai_message_refusal(value) is None && is_openai_message(o, value),
                Err(e) => openai_message_refusal(value) == Some(e.part_type@) && e.api_type@
                    == "openai"@,
            },
    {
        let role = value.role;
        if role == MessageRole::Tool {
            if value.content.len() != 1 {
                return Err(openai_refusal("multiple tool results"));
            }
            let ghost parts = value.content@;
            let mut content = value.content;
            let p = content.pop().unwrap();
            assert(p == parts[0]);
            return match OpenAIMessagePart::try_from_part(p) {
                Err(e) => Err(e),
                Ok(OpenAIMessagePart::ToolResult(t)) => Ok(
                    OpenAIMessage::Tool(
                        OpenAIToolResultMessage {
                            role: OpenAIMessageRole::Tool,
                            content: t.content,
                            tool_call_id: t.tool_call_id,
                        },
                    ),
                ),
                Ok(_) => Err(
                    openai_refusal("non-tool_result parts are not supported as tool results"),
                ),
            };
        }
        match convert_parts(role, value.content) {
            Err(e) => Err(e),
            Ok((content, calls)) => {
                if role == MessageRole::Assistant {
                    let tool_calls = if calls.len() == 0 {
                        None
                    } else {
                        Some(calls)
                    };
                    Ok(
                        OpenAIMessage::Assistant(
                            OpenAIAssistantMessage {
                                role: OpenAIMessageRole::Assistant,
                                content,
                                tool_calls,
                            },
                        ),
                    )
                } else {
                    Ok(
                        OpenAIMessage::User(
                            OpenAISimpleMessage {
                                role: OpenAIMessageRole::from_message_role(role),
                                content,
                            },
                        ),
                    )
                }
            },
        }
    }
}

// ---------------------------------------------------------------------------
// Back to the provider-independent model
// ---------------------------------------------------------------------------

/// An image URL can be read back: a `data:` URL holds a `;` after its media type.
pub open spec fn image_url_readable(url: Seq<char>) -> bool {
    has_prefix(url, "data:"@) ==> url.contains(';')
}

/// `i` is the image part that the URL `url` stands for: a `data:` URL gives its
/// media type (without `data:` and trimmed) and its data (without the first
/// `base64,`); any other URL is kept as a URL.
pub open spec fn is_image_of_url(i: ImagePart, url: String) -> bool {
    if has_prefix(url@, "data:"@) {
        let k = char_index(url@, ';');
        &&& i.is_base64
        &&& i.mime_type matches Some(m) && m@ == trimmed(
            replaced_all(url@.subrange(0, k), "data:"@, ""@),
        )
        &&& i.data@ == replaced_first(url@.subrange(k + 1, url@.len() as int), "base64,"@, ""@)
    } else {
        &&& !i.is_base64
        &&& i.mime_type is None
        &&& i.data == url
    }
}

impl ImagePart {
    /// Reads an image back from the URL it was sent under.
    pub fn from_openai_url(url: String) -> (res: Self)
        requires
            image_url_readable(url@),
        ensures
            is_image_of_url(res, url),
    {
        proof {
            reveal_strlit("data:");
        }
        if starts_with(url.as_str(), "data:") {
            match split_once_char(url.as_str(), ';') {
                Some((split, data)) => {
                    let without_scheme = replace_all(split.as_str(), "data:", "");
                    let format = trim(without_scheme.as_str());
                    let data = replace_first(data.as_str(), "base64,", "");
                    ImagePart { data, is_base64: true, mime_type: Some(format) }
                },
                None => {
                    proof {
                        assert(false);
                    }
                    ImagePart { data: url, is_base64: false, mime_type: None }
                },
            }
        } else {
            ImagePart { data: url, is_base64: false, mime_type: None }
        }
    }
}

/// Whether the OpenAI part is one that a user message is read back with: text,
/// audio or an image.
pub open spec fn is_user_content(o: OpenAIMessagePart) -> bool {
    o is Text || o is Audio || o is Image
}

/// The parts of a user message that are read back, in order.
pub open spec fn user_content(os: Seq<OpenAIMessagePart>) -> Seq<OpenAIMessagePart>
    decreases os.len(),
{
    if os.len() == 0 {
        Seq::empty()
    } else if is_user_content(os.last()) {
        user_content(os.drop_last()).push(os.last())
    } else {
        user_content(os.drop_last())
    }
}

/// The text parts of a message, in order.
pub open spec fn text_content(os: Seq<OpenAIMessagePart>) -> Seq<OpenAIMessagePart>
    decreases os.len(),
{
    if os.len() == 0 {
        Seq::empty()
    } else if os.last() is Text {
        text_content(os.drop_last()).push(os.last())
    } else {
        text_content(os.drop_last())
    }
}

/// `p` is the message part that the OpenAI text, audio or image part `o` stands for.
pub open spec fn is_part_of_openai(p: MessagePart, o: OpenAIMessagePart) -> bool {
    match o {
        OpenAIMessagePart::Text(t) => p == MessagePart::Text(TextPart { text: t.text }),
        OpenAIMessagePart::Audio(a) => p == MessagePart::Audio(
            AudioPart { data: a.input_audio.data, mime_type: a.input_audio.format },
        ),
        OpenAIMessagePart::Image(i) => p matches MessagePart::Image(x) && is_image_of_url(
            x,
            i.image_url,
        ),
        _ => false,
    }
}

/// Each message part is the one that the OpenAI part at the same position stands for.
pub open spec fn parts_of_openai(ps: Seq<MessagePart>, os: Seq<OpenAIMessagePart>) -> bool {
    ps.len() == os.len() && forall|i: int| 0 <= i < os.len() ==> is_part_of_openai(#[trigger] ps[i], os[i])
}

/// The tool call that an OpenAI tool call stands for.
pub open spec fn tool_call_of_openai(o: OpenAIToolCallPart) -> ToolCallPart {
    ToolCallPart { id: o.id, name: o.function.name, arguments: o.function.arguments }
}

/// The tool calls that some OpenAI tool calls stand for, in order.
pub open spec fn tool_calls_of_openai(os: Seq<OpenAIToolCallPart>) -> Seq<MessagePart> {
    os.map_values(|o: OpenAIToolCallPart| MessagePart::ToolCall(tool_call_of_openai(o)))
}

/// The parts of each OpenAI image part in `os` can be read back.
pub open spec fn images_readable(os: Seq<OpenAIMessagePart>) -> bool {
    forall|i: int|
        0 <= i < os.len() ==> (#[trigger] os[i] matches OpenAIMessagePart::Image(x)
            ==> image_url_readable(x.image_url@))
}

/// Reads back the parts of `os` that `keep_all` selects: text, audio and images
/// when it is set, text alone otherwise.
fn read_back_parts(os: Vec<OpenAIMessagePart>, keep_all: bool) -> (res: Vec<MessagePart>)
    requires
        keep_all ==> images_readable(os@),
    ensures
        keep_all ==> parts_of_openai(res@, user_content(os@)),
        !keep_all ==> parts_of_openai(res@, text_content(os@)),
{
    let ghost all = os@;
    let n = os.len();
    let mut rest = reversed(os);
    let mut res: Vec<MessagePart> = Vec::new();
    let mut i: usize = 0;
    while rest.len() > 0
        invariant
            n == all.len(),
            i + rest@.len() == n,
            forall|k: int| 0 <= k < rest@.len() ==> #[trigger] rest@[k] == all[n - 1 - k],
            keep_all ==> images_readable(all),
            keep_all ==> parts_of_openai(res@, user_content(all.subrange(0, i as int))),
            !keep_all ==> parts_of_openai(res@, text_content(all.subrange(0, i as int))),
        decreases rest@.len(),
    {
        let o = rest.pop().unwrap();
        let ghost prefix = all.subrange(0, i + 1);
        proof {
            assert(o == all[i as int]);
            assert(prefix.drop_last() =~= all.subrange(0, i as int));
            assert(prefix.last() == o);
        }
        match o {
            OpenAIMessagePart::Text(t) => {
                res.push(MessagePart::Text(TextPart { text: t.text }));
            },
            OpenAIMessagePart::Audio(a) => {
                if keep_all {
                    res.push(
                        MessagePart::Audio(
                            AudioPart { data: a.input_audio.data, mime_type: a.input_audio.format },
                        ),
                    );
                }
            },
            OpenAIMessagePart::Image(img) => {
                if keep_all {
                    res.push(MessagePart::Image(ImagePart::from_openai_url(img.image_url)));
                }
            },
            _ => {},
        }
        i = i + 1;
    }
    proof {
        assert(all.subrange(0, n as int) =~= all);
    }
    res
}

/// Appends the tool calls that the OpenAI tool calls stand for.
fn push_tool_calls(parts: &mut Vec<MessagePart>, calls: Vec<OpenAIToolCallPart>)
    ensures
        final(parts)@ == old(parts)@ + tool_calls_of_openai(calls@),
{
    let ghost all = calls@;
    let ghost start = parts@;
    let n = calls.len();
    let mut rest = reversed(calls);
    let mut i: usize = 0;
    while rest.len() > 0
        invariant
            n == all.len(),
            i + rest@.len() == n,
            forall|k: int| 0 <= k < rest@.len() ==> #[trigger] rest@[k] == all[n - 1 - k],
            parts@ == start + tool_calls_of_openai(all.subrange(0, i as int)),
        decreases rest@.len(),
    {
        let tc = rest.pop().unwrap();
        proof {
            assert(tc == all[i as int]);
            assert(tool_calls_of_openai(all.subrange(0, i + 1)) =~= tool_calls_of_openai(
                all.subrange(0, i as int),
            ).push(MessagePart::ToolCall(tool_call_of_openai(tc))));
        }
        parts.push(
            MessagePart::ToolCall(
                ToolCallPart { id: tc.id, name: tc.function.name, arguments: tc.function.arguments },
            ),
        );
        i = i + 1;
    }
    proof {
        assert(all.subrange(0, n as int) =~= all);
    }
}

/// `m` is the message that the OpenAI message `o` stands for: a user message keeps
/// its text, audio and images, a developer message is a system message with its
/// text, an assistant message keeps its text and then its tool calls, and a tool
/// message is one tool result.
pub open spec fn is_message_of_openai(m: Message, o: OpenAIMessage) -> bool {
    match o {
        OpenAIMessage::User(u) => m.role == MessageRole::User && parts_of_openai(
            m.content@,
            user_content(u.content@),
        ),
        OpenAIMessage::Developer(d) => m.role == MessageRole::System && parts_of_openai(
            m.content@,
            text_content(d.content@),
        ),
        OpenAIMessage::Assistant(a) => m.role == MessageRole::Assistant && {
            let k = text_content(a.content@).len();
            &&& parts_of_openai(m.content@.subrange(0, k as int), text_content(a.content@))
            &&& m.content@.subrange(k as int, m.content@.len() as int) == match a.tool_calls {
                Some(v) => tool_calls_of_openai(v@),
                None => Seq::empty(),
            }
        },
        OpenAIMessage::Tool(t) => m.role == MessageRole::Tool && m.content@ == seq![
            MessagePart::ToolResult(
                ToolResultPart { tool_call_id: t.tool_call_id, result: t.content },
            ),
        ],
    }
}

/// The images of a message can be read back.
pub open spec fn openai_message_readable(o: OpenAIMessage) -> bool {
    o matches OpenAIMessage::User(u) ==> images_readable(u.content@)
}

impl OpenAIMessage {
    /// Reads a message back into the provider-independent model.
    pub fn into_message(self) -> (res: Message)
        requires
            openai_message_readable(self),
        ensures
            is_message_of_openai(res, self),
    {
        match self {
            OpenAIMessage::User(u) => Message {
                role: MessageRole::User,
                content: read_back_parts(u.content, true),
            },
            OpenAIMessage::Developer(d) => Message {
                role: MessageRole::System,
                content: read_back_parts(d.content, false),
            },
            OpenAIMessage::Assistant(a) => {
                let mut content = read_back_parts(a.content, false);
                let ghost texts = content@;
                match a.tool_calls {
                    Some(tcs) => {
                        let ghost calls = tool_calls_of_openai(tcs@);
                        push_tool_calls(&mut content, tcs);
                        assert(content@.subrange(texts.len() as int, content@.len() as int)
                            =~= calls);
                    },
                    None => {
                        assert(content@.subrange(texts.len() as int, content@.len() as int)
                            =~= Seq::<MessagePart>::empty());
                    },
                }
                assert(content@.subrange(0, texts.len() as int) =~= texts);
                Message { role: MessageRole::Assistant, content }
            },
            OpenAIMessage::Tool(t) => {
                let part = MessagePart::ToolResult(
                    ToolResultPart { tool_call_id: t.tool_call_id, result: t.content },
                );
                let ghost expected = part;
                let mut content: Vec<MessagePart> = Vec::new();
                content.push(part);
                assert(content@ =~= seq![expected]);
                Message { role: MessageRole::Tool, content }
            },
        }
    }
}

// ---------------------------------------------------------------------------
// Responses
// ---------------------------------------------------------------------------

/// Token counts of the prompt.
#[derive(Debug, Clone, Copy, PartialEq, Eq)]
pub struct OpenAIPromptTokensDetails {
    pub cached_tokens: u32,
    pub audio_tokens: u32,
}

/// Token counts of the completion.
#[derive(Debug, Clone, Copy, PartialEq, Eq)]
pub struct OpenAICompletionTokensDetails {
    pub reasoning_tokens: u32,
    pub audio_tokens: u32,
    pub accepted_prediction_tokens: u32,
    pub rejected_prediction_tokens: u32,
}

/// Token usage reported by the OpenAI API.
#[derive(Debug, Clone, Copy, PartialEq, Eq)]
pub struct OpenAIUsage {
    pub prompt_tokens: u32,
    pub completion_tokens: u32,
    pub total_tokens: u32,
    pub prompt_tokens_details: OpenAIPromptTokensDetails,
    pub completion_tokens_details: OpenAICompletionTokensDetails,
}

/// The audio and reasoning token counts of a usage report fit in a `u32` together.
pub open spec fn other_tokens_fit(u: OpenAIUsage) -> bool {
    u.prompt_tokens_details.audio_tokens + u.completion_tokens_details.audio_tokens
        + u.completion_tokens_details.reasoning_tokens <= u32::MAX
}

/// `l` reports the counts of the OpenAI usage `u`: cached prompt tokens are cache
/// reads, nothing is reported as cache writes, and one further counter, `other`,
/// holds the audio tokens of prompt and completion and the reasoning tokens
/// together.
pub open spec fn is_usage_of_openai(l: LLMUsage, u: OpenAIUsage) -> bool {
    &&& l.input_tokens == u.prompt_tokens
    &&& l.output_tokens == u.completion_tokens
    &&& l.cache_read_tokens == Some(u.prompt_tokens_details.cached_tokens)
    &&& l.cache_write_tokens is None
    &&& l.other_tokens matches Some(v) && v@.len() == 1 && v@[0].0@ == "other"@ && v@[0].1
        == u.prompt_tokens_details.audio_tokens + u.completion_tokens_details.audio_tokens
        + u.completion_tokens_details.reasoning_tokens
}

impl LLMUsage {
    /// Converts the usage reported by the OpenAI API.
    pub fn from_openai_usage(value: OpenAIUsage) -> (res: Self)
        requires
            other_tokens_fit(value),
        ensures
            is_usage_of_openai(res, value),
            res.wf(),
    {
        let mut other: Vec<(String, u32)> = Vec::new();
        other.push(
            (
                String::from_str("other"),
                value.prompt_tokens_details.audio_tokens
                    + value.completion_tokens_details.audio_tokens
                    + value.completion_tokens_details.reasoning_tokens,
            ),
        );
        LLMUsage {
            input_tokens: value.prompt_tokens,
            output_tokens: value.completion_tokens,
            cache_read_tokens: Some(value.prompt_tokens_details.cached_tokens),
            cache_write_tokens: None,
            other_tokens: Some(other),
        }
    }
}

/// The message of a chat completion choice.
#[derive(Debug)]
pub struct CompletionMessage {
    pub role: OpenAIMessageRole,
    pub content: String,
    pub tool_calls: Option<Vec<OpenAIToolCallPart>>,
}

/// `m` is the message of the completion message `c`: an assistant message with the
/// text and then the tool calls.
pub open spec fn is_message_of_completion(m: Message, c: CompletionMessage) -> bool {
    &&& m.role == MessageRole::Assistant
    &&& m.content@.len() >= 1
    &&& m.content@[0] == MessagePart::Text(TextPart { text: c.content })
    &&& m.content@.subrange(1, m.content@.len() as int) == match c.tool_calls {
        Some(v) => tool_calls_of_openai(v@),
        None => Seq::empty(),
    }
}

impl CompletionMessage {
    /// Reads the message back into the provider-independent model.
    pub fn into_message(self) -> (res: Message)
        ensures
            is_message_of_completion(res, self),
    {
        let first = MessagePart::Text(TextPart { text: self.content });
        let ghost expected = first;
        let mut content: Vec<MessagePart> = Vec::new();
        content.push(first);
        match self.tool_calls {
            Some(tcs) => {
                let ghost calls = tool_calls_of_openai(tcs@);
                push_tool_calls(&mut content, tcs);
                assert(content@.subrange(1, content@.len() as int) =~= calls);
            },
            None => {
                assert(content@.subrange(1, content@.len() as int) =~= Seq::<
                    MessagePart,
                >::empty());
            },
        }
        assert(content@[0] == expected);
        Message { role: MessageRole::Assistant, content }
    }
}

/// One choice of a chat completion.
#[derive(Debug)]
pub struct ChatCompletion {
    pub index: usize,
    pub message: CompletionMessage,
    pub finish_reason: String,
}

/// Response body returned by the OpenAI chat completions API.
#[derive(Debug)]
pub struct OpenAIResponse {
    pub id: String,
    pub created: u64,
    pub model: String,
    pub usage: OpenAIUsage,
    pub choices: Vec<ChatCompletion>,
}

impl LLMResponse {
    /// Converts an OpenAI response: the message of the first choice, or an empty
    /// assistant message when there is no choice.
    pub fn from_openai_response(value: OpenAIResponse) -> (res: Self)
        requires
            other_tokens_fit(value.usage),
        ensures
            res.id == value.id,
            res.created_at == Some(value.created),
            is_usage_of_openai(res.usage, value.usage),
            res.usage.wf(),
            value.choices@.len() > 0 ==> is_message_of_completion(
                res.message,
                value.choices@[0].message,
            ),
            value.choices@.len() == 0 ==> res.message.role == MessageRole::Assistant
                && res.message.content@.len() == 0,
    {
        let OpenAIResponse { id, created, model: _, usage, choices } = value;
        let ghost all = choices@;
        let message = if choices.len() > 0 {
            let mut choices = choices;
            let first = choices.remove(0);
            assert(first == all[0]);
            first.message.into_message()
        } else {
            Message { role: MessageRole::Assistant, content: Vec::new() }
        };
        LLMResponse {
            id,
            created_at: Some(created),
            message,
            usage: LLMUsage::from_openai_usage(usage),
        }
    }
}

// ---------------------------------------------------------------------------
// Requests
// ---------------------------------------------------------------------------

/// Prompt caching mode.
#[derive(Debug, Clone, Copy, PartialEq, Eq, Structural)]
pub enum PromptCacheMode {
    Implicit,
    Explicit,
}

impl Default for PromptCacheMode {
    fn default() -> (res: Self)
        ensures
            res == PromptCacheMode::Implicit,
    {
        PromptCacheMode::Implicit
    }
}

/// Prompt caching options of a request.
#[derive(Debug, PartialEq)]
pub struct PromptCacheOptions {
    pub mode: PromptCacheMode,
    pub ttl: String,
}

impl Default for PromptCacheOptions {
    fn default() -> (res: Self)
        ensures
            res.mode == PromptCacheMode::Implicit,
            res.ttl@ == "30m"@,
    {
        PromptCacheOptions { mode: PromptCacheMode::Implicit, ttl: String::from_str("30m") }
    }
}

/// Reasoning effort in the OpenAI format.
#[derive(Debug, Clone, Copy, PartialEq, Eq, Structural)]
pub enum OpenAIReasoningEffort {
    /// No reasoning (sent as `none`).
    NoReasoning,
    Minimal,
    Low,
    Medium,
    High,
    Xhigh,
}

/// The OpenAI effort of a reasoning effort: `maximum` is sent as `xhigh`.
pub open spec fn openai_effort_of(e: ReasoningEffort) -> OpenAIReasoningEffort {
    match e {
        ReasoningEffort::NoReasoning => OpenAIReasoningEffort::NoReasoning,
        ReasoningEffort::Minimal => OpenAIReasoningEffort::Minimal,
        ReasoningEffort::Low => OpenAIReasoningEffort::Low,
        ReasoningEffort::Medium => OpenAIReasoningEffort::Medium,
        ReasoningEffort::High => OpenAIReasoningEffort::High,
        ReasoningEffort::Xhigh => OpenAIReasoningEffort::Xhigh,
        ReasoningEffort::Maximum => OpenAIReasoningEffort::Xhigh,
    }
}

impl OpenAIReasoningEffort {
    /// Converts a reasoning effort.
    pub fn from_reasoning_effort(value: ReasoningEffort) -> (res: Self)
        ensures
            res == openai_effort_of(value),
    {
        match value {
            ReasoningEffort::NoReasoning => OpenAIReasoningEffort::NoReasoning,
            ReasoningEffort::Minimal => OpenAIReasoningEffort::Minimal,
            ReasoningEffort::Low => OpenAIReasoningEffort::Low,
            ReasoningEffort::Medium => OpenAIReasoningEffort::Medium,
            ReasoningEffort::High => OpenAIReasoningEffort::High,
            ReasoningEffort::Xhigh => OpenAIReasoningEffort::Xhigh,
            ReasoningEffort::Maximum => OpenAIReasoningEffort::Xhigh,
        }
    }
}

/// Kind of a structured response format.
#[derive(Debug, Clone, Copy, PartialEq, Eq, Structural)]
pub enum ResponseFormatType {
    JsonSchema,
}

impl Default for ResponseFormatType {
    fn default() -> (res: Self)
        ensures
            res == ResponseFormatType::JsonSchema,
    {
        ResponseFormatType::JsonSchema
    }
}

/// Structured response format of a request.
#[derive(Debug)]
pub struct ResponseFormat {
    pub format_type: ResponseFormatType,
    pub json_schema: OutputFormat,
}

/// Serialized request body sent to the OpenAI chat completions API.
///
/// `temperature` and `top_p` are bits of `f32` values, as in [`LLMRequest`].
#[derive(Debug)]
pub struct OpenAIRequest {
    pub model: String,
    pub messages: Vec<OpenAIMessage>,
    pub max_completion_tokens: Option<u32>,
    pub temperature: Option<u32>,
    pub top_p: Option<u32>,
    pub prompt_cache_options: Option<PromptCacheOptions>,
    pub reasoning_effort: Option<OpenAIReasoningEffort>,
    pub tools: Option<Vec<Tool>>,
    pub tool_choice: Option<ToolChoice>,
    pub stream: bool,
    pub parallel_tool_calls: Option<bool>,
    pub response_format: Option<ResponseFormat>,
}

/// The first refusal among the messages, in order.
pub open spec fn first_message_refusal(msgs: Seq<Message>) -> Option<Seq<char>>
    decreases msgs.len(),
{
    if msgs.len() == 0 {
        None
    } else {
        match first_message_refusal(msgs.drop_last()) {
            Some(t) => Some(t),
            None => openai_message_refusal(msgs.last()),
        }
    }
}

/// Every message that the conversion reaches can be converted without failing.
pub open spec fn openai_messages_convertible(msgs: Seq<Message>) -> bool {
    forall|i: int|
        0 <= i < msgs.len() && first_message_refusal(msgs.subrange(0, i)) is None
            ==> openai_message_convertible(#[trigger] msgs[i])
}

/// `r` is the OpenAI request for `v`: the messages are converted in order, a cache
/// lifetime asks for implicit caching, parallel tool calls are sent only with tools,
/// and an output format is sent as a JSON schema response format.
pub open spec fn is_openai_request(r: OpenAIRequest, v: LLMRequest) -> bool {
    &&& r.model == v.model
    &&& r.messages@.len() == v.messages@.len()
    &&& forall|i: int|
        0 <= i < v.messages@.len() ==> is_openai_message(#[trigger] r.messages@[i], v.messages@[i])
    &&& r.max_completion_tokens == v.max_output_tokens
    &&& r.temperature == v.temperature
    &&& r.top_p == v.top_p
    &&& r.tools == v.tools
    &&& r.tool_choice == v.tool_choice
    &&& r.stream == v.stream
    &&& r.parallel_tool_calls == if v.tools is Some {
        Some(v.parallel_tool_calls)
    } else {
        None
    }
    &&& match v.prompt_cache_ttl {
        Some(t) => r.prompt_cache_options == Some(
            PromptCacheOptions { mode: PromptCacheMode::Implicit, ttl: t },
        ),
        None => r.prompt_cache_options is None,
    }
    &&& match v.output_format {
        Some(f) => r.response_format matches Some(rf) && rf.format_type
            == ResponseFormatType::JsonSchema && rf.json_schema == f,
        None => r.response_format is None,
    }
    &&& r.reasoning_effort == match v.reasoning_effort {
        Some(e) => Some(openai_effort_of(e)),
        None => None,
    }
}

/// A refusal among the first messages is the first refusal of all of them.
proof fn lemma_first_message_refusal_prefix(msgs: Seq<Message>, j: int)
    requires
        0 <= j <= msgs.len(),
        first_message_refusal(msgs.subrange(0, j)) is Some,
    ensures
        first_message_refusal(msgs) == first_message_refusal(msgs.subrange(0, j)),
    decreases msgs.len(),
{
    if j == msgs.len() {
        assert(msgs.subrange(0, j) =~= msgs);
    } else {
        let r = msgs.drop_last();
        assert(r.subrange(0, j) =~= msgs.subrange(0, j));
        lemma_first_message_refusal_prefix(r, j);
    }
}

/// Converts messages in order; the first refusal is reported.
#[verifier::rlimit(60)]
fn convert_messages(msgs: Vec<Message>) -> (res: Result<Vec<OpenAIMessage>, UnsupportedPartType>)
    requires
        openai_messages_convertible(msgs@),
    ensures
        match res {
            Ok(v) => first_message_refusal(msgs@) is None && v@.len() == msgs@.len() && forall|
                i: int,
            |
                0 <= i < msgs@.len() ==> is_openai_message(#[trigger] v@[i], msgs@[i]),
            Err(e) => first_message_refusal(msgs@) == Some(e.part_type@) && e.api_type@
                == "openai"@,
        },
{
    let ghost all = msgs@;
    let n = msgs.len();
    let mut rest = reversed(msgs);
    let mut out: Vec<OpenAIMessage> = Vec::new();
    let mut i: usize = 0;
    while rest.len() > 0
        invariant
            all == msgs@,
            n == all.len(),
            i + rest@.len() == n,
            forall|k: int| 0 <= k < rest@.len() ==> #[trigger] rest@[k] == all[n - 1 - k],
            openai_messages_convertible(all),
            first_message_refusal(all.subrange(0, i as int)) is None,
            out@.len() == i,
            forall|k: int| 0 <= k < i ==> is_openai_message(#[trigger] out@[k], all[k]),
        decreases rest@.len(),
    {
        let m = rest.pop().unwrap();
        let ghost prefix = all.subrange(0, i + 1);
        proof {
            assert(m == all[i as int]);
            assert(prefix.drop_last() =~= all.subrange(0, i as int));
            assert(prefix.last() == m);
        }
        match OpenAIMessage::try_from_message(m) {
            Ok(o) => {
                out.push(o);
            },
            Err(e) => {
                proof {
                    lemma_first_message_refusal_prefix(all, i + 1);
                }
                return Err(e);
            },
        }
        i = i + 1;
    }
    proof {
        assert(all.subrange(0, n as int) =~= all);
    }
    Ok(out)
}

impl OpenAIRequest {
    /// Converts a request; the first message that has no OpenAI form is reported.
    pub fn try_from_request(value: LLMRequest) -> (res: Result<Self, UnsupportedPartType>)
        requires
            openai_messages_convertible(value.messages@),
        ensures
            match res {
                Ok(r) => first_message_refusal(value.messages@) is None && is_openai_request(
                    r,
                    value,
                ),
                Err(e) => first_message_refusal(value.messages@) == Some(e.part_type@)
                    && e.api_type@ == "openai"@,
            },
    {
        let LLMRequest {
            api_type: _,
            base_url: _,
            api_key: _,
            model,
            messages,
            max_output_tokens,
            temperature,
            top_p,
            reasoning_effort,
            prompt_cache_ttl,
            stream,
            output_format,
            tools,
            tool_choice,
            parallel_tool_calls,
        } = value;
        let messages = match convert_messages(messages) {
            Ok(v) => v,
            Err(e) => {
                return Err(e);
            },
        };
        let parallel_tool_calls = if tools.is_some() {
            Some(parallel_tool_calls)
        } else {
            None
        };
        let prompt_cache_options = match prompt_cache_ttl {
            Some(ttl) => Some(PromptCacheOptions { mode: PromptCacheMode::Implicit, ttl }),
            None => None,
        };
        let response_format = match output_format {
            Some(f) => Some(ResponseFormat { format_type: ResponseFormatType::JsonSchema, json_schema: f }),
            None => None,
        };
        let reasoning_effort = match reasoning_effort {
            Some(e) => Some(OpenAIReasoningEffort::from_reasoning_effort(e)),
            None => None,
        };
        Ok(
            OpenAIRequest {
                model,
                messages,
                max_completion_tokens: max_output_tokens,
                temperature,
                top_p,
                prompt_cache_options,
                reasoning_effort,
                tools,
                tool_choice,
                stream,
                parallel_tool_calls,
                response_format,
            },
        )
    }
}

// ---------------------------------------------------------------------------
// Checking what the conversions need
// ---------------------------------------------------------------------------

/// Decides [`openai_part_convertible`].
fn part_is_convertible(p: &MessagePart) -> (res: bool)
    ensures
        res == openai_part_convertible(*p),
{
    match p {
        MessagePart::Image(i) => !i.is_base64 || i.mime_type.is_some(),
        _ => true,
    }
}

/// Decides whether [`openai_role_part_refusal`] refuses the part.
fn part_is_refused(role: MessageRole, p: &MessagePart) -> (res: bool)
    ensures
        res == openai_role_part_refusal(role, *p) is Some,
{
    match p {
        MessagePart::Thinking(_) => true,
        MessagePart::Document(_) => true,
        MessagePart::ToolResult(_) => true,
        MessagePart::ToolCall(_) => role != MessageRole::Assistant,
        _ => false,
    }
}

/// Decides whether a message of role `role` (not a tool message) has a refused part,
/// and whether every part that the conversion reaches is convertible.
fn scan_parts(role: MessageRole, parts: &Vec<MessagePart>) -> (res: (bool, bool))
    requires
        role != MessageRole::Tool,
    ensures
        res.0 == (first_part_refusal(role, parts@) is Some),
        res.1 == (forall|i: int|
            0 <= i < parts@.len() && first_part_refusal(role, parts@.subrange(0, i)) is None
                ==> openai_part_convertible(#[trigger] parts@[i])),
{
    let n = parts.len();
    let mut refused = false;
    let mut ok = true;
    let mut i: usize = 0;
    while i < n
        invariant
            n == parts@.len(),
            i <= n,
            refused == (first_part_refusal(role, parts@.subrange(0, i as int)) is Some),
            ok == (forall|k: int|
                0 <= k < i && first_part_refusal(role, parts@.subrange(0, k)) is None
                    ==> openai_part_convertible(#[trigger] parts@[k])),
        decreases n - i,
    {
        let ghost prefix = parts@.subrange(0, i + 1);
        proof {
            assert(prefix.drop_last() =~= parts@.subrange(0, i as int));
            assert(prefix.last() == parts@[i as int]);
        }
        let ghost ok_before = ok;
        if !refused && !part_is_convertible(&parts[i]) {
            ok = false;
        }
        proof {
            if ok_before && ok {
                assert forall|k: int|
                    0 <= k < i + 1 && first_part_refusal(role, parts@.subrange(0, k)) is None
                        implies openai_part_convertible(#[trigger] parts@[k]) by {
                    if k == i {
                        assert(!refused);
                    }
                }
            }
        }
        if !refused && part_is_refused(role, &parts[i]) {
            refused = true;
        }
        i = i + 1;
    }
    proof {
        assert(parts@.subrange(0, n as int) =~= parts@);
    }
    (refused, ok)
}

/// Decides whether a message is refused ([`openai_message_refusal`]) and whether it
/// is convertible ([`openai_message_convertible`]).
fn scan_message(m: &Message) -> (res: (bool, bool))
    ensures
        res.0 == (openai_message_refusal(*m) is Some),
        res.1 == openai_message_convertible(*m),
{
    if m.role == MessageRole::Tool {
        if m.content.len() != 1 {
            return (true, true);
        }
        let p = &m.content[0];
        let refused = match p {
            MessagePart::ToolResult(_) => false,
            _ => true,
        };
        (refused, part_is_convertible(p))
    } else {
        scan_parts(m.role, &m.content)
    }
}

/// Decides [`openai_messages_convertible`].
pub fn openai_messages_are_convertible(msgs: &Vec<Message>) -> (res: bool)
    ensures
        res == openai_messages_convertible(msgs@),
{
    let n = msgs.len();
    let mut refused = false;
    let mut ok = true;
    let mut i: usize = 0;
    while i < n
        invariant
            n == msgs@.len(),
            i <= n,
            refused == (first_message_refusal(msgs@.subrange(0, i as int)) is Some),
            ok == (forall|k: int|
                0 <= k < i && first_message_refusal(msgs@.subrange(0, k)) is None
                    ==> openai_message_convertible(#[trigger] msgs@[k])),
        decreases n - i,
    {
        let ghost prefix = msgs@.subrange(0, i + 1);
        proof {
            assert(prefix.drop_last() =~= msgs@.subrange(0, i as int));
            assert(prefix.last() == msgs@[i as int]);
        }
        let (m_refused, m_ok) = scan_message(&msgs[i]);
        let ghost ok_before = ok;
        if !refused && !m_ok {
            ok = false;
        }
        proof {
            if ok_before && ok {
                assert forall|k: int|
                    0 <= k < i + 1 && first_message_refusal(msgs@.subrange(0, k)) is None
                        implies openai_message_convertible(#[trigger] msgs@[k]) by {
                    if k == i {
                        assert(!refused);
                    }
                }
            }
        }
        if !refused && m_refused {
            refused = true;
        }
        i = i + 1;
    }
    proof {
        assert(msgs@.subrange(0, n as int) =~= msgs@);
    }
    ok
}

impl OpenAIRequest {
    /// Converts a request as [`OpenAIRequest::try_from_request`] does, after checking
    /// that every part the conversion reaches can be converted; returns `None` when a
    /// reached part is a base64 image without a media type.
    pub fn try_from_request_checked(value: LLMRequest) -> (res: Option<
        Result<Self, UnsupportedPartType>,
    >)
        ensures
            res is None <==> !openai_messages_convertible(value.messages@),
            res matches Some(Ok(r)) ==> first_message_refusal(value.messages@) is None
                && is_openai_request(r, value),
            res matches Some(Err(e)) ==> first_message_refusal(value.messages@) == Some(
                e.part_type@,
            ) && e.api_type@ == "openai"@,
    {
        if !openai_messages_are_convertible(&value.messages) {
            return None;
        }
        Some(Self::try_from_request(value))
    }
}

// ---------------------------------------------------------------------------
// Properties of the conversions
// ---------------------------------------------------------------------------

/// A media type that a `data:` URL carries exactly: it holds no `;` and no `data:`,
/// and neither starts nor ends with white space.
pub open spec fn clean_media_type(m: Seq<char>) -> bool {
    &&& !m.contains(';')
    &&& has_no_match(m, "data:"@)
    &&& m.len() > 0 ==> !is_white_space(m[0]) && !is_white_space(m.last())
}

/// A part that a user message carries through the OpenAI format exactly: text,
/// audio, a base64 image with a clean media type, or an image URL that is not a
/// `data:` URL.
pub open spec fn openai_round_trippable(p: MessagePart) -> bool {
    match p {
        MessagePart::Text(_) => true,
        MessagePart::Audio(_) => true,
        MessagePart::Image(i) => if i.is_base64 {
            i.mime_type matches Some(m) && clean_media_type(m@)
        } else {
            i.mime_type is None && !has_prefix(i.data@, "data:"@)
        },
        _ => false,
    }
}

/// `q` is the part `p`, an image compared by the text of its fields.
pub open spec fn same_user_part(q: MessagePart, p: MessagePart) -> bool {
    match p {
        MessagePart::Image(y) => q matches MessagePart::Image(x) && x.data@ == y.data@
            && x.is_base64 == y.is_base64 && opt_text(x.mime_type) == opt_text(y.mime_type),
        _ => q == p,
    }
}

/// A part carried exactly comes back as itself.
proof fn lemma_user_part_round_trip(o: OpenAIMessagePart, p: MessagePart, q: MessagePart)
    requires
        is_openai_part(o, p),
        openai_round_trippable(p),
        is_part_of_openai(q, o),
    ensures
        same_user_part(q, p),
{
    reveal_strlit("data:");
    reveal_strlit(";base64,");
    reveal_strlit("base64,");
    reveal_strlit("");
    if let MessagePart::Image(y) = p {
        if let OpenAIMessagePart::Image(x) = o {
            let url = x.image_url@;
            if y.is_base64 {
                let m = y.mime_type->Some_0@;
                let d = y.data@;
                let head = "data:"@ + m;
                let tail = ";base64,"@ + d;
                assert(url =~= head + tail);
                assert(has_prefix(url, "data:"@)) by {
                    assert(url.subrange(0, 5) =~= "data:"@);
                }
                assert(!head.contains(';')) by {
                    assert forall|i: int| 0 <= i < head.len() implies head[i] != ';' by {
                        if i >= 5 {
                            assert(head[i] == m[i - 5]);
                        }
                    }
                }
                lemma_char_index_concat(head, tail, ';');
                lemma_char_index_first(tail, ';');
                let k = char_index(url, ';');
                assert(k == head.len());
                assert(url.subrange(0, k) =~= head);
                assert(url.subrange(k + 1, url.len() as int) =~= "base64,"@ + d);
                assert(head.subrange(5, head.len() as int) =~= m);
                assert(has_prefix(head, "data:"@)) by {
                    assert(head.subrange(0, 5) =~= "data:"@);
                }
                lemma_replaced_all_absent(m, "data:"@, ""@);
                assert(replaced_all(head, "data:"@, ""@) =~= m);
                lemma_trimmed_clean(m);
                let b = "base64,"@ + d;
                assert(has_prefix(b, "base64,"@)) by {
                    assert(b.subrange(0, 7) =~= "base64,"@);
                }
                assert(replaced_first(b, "base64,"@, ""@) =~= d);
            }
        }
    }
}

/// The parts of a message without tool calls are all its non-call parts.
proof fn lemma_non_call_parts_all(parts: Seq<MessagePart>)
    requires
        forall|i: int| 0 <= i < parts.len() ==> !(#[trigger] parts[i] is ToolCall),
    ensures
        non_call_parts(parts) == parts,
    decreases parts.len(),
{
    if parts.len() > 0 {
        let r = parts.drop_last();
        assert forall|i: int| 0 <= i < r.len() implies !(#[trigger] r[i] is ToolCall) by {
            assert(r[i] == parts[i]);
        }
        lemma_non_call_parts_all(r);
        assert(r.push(parts.last()) =~= parts);
    }
}

/// Parts that are all text, audio or images are all read back.
proof fn lemma_user_content_all(os: Seq<OpenAIMessagePart>)
    requires
        forall|i: int| 0 <= i < os.len() ==> is_user_content(#[trigger] os[i]),
    ensures
        user_content(os) == os,
    decreases os.len(),
{
    if os.len() > 0 {
        let r = os.drop_last();
        assert forall|i: int| 0 <= i < r.len() implies is_user_content(#[trigger] r[i]) by {
            assert(r[i] == os[i]);
        }
        lemma_user_content_all(r);
        assert(r.push(os.last()) =~= os);
    }
}

/// A user message made of text, audio and images that the OpenAI format carries
/// exactly reads back as the same message after conversion to that format.
pub proof fn lemma_openai_user_message_round_trip(m: Message, o: OpenAIMessage, back: Message)
    requires
        m.role == MessageRole::User,
        forall|i: int| 0 <= i < m.content@.len() ==> openai_round_trippable(#[trigger] m.content@[i]),
        is_openai_message(o, m),
        is_message_of_openai(back, o),
    ensures
        back.role == MessageRole::User,
        back.content@.len() == m.content@.len(),
        forall|i: int|
            0 <= i < m.content@.len() ==> same_user_part(
                #[trigger] back.content@[i],
                m.content@[i],
            ),
{
    let parts = m.content@;
    assert forall|i: int| 0 <= i < parts.len() implies !(#[trigger] parts[i] is ToolCall) by {
        assert(openai_round_trippable(parts[i]));
    }
    lemma_non_call_parts_all(parts);
    if let OpenAIMessage::User(u) = o {
        let os = u.content@;
        assert forall|i: int| 0 <= i < os.len() implies is_user_content(#[trigger] os[i]) by {
            assert(is_openai_part(os[i], parts[i]));
            assert(openai_round_trippable(parts[i]));
        }
        lemma_user_content_all(os);
        assert forall|i: int| 0 <= i < parts.len() implies same_user_part(
            #[trigger] back.content@[i],
            parts[i],
        ) by {
            assert(is_openai_part(os[i], parts[i]));
            assert(is_part_of_openai(back.content@[i], os[i]));
            lemma_user_part_round_trip(os[i], parts[i], back.content@[i]);
        }
    }
}

} // verus!
