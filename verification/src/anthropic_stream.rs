//! Assembly of a streamed Anthropic response.
//!
//! The caller reads the server-sent events of the response, parses each one into
//! an [`AntStreamEvent`] and hands it to [`AntStreamState::step`], which updates
//! the state and says what to hand on: nothing, a delta, the final aggregated
//! response, or an error.

use vstd::prelude::*;
use vstd::string::*;

use crate::anthropic::{
    is_usage_of_ant, AntMessagePart, StreamContentBlock, StreamContentStart, StreamError,
    StreamMessageDelta, StreamMessageStart,
};
use crate::indexed::{
    entry_at, entry_changed, find_position, has_key, into_values, keys_sorted,
    lemma_entry_changed_lookup, lemma_entry_kept, lemma_entry_replaced, lemma_with_entry,
    lemma_with_entry_other, set_entry,
    values_of, with_entry, key_position, lemma_split_exists, lemma_has_key_at_position,
};
use crate::json::is_valid_json_text;
use crate::types::{
    is_valid_json, LLMStreamingComplete, LLMStreamingDelta, LLMStreamingResponse,
    LLMThinkingDelta, LLMToolDelta, LLMUsage, Message, MessagePart, MessageRole, TextPart,
    ThinkingPart, ToolCallPart,
};

verus! {

/// One parsed server-sent event of a streamed Anthropic response.
#[derive(Debug)]
pub enum AntStreamEvent {
    MessageStart(StreamMessageStart),
    MessageDelta(StreamMessageDelta),
    MessageStop,
    ContentBlockStart(StreamContentStart),
    ContentBlockDelta(StreamContentBlock),
    ContentBlockStop,
    Ping,
    Error(StreamError),
}

/// What the caller does after an event.
#[derive(Debug)]
pub enum AntStreamAction {
    /// Read the next event.
    Continue,
    /// Hand on this item, then read the next event.
    Emit(LLMStreamingResponse),
    /// Hand on the aggregated response; the stream is over.
    Finish(LLMStreamingComplete),
    /// Report this error; the stream is over.
    Fail(String),
}

/// What has been gathered from the events so far.
///
/// `tool_calls` and `parts` are kept by content block index, in ascending order.
#[derive(Debug)]
pub struct AntStreamState {
    pub response_id: Option<String>,
    pub usage: Option<LLMUsage>,
    pub deltas: Vec<LLMStreamingDelta>,
    pub thinking_deltas: Vec<LLMThinkingDelta>,
    pub tool_calls: Vec<(u32, ToolCallPart)>,
    pub parts: Vec<(u32, MessagePart)>,
}

/// The text of a text part grows by `d`; any other part is kept.
pub open spec fn text_grown(d: Seq<char>) -> spec_fn(MessagePart, MessagePart) -> bool {
    |p: MessagePart, q: MessagePart|
        match p {
            MessagePart::Text(t) => q matches MessagePart::Text(u) && u.text@ == t.text@ + d,
            _ => q == p,
        }
}

/// The reasoning text of a thinking part grows by `d`; any other part is kept.
pub open spec fn thinking_grown(d: Seq<char>) -> spec_fn(MessagePart, MessagePart) -> bool {
    |p: MessagePart, q: MessagePart|
        match p {
            MessagePart::Thinking(t) => q matches MessagePart::Thinking(u) && u.thinking@
                == t.thinking@ + d && u.signature == t.signature,
            _ => q == p,
        }
}

/// The text of an optional string, empty when there is none.
pub open spec fn text_or_empty(s: Option<String>) -> Seq<char> {
    match s {
        Some(t) => t@,
        None => Seq::empty(),
    }
}

/// The signature of a thinking part grows by `d` (from empty when it has none);
/// any other part is kept.
pub open spec fn signature_grown(d: Seq<char>) -> spec_fn(MessagePart, MessagePart) -> bool {
    |p: MessagePart, q: MessagePart|
        match p {
            MessagePart::Thinking(t) => q matches MessagePart::Thinking(u) && {
                &&& u.thinking == t.thinking
                &&& u.signature matches Some(s) && s@ == text_or_empty(t.signature) + d
            },
            _ => q == p,
        }
}

/// The arguments of a tool call grow by `d`; its id and name are kept.
pub open spec fn arguments_grown(d: Seq<char>) -> spec_fn(ToolCallPart, ToolCallPart) -> bool {
    |c: ToolCallPart, e: ToolCallPart| e.id == c.id && e.name == c.name && e.arguments@ == c.arguments@ + d
}

/// The parts of the final message: each gathered tool call whose arguments are
/// valid JSON is set at its index, taking the calls in index order.
pub open spec fn merged_parts(
    parts: Seq<(u32, MessagePart)>,
    calls: Seq<(u32, ToolCallPart)>,
) -> Seq<(u32, MessagePart)>
    decreases calls.len(),
{
    if calls.len() == 0 {
        parts
    } else {
        let rest = merged_parts(parts, calls.drop_last());
        let c = calls.last();
        if is_valid_json_text(c.1.arguments@) {
            with_entry(rest, c.0, MessagePart::ToolCall(c.1))
        } else {
            rest
        }
    }
}

/// The gathered tool calls whose arguments are valid JSON, in index order.
pub open spec fn complete_tool_calls(calls: Seq<(u32, ToolCallPart)>) -> Seq<ToolCallPart>
    decreases calls.len(),
{
    if calls.len() == 0 {
        Seq::empty()
    } else {
        let rest = complete_tool_calls(calls.drop_last());
        let c = calls.last();
        if is_valid_json_text(c.1.arguments@) {
            rest.push(c.1)
        } else {
            rest
        }
    }
}

impl AntStreamState {
    /// The gathered blocks are kept in ascending index order, and the usage, once
    /// reported, names each counter once.
    pub open spec fn wf(self) -> bool {
        &&& keys_sorted(self.tool_calls@)
        &&& keys_sorted(self.parts@)
        &&& self.usage matches Some(u) ==> u.wf()
    }

    /// Whether the state can take `event`: a text or reasoning delta and the end
    /// of the message need the response id, which `message_start` brings, and an
    /// arguments delta needs its tool call to have been opened.
    pub open spec fn admits(self, event: AntStreamEvent) -> bool {
        match event {
            AntStreamEvent::MessageStop => self.response_id is Some,
            AntStreamEvent::ContentBlockDelta(c) => match c {
                StreamContentBlock::Text(_) => self.response_id is Some,
                StreamContentBlock::Thinking(_) => self.response_id is Some,
                StreamContentBlock::Tool(t) => self.response_id is Some && has_key(
                    self.tool_calls@,
                    t.index,
                ),
                StreamContentBlock::ThinkingSignature(_) => true,
            },
            _ => true,
        }
    }

    /// `new` and `act` are what `event` makes of the state `old`.
    pub open spec fn stepped(
        old: AntStreamState,
        new: AntStreamState,
        event: AntStreamEvent,
        act: AntStreamAction,
    ) -> bool {
        match event {
            AntStreamEvent::MessageStart(m) => {
                &&& act is Continue
                &&& new == (AntStreamState { response_id: Some(m.message.id), ..old })
            },
            AntStreamEvent::MessageDelta(m) => {
                &&& act is Continue
                &&& new.usage matches Some(u) && is_usage_of_ant(u, m.usage)
                &&& new == (AntStreamState { usage: new.usage, ..old })
            },
            AntStreamEvent::ContentBlockStop => act is Continue && new == old,
            AntStreamEvent::Ping => act is Continue && new == old,
            AntStreamEvent::Error(e) => act == AntStreamAction::Fail(e.error) && new == old,
            AntStreamEvent::ContentBlockStart(st) => {
                &&& act is Continue
                &&& match st.content_block {
                    AntMessagePart::ToolCall(tc) => {
                        &&& new == (AntStreamState { tool_calls: new.tool_calls, ..old })
                        &&& exists|c: ToolCallPart|
                            c.id == tc.id && c.name == tc.name && c.arguments@ == Seq::<
                                char,
                            >::empty() && new.tool_calls@ == with_entry(
                                old.tool_calls@,
                                st.index,
                                c,
                            )
                    },
                    AntMessagePart::Thinking(t) => {
                        &&& new == (AntStreamState { parts: new.parts, ..old })
                        &&& new.parts@ == with_entry(
                            old.parts@,
                            st.index,
                            MessagePart::Thinking(
                                ThinkingPart { thinking: t.thinking, signature: t.signature },
                            ),
                        )
                    },
                    AntMessagePart::Text(t) => {
                        &&& new == (AntStreamState { parts: new.parts, ..old })
                        &&& new.parts@ == with_entry(
                            old.parts@,
                            st.index,
                            MessagePart::Text(TextPart { text: t.text }),
                        )
                    },
                    _ => new == old,
                }
            },
            AntStreamEvent::ContentBlockDelta(c) => match c {
                StreamContentBlock::Text(t) => {
                    &&& act matches AntStreamAction::Emit(LLMStreamingResponse::Delta(d)) && {
                        &&& old.response_id == Some(d.response_id)
                        &&& d.created_at is None
                        &&& d.delta == Some(t.delta.text)
                        &&& !d.stop
                        &&& new.deltas@ == old.deltas@.push(d)
                    }
                    &&& entry_changed(old.parts@, new.parts@, t.index, text_grown(t.delta.text@))
                    &&& new == (AntStreamState { parts: new.parts, deltas: new.deltas, ..old })
                },
                StreamContentBlock::Thinking(t) => {
                    &&& act matches AntStreamAction::Emit(LLMStreamingResponse::ThinkingDelta(d))
                        && {
                        &&& old.response_id == Some(d.response_id)
                        &&& d.created_at is None
                        &&& d.delta == Some(t.delta.thinking)
                        &&& new.thinking_deltas@ == old.thinking_deltas@.push(d)
                    }
                    &&& entry_changed(
                        old.parts@,
                        new.parts@,
                        t.index,
                        thinking_grown(t.delta.thinking@),
                    )
                    &&& new == (AntStreamState {
                        parts: new.parts,
                        thinking_deltas: new.thinking_deltas,
                        ..old
                    })
                },
                StreamContentBlock::Tool(t) => {
                    &&& act matches AntStreamAction::Emit(LLMStreamingResponse::ToolDelta(d)) && {
                        &&& old.response_id == Some(d.response_id)
                        &&& d.tool_call_id == entry_at(old.tool_calls@, t.index).id
                        &&& d.name == entry_at(old.tool_calls@, t.index).name
                        &&& d.partial_arguments == t.delta.partial_json
                    }
                    &&& entry_changed(
                        old.tool_calls@,
                        new.tool_calls@,
                        t.index,
                        arguments_grown(t.delta.partial_json@),
                    )
                    &&& new == (AntStreamState { tool_calls: new.tool_calls, ..old })
                },
                StreamContentBlock::ThinkingSignature(ts) => {
                    &&& act is Continue
                    &&& entry_changed(
                        old.parts@,
                        new.parts@,
                        ts.index,
                        signature_grown(ts.delta.signature@),
                    )
                    &&& new == (AntStreamState { parts: new.parts, ..old })
                },
            },
            AntStreamEvent::MessageStop => {
                &&& act matches AntStreamAction::Finish(c) && {
                    &&& old.response_id == Some(c.id)
                    &&& c.created_at is None
                    &&& c.message.role == MessageRole::Assistant
                    &&& c.message.content@ == values_of(merged_parts(old.parts@, old.tool_calls@))
                    &&& c.deltas@ == old.deltas@
                    &&& c.thinking_deltas matches Some(td) && td@ == old.thinking_deltas@
                    &&& c.usage == old.usage
                    &&& if complete_tool_calls(old.tool_calls@).len() == 0 {
                        c.tool_calls is None
                    } else {
                        c.tool_calls matches Some(v) && v@ == complete_tool_calls(old.tool_calls@)
                    }
                }
                &&& new.response_id == old.response_id
                &&& new.usage is None
                &&& new.deltas@.len() == 0
                &&& new.thinking_deltas@.len() == 0
                &&& new.tool_calls@.len() == 0
                &&& new.parts@.len() == 0
            },
        }
    }

    /// The state before the first event.
    pub fn new() -> (res: Self)
        ensures
            res.wf(),
            res.response_id is None,
            res.usage is None,
            res.deltas@.len() == 0,
            res.thinking_deltas@.len() == 0,
            res.tool_calls@.len() == 0,
            res.parts@.len() == 0,
    {
        AntStreamState {
            response_id: None,
            usage: None,
            deltas: Vec::new(),
            thinking_deltas: Vec::new(),
            tool_calls: Vec::new(),
            parts: Vec::new(),
        }
    }
}

/// Appends `d` to the text of the text part at index `k`, if there is one.
fn grow_text(parts: &mut Vec<(u32, MessagePart)>, k: u32, d: &str)
    requires
        keys_sorted(old(parts)@),
    ensures
        keys_sorted(final(parts)@),
        entry_changed(old(parts)@, final(parts)@, k, text_grown(d@)),
{
    let p = find_position(parts, k);
    let grown = if p < parts.len() && parts[p].0 == k {
        match &parts[p].1 {
            MessagePart::Text(t) => {
                let mut text = t.text.clone();
                text.append(d);
                Some(MessagePart::Text(TextPart { text }))
            },
            _ => None,
        }
    } else {
        None
    };
    match grown {
        Some(q) => {
            proof {
                lemma_entry_replaced(parts@, k, p as int, q, text_grown(d@));
            }
            parts[p] = (k, q);
        },
        None => {
            proof {
                lemma_entry_kept(parts@, k, p as int, text_grown(d@));
            }
        },
    }
}

/// Appends `d` to the reasoning text of the thinking part at index `k`, if there
/// is one.
fn grow_thinking(parts: &mut Vec<(u32, MessagePart)>, k: u32, d: &str)
    requires
        keys_sorted(old(parts)@),
    ensures
        keys_sorted(final(parts)@),
        entry_changed(old(parts)@, final(parts)@, k, thinking_grown(d@)),
{
    let p = find_position(parts, k);
    let grown = if p < parts.len() && parts[p].0 == k {
        match &parts[p].1 {
            MessagePart::Thinking(t) => {
                let mut thinking = t.thinking.clone();
                thinking.append(d);
                let signature = match &t.signature {
                    Some(s) => Some(s.clone()),
                    None => None,
                };
                Some(MessagePart::Thinking(ThinkingPart { thinking, signature }))
            },
            _ => None,
        }
    } else {
        None
    };
    match grown {
        Some(q) => {
            proof {
                lemma_entry_replaced(parts@, k, p as int, q, thinking_grown(d@));
            }
            parts[p] = (k, q);
        },
        None => {
            proof {
                lemma_entry_kept(parts@, k, p as int, thinking_grown(d@));
            }
        },
    }
}

/// Appends `d` to the signature of the thinking part at index `k`, if there is
/// one, starting from an empty signature when it has none.
fn grow_signature(parts: &mut Vec<(u32, MessagePart)>, k: u32, d: &str)
    requires
        keys_sorted(old(parts)@),
    ensures
        keys_sorted(final(parts)@),
        entry_changed(old(parts)@, final(parts)@, k, signature_grown(d@)),
{
    let p = find_position(parts, k);
    let grown = if p < parts.len() && parts[p].0 == k {
        match &parts[p].1 {
            MessagePart::Thinking(t) => {
                let mut signature = match &t.signature {
                    Some(s) => s.clone(),
                    None => String::new(),
                };
                signature.append(d);
                Some(
                    MessagePart::Thinking(
                        ThinkingPart { thinking: t.thinking.clone(), signature: Some(signature) },
                    ),
                )
            },
            _ => None,
        }
    } else {
        None
    };
    match grown {
        Some(q) => {
            proof {
                lemma_entry_replaced(parts@, k, p as int, q, signature_grown(d@));
            }
            parts[p] = (k, q);
        },
        None => {
            proof {
                lemma_entry_kept(parts@, k, p as int, signature_grown(d@));
            }
        },
    }
}

/// Appends `d` to the arguments of the tool call at index `k`, and gives back
/// that call's id and name.
fn grow_arguments(calls: &mut Vec<(u32, ToolCallPart)>, k: u32, d: &str) -> (res: (
    String,
    String,
))
    requires
        keys_sorted(old(calls)@),
        has_key(old(calls)@, k),
    ensures
        keys_sorted(final(calls)@),
        entry_changed(old(calls)@, final(calls)@, k, arguments_grown(d@)),
        res.0 == entry_at(old(calls)@, k).id,
        res.1 == entry_at(old(calls)@, k).name,
{
    let p = find_position(calls, k);
    let c = &calls[p].1;
    let id = c.id.clone();
    let name = c.name.clone();
    let mut arguments = c.arguments.clone();
    arguments.append(d);
    let grown = ToolCallPart { id: id.clone(), name: name.clone(), arguments };
    proof {
        lemma_entry_replaced(calls@, k, p as int, grown, arguments_grown(d@));
    }
    calls[p] = (k, grown);
    (id, name)
}

/// Sets each tool call whose arguments are valid JSON at its index among the
/// parts, and gives back the values of the parts in index order together with
/// those tool calls.
fn finish_parts(parts: Vec<(u32, MessagePart)>, calls: &Vec<(u32, ToolCallPart)>) -> (res: (
    Vec<MessagePart>,
    Vec<ToolCallPart>,
))
    requires
        keys_sorted(parts@),
    ensures
        res.0@ == values_of(merged_parts(parts@, calls@)),
        res.1@ == complete_tool_calls(calls@),
{
    let ghost parts0 = parts@;
    let mut parts = parts;
    let mut complete: Vec<ToolCallPart> = Vec::new();
    let mut i: usize = 0;
    while i < calls.len()
        invariant
            i <= calls@.len(),
            keys_sorted(parts@),
            parts@ == merged_parts(parts0, calls@.subrange(0, i as int)),
            complete@ == complete_tool_calls(calls@.subrange(0, i as int)),
        decreases calls@.len() - i,
    {
        let idx = calls[i].0;
        let c = &calls[i].1;
        proof {
            assert(calls@.subrange(0, i + 1).drop_last() =~= calls@.subrange(0, i as int));
        }
        if is_valid_json(c.arguments.as_str()) {
            set_entry(&mut parts, idx, MessagePart::ToolCall(c.clone()));
            complete.push(c.clone());
        }
        i = i + 1;
    }
    proof {
        assert(calls@.subrange(0, calls@.len() as int) =~= calls@);
    }
    (into_values(parts), complete)
}

impl AntStreamState {
    /// The response id, which the caller knows to be set.
    fn known_id(&self) -> (res: String)
        requires
            self.response_id is Some,
        ensures
            self.response_id == Some(res),
    {
        match &self.response_id {
            Some(id) => id.clone(),
            None => String::new(),
        }
    }

    /// Whether the state can take `event` (see [`AntStreamState::admits`]).
    pub fn admits_event(&self, event: &AntStreamEvent) -> (res: bool)
        requires
            self.wf(),
        ensures
            res == self.admits(*event),
    {
        match event {
            AntStreamEvent::MessageStop => self.response_id.is_some(),
            AntStreamEvent::ContentBlockDelta(StreamContentBlock::Text(_)) => self.response_id.is_some(),
            AntStreamEvent::ContentBlockDelta(StreamContentBlock::Thinking(_)) => self.response_id.is_some(),
            AntStreamEvent::ContentBlockDelta(StreamContentBlock::Tool(t)) => {
                let p = find_position(&self.tool_calls, t.index);
                self.response_id.is_some() && p < self.tool_calls.len() && self.tool_calls[p].0
                    == t.index
            },
            _ => true,
        }
    }

    /// Takes one event: updates the state and says what to hand on.
    pub fn step(&mut self, event: AntStreamEvent) -> (act: AntStreamAction)
        requires
            old(self).wf(),
            old(self).admits(event),
        ensures
            final(self).wf(),
            Self::stepped(*old(self), *final(self), event, act),
    {
        match event {
            AntStreamEvent::MessageStart(m) => {
                self.response_id = Some(m.message.id);
                AntStreamAction::Continue
            },
            AntStreamEvent::MessageDelta(m) => {
                self.usage = Some(LLMUsage::from_ant_usage(m.usage));
                AntStreamAction::Continue
            },
            AntStreamEvent::ContentBlockStop => AntStreamAction::Continue,
            AntStreamEvent::Ping => AntStreamAction::Continue,
            AntStreamEvent::Error(e) => AntStreamAction::Fail(e.error),
            AntStreamEvent::ContentBlockStart(st) => {
                let index = st.index;
                match st.content_block {
                    AntMessagePart::ToolCall(tc) => {
                        let c = ToolCallPart { id: tc.id, name: tc.name, arguments: String::new() };
                        let ghost opened = c;
                        set_entry(&mut self.tool_calls, index, c);
                        assert(self.tool_calls@ == with_entry(
                            old(self).tool_calls@,
                            index,
                            opened,
                        ));
                    },
                    AntMessagePart::Thinking(t) => {
                        set_entry(
                            &mut self.parts,
                            index,
                            MessagePart::Thinking(
                                ThinkingPart { thinking: t.thinking, signature: t.signature },
                            ),
                        );
                    },
                    AntMessagePart::Text(t) => {
                        set_entry(&mut self.parts, index, MessagePart::Text(TextPart { text: t.text }));
                    },
                    _ => {},
                }
                AntStreamAction::Continue
            },
            AntStreamEvent::ContentBlockDelta(c) => match c {
                StreamContentBlock::Text(t) => {
                    grow_text(&mut self.parts, t.index, t.delta.text.as_str());
                    let d = LLMStreamingDelta {
                        response_id: self.known_id(),
                        created_at: None,
                        delta: Some(t.delta.text),
                        stop: false,
                    };
                    self.deltas.push(d.clone());
                    AntStreamAction::Emit(LLMStreamingResponse::Delta(d))
                },
                StreamContentBlock::Thinking(t) => {
                    grow_thinking(&mut self.parts, t.index, t.delta.thinking.as_str());
                    let d = LLMThinkingDelta {
                        response_id: self.known_id(),
                        created_at: None,
                        delta: Some(t.delta.thinking),
                    };
                    self.thinking_deltas.push(d.clone());
                    AntStreamAction::Emit(LLMStreamingResponse::ThinkingDelta(d))
                },
                StreamContentBlock::Tool(t) => {
                    let (tool_call_id, name) = grow_arguments(
                        &mut self.tool_calls,
                        t.index,
                        t.delta.partial_json.as_str(),
                    );
                    let d = LLMToolDelta {
                        response_id: self.known_id(),
                        tool_call_id,
                        name,
                        partial_arguments: t.delta.partial_json,
                    };
                    AntStreamAction::Emit(LLMStreamingResponse::ToolDelta(d))
                },
                StreamContentBlock::ThinkingSignature(ts) => {
                    grow_signature(&mut self.parts, ts.index, ts.delta.signature.as_str());
                    AntStreamAction::Continue
                },
            },
            AntStreamEvent::MessageStop => {
                let id = self.known_id();
                let mut calls: Vec<(u32, ToolCallPart)> = Vec::new();
                std::mem::swap(&mut calls, &mut self.tool_calls);
                let mut parts: Vec<(u32, MessagePart)> = Vec::new();
                std::mem::swap(&mut parts, &mut self.parts);
                let mut deltas: Vec<LLMStreamingDelta> = Vec::new();
                std::mem::swap(&mut deltas, &mut self.deltas);
                let mut thinking_deltas: Vec<LLMThinkingDelta> = Vec::new();
                std::mem::swap(&mut thinking_deltas, &mut self.thinking_deltas);
                let mut usage: Option<LLMUsage> = None;
                std::mem::swap(&mut usage, &mut self.usage);
                let (content, complete) = finish_parts(parts, &calls);
                let tool_calls = if complete.len() == 0 {
                    None
                } else {
                    Some(complete)
                };
                AntStreamAction::Finish(
                    LLMStreamingComplete {
                        id,
                        created_at: None,
                        message: Message { role: MessageRole::Assistant, content },
                        deltas,
                        thinking_deltas: Some(thinking_deltas),
                        usage,
                        tool_calls,
                    },
                )
            },
        }
    }
}

/// Every tool call handed out at the end of a stream has arguments that are
/// valid JSON.
pub proof fn lemma_complete_calls_are_json(calls: Seq<(u32, ToolCallPart)>)
    ensures
        forall|i: int|
            0 <= i < complete_tool_calls(calls).len() ==> is_valid_json_text(
                (#[trigger] complete_tool_calls(calls)[i]).arguments@,
            ),
    decreases calls.len(),
{
    if calls.len() > 0 {
        let rest = complete_tool_calls(calls.drop_last());
        lemma_complete_calls_are_json(calls.drop_last());
        assert forall|i: int| 0 <= i < complete_tool_calls(calls).len() implies is_valid_json_text(
            (#[trigger] complete_tool_calls(calls)[i]).arguments@,
        ) by {
            if i < rest.len() {
                assert(complete_tool_calls(calls)[i] == rest[i]);
            }
        }
    }
}

/// At the end of a stream the parts of the final message stand in ascending
/// order of their block index; no opened block is lost; and every gathered tool
/// call whose arguments are valid JSON stands at its own block index.
pub proof fn lemma_final_parts(parts: Seq<(u32, MessagePart)>, calls: Seq<(u32, ToolCallPart)>)
    requires
        keys_sorted(parts),
        keys_sorted(calls),
    ensures
        keys_sorted(merged_parts(parts, calls)),
        forall|k: u32| has_key(parts, k) ==> #[trigger] has_key(merged_parts(parts, calls), k),
        forall|i: int|
            0 <= i < calls.len() && is_valid_json_text((#[trigger] calls[i]).1.arguments@) ==> {
                &&& has_key(merged_parts(parts, calls), calls[i].0)
                &&& entry_at(merged_parts(parts, calls), calls[i].0) == MessagePart::ToolCall(
                    calls[i].1,
                )
            },
    decreases calls.len(),
{
    if calls.len() > 0 {
        let r = calls.drop_last();
        let n = calls.len() - 1;
        assert(keys_sorted(r));
        lemma_final_parts(parts, r);
        let rest = merged_parts(parts, r);
        let c = calls.last();
        if is_valid_json_text(c.1.arguments@) {
            let v = MessagePart::ToolCall(c.1);
            lemma_with_entry(rest, c.0, v);
            assert forall|k: u32| has_key(parts, k) implies #[trigger] has_key(
                merged_parts(parts, calls),
                k,
            ) by {
                if k != c.0 {
                    lemma_with_entry_other(rest, c.0, v, k);
                }
            }
            assert forall|i: int|
                0 <= i < calls.len() && is_valid_json_text(
                    (#[trigger] calls[i]).1.arguments@,
                ) implies {
                &&& has_key(merged_parts(parts, calls), calls[i].0)
                &&& entry_at(merged_parts(parts, calls), calls[i].0) == MessagePart::ToolCall(
                    calls[i].1,
                )
            } by {
                if i < n {
                    assert(r[i] == calls[i]);
                    assert(calls[i].0 < calls[n].0);
                    lemma_with_entry_other(rest, c.0, v, calls[i].0);
                }
            }
        } else {
            assert forall|i: int|
                0 <= i < calls.len() && is_valid_json_text(
                    (#[trigger] calls[i]).1.arguments@,
                ) implies {
                &&& has_key(merged_parts(parts, calls), calls[i].0)
                &&& entry_at(merged_parts(parts, calls), calls[i].0) == MessagePart::ToolCall(
                    calls[i].1,
                )
            } by {
                assert(r[i] == calls[i]);
            }
        }
    }
}

/// The text that the event sends for block `k` (empty unless it is a text delta
/// for `k`).
pub open spec fn text_delta_of(e: AntStreamEvent, k: u32) -> Seq<char> {
    match e {
        AntStreamEvent::ContentBlockDelta(StreamContentBlock::Text(t)) => if t.index == k {
            t.delta.text@
        } else {
            Seq::empty()
        },
        _ => Seq::empty(),
    }
}

/// The text sent in text deltas for block `k`, in order.
pub open spec fn text_deltas_at(events: Seq<AntStreamEvent>, k: u32) -> Seq<char>
    decreases events.len(),
{
    if events.len() == 0 {
        Seq::empty()
    } else {
        text_deltas_at(events.drop_last(), k) + text_delta_of(events.last(), k)
    }
}

/// The partial JSON that the event sends for block `k` (empty unless it is an
/// arguments delta for `k`).
pub open spec fn argument_delta_of(e: AntStreamEvent, k: u32) -> Seq<char> {
    match e {
        AntStreamEvent::ContentBlockDelta(StreamContentBlock::Tool(t)) => if t.index == k {
            t.delta.partial_json@
        } else {
            Seq::empty()
        },
        _ => Seq::empty(),
    }
}

/// The partial JSON sent in arguments deltas for block `k`, in order.
pub open spec fn argument_deltas_at(events: Seq<AntStreamEvent>, k: u32) -> Seq<char>
    decreases events.len(),
{
    if events.len() == 0 {
        Seq::empty()
    } else {
        argument_deltas_at(events.drop_last(), k) + argument_delta_of(events.last(), k)
    }
}

/// `states`, `events` and `actions` form a run of [`AntStreamState::step`]: each
/// state is well formed and each event takes one state to the next.
pub open spec fn is_run(
    states: Seq<AntStreamState>,
    events: Seq<AntStreamEvent>,
    actions: Seq<AntStreamAction>,
) -> bool {
    &&& states.len() == events.len() + 1
    &&& actions.len() == events.len()
    &&& forall|i: int| 0 <= i < states.len() ==> (#[trigger] states[i]).wf()
    &&& forall|i: int|
        0 <= i < events.len() ==> AntStreamState::stepped(
            states[i],
            states[i + 1],
            #[trigger] events[i],
            actions[i],
        )
}

/// The event neither stops the message nor opens a block at index `k`.
pub open spec fn keeps_block(e: AntStreamEvent, k: u32) -> bool {
    &&& !(e is MessageStop)
    &&& !(e matches AntStreamEvent::ContentBlockStart(st) && st.index == k)
}

/// One step keeps the text block at `k`, adding the text that the event sends for it.
proof fn lemma_step_text(
    old: AntStreamState,
    new: AntStreamState,
    e: AntStreamEvent,
    a: AntStreamAction,
    k: u32,
)
    requires
        old.wf(),
        AntStreamState::stepped(old, new, e, a),
        keeps_block(e, k),
        has_key(old.parts@, k),
        entry_at(old.parts@, k) is Text,
    ensures
        has_key(new.parts@, k),
        entry_at(new.parts@, k) matches MessagePart::Text(t) && t.text@ == entry_at(
            old.parts@,
            k,
        )->Text_0.text@ + text_delta_of(e, k),
{
    let before = entry_at(old.parts@, k)->Text_0.text@;
    assert(before + Seq::<char>::empty() =~= before);
    match e {
        AntStreamEvent::ContentBlockStart(st) => {
            match st.content_block {
                AntMessagePart::Thinking(t) => {
                    lemma_with_entry_other(
                        old.parts@,
                        st.index,
                        MessagePart::Thinking(
                            ThinkingPart { thinking: t.thinking, signature: t.signature },
                        ),
                        k,
                    );
                },
                AntMessagePart::Text(t) => {
                    lemma_with_entry_other(
                        old.parts@,
                        st.index,
                        MessagePart::Text(TextPart { text: t.text }),
                        k,
                    );
                },
                _ => {},
            }
        },
        AntStreamEvent::ContentBlockDelta(c) => match c {
            StreamContentBlock::Text(t) => {
                lemma_entry_changed_lookup(
                    old.parts@,
                    new.parts@,
                    t.index,
                    text_grown(t.delta.text@),
                    k,
                );
            },
            StreamContentBlock::Thinking(t) => {
                lemma_entry_changed_lookup(
                    old.parts@,
                    new.parts@,
                    t.index,
                    thinking_grown(t.delta.thinking@),
                    k,
                );
            },
            StreamContentBlock::ThinkingSignature(ts) => {
                lemma_entry_changed_lookup(
                    old.parts@,
                    new.parts@,
                    ts.index,
                    signature_grown(ts.delta.signature@),
                    k,
                );
            },
            _ => {},
        },
        _ => {},
    }
}

/// Over a run in which the message does not stop and no block opens again at `k`,
/// the text of the text block at `k` grows by exactly the text deltas sent for `k`,
/// in order.
pub proof fn lemma_text_block_accumulates(
    states: Seq<AntStreamState>,
    events: Seq<AntStreamEvent>,
    actions: Seq<AntStreamAction>,
    k: u32,
)
    requires
        is_run(states, events, actions),
        forall|i: int| 0 <= i < events.len() ==> keeps_block(#[trigger] events[i], k),
        has_key(states[0].parts@, k),
        entry_at(states[0].parts@, k) is Text,
    ensures
        has_key(states.last().parts@, k),
        entry_at(states.last().parts@, k) matches MessagePart::Text(t) && t.text@ == entry_at(
            states[0].parts@,
            k,
        )->Text_0.text@ + text_deltas_at(events, k),
    decreases events.len(),
{
    if events.len() == 0 {
        assert(text_deltas_at(events, k) =~= Seq::<char>::empty());
    } else {
        let n = events.len() - 1;
        let ps = states.drop_last();
        let pe = events.drop_last();
        let pa = actions.drop_last();
        assert forall|i: int| 0 <= i < ps.len() implies (#[trigger] ps[i]).wf() by {
            assert(ps[i] == states[i]);
        }
        assert forall|i: int| 0 <= i < pe.len() implies AntStreamState::stepped(
            ps[i],
            ps[i + 1],
            #[trigger] pe[i],
            pa[i],
        ) by {
            assert(pe[i] == events[i]);
            assert(states[i].wf());
            assert(AntStreamState::stepped(states[i], states[i + 1], events[i], actions[i]));
        }
        assert forall|i: int| 0 <= i < pe.len() implies keeps_block(#[trigger] pe[i], k) by {
            assert(pe[i] == events[i]);
        }
        lemma_text_block_accumulates(ps, pe, pa, k);
        assert(ps.last() == states[n]);
        assert(states[n].wf());
        assert(AntStreamState::stepped(states[n], states[n + 1], events[n], actions[n]));
        assert(keeps_block(events[n], k));
        lemma_step_text(states[n], states[n + 1], events[n], actions[n], k);
        assert(events.last() == events[n]);
        let first = entry_at(states[0].parts@, k)->Text_0.text@;
        assert(first + text_deltas_at(pe, k) + text_delta_of(events[n], k) =~= first + (
        text_deltas_at(pe, k) + text_delta_of(events[n], k)));
    }
}

/// One step keeps the tool call at `k`, adding to its arguments the partial JSON
/// that the event sends for it.
proof fn lemma_step_arguments(
    old: AntStreamState,
    new: AntStreamState,
    e: AntStreamEvent,
    a: AntStreamAction,
    k: u32,
)
    requires
        old.wf(),
        AntStreamState::stepped(old, new, e, a),
        keeps_block(e, k),
        has_key(old.tool_calls@, k),
    ensures
        has_key(new.tool_calls@, k),
        entry_at(new.tool_calls@, k).id == entry_at(old.tool_calls@, k).id,
        entry_at(new.tool_calls@, k).name == entry_at(old.tool_calls@, k).name,
        entry_at(new.tool_calls@, k).arguments@ == entry_at(old.tool_calls@, k).arguments@
            + argument_delta_of(e, k),
{
    let before = entry_at(old.tool_calls@, k).arguments@;
    assert(before + Seq::<char>::empty() =~= before);
    match e {
        AntStreamEvent::ContentBlockStart(st) => {
            if let AntMessagePart::ToolCall(tc) = st.content_block {
                let c = choose|c: ToolCallPart|
                    c.id == tc.id && c.name == tc.name && c.arguments@ == Seq::<char>::empty()
                        && new.tool_calls@ == with_entry(old.tool_calls@, st.index, c);
                lemma_with_entry_other(old.tool_calls@, st.index, c, k);
            }
        },
        AntStreamEvent::ContentBlockDelta(StreamContentBlock::Tool(t)) => {
            lemma_entry_changed_lookup(
                old.tool_calls@,
                new.tool_calls@,
                t.index,
                arguments_grown(t.delta.partial_json@),
                k,
            );
        },
        _ => {},
    }
}

/// Over a run in which the message does not stop and no block opens again at `k`,
/// the tool call at `k` keeps its id and name, and its arguments grow by exactly the
/// partial JSON sent for `k`, in order.
pub proof fn lemma_tool_arguments_accumulate(
    states: Seq<AntStreamState>,
    events: Seq<AntStreamEvent>,
    actions: Seq<AntStreamAction>,
    k: u32,
)
    requires
        is_run(states, events, actions),
        forall|i: int| 0 <= i < events.len() ==> keeps_block(#[trigger] events[i], k),
        has_key(states[0].tool_calls@, k),
    ensures
        has_key(states.last().tool_calls@, k),
        entry_at(states.last().tool_calls@, k).id == entry_at(states[0].tool_calls@, k).id,
        entry_at(states.last().tool_calls@, k).name == entry_at(states[0].tool_calls@, k).name,
        entry_at(states.last().tool_calls@, k).arguments@ == entry_at(
            states[0].tool_calls@,
            k,
        ).arguments@ + argument_deltas_at(events, k),
    decreases events.len(),
{
    if events.len() == 0 {
        let first = entry_at(states[0].tool_calls@, k).arguments@;
        assert(first + argument_deltas_at(events, k) =~= first);
    } else {
        let n = events.len() - 1;
        let ps = states.drop_last();
        let pe = events.drop_last();
        let pa = actions.drop_last();
        assert forall|i: int| 0 <= i < ps.len() implies (#[trigger] ps[i]).wf() by {
            assert(ps[i] == states[i]);
        }
        assert forall|i: int| 0 <= i < pe.len() implies AntStreamState::stepped(
            ps[i],
            ps[i + 1],
            #[trigger] pe[i],
            pa[i],
        ) by {
            assert(pe[i] == events[i]);
            assert(AntStreamState::stepped(states[i], states[i + 1], events[i], actions[i]));
        }
        assert forall|i: int| 0 <= i < pe.len() implies keeps_block(#[trigger] pe[i], k) by {
            assert(pe[i] == events[i]);
        }
        lemma_tool_arguments_accumulate(ps, pe, pa, k);
        assert(ps.last() == states[n]);
        assert(states[n].wf());
        assert(AntStreamState::stepped(states[n], states[n + 1], events[n], actions[n]));
        assert(keeps_block(events[n], k));
        lemma_step_arguments(states[n], states[n + 1], events[n], actions[n], k);
        assert(events.last() == events[n]);
        let first = entry_at(states[0].tool_calls@, k).arguments@;
        assert(first + argument_deltas_at(pe, k) + argument_delta_of(events[n], k) =~= first + (
        argument_deltas_at(pe, k) + argument_delta_of(events[n], k)));
    }
}

/// The tool calls completed at the end of a stream are the gathered calls, in
/// index order, kept by a filter on whether their arguments are valid JSON.
proof fn lemma_complete_calls_filter(calls: Seq<(u32, ToolCallPart)>)
    ensures
        complete_tool_calls(calls) == calls.map_values(|e: (u32, ToolCallPart)| e.1).filter(
            |t: ToolCallPart| is_valid_json_text(t.arguments@),
        ),
    decreases calls.len(),
{
    let pick = |e: (u32, ToolCallPart)| e.1;
    let valid = |t: ToolCallPart| is_valid_json_text(t.arguments@);
    if calls.len() > 0 {
        lemma_complete_calls_filter(calls.drop_last());
        assert(calls.map_values(pick) =~= calls.drop_last().map_values(pick).push(calls.last().1));
        calls.drop_last().map_values(pick).lemma_filter_push(calls.last().1, valid);
    } else {
        reveal(Seq::filter);
        assert(calls.map_values(pick) =~= Seq::<ToolCallPart>::empty());
    }
}

/// At `message_stop` the final response lists every gathered tool call whose
/// arguments are valid JSON, each once and in index order, and no other call (so
/// parallel tool calls are all handed on); when no gathered call is complete it
/// lists no tool calls at all.
pub proof fn lemma_stop_lists_every_complete_call(
    old: AntStreamState,
    new: AntStreamState,
    c: LLMStreamingComplete,
)
    requires
        old.wf(),
        AntStreamState::stepped(old, new, AntStreamEvent::MessageStop, AntStreamAction::Finish(c)),
    ensures
        old.tool_calls@.map_values(|e: (u32, ToolCallPart)| e.1).filter(
            |t: ToolCallPart| is_valid_json_text(t.arguments@),
        ).len() == 0 ==> c.tool_calls is None,
        old.tool_calls@.map_values(|e: (u32, ToolCallPart)| e.1).filter(
            |t: ToolCallPart| is_valid_json_text(t.arguments@),
        ).len() > 0 ==> (c.tool_calls matches Some(v) && v@ == old.tool_calls@.map_values(
            |e: (u32, ToolCallPart)| e.1,
        ).filter(|t: ToolCallPart| is_valid_json_text(t.arguments@))),
        forall|i: int|
            0 <= i < old.tool_calls@.len() && is_valid_json_text(
                (#[trigger] old.tool_calls@[i]).1.arguments@,
            ) ==> (c.tool_calls matches Some(v) && v@.contains(old.tool_calls@[i].1)),
{
    let pick = |e: (u32, ToolCallPart)| e.1;
    let valid = |t: ToolCallPart| is_valid_json_text(t.arguments@);
    lemma_complete_calls_filter(old.tool_calls@);
    let all = old.tool_calls@.map_values(pick);
    assert forall|i: int|
        0 <= i < old.tool_calls@.len() && is_valid_json_text(
            (#[trigger] old.tool_calls@[i]).1.arguments@,
        ) implies (c.tool_calls matches Some(v) && v@.contains(old.tool_calls@[i].1)) by {
        assert(all[i] == old.tool_calls@[i].1);
        all.lemma_filter_contains(valid, i);
    }
}

/// Merging the complete tool calls into the parts sets each of them at its index
/// and keeps the part at every index that no complete call takes.
proof fn lemma_merged_parts_entries(
    parts: Seq<(u32, MessagePart)>,
    calls: Seq<(u32, ToolCallPart)>,
)
    requires
        keys_sorted(parts),
        keys_sorted(calls),
    ensures
        keys_sorted(merged_parts(parts, calls)),
        forall|i: int|
            0 <= i < calls.len() && is_valid_json_text((#[trigger] calls[i]).1.arguments@) ==> {
                &&& has_key(merged_parts(parts, calls), calls[i].0)
                &&& entry_at(merged_parts(parts, calls), calls[i].0) == MessagePart::ToolCall(
                    calls[i].1,
                )
            },
        forall|k: u32|
            has_key(parts, k) && (forall|i: int|
                0 <= i < calls.len() && is_valid_json_text(calls[i].1.arguments@) ==> (
                #[trigger] calls[i]).0 != k) ==> {
                &&& has_key(#[trigger] merged_parts(parts, calls), k)
                &&& entry_at(merged_parts(parts, calls), k) == entry_at(parts, k)
            },
    decreases calls.len(),
{
    if calls.len() > 0 {
        let r = calls.drop_last();
        assert(keys_sorted(r));
        lemma_merged_parts_entries(parts, r);
        let rest = merged_parts(parts, r);
        let c = calls.last();
        let n = calls.len() - 1;
        if is_valid_json_text(c.1.arguments@) {
            lemma_with_entry(rest, c.0, MessagePart::ToolCall(c.1));
            assert forall|i: int|
                0 <= i < calls.len() && is_valid_json_text(
                    (#[trigger] calls[i]).1.arguments@,
                ) implies {
                &&& has_key(merged_parts(parts, calls), calls[i].0)
                &&& entry_at(merged_parts(parts, calls), calls[i].0) == MessagePart::ToolCall(
                    calls[i].1,
                )
            } by {
                if i < n {
                    assert(r[i] == calls[i]);
                    assert(calls[i].0 < calls[n].0);
                    lemma_with_entry_other(rest, c.0, MessagePart::ToolCall(c.1), calls[i].0);
                }
            }
            assert forall|k: u32|
                has_key(parts, k) && (forall|i: int|
                    0 <= i < calls.len() && is_valid_json_text(calls[i].1.arguments@) ==> (
                    #[trigger] calls[i]).0 != k) implies {
                &&& has_key(#[trigger] merged_parts(parts, calls), k)
                &&& entry_at(merged_parts(parts, calls), k) == entry_at(parts, k)
            } by {
                assert forall|i: int|
                    0 <= i < r.len() && is_valid_json_text(r[i].1.arguments@) implies (
                    #[trigger] r[i]).0 != k by {
                    assert(r[i] == calls[i]);
                }
                assert(calls[n].0 != k);
                lemma_with_entry_other(rest, c.0, MessagePart::ToolCall(c.1), k);
            }
        } else {
            assert forall|i: int|
                0 <= i < calls.len() && is_valid_json_text(
                    (#[trigger] calls[i]).1.arguments@,
                ) implies {
                &&& has_key(merged_parts(parts, calls), calls[i].0)
                &&& entry_at(merged_parts(parts, calls), calls[i].0) == MessagePart::ToolCall(
                    calls[i].1,
                )
            } by {
                assert(i < n);
                assert(r[i] == calls[i]);
            }
            assert forall|k: u32|
                has_key(parts, k) && (forall|i: int|
                    0 <= i < calls.len() && is_valid_json_text(calls[i].1.arguments@) ==> (
                    #[trigger] calls[i]).0 != k) implies {
                &&& has_key(#[trigger] merged_parts(parts, calls), k)
                &&& entry_at(merged_parts(parts, calls), k) == entry_at(parts, k)
            } by {
                assert forall|i: int|
                    0 <= i < r.len() && is_valid_json_text(r[i].1.arguments@) implies (
                    #[trigger] r[i]).0 != k by {
                    assert(r[i] == calls[i]);
                }
            }
        }
    }
}

/// The value found at a present index of a sorted sequence is one of its values.
proof fn lemma_entry_among_values<T>(s: Seq<(u32, T)>, k: u32)
    requires
        keys_sorted(s),
        has_key(s, k),
    ensures
        values_of(s).contains(entry_at(s, k)),
{
    lemma_split_exists(s, k);
    let p = key_position(s, k);
    lemma_has_key_at_position(s, k, p);
    assert(values_of(s)[p] == entry_at(s, k));
}

/// At `message_stop` the final message holds every gathered tool call whose
/// arguments are valid JSON, as a tool-call part, and every gathered block at an
/// index that no such call takes.
pub proof fn lemma_stop_message_holds_every_block(
    old: AntStreamState,
    new: AntStreamState,
    c: LLMStreamingComplete,
)
    requires
        old.wf(),
        AntStreamState::stepped(old, new, AntStreamEvent::MessageStop, AntStreamAction::Finish(c)),
    ensures
        forall|i: int|
            0 <= i < old.tool_calls@.len() && is_valid_json_text(
                (#[trigger] old.tool_calls@[i]).1.arguments@,
            ) ==> c.message.content@.contains(MessagePart::ToolCall(old.tool_calls@[i].1)),
        forall|i: int|
            0 <= i < old.parts@.len() && (forall|j: int|
                0 <= j < old.tool_calls@.len() && is_valid_json_text(
                    old.tool_calls@[j].1.arguments@,
                ) ==> (#[trigger] old.tool_calls@[j]).0 != old.parts@[i].0) ==> c.message.content@.contains(
                (#[trigger] old.parts@[i]).1,
            ),
{
    let parts = old.parts@;
    let calls = old.tool_calls@;
    lemma_merged_parts_entries(parts, calls);
    let m = merged_parts(parts, calls);
    assert forall|i: int|
        0 <= i < calls.len() && is_valid_json_text(
            (#[trigger] calls[i]).1.arguments@,
        ) implies c.message.content@.contains(MessagePart::ToolCall(calls[i].1)) by {
        lemma_entry_among_values(m, calls[i].0);
    }
    assert forall|i: int|
        0 <= i < parts.len() && (forall|j: int|
            0 <= j < calls.len() && is_valid_json_text(calls[j].1.arguments@) ==> (
            #[trigger] calls[j]).0 != parts[i].0) implies c.message.content@.contains(
        (#[trigger] parts[i]).1,
    ) by {
        let k = parts[i].0;
        assert(has_key(parts, k));
        lemma_split_exists(parts, k);
        lemma_has_key_at_position(parts, k, key_position(parts, k));
        assert(key_position(parts, k) == i) by {
            let p = key_position(parts, k);
            if p < i {
                assert(parts[p].0 < parts[i].0);
            } else if p > i {
                assert(parts[i].0 < parts[p].0);
            }
        }
        lemma_entry_among_values(m, k);
    }
}

impl AntStreamAction {
    /// Whether the action ends the stream: the final response or an error.
    pub open spec fn ends_stream(self) -> bool {
        self is Finish || self is Fail
    }
}

/// A run as its caller drives it: the caller stops at the first action that ends
/// the stream.
pub open spec fn is_driven_run(
    states: Seq<AntStreamState>,
    events: Seq<AntStreamEvent>,
    actions: Seq<AntStreamAction>,
) -> bool {
    &&& is_run(states, events, actions)
    &&& forall|i: int| 0 <= i < actions.len() - 1 ==> !(#[trigger] actions[i]).ends_stream()
}

/// In a run that stops at the first action ending the stream, the stream hands on
/// at most one final response or error, and only as its last item: the final
/// response comes exactly from `message_stop`, an error exactly from an `error`
/// event, and no event is read after `message_stop`.
pub proof fn lemma_stream_ends_once(
    states: Seq<AntStreamState>,
    events: Seq<AntStreamEvent>,
    actions: Seq<AntStreamAction>,
)
    requires
        is_driven_run(states, events, actions),
    ensures
        forall|i: int|
            0 <= i < actions.len() && (#[trigger] actions[i]).ends_stream() ==> i
                == actions.len() - 1,
        forall|i: int|
            0 <= i < events.len() ==> ((#[trigger] actions[i]) is Finish <==> events[i] is MessageStop),
        forall|i: int| 0 <= i < events.len() ==> ((#[trigger] actions[i]) is Fail <==> events[i] is Error),
        forall|i: int| 0 <= i < events.len() && (#[trigger] events[i]) is MessageStop ==> i
            == events.len() - 1,
{
    assert forall|i: int| 0 <= i < events.len() implies ((#[trigger] actions[i]) is Finish
        <==> events[i] is MessageStop) && (actions[i] is Fail <==> events[i] is Error) by {
        assert(AntStreamState::stepped(states[i], states[i + 1], events[i], actions[i]));
    }
    assert forall|i: int| 0 <= i < events.len() && (#[trigger] events[i]) is MessageStop implies i
        == events.len() - 1 by {
        assert(AntStreamState::stepped(states[i], states[i + 1], events[i], actions[i]));
        assert(actions[i].ends_stream());
    }
}

} // verus!
