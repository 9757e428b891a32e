//! The OpenAI Chat Completions records exchanged with the upstream provider,
//! and the request repairs that a provider's compatibility errors call for.

use vstd::prelude::*;

verus! {

/// The `thinking` switch of a request (`{"type": ...}`).
#[derive(Debug, Clone, PartialEq, Eq)]
pub struct OpenAiThinkingConfig {
    pub thinking_type: String,
}

/// One chat message of a request.
#[derive(Debug, Clone)]
pub struct OpenAiMessage {
    pub role: String,
    pub content: Option<String>,
    pub reasoning_content: Option<String>,
    pub tool_calls: Option<Vec<OpenAiToolCall>>,
    pub tool_call_id: Option<String>,
    pub name: Option<String>,
}

/// A tool call made by the assistant in a request's history.
#[derive(Debug, Clone)]
pub struct OpenAiToolCall {
    pub id: String,
    pub tool_type: String,
    pub function: OpenAiFunctionCall,
}

/// The function named by a tool call, with its JSON arguments as text.
#[derive(Debug, Clone)]
pub struct OpenAiFunctionCall {
    pub name: String,
    pub arguments: String,
}

/// A complete (non-streamed) response.
#[derive(Debug)]
pub struct OpenAiResponse {
    pub id: String,
    pub model: String,
    pub choices: Vec<OpenAiChoice>,
    pub usage: Option<OpenAiUsage>,
}

/// One choice of a complete response.
#[derive(Debug)]
pub struct OpenAiChoice {
    pub message: OpenAiResponseMessage,
    pub finish_reason: Option<String>,
}

/// The message of a response choice.
#[derive(Debug)]
pub struct OpenAiResponseMessage {
    pub content: Option<String>,
    pub reasoning_content: Option<String>,
    pub tool_calls: Option<Vec<OpenAiResponseToolCall>>,
}

/// A tool call in a response.
#[derive(Debug)]
pub struct OpenAiResponseToolCall {
    pub id: String,
    pub function: OpenAiResponseFunctionCall,
}

/// The function of a response tool call.
#[derive(Debug)]
pub struct OpenAiResponseFunctionCall {
    pub name: String,
    pub arguments: String,
}

/// Token usage of a response.
#[derive(Debug)]
pub struct OpenAiUsage {
    pub prompt_tokens: u32,
    pub completion_tokens: u32,
}

/// One choice of a streamed chunk.
#[derive(Debug)]
pub struct OpenAiStreamChoice {
    pub delta: OpenAiStreamDelta,
    pub finish_reason: Option<String>,
}

/// The increment a streamed choice carries.
#[derive(Debug)]
pub struct OpenAiStreamDelta {
    pub content: Option<String>,
    pub reasoning_content: Option<String>,
    pub tool_calls: Option<Vec<OpenAiStreamToolCall>>,
}

/// A partial tool call of a streamed delta.
#[derive(Debug)]
pub struct OpenAiStreamToolCall {
    pub index: usize,
    pub id: Option<String>,
    pub function: Option<OpenAiStreamFunctionCall>,
}

/// The partial function of a streamed tool call.
#[derive(Debug)]
pub struct OpenAiStreamFunctionCall {
    pub name: Option<String>,
    pub arguments: Option<String>,
}

/// The reasoning controls of a request: its `thinking` switch, its
/// `reasoning_effort` and its `include_reasoning` flag.
#[derive(Debug, Clone)]
pub struct ReasoningControls {
    pub thinking: Option<OpenAiThinkingConfig>,
    pub reasoning_effort: Option<String>,
    pub include_reasoning: Option<bool>,
}

/// The placeholder reasoning given to tool-call turns that lack any.
pub const TOOL_CALL_CONTINUATION: &'static str = "Tool call continuation.";

/// Whether a message is an assistant turn with tool calls and without
/// (non-empty) reasoning content: the turns that reasoning models refuse.
pub open spec fn needs_reasoning_repair(message: OpenAiMessage) -> bool {
    &&& message.role@ == "assistant"@
    &&& message.tool_calls matches Some(calls) && calls@.len() > 0
    &&& match message.reasoning_content {
        Some(r) => r@.len() == 0,
        None => true,
    }
}

/// `message` after the tool-call reasoning repair.
pub open spec fn repaired_message(message: OpenAiMessage, after: OpenAiMessage) -> bool {
    &&& after.role == message.role
    &&& after.content == message.content
    &&& after.tool_calls == message.tool_calls
    &&& after.tool_call_id == message.tool_call_id
    &&& after.name == message.name
    &&& if needs_reasoning_repair(message) {
        after.reasoning_content matches Some(r) && r@ == TOOL_CALL_CONTINUATION@
    } else {
        after.reasoning_content == message.reasoning_content
    }
}

fn is_assistant(role: &String) -> (yes: bool)
    ensures
        yes == (role@ == "assistant"@),
{
    crate::text::str_equal(role.as_str(), "assistant")
}

fn message_needs_repair(message: &OpenAiMessage) -> (needs: bool)
    ensures
        needs == needs_reasoning_repair(*message),
{
    let has_tool_calls = match &message.tool_calls {
        Some(calls) => calls.len() > 0,
        None => false,
    };
    let missing_reasoning = match &message.reasoning_content {
        Some(r) => crate::text::str_chars(r.as_str()).len() == 0,
        None => true,
    };
    is_assistant(&message.role) && has_tool_calls && missing_reasoning
}

/// Drops a request's response format (what providers without grammar
/// constraints refuse); says whether one was set.
pub fn strip_response_format<T>(response_format: &mut Option<T>) -> (stripped: bool)
    ensures
        stripped == (*old(response_format) is Some),
        *final(response_format) is None,
{
    let stripped = response_format.is_some();
    *response_format = None;
    stripped
}

/// Gives every assistant tool-call turn without reasoning content the
/// placeholder reasoning; says whether any message changed.
pub fn repair_missing_tool_reasoning(messages: &mut Vec<OpenAiMessage>) -> (changed: bool)
    ensures
        final(messages)@.len() == old(messages)@.len(),
        forall|i: int| 0 <= i < old(messages)@.len() ==> repaired_message(#[trigger] old(messages)@[i], final(messages)@[i]),
        changed == exists|i: int| 0 <= i < old(messages)@.len() && needs_reasoning_repair(#[trigger] old(messages)@[i]),
{
    let mut changed = false;
    let mut i: usize = 0;
    while i < messages.len()
        invariant
            i <= messages@.len(),
            messages@.len() == old(messages)@.len(),
            forall|j: int| 0 <= j < i ==> repaired_message(#[trigger] old(messages)@[j], messages@[j]),
            forall|j: int| i <= j < messages@.len() ==> #[trigger] messages@[j] == old(messages)@[j],
            changed == exists|j: int| 0 <= j < i && needs_reasoning_repair(#[trigger] old(messages)@[j]),
        decreases messages@.len() - i,
    {
        if message_needs_repair(&messages[i]) {
            let ghost before = messages@;
            let mut message = messages.remove(i);
            message.reasoning_content = Some(TOOL_CALL_CONTINUATION.to_string());
            messages.insert(i, message);
            assert(messages@ =~= before.update(i as int, message));
            changed = true;
        }
        i = i + 1;
    }
    changed
}


/// Whether the `thinking` switch is already `disabled`.
pub open spec fn thinking_disabled(thinking: Option<OpenAiThinkingConfig>) -> bool {
    thinking matches Some(t) && t.thinking_type@ == "disabled"@
}

/// Whether disabling reasoning changes anything: the switch is not yet
/// `disabled`, an effort is set, `include_reasoning` is not `false`, or a
/// message carries reasoning content.
pub open spec fn reasoning_disable_changes(controls: ReasoningControls, messages: Seq<OpenAiMessage>) -> bool {
    ||| !thinking_disabled(controls.thinking)
    ||| controls.reasoning_effort is Some
    ||| controls.include_reasoning != Some(false)
    ||| exists|i: int| 0 <= i < messages.len() && (#[trigger] messages[i]).reasoning_content is Some
}

/// `after` is `message` without its reasoning content.
pub open spec fn without_reasoning(message: OpenAiMessage, after: OpenAiMessage) -> bool {
    &&& after.role == message.role
    &&& after.content == message.content
    &&& after.reasoning_content is None
    &&& after.tool_calls == message.tool_calls
    &&& after.tool_call_id == message.tool_call_id
    &&& after.name == message.name
}

/// Turns reasoning off for a provider that rejects it: the `thinking` switch
/// becomes `disabled`, the effort is dropped, `include_reasoning` becomes
/// `false`, and every message loses its reasoning content. Says whether
/// anything changed.
pub fn disable_reasoning_compatibility(controls: &mut ReasoningControls, messages: &mut Vec<OpenAiMessage>) -> (changed: bool)
    ensures
        thinking_disabled(final(controls).thinking),
        final(controls).reasoning_effort is None,
        final(controls).include_reasoning == Some(false),
        thinking_disabled(old(controls).thinking) ==> final(controls).thinking == old(controls).thinking,
        final(messages)@.len() == old(messages)@.len(),
        forall|i: int| 0 <= i < old(messages)@.len() ==> without_reasoning(#[trigger] old(messages)@[i], final(messages)@[i]),
        changed == reasoning_disable_changes(*old(controls), old(messages)@),
{
    let mut changed = false;
    let already = match &controls.thinking {
        Some(t) => crate::text::str_equal(t.thinking_type.as_str(), "disabled"),
        None => false,
    };
    if !already {
        controls.thinking = Some(OpenAiThinkingConfig { thinking_type: "disabled".to_string() });
        changed = true;
    }
    if controls.reasoning_effort.is_some() {
        controls.reasoning_effort = None;
        changed = true;
    }
    let include_false = match controls.include_reasoning {
        Some(flag) => !flag,
        None => false,
    };
    if !include_false {
        controls.include_reasoning = Some(false);
        changed = true;
    }
    let ghost head = changed;
    let mut i: usize = 0;
    while i < messages.len()
        invariant
            i <= messages@.len(),
            messages@.len() == old(messages)@.len(),
            forall|j: int| 0 <= j < i ==> without_reasoning(#[trigger] old(messages)@[j], messages@[j]),
            forall|j: int| i <= j < messages@.len() ==> #[trigger] messages@[j] == old(messages)@[j],
            changed == (head || exists|j: int| 0 <= j < i && (#[trigger] old(messages)@[j]).reasoning_content is Some),
        decreases messages@.len() - i,
    {
        let ghost before = messages@;
        let mut message = messages.remove(i);
        if message.reasoning_content.is_some() {
            changed = true;
        }
        message.reasoning_content = None;
        messages.insert(i, message);
        assert(messages@ =~= before.update(i as int, message));
        i = i + 1;
    }
    changed
}


/// A repaired history needs no further repair: repairing twice changes
/// nothing the second time.
pub proof fn repair_is_idempotent(before: Seq<OpenAiMessage>, after: Seq<OpenAiMessage>)
    requires
        after.len() == before.len(),
        forall|i: int| 0 <= i < before.len() ==> repaired_message(#[trigger] before[i], after[i]),
    ensures
        forall|i: int| 0 <= i < after.len() ==> !needs_reasoning_repair(#[trigger] after[i]),
{
    reveal_strlit("Tool call continuation.");
    assert forall|i: int| 0 <= i < after.len() implies !needs_reasoning_repair(#[trigger] after[i]) by {
        assert(repaired_message(before[i], after[i]));
    }
}

/// Once reasoning is disabled, disabling it again changes nothing.
pub proof fn disabling_is_idempotent(controls: ReasoningControls, messages: Seq<OpenAiMessage>)
    requires
        thinking_disabled(controls.thinking),
        controls.reasoning_effort is None,
        controls.include_reasoning == Some(false),
        forall|i: int| 0 <= i < messages.len() ==> (#[trigger] messages[i]).reasoning_content is None,
    ensures
        !reasoning_disable_changes(controls, messages),
{
}


/// What the reasoning repair reads of one pass-through (JSON) message:
/// whether it is an object, its `role` where that is a string, the number of
/// its `tool_calls` where they are an array, and its `reasoning_content`
/// where that is a string.
#[derive(Debug, Clone)]
pub struct InboundMessageShape {
    pub is_object: bool,
    pub role: Option<String>,
    pub tool_call_count: Option<usize>,
    pub reasoning_content: Option<String>,
}

/// Whether a pass-through message is an assistant tool-call turn without
/// (non-empty) reasoning content.
pub open spec fn inbound_needs_repair_spec(m: InboundMessageShape) -> bool {
    &&& m.is_object
    &&& m.role matches Some(r) && r@ == "assistant"@
    &&& m.tool_call_count matches Some(n) && n > 0
    &&& match m.reasoning_content {
        Some(r) => r@.len() == 0,
        None => true,
    }
}

/// Whether the placeholder reasoning goes into a pass-through message.
pub fn inbound_needs_reasoning_repair(message: &InboundMessageShape) -> (needs: bool)
    ensures
        needs == inbound_needs_repair_spec(*message),
{
    let assistant = match &message.role {
        Some(r) => is_assistant(r),
        None => false,
    };
    let has_tool_calls = match message.tool_call_count {
        Some(n) => n > 0,
        None => false,
    };
    let missing = match &message.reasoning_content {
        Some(r) => crate::text::str_chars(r.as_str()).len() == 0,
        None => true,
    };
    message.is_object && assistant && has_tool_calls && missing
}

} // verus!
