use opencode2api::openai::{
    disable_reasoning_compatibility, repair_missing_tool_reasoning, strip_response_format, OpenAiFunctionCall,
    OpenAiMessage, OpenAiThinkingConfig, OpenAiToolCall, ReasoningControls,
};

fn assistant_tool_turn(reasoning: Option<&str>) -> OpenAiMessage {
    OpenAiMessage {
        role: "assistant".to_string(),
        content: Some("visible".to_string()),
        reasoning_content: reasoning.map(|r| r.to_string()),
        tool_calls: Some(vec![OpenAiToolCall {
            id: "call_1".to_string(),
            tool_type: "function".to_string(),
            function: OpenAiFunctionCall {
                name: "Read".to_string(),
                arguments: "{}".to_string(),
            },
        }]),
        tool_call_id: None,
        name: None,
    }
}

#[test]
fn sanitizes_mapped_request_for_provider_retry() {
    let mut messages = vec![assistant_tool_turn(None)];
    let mut controls = ReasoningControls {
        thinking: Some(OpenAiThinkingConfig {
            thinking_type: "enabled".to_string(),
        }),
        reasoning_effort: Some("max".to_string()),
        include_reasoning: None,
    };
    assert!(repair_missing_tool_reasoning(&mut messages));
    assert_eq!(
        messages[0].reasoning_content.as_deref(),
        Some("Tool call continuation.")
    );
    assert!(!repair_missing_tool_reasoning(&mut messages));
    assert!(disable_reasoning_compatibility(&mut controls, &mut messages));
    assert!(messages[0].reasoning_content.is_none());
    assert_eq!(
        controls
            .thinking
            .as_ref()
            .map(|value| value.thinking_type.as_str()),
        Some("disabled")
    );
    assert!(controls.reasoning_effort.is_none());
    assert_eq!(controls.include_reasoning, Some(false));
    assert!(!disable_reasoning_compatibility(&mut controls, &mut messages));
    let mut response_format = Some("{\"type\":\"json_object\"}".to_string());
    assert!(strip_response_format(&mut response_format));
    assert!(response_format.is_none());
    assert!(!strip_response_format(&mut response_format));
}

#[test]
fn repair_skips_user_turns_and_turns_with_reasoning() {
    let mut user = assistant_tool_turn(None);
    user.role = "user".to_string();
    let mut messages = vec![user, assistant_tool_turn(Some("thought")), assistant_tool_turn(Some(""))];
    assert!(repair_missing_tool_reasoning(&mut messages));
    assert!(messages[0].reasoning_content.is_none());
    assert_eq!(messages[1].reasoning_content.as_deref(), Some("thought"));
    assert_eq!(
        messages[2].reasoning_content.as_deref(),
        Some("Tool call continuation.")
    );
}
