use traceview::{
    calculate_token_summary, group_into_turns, is_error_span, span_kind_to_string, Span, SpanKind,
    TurnRole,
};

fn create_test_span(kind: SpanKind) -> Span {
    Span {
        id: "span-123".to_string(),
        session_id: "test-session".to_string(),
        parent_span_id: None,
        trace_id: "trace-456".to_string(),
        kind,
        model: Some("gpt-4-turbo".to_string()),
        content: Some("Test content".to_string()),
        metadata: None,
        start_time: 1_700_000_000_000_000_000,
        end_time: Some(1_700_000_001_000_000_000),
        duration_ms: Some(1000),
        input_tokens: Some(100),
        output_tokens: Some(50),
        finish_reason: Some("end_turn".to_string()),
        tool_call_id: None,
        tool_name: None,
    }
}

fn create_test_span_with_id(kind: SpanKind, id: &str) -> Span {
    let mut span = create_test_span(kind);
    span.id = id.to_string();
    span
}

#[test]
fn test_span_kind_to_string_all_variants() {
    assert_eq!(span_kind_to_string(SpanKind::User), "user");
    assert_eq!(span_kind_to_string(SpanKind::Assistant), "assistant");
    assert_eq!(span_kind_to_string(SpanKind::System), "system");
    assert_eq!(span_kind_to_string(SpanKind::Thinking), "thinking");
    assert_eq!(span_kind_to_string(SpanKind::ToolCall), "tool_call");
    assert_eq!(span_kind_to_string(SpanKind::ToolResult), "tool_result");
    assert_eq!(span_kind_to_string(SpanKind::Choice), "choice");
    assert_eq!(span_kind_to_string(SpanKind::Span), "span");
}

#[test]
fn test_calculate_token_summary_basic() {
    let spans = vec![create_test_span(SpanKind::User), create_test_span(SpanKind::Assistant)];
    let summary = calculate_token_summary(&spans);

    assert_eq!(summary.total_input, 200);
    assert_eq!(summary.total_output, 100);
    assert_eq!(summary.span_count, 2);
    assert_eq!(summary.total(), 300);
}

#[test]
fn test_calculate_token_summary_with_null_tokens() {
    let mut span1 = create_test_span(SpanKind::User);
    span1.input_tokens = None;
    span1.output_tokens = Some(50);

    let mut span2 = create_test_span(SpanKind::Assistant);
    span2.input_tokens = Some(100);
    span2.output_tokens = None;

    let spans = vec![span1, span2];
    let summary = calculate_token_summary(&spans);

    assert_eq!(summary.total_input, 100);
    assert_eq!(summary.total_output, 50);
    assert_eq!(summary.span_count, 2);
}

#[test]
fn test_calculate_token_summary_empty_spans() {
    let spans: Vec<Span> = vec![];
    let summary = calculate_token_summary(&spans);

    assert_eq!(summary.total_input, 0);
    assert_eq!(summary.total_output, 0);
    assert_eq!(summary.span_count, 0);
    assert_eq!(summary.total(), 0);
}

#[test]
fn test_is_error_span_detects_error_finish_reason() {
    let mut span = create_test_span(SpanKind::User);

    // Test exact "error" match
    span.finish_reason = Some("error".to_string());
    assert!(is_error_span(&span));

    // Test contains "error"
    span.finish_reason = Some("rate_limit_error".to_string());
    assert!(is_error_span(&span));

    // Test "content_filter" match
    span.finish_reason = Some("content_filter".to_string());
    assert!(is_error_span(&span));

    // Test non-error finish reasons
    span.finish_reason = Some("end_turn".to_string());
    assert!(!is_error_span(&span));

    span.finish_reason = Some("stop".to_string());
    assert!(!is_error_span(&span));

    // Test None finish_reason
    span.finish_reason = None;
    assert!(!is_error_span(&span));
}

#[test]
fn test_group_into_turns_basic_flow() {
    let spans = vec![
        create_test_span_with_id(SpanKind::User, "user-1"),
        create_test_span_with_id(SpanKind::Assistant, "assistant-1"),
    ];

    let turns = group_into_turns(&spans);

    assert_eq!(turns.len(), 2);
    assert_eq!(turns.first().map(|t| t.role), Some(TurnRole::User));
    assert_eq!(turns.first().map(|t| t.spans.len()), Some(1));
    assert_eq!(turns.get(1).map(|t| t.role), Some(TurnRole::Assistant));
    assert_eq!(turns.get(1).map(|t| t.spans.len()), Some(1));
}

#[test]
fn test_group_into_turns_with_tools() {
    let mut tool_call = create_test_span_with_id(SpanKind::ToolCall, "tool-call-1");
    tool_call.tool_name = Some("bash".to_string());
    let mut tool_result = create_test_span_with_id(SpanKind::ToolResult, "tool-result-1");
    tool_result.tool_name = Some("bash".to_string());

    let spans = vec![
        create_test_span_with_id(SpanKind::User, "user-1"),
        create_test_span_with_id(SpanKind::Assistant, "assistant-1"),
        tool_call,
        tool_result,
        create_test_span_with_id(SpanKind::Assistant, "assistant-2"),
    ];

    let turns = group_into_turns(&spans);

    assert_eq!(turns.len(), 2);
    assert_eq!(turns.first().map(|t| t.role), Some(TurnRole::User));
    assert_eq!(turns.get(1).map(|t| t.role), Some(TurnRole::Assistant));
    // Assistant turn should contain: assistant-1, tool_call, tool_result, assistant-2
    assert_eq!(turns.get(1).map(|t| t.spans.len()), Some(4));
}

#[test]
fn test_group_into_turns_skips_wrapper_spans() {
    let spans = vec![
        create_test_span_with_id(SpanKind::Span, "wrapper-1"),
        create_test_span_with_id(SpanKind::User, "user-1"),
        create_test_span_with_id(SpanKind::Choice, "choice-1"),
        create_test_span_with_id(SpanKind::Assistant, "assistant-1"),
        create_test_span_with_id(SpanKind::Span, "wrapper-2"),
    ];

    let turns = group_into_turns(&spans);

    assert_eq!(turns.len(), 2);
    // Verify wrapper spans are not included
    for turn in &turns {
        for span in &turn.spans {
            assert!(span.kind != SpanKind::Span);
            assert!(span.kind != SpanKind::Choice);
        }
    }
}

#[test]
fn test_group_into_turns_empty_spans() {
    let spans: Vec<Span> = vec![];
    let turns = group_into_turns(&spans);
    assert!(turns.is_empty());
}

#[test]
fn test_group_into_turns_only_wrapper_spans() {
    let spans = vec![
        create_test_span_with_id(SpanKind::Span, "wrapper-1"),
        create_test_span_with_id(SpanKind::Choice, "choice-1"),
    ];

    let turns = group_into_turns(&spans);
    assert!(turns.is_empty());
}

#[test]
fn test_group_into_turns_system_gets_own_turn() {
    let spans = vec![
        create_test_span_with_id(SpanKind::System, "system-1"),
        create_test_span_with_id(SpanKind::User, "user-1"),
        create_test_span_with_id(SpanKind::Assistant, "assistant-1"),
    ];

    let turns = group_into_turns(&spans);

    assert_eq!(turns.len(), 3);
    assert_eq!(turns.first().map(|t| t.role), Some(TurnRole::System));
    assert_eq!(turns.get(1).map(|t| t.role), Some(TurnRole::User));
    assert_eq!(turns.get(2).map(|t| t.role), Some(TurnRole::Assistant));
}

#[test]
fn test_group_into_turns_thinking_in_assistant() {
    let spans = vec![
        create_test_span_with_id(SpanKind::User, "user-1"),
        create_test_span_with_id(SpanKind::Thinking, "thinking-1"),
        create_test_span_with_id(SpanKind::Assistant, "assistant-1"),
    ];

    let turns = group_into_turns(&spans);

    assert_eq!(turns.len(), 2);
    assert_eq!(turns.get(1).map(|t| t.role), Some(TurnRole::Assistant));
    // Thinking and Assistant should be in the same turn
    assert_eq!(turns.get(1).map(|t| t.spans.len()), Some(2));
}
