use traceview::views::trace::{
    conversation_view, session_detail, span_html, token_summary_html, turn_html,
    ConversationTurn, TokenSummary, TurnRole,
};
use traceview::{Session, Span, SpanKind};

fn create_test_session() -> Session {
    Session {
        id: "test-session".to_string(),
        name: Some("Test Session".to_string()),
        created_at: 1_700_000_000_000_000_000,
        updated_at: 1_700_000_100_000_000_000,
    }
}

fn create_test_span(kind: SpanKind) -> Span {
    Span {
        id: "span-123".to_string(),
        session_id: "test-session".to_string(),
        parent_span_id: None,
        trace_id: "trace-456".to_string(),
        kind,
        model: Some("gpt-4-turbo".to_string()),
        content: Some("Test content".to_string()),
        metadata: None,
        start_time: 1_700_000_000_000_000_000,
        end_time: Some(1_700_000_001_000_000_000),
        duration_ms: Some(1000),
        input_tokens: Some(100),
        output_tokens: Some(50),
        finish_reason: Some("end_turn".to_string()),
        tool_call_id: None,
        tool_name: None,
    }
}

fn create_test_span_with_id(kind: SpanKind, id: &str) -> Span {
    let mut span = create_test_span(kind);
    span.id = id.to_string();
    span
}

#[test]
fn test_session_detail_renders_header() {
    let session = create_test_session();
    let spans = vec![];
    let result = session_detail(&session, &spans);
    let html_str = result.into_string();

    assert!(html_str.contains("Test Session"));
    assert!(html_str.contains("test-session"));
    assert!(html_str.contains("session-header"));
}

#[test]
fn test_session_detail_renders_spans() {
    let session = create_test_session();
    let spans = vec![create_test_span(SpanKind::User), create_test_span(SpanKind::Assistant)];
    let result = session_detail(&session, &spans);
    let html_str = result.into_string();

    assert!(html_str.contains("spans-container"));
    assert!(html_str.contains("data-session-id=\"test-session\""));
}

#[test]
fn test_session_detail_empty_spans() {
    let session = create_test_session();
    let spans: Vec<Span> = vec![];
    let result = session_detail(&session, &spans);
    let html_str = result.into_string();

    assert!(html_str.contains("No spans recorded"));
    assert!(html_str.contains("empty-state"));
}

#[test]
fn test_span_html_user_kind() {
    let span = create_test_span(SpanKind::User);
    let result = span_html(&span);
    let html_str = result.into_string();

    assert!(html_str.contains("data-kind=\"user\""));
    assert!(html_str.contains("span-kind"));
}

#[test]
fn test_span_html_assistant_kind() {
    let span = create_test_span(SpanKind::Assistant);
    let result = span_html(&span);
    let html_str = result.into_string();

    assert!(html_str.contains("data-kind=\"assistant\""));
}

#[test]
fn test_span_html_thinking_kind() {
    let span = create_test_span(SpanKind::Thinking);
    let result = span_html(&span);
    let html_str = result.into_string();

    assert!(html_str.contains("data-kind=\"thinking\""));
}

#[test]
fn test_span_html_tool_call_kind() {
    let mut span = create_test_span(SpanKind::ToolCall);
    span.tool_name = Some("web_search".to_string());
    span.tool_call_id = Some("call-abc".to_string());
    let result = span_html(&span);
    let html_str = result.into_string();

    assert!(html_str.contains("data-kind=\"tool_call\""));
    assert!(html_str.contains("web_search"));
    // Tool call ID shown in simplified structure
    assert!(html_str.contains("<code>web_search</code>"));
}

#[test]
fn test_span_html_tool_result_kind() {
    let span = create_test_span(SpanKind::ToolResult);
    let result = span_html(&span);
    let html_str = result.into_string();

    assert!(html_str.contains("data-kind=\"tool_result\""));
}

#[test]
fn test_span_html_system_kind() {
    let span = create_test_span(SpanKind::System);
    let result = span_html(&span);
    let html_str = result.into_string();

    assert!(html_str.contains("data-kind=\"system\""));
}

#[test]
fn test_span_html_choice_kind() {
    let span = create_test_span(SpanKind::Choice);
    let result = span_html(&span);
    let html_str = result.into_string();

    assert!(html_str.contains("data-kind=\"choice\""));
}

#[test]
fn test_span_html_generic_span_kind() {
    let span = create_test_span(SpanKind::Span);
    let result = span_html(&span);
    let html_str = result.into_string();

    assert!(html_str.contains("data-kind=\"span\""));
}

#[test]
fn test_span_html_shows_content() {
    let span = create_test_span(SpanKind::User);
    let result = span_html(&span);
    let html_str = result.into_string();

    assert!(html_str.contains("Test content"));
    assert!(html_str.contains("span-content"));
}

#[test]
fn test_span_html_shows_tokens() {
    let span = create_test_span(SpanKind::Assistant);
    let result = span_html(&span);
    let html_str = result.into_string();

    assert!(html_str.contains("100"));
    assert!(html_str.contains("50"));
    // Token counts shown as "N in / M out" in simplified structure
    assert!(html_str.contains("in"));
    assert!(html_str.contains("out"));
}

#[test]
fn test_span_html_shows_duration() {
    let span = create_test_span(SpanKind::User);
    let result = span_html(&span);
    let html_str = result.into_string();

    assert!(html_str.contains("1.00s"));
}

#[test]
fn test_span_html_shows_model() {
    let span = create_test_span(SpanKind::Assistant);
    let result = span_html(&span);
    let html_str = result.into_string();

    assert!(html_str.contains("gpt-4-turbo"));
}

#[test]
fn test_span_html_in_progress() {
    let mut span = create_test_span(SpanKind::Assistant);
    span.duration_ms = None;
    span.end_time = None;
    let result = span_html(&span);
    let html_str = result.into_string();

    // Simplified structure doesn't show explicit "In progress..." text
    // Just verify span renders without duration
    assert!(html_str.contains("data-kind=\"assistant\""));
    assert!(!html_str.contains("1.00s")); // No duration shown
}

#[test]
fn test_span_timing_displays_duration() {
    let span = create_test_span(SpanKind::Assistant);
    let result = span_html(&span);
    let html_str = result.into_string();

    // Duration shown in span-meta section
    assert!(html_str.contains("span-meta"));
    assert!(html_str.contains("1.00s"));
}

#[test]
fn test_span_timing_displays_pending_for_in_progress() {
    let mut span = create_test_span(SpanKind::Assistant);
    span.duration_ms = None;
    span.end_time = None;
    let result = span_html(&span);
    let html_str = result.into_string();

    // Simplified structure doesn't show timing for in-progress spans
    assert!(html_str.contains("span-meta"));
    assert!(!html_str.contains("1.00s")); // No duration
}

#[test]
fn test_token_summary_html_renders() {
    let summary = TokenSummary { total_input: 1500, total_output: 500, span_count: 5 };
    let result = token_summary_html(&summary);
    let html_str = result.into_string();

    assert!(html_str.contains("token-summary"));
    assert!(html_str.contains("token-stat"));
    assert!(html_str.contains("5 spans"));
    assert!(html_str.contains("1.5k input"));
    assert!(html_str.contains("500 output"));
    assert!(html_str.contains("2.0k total"));
}

#[test]
fn test_session_detail_includes_token_summary() {
    let session = create_test_session();
    let spans = vec![create_test_span(SpanKind::User), create_test_span(SpanKind::Assistant)];
    let result = session_detail(&session, &spans);
    let html_str = result.into_string();

    assert!(html_str.contains("token-summary"));
    assert!(html_str.contains("2 spans"));
    assert!(html_str.contains("200 input"));
    assert!(html_str.contains("100 output"));
    assert!(html_str.contains("300 total"));
}

#[test]
fn test_span_html_tool_call_uses_details_element() {
    let mut span = create_test_span(SpanKind::ToolCall);
    span.tool_name = Some("read_file".to_string());
    span.tool_call_id = Some("call-123".to_string());
    span.content = Some("file contents here".to_string());

    let result = span_html(&span);
    let html_str = result.into_string();

    // Verify details/summary structure
    assert!(html_str.contains("<details class=\"tool-details\">"));
    assert!(html_str.contains("<summary class=\"tool-summary\">"));
    assert!(html_str.contains("tool-content"));

    // Verify tool name is present with icon
    assert!(html_str.contains("read_file"));
    assert!(html_str.contains("\u{2699}")); // Gear emoji

    // Verify content is in pre/code block
    assert!(html_str.contains("file contents here"));

    // Verify duration is shown
    assert!(html_str.contains("1.00s"));

    // Verify data attributes still work
    assert!(html_str.contains("data-kind=\"tool_call\""));
}

#[test]
fn test_span_html_tool_result_uses_details_element() {
    let mut span = create_test_span(SpanKind::ToolResult);
    span.tool_name = Some("bash".to_string());
    span.content = Some("command output".to_string());
    span.duration_ms = Some(250);

    let result = span_html(&span);
    let html_str = result.into_string();

    // Verify details/summary structure
    assert!(html_str.contains("<details class=\"tool-details\">"));
    assert!(html_str.contains("<summary class=\"tool-summary\">"));
    assert!(html_str.contains("tool-content"));

    // Verify tool name is present with icon
    assert!(html_str.contains("bash"));
    assert!(html_str.contains("\u{1f4e4}")); // Outbox emoji for tool_result

    // Verify content is in pre/code block
    assert!(html_str.contains("command output"));

    // Verify duration
    assert!(html_str.contains("250ms"));

    // Verify data attributes
    assert!(html_str.contains("data-kind=\"tool_result\""));
}

#[test]
fn test_tool_span_hidden_when_no_tool_name() {
    let span = create_test_span(SpanKind::ToolCall);
    // tool_name is None by default in create_test_span

    let result = span_html(&span);
    let html_str = result.into_string();

    // Wrapper spans with "unknown" tool name are hidden
    assert!(html_str.contains("wrapper-span"));
}

#[test]
fn test_tool_span_in_progress_no_duration() {
    let mut span = create_test_span(SpanKind::ToolCall);
    span.tool_name = Some("web_search".to_string());
    span.duration_ms = None;

    let result = span_html(&span);
    let html_str = result.into_string();

    // Simplified structure just doesn't show duration for in-progress
    assert!(html_str.contains("web_search"));
    assert!(!html_str.contains("1.00s"));
}

#[test]
fn test_span_html_renders_content() {
    let span = create_test_span(SpanKind::User);
    let result = span_html(&span);
    let html_str = result.into_string();

    // Content should be rendered in span-content div
    assert!(html_str.contains("span-content"));
    assert!(html_str.contains("Test content"));
}

#[test]
fn test_span_html_no_content_wrapper_when_no_content() {
    let mut span = create_test_span(SpanKind::User);
    span.content = None;
    let result = span_html(&span);
    let html_str = result.into_string();

    // Should NOT have span-content div when no content
    assert!(!html_str.contains("span-content"));
}

#[test]
fn test_tool_span_renders_content() {
    let mut span = create_test_span(SpanKind::ToolCall);
    span.tool_name = Some("read_file".to_string());
    span.content = Some("file contents".to_string());

    let result = span_html(&span);
    let html_str = result.into_string();

    // Content should be in tool-content div
    assert!(html_str.contains("tool-content"));
    assert!(html_str.contains("file contents"));
}

#[test]
fn test_tool_span_has_content_div_always() {
    let mut span = create_test_span(SpanKind::ToolCall);
    span.tool_name = Some("read_file".to_string());
    span.content = None;

    let result = span_html(&span);
    let html_str = result.into_string();

    // tool-content div always present for consistent structure
    assert!(html_str.contains("tool-content"));
    assert!(html_str.contains("No content"));
}

#[test]
fn test_session_detail_includes_filter_controls() {
    let session = create_test_session();
    let spans = vec![create_test_span(SpanKind::User)];
    let result = session_detail(&session, &spans);
    let html_str = result.into_string();

    // Pico.css uses role="group" for button groups
    assert!(html_str.contains("role=\"group\""));
    assert!(html_str.contains("filter-btn"));
    assert!(html_str.contains("data-filter=\"all\""));
    assert!(html_str.contains("data-filter=\"tools\""));
    assert!(html_str.contains("data-filter=\"errors\""));
    // One button should be active by default
    assert!(html_str.contains("filter-btn active"));
}

#[test]
fn test_span_has_data_kind_attribute() {
    let span = create_test_span(SpanKind::User);
    let result = span_html(&span);
    let html_str = result.into_string();

    assert!(html_str.contains("data-kind=\"user\""));
}

#[test]
fn test_span_has_data_has_error_attribute() {
    let span = create_test_span(SpanKind::User);
    let result = span_html(&span);
    let html_str = result.into_string();

    // Default span has finish_reason="end_turn", which is not an error
    assert!(html_str.contains("data-has-error=\"false\""));
}

#[test]
fn test_span_has_error_true_for_error_finish_reason() {
    let mut span = create_test_span(SpanKind::User);
    span.finish_reason = Some("error".to_string());
    let result = span_html(&span);
    let html_str = result.into_string();

    assert!(html_str.contains("data-has-error=\"true\""));
}

#[test]
fn test_tool_span_has_data_has_error_attribute() {
    let mut span = create_test_span(SpanKind::ToolCall);
    span.tool_name = Some("bash".to_string());
    span.finish_reason = Some("error".to_string());

    let result = span_html(&span);
    let html_str = result.into_string();

    assert!(html_str.contains("data-has-error=\"true\""));
}

#[test]
fn test_conversation_view_renders_turns() {
    let spans = vec![
        create_test_span_with_id(SpanKind::User, "user-1"),
        create_test_span_with_id(SpanKind::Assistant, "assistant-1"),
    ];

    let result = conversation_view(&spans);
    let html_str = result.into_string();

    assert!(html_str.contains("class=\"conversation\""));
    assert!(html_str.contains("class=\"turn turn-user\""));
    assert!(html_str.contains("class=\"turn turn-assistant\""));
}

#[test]
fn test_conversation_view_empty_spans() {
    let spans: Vec<Span> = vec![];
    let result = conversation_view(&spans);
    let html_str = result.into_string();

    assert!(html_str.contains("class=\"conversation\""));
    // Should have empty conversation div
    assert!(!html_str.contains("class=\"turn"));
}

#[test]
fn test_turn_html_user_turn() {
    let turn = ConversationTurn {
        role: TurnRole::User,
        spans: vec![create_test_span(SpanKind::User)],
    };

    let result = turn_html(&turn);
    let html_str = result.into_string();

    assert!(html_str.contains("class=\"turn turn-user\""));
    assert!(html_str.contains("data-kind=\"user\""));
}

#[test]
fn test_turn_html_assistant_turn() {
    let turn = ConversationTurn {
        role: TurnRole::Assistant,
        spans: vec![create_test_span(SpanKind::Assistant)],
    };

    let result = turn_html(&turn);
    let html_str = result.into_string();

    assert!(html_str.contains("class=\"turn turn-assistant\""));
    assert!(html_str.contains("data-kind=\"assistant\""));
}

#[test]
fn test_turn_html_system_turn() {
    let turn = ConversationTurn {
        role: TurnRole::System,
        spans: vec![create_test_span(SpanKind::System)],
    };

    let result = turn_html(&turn);
    let html_str = result.into_string();

    assert!(html_str.contains("class=\"turn turn-system\""));
    assert!(html_str.contains("data-kind=\"system\""));
}

#[test]
fn test_turn_html_multiple_spans() {
    let mut tool_call = create_test_span_with_id(SpanKind::ToolCall, "tool-1");
    tool_call.tool_name = Some("read_file".to_string());

    let turn = ConversationTurn {
        role: TurnRole::Assistant,
        spans: vec![create_test_span_with_id(SpanKind::Assistant, "assistant-1"), tool_call],
    };

    let result = turn_html(&turn);
    let html_str = result.into_string();

    assert!(html_str.contains("class=\"turn turn-assistant\""));
    assert!(html_str.contains("data-kind=\"assistant\""));
    assert!(html_str.contains("data-kind=\"tool_call\""));
}

#[test]
fn test_session_detail_uses_conversation_view() {
    let session = create_test_session();
    let spans = vec![
        create_test_span_with_id(SpanKind::User, "user-1"),
        create_test_span_with_id(SpanKind::Assistant, "assistant-1"),
    ];

    let result = session_detail(&session, &spans);
    let html_str = result.into_string();

    assert!(html_str.contains("conversation-container"));
    assert!(html_str.contains("class=\"conversation\""));
    assert!(html_str.contains("class=\"turn turn-user\""));
    assert!(html_str.contains("class=\"turn turn-assistant\""));
}
