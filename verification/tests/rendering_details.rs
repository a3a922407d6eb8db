use traceview::timefmt::format_timestamp;
use traceview::views::trace::{extract_tool_content, group_into_turns, session_detail, span_html};
use traceview::{JsonText, MetaValue, Metadata, Session, Span, SpanKind, TurnRole};

fn json(text: &str) -> JsonText {
    JsonText::from_text(text.to_string()).unwrap()
}

fn span(kind: SpanKind) -> Span {
    Span {
        id: "span-123".to_string(),
        session_id: "test-session".to_string(),
        parent_span_id: None,
        trace_id: "trace-456".to_string(),
        kind,
        model: Some("gpt-4-turbo".to_string()),
        content: Some("Test content".to_string()),
        metadata: None,
        start_time: 1_700_000_000_000_000_000,
        end_time: Some(1_700_000_001_000_000_000),
        duration_ms: Some(1000),
        input_tokens: Some(100),
        output_tokens: Some(50),
        finish_reason: Some("end_turn".to_string()),
        tool_call_id: None,
        tool_name: None,
    }
}

#[test]
fn message_span_exact_markup() {
    let html = span_html(&span(SpanKind::User)).into_string();
    assert_eq!(
        html,
        "<div class=\"span\" data-kind=\"user\" data-span-id=\"span-123\" data-has-error=\"false\"><div class=\"span-header\"><span class=\"span-kind\">user</span><div class=\"span-meta\"><small>gpt-4-turbo</small><small> \u{b7} 1.00s</small><small> \u{b7} 100 in</small><small> / 50 out</small></div></div><div class=\"span-content\">Test content</div></div>"
    );
}

#[test]
fn message_span_without_details() {
    let mut s = span(SpanKind::Assistant);
    s.model = None;
    s.duration_ms = None;
    s.input_tokens = None;
    s.output_tokens = Some(-7);
    s.content = None;
    s.finish_reason = Some("rate_limit_error".to_string());
    let html = span_html(&s).into_string();
    assert_eq!(
        html,
        "<div class=\"span\" data-kind=\"assistant\" data-span-id=\"span-123\" data-has-error=\"true\"><div class=\"span-header\"><span class=\"span-kind\">assistant</span><div class=\"span-meta\"><small> / -7 out</small></div></div></div>"
    );
}

#[test]
fn span_text_is_escaped() {
    let mut s = span(SpanKind::User);
    s.id = "a\"b".to_string();
    s.content = Some("<b>bold</b> & \"quoted\"".to_string());
    let html = span_html(&s).into_string();
    assert!(html.contains("data-span-id=\"a&quot;b\""));
    assert!(html.contains("&lt;b&gt;bold&lt;/b&gt; &amp; &quot;quoted&quot;"));
    assert!(!html.contains("<b>"));
}

#[test]
fn tool_span_shows_metadata_arguments_and_response() {
    let mut s = span(SpanKind::ToolCall);
    s.tool_name = Some("read_file".to_string());
    s.content = None;
    s.duration_ms = Some(250);
    s.metadata = Some(Metadata {
        entries: vec![
            ("other".to_string(), MetaValue::Text("ignored".to_string())),
            ("tool_arguments".to_string(), MetaValue::Json(json("{\"path\":\"/tmp/a\"}"))),
            ("tool_response".to_string(), MetaValue::Text("ok <done>".to_string())),
        ],
    });
    let html = span_html(&s).into_string();
    assert_eq!(
        html,
        "<div class=\"span\" data-kind=\"tool_call\" data-span-id=\"span-123\" data-has-error=\"false\"><details class=\"tool-details\"><summary class=\"tool-summary\">\u{2699}\u{fe0f} <code>read_file</code><small> 250ms</small></summary><div class=\"tool-content\"><div><strong>Args: </strong><pre><code>{\n  &quot;path&quot;: &quot;/tmp/a&quot;\n}</code></pre></div><div><strong>Response: </strong><pre><code>ok &lt;done&gt;</code></pre></div></div></details></div>"
    );
}

#[test]
fn extract_tool_content_reads_metadata() {
    let mut s = span(SpanKind::ToolResult);
    assert!(extract_tool_content(&s).is_none());
    s.metadata = Some(Metadata { entries: vec![] });
    assert!(extract_tool_content(&s).is_none());
    s.metadata = Some(Metadata {
        entries: vec![("tool_response".to_string(), MetaValue::Json(json("[1, 2]")))],
    });
    assert_eq!(extract_tool_content(&s), Some((None, Some("[\n  1,\n  2\n]".to_string()))));
    s.metadata = Some(Metadata {
        entries: vec![("tool_arguments".to_string(), MetaValue::Json(json("{\"a\": [true, null]}")))],
    });
    assert_eq!(
        extract_tool_content(&s),
        Some((Some("{\n  \"a\": [\n    true,\n    null\n  ]\n}".to_string()), None))
    );
}

#[test]
fn json_text_accepts_only_json() {
    assert!(JsonText::from_text("not json".to_string()).is_none());
    assert!(JsonText::from_text("{\"a\":".to_string()).is_none());
    assert_eq!(JsonText::from_text("42".to_string()).unwrap().as_str(), "42");
}

#[test]
fn session_detail_has_a_thoughts_filter() {
    let session = Session { id: "s".to_string(), name: None, created_at: 0, updated_at: 0 };
    let html = session_detail(&session, &[span(SpanKind::Thinking)]).into_string();
    assert!(html.contains("data-filter=\"all\""));
    assert!(html.contains("data-filter=\"tools\""));
    assert!(html.contains("data-filter=\"thoughts\">Thoughts</button>"));
    assert!(html.contains("data-filter=\"errors\""));
}

#[test]
fn tool_span_named_unknown_is_hidden() {
    let mut s = span(SpanKind::ToolResult);
    s.tool_name = Some("unknown".to_string());
    s.finish_reason = Some("error".to_string());
    assert_eq!(
        span_html(&s).into_string(),
        "<div class=\"span wrapper-span\" data-kind=\"tool_result\" data-span-id=\"span-123\" data-has-error=\"false\"></div>"
    );
}

#[test]
fn tool_span_without_content_or_metadata() {
    let mut s = span(SpanKind::ToolResult);
    s.tool_name = Some("bash".to_string());
    s.content = None;
    s.duration_ms = None;
    assert_eq!(
        span_html(&s).into_string(),
        "<div class=\"span\" data-kind=\"tool_result\" data-span-id=\"span-123\" data-has-error=\"false\"><details class=\"tool-details\"><summary class=\"tool-summary\">\u{1f4e4} <code>bash</code></summary><div class=\"tool-content\"><small>No content</small></div></details></div>"
    );
}

#[test]
fn timestamps_are_shown_in_utc() {
    assert_eq!(format_timestamp(1_700_000_000_000_000_000), "2023-11-14 22:13:20 UTC");
    assert_eq!(format_timestamp(0), "1970-01-01 00:00:00 UTC");
    assert_eq!(format_timestamp(-1), "1970-01-01 00:00:00 UTC");
    assert_eq!(format_timestamp(-1_500_000_000), "1969-12-31 23:59:59 UTC");
    assert_eq!(format_timestamp(i64::MIN), "1677-09-21 00:12:44 UTC");
    assert_eq!(format_timestamp(i64::MAX), "2262-04-11 23:47:16 UTC");
}

#[test]
fn session_detail_exact_header_and_empty_state() {
    let session = Session {
        id: "s<1>".to_string(),
        name: None,
        created_at: 1_700_000_000_000_000_000,
        updated_at: 1_700_000_100_000_000_000,
    };
    let html = session_detail(&session, &[]).into_string();
    assert_eq!(
        html,
        "<div class=\"session-header\"><h2>s&lt;1&gt;</h2><div class=\"token-summary\"><span class=\"token-stat\">0 spans</span><span class=\"token-stat\">0 input</span><span class=\"token-stat\">0 output</span><span class=\"token-stat token-total\">0 total</span></div><div class=\"session-info\"><p>Session ID: <code>s&lt;1&gt;</code></p><p>Created: 2023-11-14 22:13:20 UTC</p><p>Updated: 2023-11-14 22:15:00 UTC</p></div></div><div role=\"group\"><button class=\"filter-btn active\" data-filter=\"all\">All</button><button class=\"filter-btn outline\" data-filter=\"tools\">Tools</button><button class=\"filter-btn outline\" data-filter=\"thoughts\">Thoughts</button><button class=\"filter-btn outline\" data-filter=\"errors\">Errors</button></div><div class=\"conversation-container\" id=\"spans-container\" data-session-id=\"s&lt;1&gt;\"><div class=\"empty-state\"><p>No spans recorded yet.</p><p>Spans will appear here as they are received.</p></div></div>"
    );
}

#[test]
fn session_detail_shows_thousands_of_tokens() {
    let session = Session {
        id: "s".to_string(),
        name: Some("Run".to_string()),
        created_at: 0,
        updated_at: 0,
    };
    let mut a = span(SpanKind::User);
    a.input_tokens = Some(1200);
    a.output_tokens = Some(2_000_000);
    let html = session_detail(&session, &[a]).into_string();
    assert!(html.contains(">1 spans<"));
    assert!(html.contains(">1.2k input<"));
    assert!(html.contains(">2.00M output<"));
    assert!(html.contains(">2.00M total<"));
    assert!(html.contains("class=\"turn turn-user\""));
}

#[test]
fn wrapper_between_assistant_spans_does_not_split_the_turn() {
    let spans = vec![
        span(SpanKind::User),
        span(SpanKind::Assistant),
        span(SpanKind::Span),
        span(SpanKind::ToolCall),
        span(SpanKind::Choice),
        span(SpanKind::ToolResult),
        span(SpanKind::System),
        span(SpanKind::Thinking),
    ];
    let turns = group_into_turns(&spans);
    let roles: Vec<TurnRole> = turns.iter().map(|t| t.role).collect();
    assert_eq!(roles, vec![TurnRole::User, TurnRole::Assistant, TurnRole::System, TurnRole::Assistant]);
    let kinds: Vec<Vec<SpanKind>> =
        turns.iter().map(|t| t.spans.iter().map(|s| s.kind).collect()).collect();
    assert_eq!(
        kinds,
        vec![
            vec![SpanKind::User],
            vec![SpanKind::Assistant, SpanKind::ToolCall, SpanKind::ToolResult],
            vec![SpanKind::System],
            vec![SpanKind::Thinking],
        ]
    );
}

#[test]
fn message_span_carries_one_error_flag() {
    let ok = span_html(&span(SpanKind::User)).into_string();
    assert!(ok.contains("data-has-error=\"false\""));
    assert!(!ok.contains("data-has-error=\"true\""));

    let mut failing = span(SpanKind::User);
    failing.finish_reason = Some("error".to_string());
    failing.content = Some("data-has-error=\"false\"".to_string());
    failing.id = "data-has-error=\"false\"".to_string();
    let bad = span_html(&failing).into_string();
    assert!(bad.contains("data-has-error=\"true\""));
    assert!(!bad.contains("data-has-error=\"false\""));
}
