//! Traceview views: the HTML that the trace viewer serves for sessions and
//! spans, with the text formatting that it relies on.

pub mod markup;
pub mod models;
pub mod numfmt;
pub mod timefmt;
pub mod views;

pub use markup::Markup;
pub use models::{JsonText, MetaValue, Metadata, Session, Span, SpanKind};
pub use numfmt::{format_duration, format_tokens};
pub use views::layout::{minimal_css, sse_script, theme_script};
pub use views::trace::{
    calculate_token_summary, group_into_turns, is_error_span, span_kind_to_string,
    ConversationTurn, TokenSummary, TurnRole,
};
