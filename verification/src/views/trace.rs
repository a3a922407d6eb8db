//! Session detail and span rendering views.

use vstd::prelude::*;

use crate::markup::{
    has_infix, html_escape, int_decimal, lemma_escape_plain, lemma_infix_left, lemma_infix_refl,
    lemma_infix_right, lemma_infix_within, lemma_prefix_right, nat_digits, push_escaped, push_i64, push_u64,
    text_contains, text_eq, Markup,
};
use crate::models::{
    json_pretty_text, pretty_json, opt_text, MetaValue, MetaValueView, Metadata, Session, SessionView, Span, SpanKind, SpanView,
};
use crate::numfmt::{duration_text, format_duration, format_tokens, tokens_text};
use crate::timefmt::{format_timestamp, timestamp_text};

verus! {

/// The models of a sequence of spans.
pub open spec fn views_of(spans: Seq<Span>) -> Seq<SpanView> {
    spans.map_values(|s: Span| s@)
}

// ---------------------------------------------------------------------------
// Span kinds

/// The name of a span kind, as used in `data-kind` attributes.
pub open spec fn kind_name(kind: SpanKind) -> Seq<char> {
    match kind {
        SpanKind::User => "user"@,
        SpanKind::Assistant => "assistant"@,
        SpanKind::System => "system"@,
        SpanKind::Thinking => "thinking"@,
        SpanKind::ToolCall => "tool_call"@,
        SpanKind::ToolResult => "tool_result"@,
        SpanKind::Choice => "choice"@,
        SpanKind::Span => "span"@,
    }
}

/// Converts a `SpanKind` to its string representation for use in data attributes.
pub fn span_kind_to_string(kind: SpanKind) -> (s: &'static str)
    ensures
        s@ == kind_name(kind),
{
    match kind {
        SpanKind::User => "user",
        SpanKind::Assistant => "assistant",
        SpanKind::System => "system",
        SpanKind::Thinking => "thinking",
        SpanKind::ToolCall => "tool_call",
        SpanKind::ToolResult => "tool_result",
        SpanKind::Choice => "choice",
        SpanKind::Span => "span",
    }
}

/// Wrapper spans (generic spans and choices) take no part in the conversation.
pub open spec fn is_wrapper_kind(kind: SpanKind) -> bool {
    kind == SpanKind::Span || kind == SpanKind::Choice
}

/// Kinds that belong to the assistant's side of a conversation.
pub open spec fn is_assistant_side(kind: SpanKind) -> bool {
    ||| kind == SpanKind::Assistant
    ||| kind == SpanKind::ToolCall
    ||| kind == SpanKind::ToolResult
    ||| kind == SpanKind::Thinking
}

// ---------------------------------------------------------------------------
// Conversation turns

/// The role of a conversation turn.
#[derive(Debug, Clone, Copy, PartialEq, Eq, Structural)]
pub enum TurnRole {
    /// User message turn.
    User,
    /// Assistant response turn, includes any tool calls as nested.
    Assistant,
    /// System message turn.
    System,
}

/// A conversation turn grouping related spans.
#[derive(Debug)]
pub struct ConversationTurn {
    /// The role of this turn.
    pub role: TurnRole,
    /// The spans that belong to this turn.
    pub spans: Vec<Span>,
}

/// The model of a conversation turn.
pub struct TurnView {
    pub role: TurnRole,
    pub spans: Seq<SpanView>,
}

impl View for ConversationTurn {
    type V = TurnView;

    open spec fn view(&self) -> TurnView {
        TurnView { role: self.role, spans: views_of(self.spans@) }
    }
}

/// The models of a sequence of turns.
pub open spec fn turn_views(turns: Seq<ConversationTurn>) -> Seq<TurnView> {
    turns.map_values(|t: ConversationTurn| t@)
}

/// Adds one span to the turns built so far: user and system spans open a
/// turn of their own, assistant-side spans join a trailing assistant turn or
/// open one, and wrapper spans are left out.
pub open spec fn add_to_turns(turns: Seq<TurnView>, s: SpanView) -> Seq<TurnView> {
    match s.kind {
        SpanKind::User => turns.push(TurnView { role: TurnRole::User, spans: seq![s] }),
        SpanKind::System => turns.push(TurnView { role: TurnRole::System, spans: seq![s] }),
        SpanKind::Span | SpanKind::Choice => turns,
        _ => {
            if turns.len() > 0 && turns.last().role == TurnRole::Assistant {
                turns.update(
                    turns.len() - 1,
                    TurnView { role: TurnRole::Assistant, spans: turns.last().spans.push(s) },
                )
            } else {
                turns.push(TurnView { role: TurnRole::Assistant, spans: seq![s] })
            }
        },
    }
}

/// The conversation turns of a sequence of spans, built span by span.
pub open spec fn turns_of(spans: Seq<SpanView>) -> Seq<TurnView>
    decreases spans.len(),
{
    if spans.len() == 0 {
        seq![]
    } else {
        add_to_turns(turns_of(spans.drop_last()), spans.last())
    }
}

/// Groups spans into conversation turns based on their kind.
///
/// User spans start a new turn, Assistant/Tool spans belong to assistant turns.
/// Wrapper spans (SpanKind::Span and SpanKind::Choice) are filtered out.
pub fn group_into_turns(spans: &[Span]) -> (turns: Vec<ConversationTurn>)
    ensures
        turn_views(turns@) == turns_of(views_of(spans@)),
{
    let mut turns: Vec<ConversationTurn> = Vec::new();
    let n = spans.len();
    for i in 0..n
        invariant
            n == spans@.len(),
            turn_views(turns@) == turns_of(views_of(spans@.take(i as int))),
    {
        let span = &spans[i];
        proof {
            assert(views_of(spans@.take(i + 1)).drop_last() =~= views_of(spans@.take(i as int)));
            assert(views_of(spans@.take(i + 1)).last() == span@);
        }
        let ghost before = turn_views(turns@);
        match span.kind {
            SpanKind::User => {
                turns.push(ConversationTurn { role: TurnRole::User, spans: vec![span.clone()] });
                proof {
                    assert(views_of(turns@.last().spans@) =~= seq![span@]);
                    assert(turn_views(turns@) =~= add_to_turns(before, span@));
                }
            },
            SpanKind::System => {
                turns.push(ConversationTurn { role: TurnRole::System, spans: vec![span.clone()] });
                proof {
                    assert(views_of(turns@.last().spans@) =~= seq![span@]);
                    assert(turn_views(turns@) =~= add_to_turns(before, span@));
                }
            },
            SpanKind::Span | SpanKind::Choice => {},
            _ => {
                let joins = turns.len() > 0 && turns[turns.len() - 1].role == TurnRole::Assistant;
                if joins {
                    let mut last = turns.pop().unwrap();
                    last.spans.push(span.clone());
                    turns.push(last);
                    proof {
                        assert(views_of(turns@.last().spans@) =~= before.last().spans.push(span@));
                        assert(turn_views(turns@) =~= add_to_turns(before, span@));
                    }
                } else {
                    turns.push(
                        ConversationTurn { role: TurnRole::Assistant, spans: vec![span.clone()] },
                    );
                    proof {
                        assert(views_of(turns@.last().spans@) =~= seq![span@]);
                        assert(turn_views(turns@) =~= add_to_turns(before, span@));
                    }
                }
            },
        }
    }
    proof {
        assert(spans@.take(n as int) =~= spans@);
    }
    turns
}


/// The spans of a sequence of turns, one turn after the other.
pub open spec fn spans_of_turns(turns: Seq<TurnView>) -> Seq<SpanView>
    decreases turns.len(),
{
    if turns.len() == 0 {
        seq![]
    } else {
        spans_of_turns(turns.drop_last()) + turns.last().spans
    }
}

/// The spans that take part in the conversation: all but the wrappers.
pub open spec fn conversation_spans(spans: Seq<SpanView>) -> Seq<SpanView> {
    spans.filter(|s: SpanView| !is_wrapper_kind(s.kind))
}

/// A turn holds at least one span; a user or system turn holds exactly one
/// span of its own kind; an assistant turn holds only assistant-side spans.
pub open spec fn turn_well_formed(t: TurnView) -> bool {
    &&& t.spans.len() > 0
    &&& t.role == TurnRole::User ==> t.spans.len() == 1 && t.spans[0].kind == SpanKind::User
    &&& t.role == TurnRole::System ==> t.spans.len() == 1 && t.spans[0].kind
        == SpanKind::System
    &&& t.role == TurnRole::Assistant ==> forall|j: int|
        0 <= j < t.spans.len() ==> is_assistant_side(#[trigger] t.spans[j].kind)
}

/// Every turn is well formed, and no assistant turn directly follows another.
pub open spec fn turns_well_formed(turns: Seq<TurnView>) -> bool {
    &&& forall|i: int| 0 <= i < turns.len() ==> turn_well_formed(#[trigger] turns[i])
    &&& forall|i: int|
        0 < i < turns.len() && #[trigger] turns[i].role == TurnRole::Assistant ==> turns[i
            - 1].role != TurnRole::Assistant
}

/// Grouping into turns loses, adds and reorders no span but the wrappers: the
/// turns' spans, one turn after the other, are the spans without the wrapper
/// spans, in their order.
pub proof fn lemma_turns_keep_conversation_spans(spans: Seq<SpanView>)
    ensures
        spans_of_turns(turns_of(spans)) == conversation_spans(spans),
    decreases spans.len(),
{
    reveal_with_fuel(Seq::<_>::filter, 1);
    if spans.len() > 0 {
        let prev = turns_of(spans.drop_last());
        let s = spans.last();
        lemma_turns_keep_conversation_spans(spans.drop_last());
        let next = add_to_turns(prev, s);
        if !is_wrapper_kind(s.kind) && s.kind != SpanKind::User && s.kind != SpanKind::System
            && prev.len() > 0 && prev.last().role == TurnRole::Assistant {
            assert(next.drop_last() =~= prev.drop_last());
            assert(spans_of_turns(next) =~= spans_of_turns(prev).push(s));
        } else if !is_wrapper_kind(s.kind) {
            assert(next.drop_last() =~= prev);
            assert(spans_of_turns(next) =~= spans_of_turns(prev).push(s));
        }
    }
}

/// Wrapper spans do not affect the grouping at all: grouping the spans gives
/// the turns that grouping only their conversation spans gives (a wrapper
/// between two assistant-side spans does not split their turn).
pub proof fn lemma_turns_ignore_wrappers(spans: Seq<SpanView>)
    ensures
        turns_of(spans) == turns_of(conversation_spans(spans)),
    decreases spans.len(),
{
    reveal_with_fuel(Seq::<_>::filter, 1);
    if spans.len() > 0 {
        lemma_turns_ignore_wrappers(spans.drop_last());
        let s = spans.last();
        if !is_wrapper_kind(s.kind) {
            let f = conversation_spans(spans);
            assert(f.drop_last() =~= conversation_spans(spans.drop_last()));
            assert(f.last() == s);
        }
    }
}

/// User and system spans each get a turn of their own, assistant-side spans
/// are grouped into assistant turns, and consecutive assistant-side spans
/// share one turn: no assistant turn directly follows another.
#[verifier::spinoff_prover]
#[verifier::rlimit(30)]
pub proof fn lemma_turns_well_formed(spans: Seq<SpanView>)
    ensures
        turns_well_formed(turns_of(spans)),
    decreases spans.len(),
{
    if spans.len() > 0 {
        let prev = turns_of(spans.drop_last());
        let s = spans.last();
        lemma_turns_well_formed(spans.drop_last());
        let next = add_to_turns(prev, s);
        assert forall|i: int| 0 <= i < next.len() implies turn_well_formed(#[trigger] next[i]) by {
            if i < prev.len() && !(i == prev.len() - 1 && next.len() == prev.len()) {
                assert(next[i] == prev[i]);
            } else if i == prev.len() - 1 && next.len() == prev.len() && !is_wrapper_kind(s.kind) {
                let t = next[i];
                assert forall|j: int| 0 <= j < t.spans.len() implies is_assistant_side(
                    #[trigger] t.spans[j].kind,
                ) by {
                    if j < t.spans.len() - 1 {
                        assert(t.spans[j] == prev[i].spans[j]);
                    }
                }
            }
        }
    }
}


// ---------------------------------------------------------------------------
// Token summary

/// Summary of token usage across all spans in a session.
#[derive(Debug, PartialEq, Eq, Structural)]
pub struct TokenSummary {
    pub total_input: i64,
    pub total_output: i64,
    pub span_count: usize,
}

/// A token count that may be missing, counted as zero when it is.
pub open spec fn tokens_or_zero(t: Option<i64>) -> int {
    match t {
        Some(n) => n as int,
        None => 0,
    }
}

/// The sum of the spans' input tokens, a missing count counting as zero.
pub open spec fn sum_input_tokens(spans: Seq<SpanView>) -> int
    decreases spans.len(),
{
    if spans.len() == 0 {
        0
    } else {
        sum_input_tokens(spans.drop_last()) + tokens_or_zero(spans.last().input_tokens)
    }
}

/// The sum of the spans' output tokens, a missing count counting as zero.
pub open spec fn sum_output_tokens(spans: Seq<SpanView>) -> int
    decreases spans.len(),
{
    if spans.len() == 0 {
        0
    } else {
        sum_output_tokens(spans.drop_last()) + tokens_or_zero(spans.last().output_tokens)
    }
}

/// The running sums of input and output tokens stay within `i64` over every
/// prefix of the spans.
pub open spec fn token_sums_fit(spans: Seq<SpanView>) -> bool {
    forall|k: int|
        0 <= k <= spans.len() ==> {
            &&& i64::MIN <= #[trigger] sum_input_tokens(spans.take(k)) <= i64::MAX
            &&& i64::MIN <= sum_output_tokens(spans.take(k)) <= i64::MAX
        }
}

impl TokenSummary {
    /// Returns the total number of tokens (input + output).
    pub fn total(&self) -> (t: i64)
        requires
            i64::MIN <= self.total_input + self.total_output <= i64::MAX,
        ensures
            t == self.total_input + self.total_output,
    {
        self.total_input + self.total_output
    }
}

/// Calculates token summary statistics from a slice of spans.
///
/// Spans with `None` values for input or output tokens are treated as 0.
pub fn calculate_token_summary(spans: &[Span]) -> (summary: TokenSummary)
    requires
        token_sums_fit(views_of(spans@)),
    ensures
        summary.total_input == sum_input_tokens(views_of(spans@)),
        summary.total_output == sum_output_tokens(views_of(spans@)),
        summary.span_count == spans@.len(),
{
    let mut acc = TokenSummary { total_input: 0, total_output: 0, span_count: 0 };
    let n = spans.len();
    for i in 0..n
        invariant
            n == spans@.len(),
            token_sums_fit(views_of(spans@)),
            acc.total_input == sum_input_tokens(views_of(spans@).take(i as int)),
            acc.total_output == sum_output_tokens(views_of(spans@).take(i as int)),
            acc.span_count == i,
    {
        let span = &spans[i];
        proof {
            let all = views_of(spans@);
            assert(all.take(i + 1).drop_last() =~= all.take(i as int));
            assert(all.take(i + 1).last() == span@);
            assert(i64::MIN <= sum_input_tokens(all.take(i + 1)) <= i64::MAX);
        }
        let input = match span.input_tokens {
            Some(t) => t,
            None => 0,
        };
        let output = match span.output_tokens {
            Some(t) => t,
            None => 0,
        };
        acc.total_input = acc.total_input + input;
        acc.total_output = acc.total_output + output;
        acc.span_count = acc.span_count + 1;
    }
    proof {
        assert(views_of(spans@).take(n as int) =~= views_of(spans@));
    }
    acc
}


// ---------------------------------------------------------------------------
// Errors

/// A span is an error span when its finish reason mentions "error" or is
/// "content_filter".
pub open spec fn is_error(span: SpanView) -> bool {
    match span.finish_reason {
        Some(r) => r == "error"@ || has_infix(r, "error"@) || r == "content_filter"@,
        None => false,
    }
}

/// Checks if a span has an error finish reason.
pub fn is_error_span(span: &Span) -> (b: bool)
    ensures
        b == is_error(span@),
{
    match &span.finish_reason {
        Some(r) => {
            text_eq(r.as_str(), "error") || text_contains(r.as_str(), "error") || text_eq(
                r.as_str(),
                "content_filter",
            )
        },
        None => false,
    }
}


// ---------------------------------------------------------------------------
// Span metadata

/// The value of the first member of a metadata object with the given key.
pub open spec fn meta_lookup(entries: Seq<(Seq<char>, MetaValueView)>, key: Seq<char>) -> Option<
    MetaValueView,
>
    decreases entries.len(),
{
    if entries.len() == 0 {
        None
    } else if entries[0].0 == key {
        Some(entries[0].1)
    } else {
        meta_lookup(entries.drop_first(), key)
    }
}

/// What a metadata value shows: a JSON string as its text, any other JSON
/// value pretty-printed.
pub open spec fn meta_value_text(v: MetaValueView) -> Option<Seq<char>> {
    match v {
        MetaValueView::Text(t) => Some(t),
        MetaValueView::Json(j) => json_pretty_text(j),
    }
}

/// What the metadata member with the given key shows, if there is one.
pub open spec fn meta_field_text(s: SpanView, key: Seq<char>) -> Option<Seq<char>> {
    match s.metadata {
        Some(entries) => match meta_lookup(entries, key) {
            Some(v) => meta_value_text(v),
            None => None,
        },
        None => None,
    }
}

/// Whether a span's metadata has a member with the given key.
pub open spec fn has_meta_member(s: SpanView, key: Seq<char>) -> bool {
    match s.metadata {
        Some(entries) => meta_lookup(entries, key) is Some,
        None => false,
    }
}

/// The tool arguments that a span's metadata shows.
pub open spec fn tool_arguments_text(s: SpanView) -> Option<Seq<char>> {
    meta_field_text(s, "tool_arguments"@)
}

/// The tool response that a span's metadata shows.
pub open spec fn tool_response_text(s: SpanView) -> Option<Seq<char>> {
    meta_field_text(s, "tool_response"@)
}

fn lookup_meta<'a>(m: &'a Metadata, key: &str) -> (r: Option<&'a MetaValue>)
    ensures
        match r {
            Some(v) => meta_lookup(m@, key@) == Some(v@),
            None => meta_lookup(m@, key@) is None,
        },
{
    let n = m.entries.len();
    assert(m@.skip(0) =~= m@);
    for i in 0..n
        invariant
            n == m.entries@.len(),
            m@.len() == n,
            meta_lookup(m@, key@) == meta_lookup(m@.skip(i as int), key@),
    {
        proof {
            assert(m@.skip(i as int)[0] == m@[i as int]);
            assert(m@.skip(i as int).drop_first() =~= m@.skip(i + 1));
        }
        if text_eq(m.entries[i].0.as_str(), key) {
            return Some(&m.entries[i].1);
        }
    }
    proof {
        assert(m@.skip(n as int).len() == 0);
    }
    None
}

fn meta_field(span: &Span, key: &str) -> (r: Option<String>)
    ensures
        opt_text(r) == meta_field_text(span@, key@),
        has_meta_member(span@, key@) ==> r is Some,
{
    match &span.metadata {
        Some(m) => match lookup_meta(m, key) {
            Some(MetaValue::Text(t)) => Some(t.clone()),
            Some(MetaValue::Json(j)) => pretty_json(j.as_str()),
            None => None,
        },
        None => None,
    }
}

/// Extracts tool arguments and response from span metadata.
pub fn extract_tool_content(span: &Span) -> (r: Option<(Option<String>, Option<String>)>)
    ensures
        match r {
            Some((args, response)) => {
                &&& opt_text(args) == tool_arguments_text(span@)
                &&& opt_text(response) == tool_response_text(span@)
                &&& (args is Some || response is Some)
            },
            None => tool_arguments_text(span@) is None && tool_response_text(span@) is None,
        },
        has_meta_member(span@, "tool_arguments"@) ==> tool_arguments_text(span@) is Some,
        has_meta_member(span@, "tool_response"@) ==> tool_response_text(span@) is Some,
{
    if span.metadata.is_none() {
        return None;
    }
    let args = meta_field(span, "tool_arguments");
    let response = meta_field(span, "tool_response");
    if args.is_some() || response.is_some() {
        Some((args, response))
    } else {
        None
    }
}


// ---------------------------------------------------------------------------
// Span markup

/// The value of a `data-has-error` attribute.
pub open spec fn error_flag(b: bool) -> Seq<char> {
    if b {
        "true"@
    } else {
        "false"@
    }
}

/// The opening tag of a span's `div`, with its kind, id and error flag.
pub open spec fn span_open_markup(kind: Seq<char>, id: Seq<char>, has_error: bool) -> Seq<char> {
    "<div class=\"span\" data-kind=\""@ + html_escape(kind) + "\" data-span-id=\""@ + html_escape(id)
        + "\" data-has-error=\""@ + error_flag(has_error) + "\">"@
}

/// The model name in a span's header, if there is one.
pub open spec fn model_markup(m: Option<Seq<char>>) -> Seq<char> {
    match m {
        Some(t) => "<small>"@ + html_escape(t) + "</small>"@,
        None => seq![],
    }
}

/// The duration in a span's header, if there is one.
pub open spec fn meta_duration_markup(d: Option<i64>) -> Seq<char> {
    match d {
        Some(ms) => "<small> \u{b7} "@ + duration_text(ms as int) + "</small>"@,
        None => seq![],
    }
}

/// The input token count in a span's header, if there is one.
pub open spec fn input_tokens_markup(t: Option<i64>) -> Seq<char> {
    match t {
        Some(n) => "<small> \u{b7} "@ + int_decimal(n as int) + " in</small>"@,
        None => seq![],
    }
}

/// The output token count in a span's header, if there is one.
pub open spec fn output_tokens_markup(t: Option<i64>) -> Seq<char> {
    match t {
        Some(n) => "<small> / "@ + int_decimal(n as int) + " out</small>"@,
        None => seq![],
    }
}

/// The details in a span's header: model, duration and token counts.
pub open spec fn span_meta_markup(s: SpanView) -> Seq<char> {
    model_markup(s.model) + meta_duration_markup(s.duration_ms) + input_tokens_markup(
        s.input_tokens,
    ) + output_tokens_markup(s.output_tokens)
}

/// The content of a message span, if there is any.
pub open spec fn content_markup(c: Option<Seq<char>>) -> Seq<char> {
    match c {
        Some(t) => "<div class=\"span-content\">"@ + html_escape(t) + "</div>"@,
        None => seq![],
    }
}

/// A span other than a tool span: a header with its kind and details, then
/// its content.
pub open spec fn message_span_markup(s: SpanView) -> Seq<char> {
    span_open_markup(kind_name(s.kind), s.id, is_error(s))
        + "<div class=\"span-header\"><span class=\"span-kind\">"@ + html_escape(kind_name(s.kind))
        + "</span><div class=\"span-meta\">"@ + span_meta_markup(s) + "</div></div>"@
        + content_markup(s.content) + "</div>"@
}

/// A tool span without a tool name (or named "unknown") is a wrapper, shown
/// hidden.
pub open spec fn tool_is_hidden(s: SpanView) -> bool {
    match s.tool_name {
        Some(n) => n == "unknown"@,
        None => true,
    }
}

/// A gear for a tool call, an outbox tray for a tool result.
pub open spec fn tool_icon(kind: SpanKind) -> Seq<char> {
    if kind == SpanKind::ToolCall {
        "\u{2699}\u{fe0f}"@
    } else {
        "\u{1f4e4}"@
    }
}

/// The duration in a tool span's summary, if there is one.
pub open spec fn tool_duration_markup(d: Option<i64>) -> Seq<char> {
    match d {
        Some(ms) => "<small> "@ + duration_text(ms as int) + "</small>"@,
        None => seq![],
    }
}

/// A labelled block of tool text, if there is any.
pub open spec fn labelled_markup(label: Seq<char>, t: Option<Seq<char>>) -> Seq<char> {
    match t {
        Some(x) => "<div><strong>"@ + label + "</strong><pre><code>"@ + html_escape(x)
            + "</code></pre></div>"@,
        None => seq![],
    }
}

/// What a tool span shows when it has neither arguments nor response: its
/// content, or "No content".
pub open spec fn tool_fallback_markup(
    args: Option<Seq<char>>,
    response: Option<Seq<char>>,
    content: Option<Seq<char>>,
) -> Seq<char> {
    if args is None && response is None {
        match content {
            Some(c) => "<pre><code>"@ + html_escape(c) + "</code></pre>"@,
            None => "<small>No content</small>"@,
        }
    } else {
        seq![]
    }
}

/// The collapsible body of a visible tool span.
pub open spec fn tool_details_markup(
    s: SpanView,
    args: Option<Seq<char>>,
    response: Option<Seq<char>>,
) -> Seq<char> {
    tool_summary_markup(s) + "<div class=\"tool-content\">"@ + labelled_markup("Args: "@, args)
        + labelled_markup("Response: "@, response) + tool_fallback_markup(
        args,
        response,
        s.content,
    ) + "</div></details>"@
}

/// The summary line of a visible tool span: icon, tool name and duration.
pub open spec fn tool_summary_markup(s: SpanView) -> Seq<char> {
    "<details class=\"tool-details\"><summary class=\"tool-summary\">"@ + html_escape(
        tool_icon(s.kind),
    ) + " <code>"@ + html_escape(s.tool_name.unwrap()) + "</code>"@ + tool_duration_markup(
        s.duration_ms,
    ) + "</summary>"@
}

/// A tool span, given the kind name to show and the tool arguments and
/// response that its metadata shows.
pub open spec fn tool_span_markup(
    s: SpanView,
    kind: Seq<char>,
    args: Option<Seq<char>>,
    response: Option<Seq<char>>,
) -> Seq<char> {
    if tool_is_hidden(s) {
        "<div class=\"span wrapper-span\" data-kind=\""@ + html_escape(kind) + "\" data-span-id=\""@
            + html_escape(s.id) + "\" data-has-error=\"false\"></div>"@
    } else {
        span_open_markup(kind, s.id, is_error(s)) + tool_details_markup(s, args, response)
            + "</div>"@
    }
}

/// Whether a span is rendered as a tool span.
pub open spec fn is_tool_kind(kind: SpanKind) -> bool {
    kind == SpanKind::ToolCall || kind == SpanKind::ToolResult
}

/// The markup of a span.
pub open spec fn span_markup(s: SpanView) -> Seq<char> {
    if is_tool_kind(s.kind) {
        tool_span_markup(s, kind_name(s.kind), tool_arguments_text(s), tool_response_text(s))
    } else {
        message_span_markup(s)
    }
}

fn push_span_open(out: &mut String, kind: &str, id: &str, has_error: bool)
    ensures
        final(out)@ == old(out)@ + span_open_markup(kind@, id@, has_error),
{
    out.append("<div class=\"span\" data-kind=\"");
    push_escaped(out, kind);
    out.append("\" data-span-id=\"");
    push_escaped(out, id);
    out.append("\" data-has-error=\"");
    if has_error {
        out.append("true");
    } else {
        out.append("false");
    }
    out.append("\">");
    proof {
        assert(out@ =~= old(out)@ + span_open_markup(kind@, id@, has_error));
    }
}

fn push_model(out: &mut String, model: &Option<String>)
    ensures
        final(out)@ == old(out)@ + model_markup(opt_text(*model)),
{
    if let Some(m) = model {
        out.append("<small>");
        push_escaped(out, m.as_str());
        out.append("</small>");
        assert(out@ =~= old(out)@ + model_markup(opt_text(*model)));
    } else {
        assert(out@ =~= old(out)@ + model_markup(opt_text(*model)));
    }
}

fn push_meta_duration(out: &mut String, duration: Option<i64>)
    ensures
        final(out)@ == old(out)@ + meta_duration_markup(duration),
{
    if let Some(ms) = duration {
        out.append("<small> \u{b7} ");
        let d = format_duration(ms);
        out.append(d.as_str());
        out.append("</small>");
    }
    assert(out@ =~= old(out)@ + meta_duration_markup(duration));
}

fn push_input_tokens(out: &mut String, tokens: Option<i64>)
    ensures
        final(out)@ == old(out)@ + input_tokens_markup(tokens),
{
    if let Some(n) = tokens {
        out.append("<small> \u{b7} ");
        push_i64(out, n);
        out.append(" in</small>");
    }
    assert(out@ =~= old(out)@ + input_tokens_markup(tokens));
}

fn push_output_tokens(out: &mut String, tokens: Option<i64>)
    ensures
        final(out)@ == old(out)@ + output_tokens_markup(tokens),
{
    if let Some(n) = tokens {
        out.append("<small> / ");
        push_i64(out, n);
        out.append(" out</small>");
    }
    assert(out@ =~= old(out)@ + output_tokens_markup(tokens));
}

fn push_span_meta(out: &mut String, span: &Span)
    ensures
        final(out)@ == old(out)@ + span_meta_markup(span@),
{
    push_model(out, &span.model);
    push_meta_duration(out, span.duration_ms);
    push_input_tokens(out, span.input_tokens);
    push_output_tokens(out, span.output_tokens);
    assert(out@ =~= old(out)@ + span_meta_markup(span@));
}

fn push_message_span(out: &mut String, span: &Span)
    ensures
        final(out)@ == old(out)@ + message_span_markup(span@),
{
    let ghost start = out@;
    let kind_str = span_kind_to_string(span.kind);
    let has_error = is_error_span(span);
    push_span_open(out, kind_str, span.id.as_str(), has_error);
    out.append("<div class=\"span-header\"><span class=\"span-kind\">");
    push_escaped(out, kind_str);
    out.append("</span><div class=\"span-meta\">");
    push_span_meta(out, span);
    out.append("</div></div>");
    let ghost mid = out@;
    if let Some(content) = &span.content {
        out.append("<div class=\"span-content\">");
        push_escaped(out, content.as_str());
        out.append("</div>");
    }
    assert(out@ =~= mid + content_markup(span@.content));
    out.append("</div>");
    assert(out@ =~= start + message_span_markup(span@));
}


fn push_tool_duration(out: &mut String, duration: Option<i64>)
    ensures
        final(out)@ == old(out)@ + tool_duration_markup(duration),
{
    if let Some(ms) = duration {
        out.append("<small> ");
        let d = format_duration(ms);
        out.append(d.as_str());
        out.append("</small>");
    }
    assert(out@ =~= old(out)@ + tool_duration_markup(duration));
}

fn push_labelled(out: &mut String, label: &str, text: &Option<String>)
    ensures
        final(out)@ == old(out)@ + labelled_markup(label@, opt_text(*text)),
{
    if let Some(t) = text {
        out.append("<div><strong>");
        out.append(label);
        out.append("</strong><pre><code>");
        push_escaped(out, t.as_str());
        out.append("</code></pre></div>");
    }
    assert(out@ =~= old(out)@ + labelled_markup(label@, opt_text(*text)));
}

fn push_tool_fallback(
    out: &mut String,
    args: &Option<String>,
    response: &Option<String>,
    content: &Option<String>,
)
    ensures
        final(out)@ == old(out)@ + tool_fallback_markup(
            opt_text(*args),
            opt_text(*response),
            opt_text(*content),
        ),
{
    if args.is_none() && response.is_none() {
        match content {
            Some(c) => {
                out.append("<pre><code>");
                push_escaped(out, c.as_str());
                out.append("</code></pre>");
            },
            None => {
                out.append("<small>No content</small>");
            },
        }
    }
    assert(out@ =~= old(out)@ + tool_fallback_markup(
        opt_text(*args),
        opt_text(*response),
        opt_text(*content),
    ));
}

fn push_tool_details(
    out: &mut String,
    span: &Span,
    tool_name: &str,
    args: &Option<String>,
    response: &Option<String>,
)
    requires
        span@.tool_name == Some(tool_name@),
    ensures
        final(out)@ == old(out)@ + tool_details_markup(span@, opt_text(*args), opt_text(*response)),
{
    let icon = if span.kind == SpanKind::ToolCall {
        "\u{2699}\u{fe0f}"
    } else {
        "\u{1f4e4}"
    };
    out.append("<details class=\"tool-details\"><summary class=\"tool-summary\">");
    push_escaped(out, icon);
    out.append(" <code>");
    push_escaped(out, tool_name);
    out.append("</code>");
    push_tool_duration(out, span.duration_ms);
    out.append("</summary>");
    out.append("<div class=\"tool-content\">");
    push_labelled(out, "Args: ", args);
    push_labelled(out, "Response: ", response);
    push_tool_fallback(out, args, response, &span.content);
    out.append("</div></details>");
    assert(out@ =~= old(out)@ + tool_details_markup(
        span@,
        opt_text(*args),
        opt_text(*response),
    ));
}

/// Renders a tool span (ToolCall or ToolResult) with collapsible
/// details/summary, given the tool arguments and response to show.
pub fn tool_span_html_with(
    span: &Span,
    kind_str: &str,
    args: &Option<String>,
    response: &Option<String>,
) -> (m: Markup)
    ensures
        m@ == tool_span_markup(span@, kind_str@, opt_text(*args), opt_text(*response)),
{
    let mut out = String::new();
    let hidden = match &span.tool_name {
        Some(name) => text_eq(name.as_str(), "unknown"),
        None => true,
    };
    // Hide wrapper spans with "unknown" tool name - these are pydantic-ai's "running N tools" spans
    if hidden {
        out.append("<div class=\"span wrapper-span\" data-kind=\"");
        push_escaped(&mut out, kind_str);
        out.append("\" data-span-id=\"");
        push_escaped(&mut out, span.id.as_str());
        out.append("\" data-has-error=\"false\"></div>");
        assert(out@ =~= tool_span_markup(span@, kind_str@, opt_text(*args), opt_text(*response)));
        return Markup::pre_escaped(out);
    }
    let name = match &span.tool_name {
        Some(n) => n.as_str(),
        None => "unknown",
    };
    let has_error = is_error_span(span);
    push_span_open(&mut out, kind_str, span.id.as_str(), has_error);
    push_tool_details(&mut out, span, name, args, response);
    out.append("</div>");
    assert(out@ =~= tool_span_markup(span@, kind_str@, opt_text(*args), opt_text(*response)));
    Markup::pre_escaped(out)
}

/// Renders a tool span (ToolCall or ToolResult) with collapsible details/summary.
pub fn tool_span_html(span: &Span, kind_str: &str) -> (m: Markup)
    ensures
        m@ == tool_span_markup(
            span@,
            kind_str@,
            tool_arguments_text(span@),
            tool_response_text(span@),
        ),
{
    // Extract tool content from metadata
    let (args, response) = match extract_tool_content(span) {
        Some(found) => found,
        None => (None, None),
    };
    tool_span_html_with(span, kind_str, &args, &response)
}

/// Renders a single span as HTML.
///
/// This function is used for both initial render and SSE updates.
/// Tool calls and tool results use collapsible details/summary elements.
pub fn span_html(span: &Span) -> (m: Markup)
    ensures
        m@ == span_markup(span@),
{
    let kind_str = span_kind_to_string(span.kind);
    // Tool calls and tool results use collapsible details/summary
    if span.kind == SpanKind::ToolCall || span.kind == SpanKind::ToolResult {
        return tool_span_html(span, kind_str);
    }
    let mut out = String::new();
    push_message_span(&mut out, span);
    assert(out@ =~= span_markup(span@));
    Markup::pre_escaped(out)
}


// ---------------------------------------------------------------------------
// Turns and conversation

/// The markup of spans one after the other.
pub open spec fn spans_markup(spans: Seq<SpanView>) -> Seq<char>
    decreases spans.len(),
{
    if spans.len() == 0 {
        seq![]
    } else {
        spans_markup(spans.drop_last()) + span_markup(spans.last())
    }
}

/// The class of a turn's `div`.
pub open spec fn turn_class(role: TurnRole) -> Seq<char> {
    match role {
        TurnRole::User => "turn turn-user"@,
        TurnRole::Assistant => "turn turn-assistant"@,
        TurnRole::System => "turn turn-system"@,
    }
}

/// The markup of a turn: its spans inside a `div` of the turn's class.
pub open spec fn turn_markup(t: TurnView) -> Seq<char> {
    "<div class=\""@ + html_escape(turn_class(t.role)) + "\">"@ + spans_markup(t.spans) + "</div>"@
}

/// The markup of turns one after the other.
pub open spec fn turns_markup(turns: Seq<TurnView>) -> Seq<char>
    decreases turns.len(),
{
    if turns.len() == 0 {
        seq![]
    } else {
        turns_markup(turns.drop_last()) + turn_markup(turns.last())
    }
}

/// The conversation view of spans: their turns inside a `conversation` div.
pub open spec fn conversation_markup(spans: Seq<SpanView>) -> Seq<char> {
    "<div class=\"conversation\">"@ + turns_markup(turns_of(spans)) + "</div>"@
}

/// Renders a conversation turn as HTML.
pub fn turn_html(turn: &ConversationTurn) -> (m: Markup)
    ensures
        m@ == turn_markup(turn@),
{
    let turn_class = match turn.role {
        TurnRole::User => "turn turn-user",
        TurnRole::Assistant => "turn turn-assistant",
        TurnRole::System => "turn turn-system",
    };
    let mut out = String::new();
    out.append("<div class=\"");
    push_escaped(&mut out, turn_class);
    out.append("\">");
    let ghost start = out@;
    let n = turn.spans.len();
    for i in 0..n
        invariant
            n == turn.spans@.len(),
            out@ == start + spans_markup(views_of(turn.spans@).take(i as int)),
    {
        let m = span_html(&turn.spans[i]);
        out.append(m.as_str());
        proof {
            let all = views_of(turn.spans@);
            assert(all.take(i + 1).drop_last() =~= all.take(i as int));
            assert(all.take(i + 1).last() == turn.spans@[i as int]@);
            assert(out@ =~= start + spans_markup(all.take(i + 1)));
        }
    }
    proof {
        assert(views_of(turn.spans@).take(n as int) =~= views_of(turn.spans@));
    }
    out.append("</div>");
    assert(out@ =~= turn_markup(turn@));
    Markup::pre_escaped(out)
}

/// Renders the full conversation view from spans.
pub fn conversation_view(spans: &[Span]) -> (m: Markup)
    ensures
        m@ == conversation_markup(views_of(spans@)),
{
    let turns = group_into_turns(spans);
    let mut out = String::new();
    out.append("<div class=\"conversation\">");
    let ghost start = out@;
    let n = turns.len();
    for i in 0..n
        invariant
            n == turns@.len(),
            out@ == start + turns_markup(turn_views(turns@).take(i as int)),
    {
        let m = turn_html(&turns[i]);
        out.append(m.as_str());
        proof {
            let all = turn_views(turns@);
            assert(all.take(i + 1).drop_last() =~= all.take(i as int));
            assert(all.take(i + 1).last() == turns@[i as int]@);
            assert(out@ =~= start + turns_markup(all.take(i + 1)));
        }
    }
    proof {
        assert(turn_views(turns@).take(n as int) =~= turn_views(turns@));
    }
    out.append("</div>");
    assert(out@ =~= conversation_markup(views_of(spans@)));
    Markup::pre_escaped(out)
}

// ---------------------------------------------------------------------------
// Token summary and session detail

/// The token summary bar: span count, input, output and total tokens.
pub open spec fn token_summary_markup(s: TokenSummary) -> Seq<char> {
    "<div class=\"token-summary\"><span class=\"token-stat\">"@ + nat_digits(s.span_count as nat)
        + " spans</span><span class=\"token-stat\">"@ + html_escape(tokens_text(s.total_input as int))
        + " input</span><span class=\"token-stat\">"@ + html_escape(
        tokens_text(s.total_output as int),
    ) + " output</span><span class=\"token-stat token-total\">"@ + html_escape(
        tokens_text(s.total_input + s.total_output),
    ) + " total</span></div>"@
}

/// Renders the token summary as a compact HTML bar.
pub fn token_summary_html(summary: &TokenSummary) -> (m: Markup)
    requires
        i64::MIN <= summary.total_input + summary.total_output <= i64::MAX,
    ensures
        m@ == token_summary_markup(*summary),
{
    let mut out = String::new();
    out.append("<div class=\"token-summary\"><span class=\"token-stat\">");
    push_u64(&mut out, summary.span_count as u64);
    out.append(" spans</span><span class=\"token-stat\">");
    let input = format_tokens(summary.total_input);
    push_escaped(&mut out, input.as_str());
    out.append(" input</span><span class=\"token-stat\">");
    let output = format_tokens(summary.total_output);
    push_escaped(&mut out, output.as_str());
    out.append(" output</span><span class=\"token-stat token-total\">");
    let total = format_tokens(summary.total());
    push_escaped(&mut out, total.as_str());
    out.append(" total</span></div>");
    assert(out@ =~= token_summary_markup(*summary));
    Markup::pre_escaped(out)
}

/// The name a session is shown under: its name, or else its id.
pub open spec fn session_display_name(s: SessionView) -> Seq<char> {
    match s.name {
        Some(n) => n,
        None => s.id,
    }
}

/// The header of the session detail page.
pub open spec fn session_header_markup(s: SessionView, spans: Seq<SpanView>) -> Seq<char> {
    let summary = TokenSummary {
        total_input: sum_input_tokens(spans) as i64,
        total_output: sum_output_tokens(spans) as i64,
        span_count: spans.len() as usize,
    };
    "<div class=\"session-header\"><h2>"@ + html_escape(session_display_name(s)) + "</h2>"@
        + token_summary_markup(summary) + session_info_markup(s)
}

/// The id and times of a session, closing its header.
pub open spec fn session_info_markup(s: SessionView) -> Seq<char> {
    "<div class=\"session-info\"><p>Session ID: <code>"@ + html_escape(s.id)
        + "</code></p><p>Created: "@ + html_escape(timestamp_text(s.created_at as int))
        + "</p><p>Updated: "@ + html_escape(timestamp_text(s.updated_at as int))
        + "</p></div></div>"@
}

/// The filter buttons of the session detail page.
pub open spec fn filter_controls_markup() -> Seq<char> {
    "<div role=\"group\"><button class=\"filter-btn active\" data-filter=\"all\">All</button><button class=\"filter-btn outline\" data-filter=\"tools\">Tools</button><button class=\"filter-btn outline\" data-filter=\"thoughts\">Thoughts</button><button class=\"filter-btn outline\" data-filter=\"errors\">Errors</button></div>"@
}

/// What the spans container shows when there are no spans.
pub open spec fn empty_state_markup() -> Seq<char> {
    "<div class=\"empty-state\"><p>No spans recorded yet.</p><p>Spans will appear here as they are received.</p></div>"@
}

/// The session detail page: header with token summary, filter controls, and
/// the spans as a conversation (or an empty state when there are none).
pub open spec fn session_detail_markup(s: SessionView, spans: Seq<SpanView>) -> Seq<char> {
    session_header_markup(s, spans) + filter_controls_markup() + spans_container_open(s.id) + (
    if spans.len() == 0 {
        empty_state_markup()
    } else {
        conversation_markup(spans)
    }) + "</div>"@
}

/// The opening tag of the container of a session's spans.
pub open spec fn spans_container_open(id: Seq<char>) -> Seq<char> {
    "<div class=\"conversation-container\" id=\"spans-container\" data-session-id=\""@
        + html_escape(id) + "\">"@
}

/// The token sums that the session detail page shows stay within `i64`.
pub open spec fn session_tokens_fit(spans: Seq<SpanView>) -> bool {
    &&& token_sums_fit(spans)
    &&& i64::MIN <= sum_input_tokens(spans) + sum_output_tokens(spans) <= i64::MAX
}

fn push_session_header(out: &mut String, session: &Session, spans: &[Span])
    requires
        session_tokens_fit(views_of(spans@)),
    ensures
        final(out)@ == old(out)@ + session_header_markup(session@, views_of(spans@)),
{
    let display_name = match &session.name {
        Some(n) => n.as_str(),
        None => session.id.as_str(),
    };
    let summary = calculate_token_summary(spans);
    proof {
        assert(views_of(spans@).take(views_of(spans@).len() as int) =~= views_of(spans@));
    }
    out.append("<div class=\"session-header\"><h2>");
    push_escaped(out, display_name);
    out.append("</h2>");
    let sm = token_summary_html(&summary);
    out.append(sm.as_str());
    push_session_info(out, session);
    assert(out@ =~= old(out)@ + session_header_markup(session@, views_of(spans@)));
}

fn push_session_info(out: &mut String, session: &Session)
    ensures
        final(out)@ == old(out)@ + session_info_markup(session@),
{
    out.append("<div class=\"session-info\"><p>Session ID: <code>");
    push_escaped(out, session.id.as_str());
    out.append("</code></p><p>Created: ");
    let created = format_timestamp(session.created_at);
    push_escaped(out, created.as_str());
    out.append("</p><p>Updated: ");
    let updated = format_timestamp(session.updated_at);
    push_escaped(out, updated.as_str());
    out.append("</p></div></div>");
    assert(out@ =~= old(out)@ + session_info_markup(session@));
}

/// Renders the session detail page with all spans.
///
/// # Arguments
/// * `session` - The session to display
/// * `spans` - Slice of spans belonging to this session
pub fn session_detail(session: &Session, spans: &[Span]) -> (m: Markup)
    requires
        session_tokens_fit(views_of(spans@)),
    ensures
        m@ == session_detail_markup(session@, views_of(spans@)),
{
    let mut out = String::new();
    push_session_header(&mut out, session, spans);
    out.append(
        "<div role=\"group\"><button class=\"filter-btn active\" data-filter=\"all\">All</button><button class=\"filter-btn outline\" data-filter=\"tools\">Tools</button><button class=\"filter-btn outline\" data-filter=\"thoughts\">Thoughts</button><button class=\"filter-btn outline\" data-filter=\"errors\">Errors</button></div>",
    );
    out.append("<div class=\"conversation-container\" id=\"spans-container\" data-session-id=\"");
    push_escaped(&mut out, session.id.as_str());
    out.append("\">");
    let ghost mid = out@;
    if spans.len() == 0 {
        out.append(
            "<div class=\"empty-state\"><p>No spans recorded yet.</p><p>Spans will appear here as they are received.</p></div>",
        );
    } else {
        let c = conversation_view(spans);
        out.append(c.as_str());
    }
    out.append("</div>");
    assert(out@ =~= session_detail_markup(session@, views_of(spans@)));
    Markup::pre_escaped(out)
}


// ---------------------------------------------------------------------------
// Laws of the views

/// The error flag attribute that a span's markup carries.
pub open spec fn error_attribute(b: bool) -> Seq<char> {
    if b {
        "data-has-error=\"true\""@
    } else {
        "data-has-error=\"false\""@
    }
}

/// Whether a span is shown (all but the hidden tool wrappers).
pub open spec fn is_shown(s: SpanView) -> bool {
    !(is_tool_kind(s.kind) && tool_is_hidden(s))
}

proof fn lemma_open_tag_has_flag(kind: Seq<char>, id: Seq<char>, b: bool)
    ensures
        has_infix(span_open_markup(kind, id, b), error_attribute(b)),
{
    reveal_strlit("\" data-has-error=\"");
    reveal_strlit("\">");
    reveal_strlit("true");
    reveal_strlit("false");
    reveal_strlit("data-has-error=\"true\"");
    reveal_strlit("data-has-error=\"false\"");
    let a = "<div class=\"span\" data-kind=\""@ + html_escape(kind) + "\" data-span-id=\""@
        + html_escape(id);
    let m = "\" data-has-error=\""@ + error_flag(b) + "\">"@;
    let pat = error_attribute(b);
    assert(m.subrange(2, 2 + pat.len() as int) =~= pat);
    lemma_infix_within(a, m, seq![], pat);
    assert(a + m + Seq::<char>::empty() =~= span_open_markup(kind, id, b));
}

/// A shown span's markup opens with its `div` tag, whose `data-has-error`
/// attribute is the error predicate of the span; and the markup of every
/// span carries `data-has-error="true"` when it is shown and an error span,
/// `data-has-error="false"` otherwise.
pub proof fn lemma_span_error_flag(s: SpanView)
    ensures
        is_shown(s) ==> span_open_markup(kind_name(s.kind), s.id, is_error(s)).is_prefix_of(
            span_markup(s),
        ),
        has_infix(span_markup(s), error_attribute(is_shown(s) && is_error(s))),
{
    let m = span_markup(s);
    if is_shown(s) {
        let open = span_open_markup(kind_name(s.kind), s.id, is_error(s));
        let rest = if is_tool_kind(s.kind) {
            tool_details_markup(s, tool_arguments_text(s), tool_response_text(s)) + "</div>"@
        } else {
            "<div class=\"span-header\"><span class=\"span-kind\">"@ + html_escape(
                kind_name(s.kind),
            ) + "</span><div class=\"span-meta\">"@ + span_meta_markup(s) + "</div></div>"@
                + content_markup(s.content) + "</div>"@
        };
        assert(m =~= open + rest);
        assert(open.is_prefix_of(m)) by {
            assert(m.subrange(0, open.len() as int) =~= open);
        }
        lemma_open_tag_has_flag(kind_name(s.kind), s.id, is_error(s));
        lemma_infix_within(seq![], open, rest, error_attribute(is_error(s)));
        assert(Seq::<char>::empty() + open + rest =~= m);
    } else {
        reveal_strlit("\" data-has-error=\"false\"></div>");
        reveal_strlit("data-has-error=\"false\"");
        let a = "<div class=\"span wrapper-span\" data-kind=\""@ + html_escape(kind_name(s.kind))
            + "\" data-span-id=\""@ + html_escape(s.id);
        let tail = "\" data-has-error=\"false\"></div>"@;
        let pat = error_attribute(false);
        assert(tail.subrange(2, 2 + pat.len() as int) =~= pat);
        lemma_infix_within(a, tail, seq![], pat);
        assert(a + tail + Seq::<char>::empty() =~= m);
    }
}

/// A shown tool span with arguments or a response holds, inside its
/// `tool-content` block, the arguments block (when there are arguments),
/// then the response block (when there is a response), and nothing else: its
/// content is not shown, whatever it is.
pub proof fn lemma_tool_content_blocks(
    s: SpanView,
    kind: Seq<char>,
    args: Option<Seq<char>>,
    response: Option<Seq<char>>,
    other_content: Option<Seq<char>>,
)
    requires
        !tool_is_hidden(s),
        args is Some || response is Some,
    ensures
        tool_span_markup(s, kind, args, response) == span_open_markup(kind, s.id, is_error(s))
            + tool_summary_markup(s) + "<div class=\"tool-content\">"@ + labelled_markup(
            "Args: "@,
            args,
        ) + labelled_markup("Response: "@, response) + "</div></details>"@ + "</div>"@,
        tool_span_markup(SpanView { content: other_content, ..s }, kind, args, response)
            == tool_span_markup(s, kind, args, response),
{
    let t = SpanView { content: other_content, ..s };
    assert(tool_fallback_markup(args, response, s.content) =~= Seq::<char>::empty());
    assert(tool_fallback_markup(args, response, other_content) =~= Seq::<char>::empty());
    assert(is_error(t) == is_error(s));
    assert(tool_summary_markup(t) == tool_summary_markup(s));
    assert(tool_span_markup(s, kind, args, response) =~= span_open_markup(kind, s.id, is_error(s))
        + tool_summary_markup(s) + "<div class=\"tool-content\">"@ + labelled_markup(
        "Args: "@,
        args,
    ) + labelled_markup("Response: "@, response) + "</div></details>"@ + "</div>"@);
    assert(tool_span_markup(t, kind, args, response) =~= tool_span_markup(s, kind, args, response));
}

/// The markup of spans one after the other is the markup of each, in order:
/// the markup of two runs of spans is that of the first, then the second.
pub proof fn lemma_spans_markup_append(a: Seq<SpanView>, b: Seq<SpanView>)
    ensures
        spans_markup(a + b) == spans_markup(a) + spans_markup(b),
    decreases b.len(),
{
    if b.len() == 0 {
        assert(a + b =~= a);
        assert(spans_markup(a) + Seq::<char>::empty() =~= spans_markup(a));
    } else {
        lemma_spans_markup_append(a, b.drop_last());
        assert((a + b).drop_last() =~= a + b.drop_last());
        assert((a + b).last() == b.last());
        assert(spans_markup(a + b) =~= spans_markup(a) + spans_markup(b));
    }
}

/// A turn is its spans' markups, one after the other, inside a `div` whose
/// class names the turn's role.
pub proof fn lemma_turn_markup(t: TurnView)
    ensures
        turn_markup(t) == "<div class=\""@ + turn_class(t.role) + "\">"@ + spans_markup(t.spans)
            + "</div>"@,
{
    reveal_strlit("turn turn-user");
    reveal_strlit("turn turn-assistant");
    reveal_strlit("turn turn-system");
    let c = turn_class(t.role);
    assert forall|i: int| 0 <= i < c.len() implies {
        let x = #[trigger] c[i];
        x != '&' && x != '<' && x != '>' && x != '"'
    } by {
        assert(c[i] == 't' || c[i] == 'u' || c[i] == 'r' || c[i] == 'n' || c[i] == ' ' || c[i]
            == '-' || c[i] == 's' || c[i] == 'e' || c[i] == 'a' || c[i] == 'i' || c[i] == 'y'
            || c[i] == 'm');
    }
    lemma_escape_plain(c);
}

/// The conversation is the turns' markups one after the other inside a
/// `conversation` div; with no conversation spans (only wrappers, or none at
/// all) it is the empty `conversation` div.
pub proof fn lemma_conversation_markup(spans: Seq<SpanView>)
    ensures
        conversation_markup(spans) == "<div class=\"conversation\">"@ + turns_markup(turns_of(spans))
            + "</div>"@,
        conversation_spans(spans).len() == 0 ==> conversation_markup(spans)
            == "<div class=\"conversation\"></div>"@,
{
    lemma_turns_ignore_wrappers(spans);
    if conversation_spans(spans).len() == 0 {
        reveal_strlit("<div class=\"conversation\">");
        reveal_strlit("</div>");
        reveal_strlit("<div class=\"conversation\"></div>");
        assert(conversation_spans(spans) =~= Seq::<SpanView>::empty());
        assert(turns_of(spans) =~= Seq::<TurnView>::empty());
        assert(conversation_markup(spans) =~= "<div class=\"conversation\"></div>"@);
    }
}

/// With spans, the session page holds their conversation inside its spans
/// container, and no empty state; without spans, it holds the empty state.
pub proof fn lemma_session_page_body(s: SessionView, spans: Seq<SpanView>)
    ensures
        spans.len() > 0 ==> session_detail_markup(s, spans) == session_header_markup(s, spans)
            + filter_controls_markup() + spans_container_open(s.id) + conversation_markup(spans)
            + "</div>"@,
        spans.len() > 0 ==> has_infix(session_detail_markup(s, spans), conversation_markup(spans)),
        spans.len() == 0 ==> session_detail_markup(s, spans) == session_header_markup(s, spans)
            + filter_controls_markup() + spans_container_open(s.id) + empty_state_markup()
            + "</div>"@,
{
    if spans.len() > 0 {
        let a = session_header_markup(s, spans) + filter_controls_markup() + spans_container_open(
            s.id,
        );
        let m = conversation_markup(spans);
        assert(m.subrange(0, 0 + m.len() as int) =~= m);
        lemma_infix_within(a, m, "</div>"@, m);
    }
}


// ---------------------------------------------------------------------------
// Laws of the views

/// A span is an error span exactly when it has a finish reason that contains
/// "error" or is "content_filter": a span without a finish reason, or with
/// any other one (such as "stop", "end_turn" or "max_tokens"), is not.
pub proof fn lemma_error_span_reasons(s: SpanView)
    ensures
        match s.finish_reason {
            Some(r) => is_error(s) <==> (has_infix(r, "error"@) || r == "content_filter"@),
            None => !is_error(s),
        },
{
    match s.finish_reason {
        Some(r) => {
            if r == "error"@ {
                assert(r.subrange(0, 0 + "error"@.len() as int) =~= r);
            }
        },
        None => {},
    }
}

/// Token sums count every span whatever its kind: no spans sum to zero, and
/// one span more adds exactly its input and output counts, a missing count
/// adding nothing.
pub proof fn lemma_token_sums_push(spans: Seq<SpanView>, s: SpanView)
    ensures
        sum_input_tokens(Seq::<SpanView>::empty()) == 0,
        sum_output_tokens(Seq::<SpanView>::empty()) == 0,
        sum_input_tokens(spans.push(s)) == sum_input_tokens(spans) + match s.input_tokens {
            Some(t) => t as int,
            None => 0,
        },
        sum_output_tokens(spans.push(s)) == sum_output_tokens(spans) + match s.output_tokens {
            Some(t) => t as int,
            None => 0,
        },
{
    assert(spans.push(s).drop_last() =~= spans);
}

/// The token sums of two runs of spans one after the other are the sums of
/// each.
pub proof fn lemma_token_sums_append(a: Seq<SpanView>, b: Seq<SpanView>)
    ensures
        sum_input_tokens(a + b) == sum_input_tokens(a) + sum_input_tokens(b),
        sum_output_tokens(a + b) == sum_output_tokens(a) + sum_output_tokens(b),
    decreases b.len(),
{
    if b.len() == 0 {
        assert(a + b =~= a);
    } else {
        lemma_token_sums_append(a, b.drop_last());
        assert((a + b).drop_last() =~= a + b.drop_last());
        assert((a + b).last() == b.last());
    }
}

/// The markup of turns is the markup of each turn, one after the other,
/// whatever their roles: that of a single turn is the turn's markup, and
/// that of two runs of turns is that of the first, then the second.
pub proof fn lemma_turns_markup_append(a: Seq<TurnView>, b: Seq<TurnView>, t: TurnView)
    ensures
        turns_markup(seq![t]) == turn_markup(t),
        turns_markup(a + b) == turns_markup(a) + turns_markup(b),
{
    let one = seq![t];
    assert(one.drop_last() =~= Seq::<TurnView>::empty());
    assert(one.last() == t);
    assert(turns_markup(one.drop_last()) =~= Seq::<char>::empty());
    assert(turns_markup(one) =~= turn_markup(t));
    lemma_turns_markup_concat(a, b);
}

proof fn lemma_turns_markup_concat(a: Seq<TurnView>, b: Seq<TurnView>)
    ensures
        turns_markup(a + b) == turns_markup(a) + turns_markup(b),
    decreases b.len(),
{
    if b.len() == 0 {
        assert(a + b =~= a);
        assert(turns_markup(a) + Seq::<char>::empty() =~= turns_markup(a));
    } else {
        lemma_turns_markup_concat(a, b.drop_last());
        assert((a + b).drop_last() =~= a + b.drop_last());
        assert((a + b).last() == b.last());
        assert(turns_markup(a + b) =~= turns_markup(a) + turns_markup(b));
    }
}

proof fn lemma_spans_markup_shows(spans: Seq<SpanView>, i: int)
    requires
        0 <= i < spans.len(),
    ensures
        has_infix(spans_markup(spans), span_markup(spans[i])),
    decreases spans.len(),
{
    let last = spans.len() - 1;
    if i == last {
        let m = span_markup(spans[i]);
        assert(m.subrange(0, 0 + m.len() as int) =~= m);
        lemma_infix_within(spans_markup(spans.drop_last()), m, seq![], m);
        assert(spans_markup(spans.drop_last()) + m + Seq::<char>::empty() =~= spans_markup(spans));
    } else {
        lemma_spans_markup_shows(spans.drop_last(), i);
        assert(spans.drop_last()[i] == spans[i]);
        lemma_infix_within(
            seq![],
            spans_markup(spans.drop_last()),
            span_markup(spans.last()),
            span_markup(spans[i]),
        );
        assert(Seq::<char>::empty() + spans_markup(spans.drop_last()) + span_markup(spans.last())
            =~= spans_markup(spans));
    }
}

proof fn lemma_turns_markup_shows(turns: Seq<TurnView>, x: SpanView)
    requires
        spans_of_turns(turns).contains(x),
    ensures
        has_infix(turns_markup(turns), span_markup(x)),
    decreases turns.len(),
{
    let rest = turns.drop_last();
    let t = turns.last();
    let k = choose|k: int| 0 <= k < spans_of_turns(turns).len() && spans_of_turns(turns)[k] == x;
    let before = spans_of_turns(rest);
    if k < before.len() {
        assert(before[k] == x);
        lemma_turns_markup_shows(rest, x);
        lemma_infix_within(seq![], turns_markup(rest), turn_markup(t), span_markup(x));
        assert(Seq::<char>::empty() + turns_markup(rest) + turn_markup(t) =~= turns_markup(turns));
    } else {
        let j = k - before.len();
        assert(t.spans[j] == x);
        lemma_spans_markup_shows(t.spans, j);
        let open = "<div class=\""@ + html_escape(turn_class(t.role)) + "\">"@;
        lemma_infix_within(open, spans_markup(t.spans), "</div>"@, span_markup(x));
        lemma_infix_within(turns_markup(rest), turn_markup(t), seq![], span_markup(x));
        assert(turns_markup(rest) + turn_markup(t) + Seq::<char>::empty() =~= turns_markup(turns));
    }
}

/// The conversation shows every span that takes part in it, whatever its
/// kind: the markup of each span that is not a wrapper is found in the
/// conversation's markup.
pub proof fn lemma_conversation_shows_every_span(spans: Seq<SpanView>, i: int)
    requires
        0 <= i < spans.len(),
        !is_wrapper_kind(spans[i].kind),
    ensures
        has_infix(conversation_markup(spans), span_markup(spans[i])),
{
    let pred = |s: SpanView| !is_wrapper_kind(s.kind);
    spans.lemma_filter_contains(pred, i);
    assert(conversation_spans(spans) == spans.filter(pred));
    lemma_turns_keep_conversation_spans(spans);
    lemma_turns_markup_shows(turns_of(spans), spans[i]);
    lemma_infix_within(
        "<div class=\"conversation\">"@,
        turns_markup(turns_of(spans)),
        "</div>"@,
        span_markup(spans[i]),
    );
}

/// A message span (any span but a tool span) with content ends with that
/// content, escaped, in its `span-content` block, then the span's closing
/// tag; one without content ends with the closing tags of its header and of
/// the span.
pub proof fn lemma_message_span_content(s: SpanView)
    requires
        !is_tool_kind(s.kind),
    ensures
        match s.content {
            Some(c) => ("<div class=\"span-content\">"@ + html_escape(c) + "</div>"@
                + "</div>"@).is_suffix_of(span_markup(s)),
            None => ("</div></div>"@ + "</div>"@).is_suffix_of(span_markup(s)),
        },
{
    let head = span_open_markup(kind_name(s.kind), s.id, is_error(s))
        + "<div class=\"span-header\"><span class=\"span-kind\">"@ + html_escape(kind_name(s.kind))
        + "</span><div class=\"span-meta\">"@ + span_meta_markup(s);
    match s.content {
        Some(c) => {
            let tail = "<div class=\"span-content\">"@ + html_escape(c) + "</div>"@ + "</div>"@;
            let pre = head + "</div></div>"@;
            assert(span_markup(s) =~= pre + tail);
            assert((pre + tail).subrange(pre.len() as int, (pre + tail).len() as int) =~= tail);
        },
        None => {
            let tail = "</div></div>"@ + "</div>"@;
            assert(span_markup(s) =~= head + tail);
            assert((head + tail).subrange(head.len() as int, (head + tail).len() as int) =~= tail);
        },
    }
}

/// What is found in a message span's header details is found in its markup.
proof fn lemma_meta_in_message(s: SpanView, pat: Seq<char>)
    requires
        !is_tool_kind(s.kind),
        has_infix(span_meta_markup(s), pat),
    ensures
        has_infix(span_markup(s), pat),
{
    let head = span_open_markup(kind_name(s.kind), s.id, is_error(s))
        + "<div class=\"span-header\"><span class=\"span-kind\">"@ + html_escape(kind_name(s.kind))
        + "</span><div class=\"span-meta\">"@;
    let x = head + span_meta_markup(s);
    lemma_infix_left(head, span_meta_markup(s), pat);
    lemma_infix_right(x, "</div></div>"@, pat);
    lemma_infix_right(x + "</div></div>"@, content_markup(s.content), pat);
    lemma_infix_right(x + "</div></div>"@ + content_markup(s.content), "</div>"@, pat);
}

/// A message span (any span but a tool span) shows, whatever its kind, its
/// kind in its header and each of its details that it has: the model, the
/// duration, the input token count and the output token count.
pub proof fn lemma_message_span_details(s: SpanView)
    requires
        !is_tool_kind(s.kind),
    ensures
        has_infix(
            span_markup(s),
            "<div class=\"span-header\"><span class=\"span-kind\">"@ + html_escape(kind_name(s.kind)),
        ),
        s.model matches Some(m) ==> has_infix(
            span_markup(s),
            "<small>"@ + html_escape(m) + "</small>"@,
        ),
        s.duration_ms matches Some(d) ==> has_infix(
            span_markup(s),
            "<small> \u{b7} "@ + duration_text(d as int) + "</small>"@,
        ),
        s.input_tokens matches Some(n) ==> has_infix(
            span_markup(s),
            "<small> \u{b7} "@ + int_decimal(n as int) + " in</small>"@,
        ),
        s.output_tokens matches Some(n) ==> has_infix(
            span_markup(s),
            "<small> / "@ + int_decimal(n as int) + " out</small>"@,
        ),
{
    let open = span_open_markup(kind_name(s.kind), s.id, is_error(s));
    let l5 = "<div class=\"span-header\"><span class=\"span-kind\">"@;
    let ek = html_escape(kind_name(s.kind));
    let kpat = l5 + ek;
    lemma_infix_refl(kpat);
    lemma_infix_left(open, kpat, kpat);
    assert(open + kpat =~= open + l5 + ek);
    let x = open + l5 + ek;
    lemma_infix_right(x, "</span><div class=\"span-meta\">"@, kpat);
    let y = x + "</span><div class=\"span-meta\">"@;
    lemma_infix_right(y, span_meta_markup(s), kpat);
    lemma_infix_right(y + span_meta_markup(s), "</div></div>"@, kpat);
    lemma_infix_right(y + span_meta_markup(s) + "</div></div>"@, content_markup(s.content), kpat);
    lemma_infix_right(
        y + span_meta_markup(s) + "</div></div>"@ + content_markup(s.content),
        "</div>"@,
        kpat,
    );
    let mm = model_markup(s.model);
    let dm = meta_duration_markup(s.duration_ms);
    let im = input_tokens_markup(s.input_tokens);
    let om = output_tokens_markup(s.output_tokens);
    lemma_infix_refl(mm);
    lemma_infix_right(mm, dm, mm);
    lemma_infix_right(mm + dm, im, mm);
    lemma_infix_right(mm + dm + im, om, mm);
    lemma_meta_in_message(s, mm);
    lemma_infix_refl(dm);
    lemma_infix_left(mm, dm, dm);
    lemma_infix_right(mm + dm, im, dm);
    lemma_infix_right(mm + dm + im, om, dm);
    lemma_meta_in_message(s, dm);
    lemma_infix_refl(im);
    lemma_infix_left(mm + dm, im, im);
    lemma_infix_right(mm + dm + im, om, im);
    lemma_meta_in_message(s, im);
    lemma_infix_refl(om);
    lemma_infix_left(mm + dm + im, om, om);
    lemma_meta_in_message(s, om);
}

/// What is found in a visible tool span's details is found in its markup.
proof fn lemma_details_in_tool(s: SpanView, pat: Seq<char>)
    requires
        is_tool_kind(s.kind),
        !tool_is_hidden(s),
        has_infix(tool_details_markup(s, tool_arguments_text(s), tool_response_text(s)), pat),
    ensures
        has_infix(span_markup(s), pat),
{
    let open = span_open_markup(kind_name(s.kind), s.id, is_error(s));
    let d = tool_details_markup(s, tool_arguments_text(s), tool_response_text(s));
    lemma_infix_left(open, d, pat);
    lemma_infix_right(open + d, "</div>"@, pat);
}

/// A visible tool span shows, in its summary line, its kind's icon and its
/// tool's name, and its duration if it has one; then, in labelled blocks,
/// its arguments and its response, each where its metadata has it; and,
/// with neither, its content, or else "No content".
pub proof fn lemma_tool_span_shows(s: SpanView)
    requires
        is_tool_kind(s.kind),
        !tool_is_hidden(s),
    ensures
        has_infix(
            span_markup(s),
            "<details class=\"tool-details\"><summary class=\"tool-summary\">"@ + html_escape(
                tool_icon(s.kind),
            ) + " <code>"@ + html_escape(s.tool_name.unwrap()) + "</code>"@,
        ),
        s.duration_ms matches Some(d) ==> has_infix(
            span_markup(s),
            "<small> "@ + duration_text(d as int) + "</small>"@,
        ),
        tool_arguments_text(s) matches Some(x) ==> has_infix(
            span_markup(s),
            "<div><strong>"@ + "Args: "@ + "</strong><pre><code>"@ + html_escape(x) + "</code></pre></div>"@,
        ),
        tool_response_text(s) matches Some(x) ==> has_infix(
            span_markup(s),
            "<div><strong>"@ + "Response: "@ + "</strong><pre><code>"@ + html_escape(x) + "</code></pre></div>"@,
        ),
        tool_arguments_text(s) is None && tool_response_text(s) is None ==> match s.content {
            Some(c) => has_infix(span_markup(s), "<pre><code>"@ + html_escape(c) + "</code></pre>"@),
            None => has_infix(span_markup(s), "<small>No content</small>"@),
        },
{
    lemma_tool_summary_shows(s);
    lemma_tool_blocks_show(s);
}

/// What is found in a tool span's summary line is found in its details.
proof fn lemma_summary_in_details(
    s: SpanView,
    args: Option<Seq<char>>,
    resp: Option<Seq<char>>,
    pat: Seq<char>,
)
    requires
        has_infix(tool_summary_markup(s), pat),
    ensures
        has_infix(tool_details_markup(s, args, resp), pat),
{
    let x = tool_summary_markup(s);
    lemma_infix_right(x, "<div class=\"tool-content\">"@, pat);
    let x = x + "<div class=\"tool-content\">"@;
    lemma_infix_right(x, labelled_markup("Args: "@, args), pat);
    let x = x + labelled_markup("Args: "@, args);
    lemma_infix_right(x, labelled_markup("Response: "@, resp), pat);
    let x = x + labelled_markup("Response: "@, resp);
    lemma_infix_right(x, tool_fallback_markup(args, resp, s.content), pat);
    let x = x + tool_fallback_markup(args, resp, s.content);
    lemma_infix_right(x, "</div></details>"@, pat);
}

proof fn lemma_tool_summary_shows(s: SpanView)
    requires
        is_tool_kind(s.kind),
        !tool_is_hidden(s),
    ensures
        has_infix(
            span_markup(s),
            "<details class=\"tool-details\"><summary class=\"tool-summary\">"@ + html_escape(
                tool_icon(s.kind),
            ) + " <code>"@ + html_escape(s.tool_name.unwrap()) + "</code>"@,
        ),
        s.duration_ms matches Some(d) ==> has_infix(
            span_markup(s),
            "<small> "@ + duration_text(d as int) + "</small>"@,
        ),
{
    let name = "<details class=\"tool-details\"><summary class=\"tool-summary\">"@ + html_escape(
        tool_icon(s.kind),
    ) + " <code>"@ + html_escape(s.tool_name.unwrap()) + "</code>"@;
    let dur = tool_duration_markup(s.duration_ms);
    lemma_infix_refl(name);
    lemma_infix_right(name, dur, name);
    lemma_infix_right(name + dur, "</summary>"@, name);
    lemma_infix_refl(dur);
    lemma_infix_left(name, dur, dur);
    lemma_infix_right(name + dur, "</summary>"@, dur);
    let args = tool_arguments_text(s);
    let resp = tool_response_text(s);
    lemma_summary_in_details(s, args, resp, name);
    lemma_summary_in_details(s, args, resp, dur);
    lemma_details_in_tool(s, name);
    lemma_details_in_tool(s, dur);
}

/// The blocks of a tool span's details: each labelled block it has, or its
/// fallback, is found in the details.
proof fn lemma_blocks_in_details(s: SpanView, args: Option<Seq<char>>, resp: Option<Seq<char>>)
    ensures
        args matches Some(x) ==> has_infix(
            tool_details_markup(s, args, resp),
            "<div><strong>"@ + "Args: "@ + "</strong><pre><code>"@ + html_escape(x) + "</code></pre></div>"@,
        ),
        resp matches Some(x) ==> has_infix(
            tool_details_markup(s, args, resp),
            "<div><strong>"@ + "Response: "@ + "</strong><pre><code>"@ + html_escape(x) + "</code></pre></div>"@,
        ),
        has_infix(tool_details_markup(s, args, resp), tool_fallback_markup(args, resp, s.content)),
{
    let c0 = tool_summary_markup(s) + "<div class=\"tool-content\">"@;
    let am = labelled_markup("Args: "@, args);
    let rm = labelled_markup("Response: "@, resp);
    let fm = tool_fallback_markup(args, resp, s.content);
    let end = "</div></details>"@;
    match args {
        Some(x) => {
            let pat = "<div><strong>"@ + "Args: "@ + "</strong><pre><code>"@ + html_escape(x) + "</code></pre></div>"@;
            lemma_infix_refl(pat);
            lemma_infix_left(c0, am, pat);
            lemma_infix_right(c0 + am, rm, pat);
            lemma_infix_right(c0 + am + rm, fm, pat);
            lemma_infix_right(c0 + am + rm + fm, end, pat);
        },
        None => {},
    }
    match resp {
        Some(x) => {
            let pat = "<div><strong>"@ + "Response: "@ + "</strong><pre><code>"@ + html_escape(x) + "</code></pre></div>"@;
            lemma_infix_refl(pat);
            lemma_infix_left(c0 + am, rm, pat);
            lemma_infix_right(c0 + am + rm, fm, pat);
            lemma_infix_right(c0 + am + rm + fm, end, pat);
        },
        None => {},
    }
    lemma_infix_refl(fm);
    lemma_infix_left(c0 + am + rm, fm, fm);
    lemma_infix_right(c0 + am + rm + fm, end, fm);
}

proof fn lemma_tool_blocks_show(s: SpanView)
    requires
        is_tool_kind(s.kind),
        !tool_is_hidden(s),
    ensures
        tool_arguments_text(s) matches Some(x) ==> has_infix(
            span_markup(s),
            "<div><strong>"@ + "Args: "@ + "</strong><pre><code>"@ + html_escape(x) + "</code></pre></div>"@,
        ),
        tool_response_text(s) matches Some(x) ==> has_infix(
            span_markup(s),
            "<div><strong>"@ + "Response: "@ + "</strong><pre><code>"@ + html_escape(x) + "</code></pre></div>"@,
        ),
        tool_arguments_text(s) is None && tool_response_text(s) is None ==> match s.content {
            Some(c) => has_infix(span_markup(s), "<pre><code>"@ + html_escape(c) + "</code></pre>"@),
            None => has_infix(span_markup(s), "<small>No content</small>"@),
        },
{
    let args = tool_arguments_text(s);
    let resp = tool_response_text(s);
    lemma_blocks_in_details(s, args, resp);
    match args {
        Some(x) => {
            lemma_details_in_tool(
                s,
                "<div><strong>"@ + "Args: "@ + "</strong><pre><code>"@ + html_escape(x) + "</code></pre></div>"@,
            );
        },
        None => {},
    }
    match resp {
        Some(x) => {
            lemma_details_in_tool(
                s,
                "<div><strong>"@ + "Response: "@ + "</strong><pre><code>"@ + html_escape(x) + "</code></pre></div>"@,
            );
        },
        None => {},
    }
    lemma_details_in_tool(s, tool_fallback_markup(args, resp, s.content));
}

/// Metadata is looked up by the first member with the key: where the member
/// at `i` has the key and none before it does, the lookup gives its value.
pub proof fn lemma_meta_lookup_first(
    entries: Seq<(Seq<char>, MetaValueView)>,
    key: Seq<char>,
    i: int,
)
    requires
        0 <= i < entries.len(),
        entries[i].0 == key,
        forall|j: int| 0 <= j < i ==> (#[trigger] entries[j]).0 != key,
    ensures
        meta_lookup(entries, key) == Some(entries[i].1),
    decreases i,
{
    if i > 0 {
        let rest = entries.drop_first();
        assert(entries[0].0 != key);
        assert forall|j: int| 0 <= j < i - 1 implies (#[trigger] rest[j]).0 != key by {
            assert(rest[j] == entries[j + 1]);
        }
        assert(rest[i - 1] == entries[i]);
        lemma_meta_lookup_first(rest, key, i - 1);
    }
}

/// Metadata without a member with the key gives nothing for it, and only
/// such metadata does.
pub proof fn lemma_meta_lookup_absent(entries: Seq<(Seq<char>, MetaValueView)>, key: Seq<char>)
    ensures
        meta_lookup(entries, key) is None <==> forall|j: int|
            0 <= j < entries.len() ==> (#[trigger] entries[j]).0 != key,
    decreases entries.len(),
{
    if entries.len() > 0 {
        let rest = entries.drop_first();
        lemma_meta_lookup_absent(rest, key);
        if entries[0].0 != key {
            assert forall|j: int| 0 < j < entries.len() implies entries[j] == rest[j - 1] by {}
            if meta_lookup(entries, key) is None {
                assert forall|j: int| 0 <= j < entries.len() implies (#[trigger] entries[j]).0
                    != key by {
                    if j > 0 {
                        assert(entries[j] == rest[j - 1]);
                    }
                }
            } else {
                let k = choose|k: int| 0 <= k < rest.len() && (#[trigger] rest[k]).0 == key;
                assert(entries[k + 1] == rest[k]);
            }
        }
    }
}

/// A metadata member that is a JSON string shows its text as it is.
pub proof fn lemma_meta_text_shown(s: SpanView, key: Seq<char>, t: Seq<char>)
    requires
        s.metadata matches Some(entries) && meta_lookup(entries, key) == Some(
            MetaValueView::Text(t),
        ),
    ensures
        meta_field_text(s, key) == Some(t),
{
}

/// A turn's `div` names the turn's role in its class: "turn turn-user",
/// "turn turn-assistant" or "turn turn-system", one for each role.
pub proof fn lemma_turn_class_names_role(t: TurnView)
    ensures
        ("<div class=\""@ + match t.role {
            TurnRole::User => "turn turn-user"@,
            TurnRole::Assistant => "turn turn-assistant"@,
            TurnRole::System => "turn turn-system"@,
        } + "\">"@).is_prefix_of(turn_markup(t)),
        turn_class(TurnRole::User) != turn_class(TurnRole::Assistant),
        turn_class(TurnRole::User) != turn_class(TurnRole::System),
        turn_class(TurnRole::Assistant) != turn_class(TurnRole::System),
{
    reveal_strlit("turn turn-user");
    reveal_strlit("turn turn-assistant");
    reveal_strlit("turn turn-system");
    lemma_turn_markup(t);
    let head = "<div class=\""@ + turn_class(t.role) + "\">"@;
    let rest = spans_markup(t.spans) + "</div>"@;
    assert(turn_markup(t) =~= head + rest);
    assert((head + rest).subrange(0, head.len() as int) =~= head);
    assert(turn_class(TurnRole::User)[10] != turn_class(TurnRole::Assistant)[10]);
    assert(turn_class(TurnRole::User)[10] != turn_class(TurnRole::System)[10]);
    assert(turn_class(TurnRole::Assistant)[10] != turn_class(TurnRole::System)[10]);
}

/// A text found between two others is found in the whole.
proof fn lemma_shows(pre: Seq<char>, x: Seq<char>, post: Seq<char>)
    ensures
        has_infix(pre + x + post, x),
{
    lemma_infix_refl(x);
    lemma_infix_within(pre, x, post, x);
}

/// The token summary bar shows the span count, then the input, output and
/// total (input plus output) token counts, each with its label.
pub proof fn lemma_token_summary_shows(t: TokenSummary)
    ensures
        has_infix(
            token_summary_markup(t),
            nat_digits(t.span_count as nat) + " spans</span><span class=\"token-stat\">"@,
        ),
        has_infix(
            token_summary_markup(t),
            html_escape(tokens_text(t.total_input as int))
                + " input</span><span class=\"token-stat\">"@,
        ),
        has_infix(
            token_summary_markup(t),
            html_escape(tokens_text(t.total_output as int))
                + " output</span><span class=\"token-stat token-total\">"@,
        ),
        has_infix(
            token_summary_markup(t),
            html_escape(tokens_text(t.total_input + t.total_output)) + " total</span></div>"@,
        ),
{
    let l1 = "<div class=\"token-summary\"><span class=\"token-stat\">"@;
    let a = nat_digits(t.span_count as nat);
    let l2 = " spans</span><span class=\"token-stat\">"@;
    let b = html_escape(tokens_text(t.total_input as int));
    let l3 = " input</span><span class=\"token-stat\">"@;
    let c = html_escape(tokens_text(t.total_output as int));
    let l4 = " output</span><span class=\"token-stat token-total\">"@;
    let d = html_escape(tokens_text(t.total_input + t.total_output));
    let l5 = " total</span></div>"@;
    let m = token_summary_markup(t);
    assert(m == l1 + a + l2 + b + l3 + c + l4 + d + l5);
    lemma_shows(l1, a + l2, b + l3 + c + l4 + d + l5);
    assert(l1 + (a + l2) + (b + l3 + c + l4 + d + l5) =~= m);
    lemma_shows(l1 + a + l2, b + l3, c + l4 + d + l5);
    assert(l1 + a + l2 + (b + l3) + (c + l4 + d + l5) =~= m);
    lemma_shows(l1 + a + l2 + b + l3, c + l4, d + l5);
    assert(l1 + a + l2 + b + l3 + (c + l4) + (d + l5) =~= m);
    lemma_shows(l1 + a + l2 + b + l3 + c + l4, d + l5, seq![]);
    assert(l1 + a + l2 + b + l3 + c + l4 + (d + l5) + Seq::<char>::empty() =~= m);
}

proof fn lemma_page_rest(
    x0: Seq<char>,
    a: Seq<char>,
    b: Seq<char>,
    c: Seq<char>,
    d: Seq<char>,
    e: Seq<char>,
    pat: Seq<char>,
)
    requires
        has_infix(x0, pat),
    ensures
        has_infix(x0 + a + b + c + d + e, pat),
{
    lemma_infix_right(x0, a, pat);
    lemma_infix_right(x0 + a, b, pat);
    lemma_infix_right(x0 + a + b, c, pat);
    lemma_infix_right(x0 + a + b + c, d, pat);
    lemma_infix_right(x0 + a + b + c + d, e, pat);
}

/// The session page opens with its header, which shows the session's name
/// (or its id when it has none), the token summary of all its spans, and
/// its id.
pub proof fn lemma_session_page_shows(s: SessionView, spans: Seq<SpanView>)
    ensures
        ("<div class=\"session-header\"><h2>"@ + html_escape(
            match s.name {
                Some(n) => n,
                None => s.id,
            },
        ) + "</h2>"@).is_prefix_of(session_detail_markup(s, spans)),
        has_infix(
            session_detail_markup(s, spans),
            token_summary_markup(
                (TokenSummary {
                    total_input: sum_input_tokens(spans) as i64,
                    total_output: sum_output_tokens(spans) as i64,
                    span_count: spans.len() as usize,
                }),
            ),
        ),
        has_infix(
            session_detail_markup(s, spans),
            "<div class=\"session-info\"><p>Session ID: <code>"@ + html_escape(s.id),
        ),
{
    let summary = TokenSummary {
        total_input: sum_input_tokens(spans) as i64,
        total_output: sum_output_tokens(spans) as i64,
        span_count: spans.len() as usize,
    };
    let h = "<div class=\"session-header\"><h2>"@ + html_escape(session_display_name(s)) + "</h2>"@;
    let ts = token_summary_markup(summary);
    let info = session_info_markup(s);
    let filter = filter_controls_markup();
    let cont = spans_container_open(s.id);
    let x = if spans.len() == 0 {
        empty_state_markup()
    } else {
        conversation_markup(spans)
    };
    let close = "</div>"@;
    assert(session_header_markup(s, spans) == h + ts + info);
    assert(session_detail_markup(s, spans) == h + ts + info + filter + cont + x + close);
    // The header's first part opens the page.
    assert(h.subrange(0, h.len() as int) =~= h);
    lemma_prefix_right(h, h, ts);
    lemma_prefix_right(h, h + ts, info);
    lemma_prefix_right(h, h + ts + info, filter);
    lemma_prefix_right(h, h + ts + info + filter, cont);
    lemma_prefix_right(h, h + ts + info + filter + cont, x);
    lemma_prefix_right(h, h + ts + info + filter + cont + x, close);
    // The token summary.
    lemma_infix_refl(ts);
    lemma_infix_left(h, ts, ts);
    lemma_page_rest(h + ts, info, filter, cont, x, close, ts);
    // The session id.
    let idp = "<div class=\"session-info\"><p>Session ID: <code>"@ + html_escape(s.id);
    let c1 = "</code></p><p>Created: "@;
    let cr = html_escape(timestamp_text(s.created_at as int));
    let c2 = "</p><p>Updated: "@;
    let up = html_escape(timestamp_text(s.updated_at as int));
    let c3 = "</p></div></div>"@;
    assert(info == idp + c1 + cr + c2 + up + c3);
    lemma_infix_refl(idp);
    lemma_infix_right(idp, c1, idp);
    lemma_infix_right(idp + c1, cr, idp);
    lemma_infix_right(idp + c1 + cr, c2, idp);
    lemma_infix_right(idp + c1 + cr + c2, up, idp);
    lemma_infix_right(idp + c1 + cr + c2 + up, c3, idp);
    lemma_infix_left(h + ts, info, idp);
    lemma_infix_right(h + ts + info, filter, idp);
    lemma_infix_right(h + ts + info + filter, cont, idp);
    lemma_infix_right(h + ts + info + filter + cont, x, idp);
    lemma_infix_right(h + ts + info + filter + cont + x, close, idp);
}

/// A shown span's `div` names the span's kind and its id, escaped, in its
/// `data-kind` and `data-span-id` attributes, whatever the kind.
pub proof fn lemma_span_names_kind_and_id(s: SpanView)
    requires
        is_shown(s),
    ensures
        ("<div class=\"span\" data-kind=\""@ + html_escape(kind_name(s.kind)) + "\" data-span-id=\""@
            + html_escape(s.id)).is_prefix_of(span_markup(s)),
{
    lemma_span_error_flag(s);
    let p = "<div class=\"span\" data-kind=\""@ + html_escape(kind_name(s.kind)) + "\" data-span-id=\""@
        + html_escape(s.id);
    let open = span_open_markup(kind_name(s.kind), s.id, is_error(s));
    let rest = "\" data-has-error=\""@ + error_flag(is_error(s)) + "\">"@;
    assert(open =~= p + rest);
    let m = span_markup(s);
    assert(m.subrange(0, p.len() as int) =~= m.subrange(0, open.len() as int).subrange(
        0,
        p.len() as int,
    ));
}

/// A tool span is hidden as a wrapper exactly when it has no tool name or
/// its tool name is "unknown": a tool span with any other name is shown.
pub proof fn lemma_tool_span_hidden_when_unnamed(s: SpanView)
    ensures
        tool_is_hidden(s) <==> (s.tool_name is None || s.tool_name == Some("unknown"@)),
{
}

/// Every span lands in a turn of its own side: a user span in a user turn,
/// a system span in a system turn, and an assistant, thinking, tool call or
/// tool result span in an assistant turn.
pub proof fn lemma_turn_roles_match_kinds(spans: Seq<SpanView>, i: int, j: int)
    requires
        0 <= i < turns_of(spans).len(),
        0 <= j < turns_of(spans)[i].spans.len(),
    ensures
        ({
            let t = turns_of(spans)[i];
            let k = t.spans[j].kind;
            &&& k == SpanKind::User ==> t.role == TurnRole::User
            &&& k == SpanKind::System ==> t.role == TurnRole::System
            &&& (k == SpanKind::Assistant || k == SpanKind::Thinking || k == SpanKind::ToolCall
                || k == SpanKind::ToolResult) ==> t.role == TurnRole::Assistant
            &&& k != SpanKind::Span && k != SpanKind::Choice
        }),
{
    lemma_turns_well_formed(spans);
    let t = turns_of(spans)[i];
    assert(turn_well_formed(t));
    if t.role == TurnRole::Assistant {
        assert(is_assistant_side(t.spans[j].kind));
    }
}

} // verus!
