//! The data that the views render: sessions, spans and span metadata.

use vstd::prelude::*;


verus! {

/// What a span stands for in a GenAI conversation.
#[derive(Debug, Clone, Copy, PartialEq, Eq, Structural)]
pub enum SpanKind {
    /// A message from the user.
    User,
    /// A response from the assistant.
    Assistant,
    /// A system message.
    System,
    /// An extended-thinking block.
    Thinking,
    /// A call of a tool.
    ToolCall,
    /// What a tool call returned.
    ToolResult,
    /// A choice wrapper around a response.
    Choice,
    /// Any other span (a wrapper).
    Span,
}

/// The pretty-printed text that serde_json gives for a JSON text: the text
/// read as a `serde_json::Value` and written with `to_string_pretty`; `None`
/// where the text is not JSON or cannot be written.
pub uninterp spec fn json_pretty_text(json: Seq<char>) -> Option<Seq<char>>;

/// Pretty-prints a JSON text through serde_json: `serde_json::from_str` reads
/// it into a `serde_json::Value`, and `serde_json::to_string_pretty` writes
/// that value out. The contract names the result `json_pretty_text`, a
/// function of the text alone (serde_json's default map keeps its keys in
/// sorted order); what the pretty form looks like is left unsaid.
#[verifier::external_body]
pub(crate) fn pretty_json(json: &str) -> (res: Option<String>)
    ensures
        opt_text(res) == json_pretty_text(json@),
{
    match serde_json::from_str::<serde_json::Value>(json) {
        Ok(v) => serde_json::to_string_pretty(&v).ok(),
        Err(_) => None,
    }
}

/// The JSON text of a JSON value, one that serde_json reads and writes back.
#[derive(Debug)]
pub struct JsonText {
    text: String,
}

impl JsonText {
    /// serde_json reads the text and writes it back out.
    #[verifier::type_invariant]
    spec fn readable(self) -> bool {
        json_pretty_text(self.text@) is Some
    }

    /// Takes `text` as JSON text where serde_json reads and writes it back,
    /// and gives `None` where it does not.
    pub fn from_text(text: String) -> (r: Option<JsonText>)
        ensures
            match r {
                Some(j) => j@ == text@ && json_pretty_text(text@) is Some,
                None => json_pretty_text(text@) is None,
            },
    {
        if pretty_json(text.as_str()).is_some() {
            Some(JsonText { text })
        } else {
            None
        }
    }

    /// The JSON text.
    pub fn as_str(&self) -> (s: &str)
        ensures
            s@ == self@,
            json_pretty_text(s@) is Some,
    {
        proof {
            use_type_invariant(self);
        }
        self.text.as_str()
    }
}

impl View for JsonText {
    type V = Seq<char>;

    closed spec fn view(&self) -> Seq<char> {
        self.text@
    }
}

impl Clone for JsonText {
    fn clone(&self) -> (res: Self)
        ensures
            res@ == self@,
    {
        proof {
            use_type_invariant(self);
        }
        JsonText { text: self.text.clone() }
    }
}

/// One value of a span's metadata object.
#[derive(Debug)]
pub enum MetaValue {
    /// A JSON string, by its text.
    Text(String),
    /// Any other JSON value, by its JSON text.
    Json(JsonText),
}

/// The model of a metadata value.
pub enum MetaValueView {
    Text(Seq<char>),
    Json(Seq<char>),
}

impl View for MetaValue {
    type V = MetaValueView;

    open spec fn view(&self) -> MetaValueView {
        match self {
            MetaValue::Text(s) => MetaValueView::Text(s@),
            MetaValue::Json(s) => MetaValueView::Json(s@),
        }
    }
}

impl Clone for MetaValue {
    fn clone(&self) -> (res: Self)
        ensures
            res@ == self@,
    {
        match self {
            MetaValue::Text(s) => MetaValue::Text(s.clone()),
            MetaValue::Json(s) => MetaValue::Json(s.clone()),
        }
    }
}

/// A span's metadata: the members of a JSON object, in order.
#[derive(Debug)]
pub struct Metadata {
    pub entries: Vec<(String, MetaValue)>,
}

impl View for Metadata {
    type V = Seq<(Seq<char>, MetaValueView)>;

    open spec fn view(&self) -> Seq<(Seq<char>, MetaValueView)> {
        self.entries@.map_values(|e: (String, MetaValue)| (e.0@, e.1@))
    }
}

impl Clone for Metadata {
    fn clone(&self) -> (res: Self)
        ensures
            res@ == self@,
    {
        let mut entries: Vec<(String, MetaValue)> = Vec::new();
        let n = self.entries.len();
        for i in 0..n
            invariant
                n == self.entries@.len(),
                entries@.len() == i,
                forall|j: int|
                    0 <= j < i ==> (#[trigger] entries@[j]).0@ == self.entries@[j].0@
                        && entries@[j].1@ == self.entries@[j].1@,
        {
            let key = self.entries[i].0.clone();
            let value = self.entries[i].1.clone();
            entries.push((key, value));
        }
        let res = Metadata { entries };
        assert(res@ =~= self@);
        res
    }
}

/// A traced operation, as stored for a session.
#[derive(Debug)]
pub struct Span {
    pub id: String,
    pub session_id: String,
    pub parent_span_id: Option<String>,
    pub trace_id: String,
    pub kind: SpanKind,
    pub model: Option<String>,
    pub content: Option<String>,
    pub metadata: Option<Metadata>,
    pub start_time: i64,
    pub end_time: Option<i64>,
    pub duration_ms: Option<i64>,
    pub input_tokens: Option<i64>,
    pub output_tokens: Option<i64>,
    pub finish_reason: Option<String>,
    pub tool_call_id: Option<String>,
    pub tool_name: Option<String>,
}

/// The text of an optional string.
pub open spec fn opt_text(s: Option<String>) -> Option<Seq<char>> {
    match s {
        Some(t) => Some(t@),
        None => None,
    }
}

/// The model of a span: its fields, with texts as character sequences.
pub struct SpanView {
    pub id: Seq<char>,
    pub session_id: Seq<char>,
    pub parent_span_id: Option<Seq<char>>,
    pub trace_id: Seq<char>,
    pub kind: SpanKind,
    pub model: Option<Seq<char>>,
    pub content: Option<Seq<char>>,
    pub metadata: Option<Seq<(Seq<char>, MetaValueView)>>,
    pub start_time: i64,
    pub end_time: Option<i64>,
    pub duration_ms: Option<i64>,
    pub input_tokens: Option<i64>,
    pub output_tokens: Option<i64>,
    pub finish_reason: Option<Seq<char>>,
    pub tool_call_id: Option<Seq<char>>,
    pub tool_name: Option<Seq<char>>,
}

impl View for Span {
    type V = SpanView;

    open spec fn view(&self) -> SpanView {
        SpanView {
            id: self.id@,
            session_id: self.session_id@,
            parent_span_id: opt_text(self.parent_span_id),
            trace_id: self.trace_id@,
            kind: self.kind,
            model: opt_text(self.model),
            content: opt_text(self.content),
            metadata: match self.metadata {
                Some(m) => Some(m@),
                None => None,
            },
            start_time: self.start_time,
            end_time: self.end_time,
            duration_ms: self.duration_ms,
            input_tokens: self.input_tokens,
            output_tokens: self.output_tokens,
            finish_reason: opt_text(self.finish_reason),
            tool_call_id: opt_text(self.tool_call_id),
            tool_name: opt_text(self.tool_name),
        }
    }
}

fn clone_opt_string(s: &Option<String>) -> (res: Option<String>)
    ensures
        opt_text(res) == opt_text(*s),
{
    match s {
        Some(x) => Some(x.clone()),
        None => None,
    }
}

impl Clone for Span {
    fn clone(&self) -> (res: Self)
        ensures
            res@ == self@,
    {
        Span {
            id: self.id.clone(),
            session_id: self.session_id.clone(),
            parent_span_id: clone_opt_string(&self.parent_span_id),
            trace_id: self.trace_id.clone(),
            kind: self.kind,
            model: clone_opt_string(&self.model),
            content: clone_opt_string(&self.content),
            metadata: match &self.metadata {
                Some(m) => Some(m.clone()),
                None => None,
            },
            start_time: self.start_time,
            end_time: self.end_time,
            duration_ms: self.duration_ms,
            input_tokens: self.input_tokens,
            output_tokens: self.output_tokens,
            finish_reason: clone_opt_string(&self.finish_reason),
            tool_call_id: clone_opt_string(&self.tool_call_id),
            tool_name: clone_opt_string(&self.tool_name),
        }
    }
}

/// A group of spans, from one agent run or conversation.
#[derive(Debug)]
pub struct Session {
    pub id: String,
    pub name: Option<String>,
    /// Unix time in nanoseconds.
    pub created_at: i64,
    /// Unix time in nanoseconds.
    pub updated_at: i64,
}

/// The model of a session.
pub struct SessionView {
    pub id: Seq<char>,
    pub name: Option<Seq<char>>,
    pub created_at: i64,
    pub updated_at: i64,
}

impl View for Session {
    type V = SessionView;

    open spec fn view(&self) -> SessionView {
        SessionView {
            id: self.id@,
            name: opt_text(self.name),
            created_at: self.created_at,
            updated_at: self.updated_at,
        }
    }
}

} // verus!
