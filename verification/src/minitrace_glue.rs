//! Log lines for the spans that the tracer collects: one line of JSON for
//! each event of each span.

use crate::features::TraceIdFormat;
use crate::text::{option_text, pair_texts, same_text, texts};
use vstd::prelude::*;

verus! {

/// An event that occurred while a span ran: its name, which is the severity
/// of the log record, and its properties in the order they were recorded.
#[derive(Debug, PartialEq)]
pub struct EventRecord {
    pub name: String,
    pub properties: Vec<(String, String)>,
}

/// What the reporter reads of a span: the id of its trace, its name and its
/// events.
#[derive(Debug, PartialEq)]
pub struct SpanRecord {
    pub trace_id: u128,
    pub name: String,
    pub events: Vec<EventRecord>,
}

/// The value of one key of a log line: a text, or an object whose values are
/// texts.
#[derive(Debug, PartialEq)]
pub enum Field {
    Text(String),
    Object(Vec<(String, String)>),
}

/// A field without the strings that hold its texts.
pub enum FieldView {
    Text(Seq<char>),
    Object(Seq<(Seq<char>, Seq<char>)>),
}

impl View for Field {
    type V = FieldView;

    open spec fn view(&self) -> FieldView {
        match self {
            Field::Text(text) => FieldView::Text(text@),
            Field::Object(pairs) => FieldView::Object(pair_texts(pairs@)),
        }
    }
}

/// The keys and fields of a document, without the strings that hold them.
pub open spec fn document_view(document: Seq<(String, Field)>) -> Seq<(Seq<char>, FieldView)> {
    Seq::new(document.len(), |i: int| (document[i].0@, document[i].1@))
}

/// Why no log lines were made.
#[derive(Debug, PartialEq)]
pub enum ReportError {
    /// A line could not be written as JSON.
    Json,
}

/// The JSON text of the object that is built by inserting the pairs of
/// `document` in order, a later pair replacing an earlier one with the same
/// key, as `serde_json` writes it in compact form; `None` where it fails.
pub uninterp spec fn json_text(document: Seq<(Seq<char>, FieldView)>) -> Option<Seq<char>>;

/// `serde_json::to_string` on a `serde_json::Map` that is collected from the
/// pairs of the document, each field as a `Value`: a text as a string, an
/// object as a `Map` collected from its pairs with their texts as strings.
/// `None` where `to_string` returns an error.
#[verifier::external_body]
fn to_json(document: &Vec<(String, Field)>) -> (text: Option<String>)
    ensures
        option_text(text) == json_text(document_view(document@)),
{
    let text = |text: &String| serde_json::Value::from(text.as_str());
    let value = |field: &Field| match field {
        Field::Text(t) => text(t),
        Field::Object(pairs) => serde_json::Value::from(
            pairs.iter().map(|(k, t)| (k.clone(), text(t))).collect::<serde_json::Map<_, _>>(),
        ),
    };
    let object: serde_json::Map<String, serde_json::Value> =
        document.iter().map(|(k, field)| (k.clone(), value(field))).collect();
    serde_json::to_string(&object).ok()
}

/// The value of the last property with the given key; `missing` where there
/// is none.
pub open spec fn last_value(
    properties: Seq<(Seq<char>, Seq<char>)>,
    key: Seq<char>,
    missing: Seq<char>,
) -> Seq<char>
    decreases properties.len(),
{
    if properties.len() == 0 {
        missing
    } else if properties.last().0 == key {
        properties.last().1
    } else {
        last_value(properties.drop_last(), key, missing)
    }
}

/// The key is one of those that a log line has a place of its own for.
pub open spec fn reserved(key: Seq<char>) -> bool {
    key == "timestamp"@ || key == "message"@ || key == "file"@ || key == "line"@
}

/// The properties whose keys are not reserved, in order.
pub open spec fn structured_fields(properties: Seq<(Seq<char>, Seq<char>)>) -> Seq<
    (Seq<char>, Seq<char>),
>
    decreases properties.len(),
{
    if properties.len() == 0 {
        Seq::empty()
    } else if reserved(properties.last().0) {
        structured_fields(properties.drop_last())
    } else {
        structured_fields(properties.drop_last()).push(properties.last())
    }
}

/// The document of the log line for one event: the time, the target, the
/// source location, the structured fields, the trace id, the severity and
/// the message.
pub open spec fn log_document(
    trace_id: Seq<char>,
    target: Seq<char>,
    severity: Seq<char>,
    properties: Seq<(Seq<char>, Seq<char>)>,
) -> Seq<(Seq<char>, FieldView)> {
    seq![
        ("time"@, FieldView::Text(last_value(properties, "timestamp"@, "<MISSING TIMESTAMP>"@))),
        ("target"@, FieldView::Text(target)),
        (
            "logging.googleapis.com/sourceLocation"@,
            FieldView::Object(
                seq![
                    ("FILE"@, last_value(properties, "file"@, ""@)),
                    ("LINE"@, last_value(properties, "line"@, ""@)),
                ],
            ),
        ),
        ("span"@, FieldView::Object(structured_fields(properties))),
        ("traceId"@, FieldView::Text(trace_id)),
        ("severity"@, FieldView::Text(severity)),
        ("message"@, FieldView::Text(last_value(properties, "message"@, "<MISSING MESSAGE>"@))),
    ]
}

/// The log line for one event: its document as JSON and a line feed; `None`
/// where the document cannot be written as JSON.
pub open spec fn log_line_text(
    trace_id: Seq<char>,
    target: Seq<char>,
    severity: Seq<char>,
    properties: Seq<(Seq<char>, Seq<char>)>,
) -> Option<Seq<char>> {
    match json_text(log_document(trace_id, target, severity, properties)) {
        Some(text) => Some(text.push('\n')),
        None => None,
    }
}

/// The log lines for the events of one span, in order; `None` where one of
/// them cannot be written.
pub open spec fn event_lines(trace_id: Seq<char>, target: Seq<char>, events: Seq<EventRecord>)
    -> Option<Seq<Seq<char>>>
    decreases events.len(),
{
    if events.len() == 0 {
        Some(Seq::empty())
    } else {
        let last = events.last();
        match (
            event_lines(trace_id, target, events.drop_last()),
            log_line_text(trace_id, target, last.name@, pair_texts(last.properties@)),
        ) {
            (Some(lines), Some(line)) => Some(lines.push(line)),
            _ => None,
        }
    }
}

/// The log lines for the events of the spans, span after span; `None` where
/// one of them cannot be written.
pub open spec fn span_lines(format: TraceIdFormat, spans: Seq<SpanRecord>) -> Option<
    Seq<Seq<char>>,
>
    decreases spans.len(),
{
    if spans.len() == 0 {
        Some(Seq::empty())
    } else {
        let last = spans.last();
        match (
            span_lines(format, spans.drop_last()),
            event_lines(format.text(last.trace_id as nat), last.name@, last.events@),
        ) {
            (Some(before), Some(lines)) => Some(before + lines),
            _ => None,
        }
    }
}

/// The texts of the lines of a report, if there is one.
pub open spec fn report_view(report: Result<Vec<String>, ReportError>) -> Option<Seq<Seq<char>>> {
    match report {
        Ok(lines) => Some(texts(lines@)),
        Err(_) => None,
    }
}

/// The text of a line, if there is one.
pub open spec fn line_view(line: Result<String, ReportError>) -> Option<Seq<char>> {
    match line {
        Ok(line) => Some(line@),
        Err(_) => None,
    }
}

/// The four reserved keys are four different texts.
proof fn lemma_reserved_keys_differ()
    ensures
        "timestamp"@ != "message"@,
        "timestamp"@ != "file"@,
        "timestamp"@ != "line"@,
        "message"@ != "file"@,
        "message"@ != "line"@,
        "file"@ != "line"@,
{
    reveal_strlit("timestamp");
    reveal_strlit("message");
    reveal_strlit("file");
    reveal_strlit("line");
    assert("timestamp"@[0] == 't');
    assert("message"@[0] == 'm');
    assert("file"@[0] == 'f');
    assert("line"@[0] == 'l');
}

/// The log line for one event of a span with the given trace id and name.
pub fn log_line(trace_id: &str, target: &str, event: &EventRecord) -> (line: Result<
    String,
    ReportError,
>)
    ensures
        line_view(line) == log_line_text(
            trace_id@,
            target@,
            event.name@,
            pair_texts(event.properties@),
        ),
{
    let mut message = "<MISSING MESSAGE>".to_owned();
    let mut timestamp = "<MISSING TIMESTAMP>".to_owned();
    let mut file = "".to_owned();
    let mut line = "".to_owned();
    let mut structured: Vec<(String, String)> = Vec::new();
    let ghost properties = pair_texts(event.properties@);
    let mut i: usize = 0;
    proof {
        assert(properties.take(0) == Seq::<(Seq<char>, Seq<char>)>::empty());
        assert(pair_texts(structured@) == Seq::<(Seq<char>, Seq<char>)>::empty());
    }
    while i < event.properties.len()
        invariant
            i <= event.properties.len(),
            properties == pair_texts(event.properties@),
            timestamp@ == last_value(
                properties.take(i as int),
                "timestamp"@,
                "<MISSING TIMESTAMP>"@,
            ),
            message@ == last_value(properties.take(i as int), "message"@, "<MISSING MESSAGE>"@),
            file@ == last_value(properties.take(i as int), "file"@, ""@),
            line@ == last_value(properties.take(i as int), "line"@, ""@),
            pair_texts(structured@) == structured_fields(properties.take(i as int)),
        decreases event.properties.len() - i,
    {
        let property_key = &event.properties[i].0;
        let property_value = &event.properties[i].1;
        proof {
            lemma_reserved_keys_differ();
            let next = properties.take(i + 1);
            assert(next.drop_last() == properties.take(i as int));
            assert(next.last() == (property_key@, property_value@));
        }
        if same_text(property_key.as_str(), "timestamp") {
            timestamp = property_value.clone();
        } else if same_text(property_key.as_str(), "message") {
            message = property_value.clone();
        } else if same_text(property_key.as_str(), "file") {
            file = property_value.clone();
        } else if same_text(property_key.as_str(), "line") {
            line = property_value.clone();
        } else {
            let ghost before = pair_texts(structured@);
            structured.push((property_key.clone(), property_value.clone()));
            assert(pair_texts(structured@) == before.push((property_key@, property_value@)));
        }
        i += 1;
    }
    assert(properties.take(event.properties.len() as int) == properties);
    let mut location: Vec<(String, String)> = Vec::new();
    location.push(("FILE".to_owned(), file));
    location.push(("LINE".to_owned(), line));
    let mut document: Vec<(String, Field)> = Vec::new();
    document.push(("time".to_owned(), Field::Text(timestamp)));
    document.push(("target".to_owned(), Field::Text(target.to_owned())));
    document.push(("logging.googleapis.com/sourceLocation".to_owned(), Field::Object(location)));
    document.push(("span".to_owned(), Field::Object(structured)));
    document.push(("traceId".to_owned(), Field::Text(trace_id.to_owned())));
    document.push(("severity".to_owned(), Field::Text(event.name.clone())));
    document.push(("message".to_owned(), Field::Text(message)));
    proof {
        assert(pair_texts(location@) == seq![("FILE"@, file@), ("LINE"@, line@)]);
        assert(document_view(document@) == log_document(
            trace_id@,
            target@,
            event.name@,
            properties,
        ));
    }
    match to_json(&document) {
        Some(text) => {
            let mut text = text;
            text.push('\n');
            Ok(text)
        },
        None => Err(ReportError::Json),
    }
}

/// Reports spans as lines of JSON.
///
/// The reporter makes the lines and keeps the writer that they are meant
/// for; writing them is left to the owner of the writer.
pub struct JsonReporter<WriteImpl> {
    writer: WriteImpl,
    format: TraceIdFormat,
}

impl<WriteImpl> JsonReporter<WriteImpl> {
    /// The writer that this reporter keeps.
    pub closed spec fn writer_view(&self) -> WriteImpl {
        self.writer
    }

    /// The form in which the lines of this reporter carry the trace id.
    pub closed spec fn format_view(&self) -> TraceIdFormat {
        self.format
    }

    /// A reporter for `writer` whose lines carry the trace id in the form of
    /// Google Cloud.
    pub fn new(writer: WriteImpl) -> (reporter: Self)
        ensures
            reporter.writer_view() == writer,
            reporter.format_view() == TraceIdFormat::Gcp,
    {
        Self { writer, format: TraceIdFormat::Gcp }
    }

    /// A reporter for `writer` whose lines carry the trace id in the given
    /// form.
    pub fn with_format(writer: WriteImpl, format: TraceIdFormat) -> (reporter: Self)
        ensures
            reporter.writer_view() == writer,
            reporter.format_view() == format,
    {
        Self { writer, format }
    }

    /// The form in which the lines carry the trace id.
    pub fn format(&self) -> (format: TraceIdFormat)
        ensures
            format == self.format_view(),
    {
        self.format
    }

    /// The writer, to write with.
    pub fn writer_mut(&mut self) -> (writer: &mut WriteImpl)
        ensures
            *writer == old(self).writer_view(),
            final(self).writer_view() == *final(writer),
            final(self).format_view() == old(self).format_view(),
    {
        &mut self.writer
    }

    /// Gives the writer back.
    pub fn into_writer(self) -> (writer: WriteImpl)
        ensures
            writer == self.writer_view(),
    {
        self.writer
    }

    /// The log lines for a batch of spans: one for each event of each span,
    /// in the order of the spans and of their events.
    pub fn lines(&self, spans: &Vec<SpanRecord>) -> (report: Result<Vec<String>, ReportError>)
        ensures
            report_view(report) == span_lines(self.format_view(), spans@),
    {
        let mut lines: Vec<String> = Vec::new();
        let mut s: usize = 0;
        proof {
            assert(spans@.take(0) == Seq::<SpanRecord>::empty());
            assert(texts(lines@) == Seq::<Seq<char>>::empty());
        }
        while s < spans.len()
            invariant
                s <= spans.len(),
                span_lines(self.format_view(), spans@.take(s as int)) == Some(
                    texts(lines@),
                ),
            decreases spans.len() - s,
        {
            let span = &spans[s];
            let trace_id = self.format.convert_trace_id(span.trace_id);
            let ghost before = texts(lines@);
            let mut e: usize = 0;
            proof {
                assert(spans@.take(s + 1).drop_last() == spans@.take(s as int));
                assert(spans@.take(s + 1).last() == *span);
                assert(span.events@.take(0) == Seq::<EventRecord>::empty());
                assert(before + Seq::<Seq<char>>::empty() == before);
            }
            while e < span.events.len()
                invariant
                    e <= span.events.len(),
                    s < spans.len(),
                    *span == spans@[s as int],
                    trace_id@ == self.format_view().text(span.trace_id as nat),
                    event_lines(trace_id@, span.name@, span.events@.take(e as int)) matches Some(
                        done,
                    ) && texts(lines@) == before + done,
                decreases span.events.len() - e,
            {
                let event = &span.events[e];
                let ghost done = event_lines(trace_id@, span.name@, span.events@.take(e as int))->0;
                proof {
                    assert(span.events@.take(e + 1).drop_last() == span.events@.take(e as int));
                    assert(span.events@.take(e + 1).last() == *event);
                }
                match log_line(trace_id.as_str(), span.name.as_str(), event) {
                    Ok(line) => {
                        let ghost texts_before = texts(lines@);
                        lines.push(line);
                        assert(texts(lines@) == texts_before.push(line@));
                        assert(before + done.push(line@) == (before + done).push(line@));
                    },
                    Err(error) => {
                        proof {
                            lemma_lines_fail_for_good(
                                self.format_view(),
                                spans@,
                                s as int,
                                e as int,
                            );
                        }
                        return Err(error);
                    },
                }
                e += 1;
            }
            assert(span.events@.take(span.events.len() as int) == span.events@);
            s += 1;
        }
        assert(spans@.take(spans.len() as int) == spans@);
        Ok(lines)
    }
}

/// Where the lines of the first events of a span cannot be written, the
/// lines of all its events cannot.
pub proof fn lemma_event_lines_fail_for_good(
    trace_id: Seq<char>,
    target: Seq<char>,
    events: Seq<EventRecord>,
    n: int,
)
    requires
        0 <= n <= events.len(),
        event_lines(trace_id, target, events.take(n)) is None,
    ensures
        event_lines(trace_id, target, events) is None,
    decreases events.len() - n,
{
    if n == events.len() {
        assert(events.take(n) == events);
    } else {
        assert(events.take(n + 1).drop_last() == events.take(n));
        lemma_event_lines_fail_for_good(trace_id, target, events, n + 1);
    }
}

/// Where the lines of the first spans cannot be written, the lines of all
/// spans cannot.
pub proof fn lemma_span_lines_fail_for_good(format: TraceIdFormat, spans: Seq<SpanRecord>, n: int)
    requires
        0 <= n <= spans.len(),
        span_lines(format, spans.take(n)) is None,
    ensures
        span_lines(format, spans) is None,
    decreases spans.len() - n,
{
    if n == spans.len() {
        assert(spans.take(n) == spans);
    } else {
        assert(spans.take(n + 1).drop_last() == spans.take(n));
        lemma_span_lines_fail_for_good(format, spans, n + 1);
    }
}

/// Where the line of event `e` of span `s` cannot be written, no report is
/// made.
proof fn lemma_lines_fail_for_good(format: TraceIdFormat, spans: Seq<SpanRecord>, s: int, e: int)
    requires
        0 <= s < spans.len(),
        0 <= e < spans[s].events@.len(),
        log_line_text(
            format.text(spans[s].trace_id as nat),
            spans[s].name@,
            spans[s].events@[e].name@,
            pair_texts(spans[s].events@[e].properties@),
        ) is None,
    ensures
        span_lines(format, spans) is None,
{
    let span = spans[s];
    let events = span.events@;
    let trace_id = format.text(span.trace_id as nat);
    assert(events.take(e + 1).drop_last() == events.take(e));
    assert(events.take(e + 1).last() == events[e]);
    lemma_event_lines_fail_for_good(trace_id, span.name@, events, e + 1);
    assert(spans.take(s + 1).drop_last() == spans.take(s));
    assert(spans.take(s + 1).last() == span);
    lemma_span_lines_fail_for_good(format, spans, s + 1);
}

} // verus!
