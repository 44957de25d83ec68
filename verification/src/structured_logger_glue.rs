//! Events for the records that the logger hands over: each record becomes an
//! event of the span that runs, named by its level.

use crate::minitrace_glue::last_value;
use crate::text::{option_text, pair_texts, same_text};
use vstd::prelude::*;

verus! {

/// One entry of a log record: its key, its value as a text and, where the
/// value is one, as an unsigned number.
#[derive(Debug, PartialEq)]
pub struct LogEntry {
    pub key: String,
    pub text: String,
    pub number: Option<u64>,
}

/// An event for the tracer: the level of the record as its name, and the
/// properties of the record.
#[derive(Debug, PartialEq)]
pub struct LogEvent {
    pub level: String,
    pub properties: Vec<(String, String)>,
}

/// The format of a timestamp in a log line: date and time of day in UTC with
/// milliseconds, as ISO 8601 writes them.
pub open spec fn timestamp_format() -> Seq<char> {
    "%Y-%m-%dT%H:%M:%S%.3fZ"@
}

/// The text of the point in time that lies `secs` seconds and `nsecs`
/// nanoseconds after the start of 1970 in UTC, as `chrono` writes it in the
/// given format; `None` where `chrono` has no such point in time.
pub uninterp spec fn timestamp_text(secs: i64, nsecs: u32, format: Seq<char>) -> Option<Seq<char>>;

/// The text of the earliest point in time that `chrono` has, in the given
/// format.
pub uninterp spec fn earliest_timestamp_text(format: Seq<char>) -> Seq<char>;

/// `chrono::DateTime::from_timestamp`, then `naive_utc`, `format` and
/// `to_string`; `None` where `from_timestamp` returns `None`. The format is
/// held to the one that is known to be well formed, as `to_string` panics on
/// one that is not.
#[verifier::external_body]
fn format_timestamp(secs: i64, nsecs: u32, format: &str) -> (text: Option<String>)
    requires
        format@ == timestamp_format(),
    ensures
        option_text(text) == timestamp_text(secs, nsecs, format@),
{
    chrono::DateTime::from_timestamp(secs, nsecs).map(
        |time| time.naive_utc().format(format).to_string(),
    )
}

/// `chrono::NaiveDateTime::MIN`, then `format` and `to_string`, with the
/// format held to the one that is known to be well formed.
#[verifier::external_body]
fn format_earliest_timestamp(format: &str) -> (text: String)
    requires
        format@ == timestamp_format(),
    ensures
        text@ == earliest_timestamp_text(format@),
{
    chrono::NaiveDateTime::MIN.format(format).to_string()
}

/// The text of a timestamp in milliseconds since the start of 1970: the
/// point in time of its whole seconds and its milliseconds, or the earliest
/// point in time where the seconds are out of range.
pub open spec fn millis_text(timestamp_ms: u64) -> Seq<char> {
    match timestamp_text(
        (timestamp_ms / 1_000) as i64,
        (1_000_000 * (timestamp_ms % 1_000)) as u32,
        timestamp_format(),
    ) {
        Some(text) => text,
        None => earliest_timestamp_text(timestamp_format()),
    }
}

/// What a record says of its timestamp: the number of its entry, or the
/// largest number where the entry holds none.
pub open spec fn entry_millis(entry: LogEntry) -> u64 {
    match entry.number {
        Some(n) => n,
        None => u64::MAX,
    }
}

/// The key is one of those that do not become a property of the event.
pub open spec fn dropped(key: Seq<char>) -> bool {
    key == "level"@ || key == "target"@
}

/// The property that an entry becomes: its key and its text, but for a
/// timestamp, whose milliseconds are written as a point in time.
pub open spec fn property_of(entry: LogEntry) -> (Seq<char>, Seq<char>) {
    if entry.key@ == "timestamp"@ {
        (entry.key@, millis_text(entry_millis(entry)))
    } else {
        (entry.key@, entry.text@)
    }
}

/// The properties of the entries whose keys are not dropped, in order.
pub open spec fn properties_of(entries: Seq<LogEntry>) -> Seq<(Seq<char>, Seq<char>)>
    decreases entries.len(),
{
    if entries.len() == 0 {
        Seq::empty()
    } else if dropped(entries.last().key@) {
        properties_of(entries.drop_last())
    } else {
        properties_of(entries.drop_last()).push(property_of(entries.last()))
    }
}

/// The keys and texts of the entries.
pub open spec fn entry_texts(entries: Seq<LogEntry>) -> Seq<(Seq<char>, Seq<char>)> {
    Seq::new(entries.len(), |i: int| (entries[i].key@, entries[i].text@))
}

/// The level of a record: the text of its entry `level`, the last one where
/// there are several.
pub open spec fn level_of(entries: Seq<LogEntry>) -> Seq<char> {
    last_value(entry_texts(entries), "level"@, "<MISSING LEVEL>"@)
}

/// The text of a timestamp in milliseconds since the start of 1970.
pub fn format_millis(timestamp_ms: u64) -> (text: String)
    ensures
        text@ == millis_text(timestamp_ms),
{
    let secs: i64 = (timestamp_ms / 1_000) as i64;
    let nanos: u32 = 1_000_000 * ((timestamp_ms % 1_000) as u32);
    let format = "%Y-%m-%dT%H:%M:%S%.3fZ";
    match format_timestamp(secs, nanos, format) {
        Some(text) => text,
        None => format_earliest_timestamp(format),
    }
}

/// The event that a log record becomes.
pub fn log_event(entries: &Vec<LogEntry>) -> (event: LogEvent)
    ensures
        event.level@ == level_of(entries@),
        pair_texts(event.properties@) == properties_of(entries@),
{
    let mut level = "<MISSING LEVEL>".to_owned();
    let mut properties: Vec<(String, String)> = Vec::new();
    let mut i: usize = 0;
    proof {
        assert(entries@.take(0) == Seq::<LogEntry>::empty());
        assert(entry_texts(entries@.take(0)) == Seq::<(Seq<char>, Seq<char>)>::empty());
        assert(pair_texts(properties@) == Seq::<(Seq<char>, Seq<char>)>::empty());
    }
    while i < entries.len()
        invariant
            i <= entries.len(),
            level@ == level_of(entries@.take(i as int)),
            pair_texts(properties@) == properties_of(entries@.take(i as int)),
        decreases entries.len() - i,
    {
        let entry = &entries[i];
        proof {
            let next = entries@.take(i + 1);
            assert(next.drop_last() == entries@.take(i as int));
            assert(next.last() == *entry);
            assert(entry_texts(next).drop_last() == entry_texts(entries@.take(i as int)));
            assert(entry_texts(next).last() == (entry.key@, entry.text@));
            reveal_strlit("level");
            reveal_strlit("target");
            assert("level"@[0] == 'l');
            assert("target"@[0] == 't');
        }
        let ghost before = pair_texts(properties@);
        if same_text(entry.key.as_str(), "level") {
            level = entry.text.clone();
        } else if same_text(entry.key.as_str(), "target") {
        } else if same_text(entry.key.as_str(), "timestamp") {
            let timestamp_ms: u64 = match entry.number {
                Some(n) => n,
                None => u64::MAX,
            };
            let timestamp = format_millis(timestamp_ms);
            properties.push((entry.key.clone(), timestamp));
            assert(pair_texts(properties@) == before.push(property_of(*entry)));
        } else {
            properties.push((entry.key.clone(), entry.text.clone()));
            assert(pair_texts(properties@) == before.push(property_of(*entry)));
        }
        i += 1;
    }
    assert(entries@.take(entries.len() as int) == entries@);
    LogEvent { level, properties }
}

} // verus!
