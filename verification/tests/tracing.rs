use infinite_errors::features::TraceIdFormat;
use infinite_errors::minitrace_glue::{log_line, EventRecord, JsonReporter, ReportError, SpanRecord};
use infinite_errors::parameters::{MacroArgs, ParseError, ReturnLogOptions};
use infinite_errors::structured_logger_glue::{format_millis, log_event, LogEntry, LogEvent};
use infinite_errors::tracing_impl::instrument;
use infinite_errors::tracing_macro::InstrumentError;

/// The tokens of a text, written as the lexer writes them.
fn tokens(text: &str) -> String {
    text.parse::<proc_macro2::TokenStream>()
        .unwrap()
        .to_string()
}

/// The definition `fn a () {}`.
fn test_fn_item() -> &'static str {
    "fn a () { }"
}

#[test]
fn tracing_impl_standard_usage() {
    let expected_fn_def = r#"# [:: minitrace :: trace] fn a () { }"#;
    let parameters = MacroArgs {
        ..MacroArgs::default()
    };
    let fn_tokens = test_fn_item();
    let observed_fn_def = instrument(parameters, fn_tokens).to_string();
    assert_eq!(
        tokens(&observed_fn_def),
        tokens(expected_fn_def),
        "Function definition attributes mismatch"
    );
}

#[test]
fn tracing_impl_log_result_and_params_on_err() {
    let expected_fn_def = r#"# [:: minitrace :: trace] # [:: logcall :: logcall (err = "error" , skip = [] ,)] fn a () { }"#;
    let parameters = MacroArgs {
        log_return: ReturnLogOptions::LogErrOnly,
        log_parameters: true,
        ..MacroArgs::default()
    };
    let fn_tokens = test_fn_item();
    let observed_fn_def = instrument(parameters, fn_tokens).to_string();
    assert_eq!(
        tokens(&observed_fn_def),
        tokens(expected_fn_def),
        "Function definition attributes mismatch"
    );
}

#[test]
fn tracing_impl_log_result_but_no_params_on_err() {
    let expected_fn_def =
        r#"# [:: minitrace :: trace] # [:: logcall :: logcall (err = "error" ,)] fn a () { }"#;
    let parameters = MacroArgs {
        log_return: ReturnLogOptions::LogErrOnly,
        log_parameters: false,
        ..MacroArgs::default()
    };
    let fn_tokens = test_fn_item();
    let observed_fn_def = instrument(parameters, fn_tokens).to_string();
    assert_eq!(
        tokens(&observed_fn_def),
        tokens(expected_fn_def),
        "Function definition attributes mismatch"
    );
}

#[test]
fn tracing_impl_log_result_and_some_params_on_err() {
    let expected_fn_def = r#"# [:: minitrace :: trace] # [:: logcall :: logcall (err = "error" , skip = [password , secret] ,)] fn a () { }"#;
    let parameters = MacroArgs {
        log_return: ReturnLogOptions::LogErrOnly,
        log_parameters: true,
        parameters_to_skip: vec!["password", "secret"]
            .into_iter()
            .map(|e| e.to_string())
            .collect(),
        ..MacroArgs::default()
    };
    let fn_tokens = test_fn_item();
    let observed_fn_def = instrument(parameters, fn_tokens).to_string();
    assert_eq!(
        tokens(&observed_fn_def),
        tokens(expected_fn_def),
        "Function definition attributes mismatch"
    );
}

#[test]
fn instrument_writes_the_annotations_on_lines_of_their_own() {
    let args = |log_return, log_parameters, skip: &[&str]| MacroArgs {
        log_return,
        log_parameters,
        parameters_to_skip: skip.iter().map(|s| s.to_string()).collect(),
        custom_params: vec![("a".to_string(), "b".to_string())],
    };
    assert_eq!(
        instrument(args(ReturnLogOptions::Skip, true, &["x"]), "fn f() {}"),
        "#[::minitrace::trace]\nfn f() {}"
    );
    assert_eq!(
        instrument(args(ReturnLogOptions::LogErrOnly, true, &["x", "y", "z"]), "fn f() {}"),
        "#[::minitrace::trace]\n#[::logcall::logcall(err=\"error\", skip=[x, y, z], )]\nfn f() {}"
    );
    assert_eq!(
        instrument(args(ReturnLogOptions::LogOkOnly, false, &["x"]), "fn f() {}"),
        "#[::minitrace::trace]\n#[::logcall::logcall(ok=\"info\", )]\nfn f() {}"
    );
    assert_eq!(
        instrument(args(ReturnLogOptions::LogResult, true, &[]), "fn f() {}"),
        "#[::minitrace::trace]\n#[::logcall::logcall(err=\"error\", ok=\"info\", skip=[], )]\nfn f() {}"
    );
    assert_eq!(
        instrument(args(ReturnLogOptions::LogNonFallible, true, &["x"]), ""),
        "#[::minitrace::trace]\n#[::logcall::logcall(egress=\"info\", skip=[x], )]\n"
    );
}

#[test]
fn the_attribute_reads_its_arguments_and_instruments() {
    assert_eq!(
        infinite_errors::tracing_macro::instrument(
            "err, skip(password)",
            "fn login(user: &str, password: &str) {}"
        ),
        Ok(String::from(
            "#[::minitrace::trace]\n#[::logcall::logcall(err=\"error\", skip=[password], )]\nfn login(user: &str, password: &str) {}"
        ))
    );
    assert_eq!(
        infinite_errors::tracing_macro::instrument("", "async fn f() -> u8 { 1 }"),
        Ok(String::from("#[::minitrace::trace]\nasync fn f() -> u8 { 1 }"))
    );
    assert_eq!(
        infinite_errors::tracing_macro::instrument("err, ok", "fn f() {}"),
        Err(InstrumentError::Arguments {
            error: ParseError::IdentifierCombination
        })
    );
    assert_eq!(
        infinite_errors::tracing_macro::instrument("err, ok", "struct S;"),
        Err(InstrumentError::Item {
            message: String::from("expected `fn`")
        })
    );
}

fn event(name: &str, properties: &[(&str, &str)]) -> EventRecord {
    EventRecord {
        name: name.to_string(),
        properties: properties
            .iter()
            .map(|(k, v)| (k.to_string(), v.to_string()))
            .collect(),
    }
}

#[test]
fn a_log_line_has_a_place_for_each_reserved_key() {
    let line = log_line(
        "abc/1",
        "my::target",
        &event(
            "info",
            &[
                ("timestamp", "2024-01-02T03:04:05.678Z"),
                ("user", "ann"),
                ("message", "Here I am!"),
                ("file", "src/main.rs"),
                ("line", "42"),
                ("attempt", "3"),
            ],
        ),
    )
    .unwrap();
    assert_eq!(
        line,
        "{\"logging.googleapis.com/sourceLocation\":{\"FILE\":\"src/main.rs\",\"LINE\":\"42\"},\"message\":\"Here I am!\",\"severity\":\"info\",\"span\":{\"attempt\":\"3\",\"user\":\"ann\"},\"target\":\"my::target\",\"time\":\"2024-01-02T03:04:05.678Z\",\"traceId\":\"abc/1\"}\n"
    );
}

#[test]
fn a_log_line_says_what_is_missing() {
    let line = log_line("t", "n", &event("error", &[])).unwrap();
    let value: serde_json::Value = serde_json::from_str(&line).unwrap();
    assert_eq!(value["time"], "<MISSING TIMESTAMP>");
    assert_eq!(value["message"], "<MISSING MESSAGE>");
    assert_eq!(value["logging.googleapis.com/sourceLocation"]["FILE"], "");
    assert_eq!(value["logging.googleapis.com/sourceLocation"]["LINE"], "");
    assert_eq!(value["span"], serde_json::Value::Object(serde_json::Map::new()));
    assert_eq!(value["severity"], "error");
    assert_eq!(value["target"], "n");
    assert_eq!(value["traceId"], "t");
    assert!(line.ends_with("}\n"));
}

#[test]
fn the_last_of_several_values_counts() {
    let line = log_line(
        "t",
        "n",
        &event(
            "info",
            &[
                ("message", "first"),
                ("k", "1"),
                ("message", "second \"quoted\"\n"),
                ("k", "2"),
            ],
        ),
    )
    .unwrap();
    let value: serde_json::Value = serde_json::from_str(&line).unwrap();
    assert_eq!(value["message"], "second \"quoted\"\n");
    assert_eq!(value["span"]["k"], "2");
}

#[test]
fn the_reporter_makes_a_line_for_each_event_of_each_span() {
    let spans = vec![
        SpanRecord {
            trace_id: (0xabcu128 << 64) | 42,
            name: "first".to_string(),
            events: vec![
                event("info", &[("message", "a")]),
                event("warn", &[("message", "b")]),
            ],
        },
        SpanRecord {
            trace_id: 7,
            name: "empty".to_string(),
            events: vec![],
        },
        SpanRecord {
            trace_id: 1,
            name: "second".to_string(),
            events: vec![event("error", &[("message", "c")])],
        },
    ];
    let reporter = JsonReporter::new(Vec::<u8>::new());
    assert_eq!(reporter.format(), TraceIdFormat::Gcp);
    let lines = reporter.lines(&spans).unwrap();
    assert_eq!(lines.len(), 3);
    let read = |line: &String| serde_json::from_str::<serde_json::Value>(line).unwrap();
    assert_eq!(read(&lines[0])["message"], "a");
    assert_eq!(read(&lines[0])["target"], "first");
    assert_eq!(
        read(&lines[0])["traceId"],
        "0000000000000abc0000000000000000/42"
    );
    assert_eq!(read(&lines[1])["message"], "b");
    assert_eq!(read(&lines[1])["severity"], "warn");
    assert_eq!(read(&lines[2])["message"], "c");
    assert_eq!(
        read(&lines[2])["traceId"],
        "00000000000000000000000000000000/1"
    );
    assert_eq!(reporter.into_writer(), Vec::<u8>::new());
    let none: Result<Vec<String>, ReportError> =
        JsonReporter::new(()).lines(&Vec::<SpanRecord>::new());
    assert_eq!(none, Ok(vec![]));
}

#[test]
fn the_reporter_writes_the_trace_id_in_the_chosen_form() {
    let spans = vec![SpanRecord {
        trace_id: 113059749145936325402354257176981405696,
        name: "s".to_string(),
        events: vec![event("info", &[])],
    }];
    let trace_id = |format: TraceIdFormat| {
        let lines = JsonReporter::with_format((), format).lines(&spans).unwrap();
        serde_json::from_str::<serde_json::Value>(&lines[0]).unwrap()["traceId"]
            .as_str()
            .unwrap()
            .to_string()
    };
    assert_eq!(
        trace_id(TraceIdFormat::Uuid),
        "550e8400-e29b-41d4-a716-446655440000"
    );
    assert_eq!(
        trace_id(TraceIdFormat::U128),
        "113059749145936325402354257176981405696"
    );
    assert_eq!(
        trace_id(TraceIdFormat::Gcp),
        "550e8400e29b41d40000000000000000/12039885860129472512"
    );
    assert_eq!(TraceIdFormat::default(), TraceIdFormat::Gcp);
}

fn entry(key: &str, text: &str, number: Option<u64>) -> LogEntry {
    LogEntry {
        key: key.to_string(),
        text: text.to_string(),
        number,
    }
}

#[test]
fn a_timestamp_in_milliseconds_is_written_as_a_point_in_time() {
    assert_eq!(format_millis(0), "1970-01-01T00:00:00.000Z");
    assert_eq!(format_millis(1_700_000_000_123), "2023-11-14T22:13:20.123Z");
    assert_eq!(format_millis(999), "1970-01-01T00:00:00.999Z");
    let earliest = chrono::NaiveDateTime::MIN
        .format("%Y-%m-%dT%H:%M:%S%.3fZ")
        .to_string();
    assert_eq!(format_millis(u64::MAX), earliest);
}

#[test]
fn a_log_record_becomes_an_event_named_by_its_level() {
    let entries = vec![
        entry("level", "INFO", None),
        entry("message", "Here I am!", None),
        entry("target", "my_app", None),
        entry("timestamp", "1700000000123", Some(1_700_000_000_123)),
        entry("user", "42", Some(42)),
    ];
    assert_eq!(
        log_event(&entries),
        LogEvent {
            level: "INFO".to_string(),
            properties: vec![
                ("message".to_string(), "Here I am!".to_string()),
                ("timestamp".to_string(), "2023-11-14T22:13:20.123Z".to_string()),
                ("user".to_string(), "42".to_string()),
            ],
        }
    );
}

#[test]
fn a_log_record_without_level_or_number_says_so() {
    let earliest = chrono::NaiveDateTime::MIN
        .format("%Y-%m-%dT%H:%M:%S%.3fZ")
        .to_string();
    assert_eq!(
        log_event(&vec![entry("timestamp", "soon", None)]),
        LogEvent {
            level: "<MISSING LEVEL>".to_string(),
            properties: vec![("timestamp".to_string(), earliest)],
        }
    );
    assert_eq!(
        log_event(&vec![]),
        LogEvent {
            level: "<MISSING LEVEL>".to_string(),
            properties: vec![],
        }
    );
}

#[test]
fn the_reporter_lends_its_writer() {
    let mut reporter = JsonReporter::new(vec![1u8]);
    reporter.writer_mut().push(2);
    assert_eq!(reporter.format(), TraceIdFormat::Gcp);
    assert_eq!(reporter.into_writer(), vec![1u8, 2]);
}
