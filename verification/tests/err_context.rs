use infinite_errors::context::{err_context, ErrorContext};
use infinite_errors::error::{Error, ErrorType, IntoError};
use infinite_errors::site::CallSite;
use infinite_errors::text::Describe;

const BASE_ERROR_MESSAGE: &str = "test";

#[derive(Debug, PartialEq)]
pub enum TestErrorKind {
    Context,
    BaseError(&'static str),
}

impl Describe for TestErrorKind {
    fn describe(&self) -> String {
        match self {
            TestErrorKind::Context => String::from("Context"),
            TestErrorKind::BaseError(message) => String::from(*message),
        }
    }
}

type TestResult = Result<(), Error<TestErrorKind>>;

fn origin() -> CallSite {
    CallSite::new("src/disk.rs", 12, 9)
}

fn here() -> CallSite {
    CallSite::new("src/parse.rs", 40, 14)
}

fn assert_correct_error_context(res: TestResult) {
    let err = res.unwrap_err();

    assert!(matches!(err.kind(), TestErrorKind::Context));
    assert!(matches!(
        err.cause().unwrap().kind(),
        TestErrorKind::BaseError(BASE_ERROR_MESSAGE)
    ));
    assert!(matches!(err.cause().unwrap().cause(), None));
}

#[test]
fn test_err_context_ok() {
    let res: TestResult = TestResult::Ok(()).err_context(TestErrorKind::Context, here());
    res.unwrap();
}

#[test]
fn test_err_context_err() {
    let err: Error<TestErrorKind> = TestResult::Err(Error::<TestErrorKind>::new(
        TestErrorKind::BaseError("test"),
        origin(),
    ))
    .err_context(TestErrorKind::Context, here())
    .unwrap_err();

    assert!(matches!(err.kind(), TestErrorKind::Context));
    assert!(matches!(
        err.cause().unwrap().kind(),
        TestErrorKind::BaseError("test")
    ));
    assert!(matches!(err.cause().unwrap().cause(), None));
}

#[test]
fn test_err_context_with_err() {
    let err: Error<TestErrorKind> = TestResult::Err(Error::<TestErrorKind>::new(
        TestErrorKind::BaseError("test"),
        origin(),
    ))
    .err_context_with(|| TestErrorKind::Context, here())
    .unwrap_err();

    assert!(matches!(err.kind(), TestErrorKind::Context));
    assert!(matches!(
        err.cause().unwrap().kind(),
        TestErrorKind::BaseError("test")
    ));
    assert!(matches!(err.cause().unwrap().cause(), None));
}

#[test]
fn err_context_err_context_ok() {
    let res: TestResult = TestResult::Ok(()).err_context(TestErrorKind::Context, here());
    res.unwrap();
}

#[test]
fn err_context_err_context_err() {
    let err: Error<TestErrorKind> =
        TestResult::Err(TestErrorKind::BaseError("test").into_error(origin()))
            .err_context(TestErrorKind::Context, here())
            .unwrap_err();

    assert!(matches!(err.kind(), TestErrorKind::Context));
    assert!(matches!(
        err.cause().unwrap().kind(),
        TestErrorKind::BaseError("test")
    ));
    assert!(matches!(err.cause().unwrap().cause(), None));
}

#[test]
fn err_context_err_context_with_err() {
    let err: Error<TestErrorKind> =
        TestResult::Err(TestErrorKind::BaseError("test").into_error(origin()))
            .err_context_with(|| TestErrorKind::Context, here())
            .unwrap_err();

    assert!(matches!(err.kind(), TestErrorKind::Context));
    assert!(matches!(
        err.cause().unwrap().kind(),
        TestErrorKind::BaseError("test")
    ));
    assert!(matches!(err.cause().unwrap().cause(), None));
}

#[test]
fn err_context_macro_fn() {
    fn test() -> TestResult {
        err_context(TestErrorKind::Context, here(), || {
            Err::<(), TestErrorKind>(TestErrorKind::BaseError(BASE_ERROR_MESSAGE))
        })
    }

    assert_correct_error_context(test());
}

#[test]
fn err_context_macro_fn_try_return() {
    fn test() -> TestResult {
        err_context(TestErrorKind::Context, here(), || {
            Err::<(), TestErrorKind>(TestErrorKind::BaseError(BASE_ERROR_MESSAGE))?;

            Ok::<(), TestErrorKind>(())
        })
    }

    assert_correct_error_context(test());
}

#[test]
fn success_passes_through_with_its_value() {
    let res: Result<u32, Error<TestErrorKind>> =
        Ok::<u32, Error<TestErrorKind>>(7).err_context(TestErrorKind::Context, here());
    assert_eq!(res.unwrap(), 7);
}

#[test]
fn failure_keeps_the_original_as_cause() {
    let original = Error::new(TestErrorKind::BaseError("disk full"), origin());
    let err: Error<TestErrorKind> = TestResult::Err(original)
        .err_context(TestErrorKind::Context, here())
        .unwrap_err();
    assert_eq!(err.kind(), &TestErrorKind::Context);
    assert_eq!(err.site().file(), "src/parse.rs");
    assert_eq!(err.site().line(), 40);
    assert_eq!(err.site().column(), 14);
    let cause = err.cause().unwrap();
    assert_eq!(cause.kind(), &TestErrorKind::BaseError("disk full"));
    assert_eq!(cause.site().file(), "src/disk.rs");
    assert_eq!(cause.site().line(), 12);
    assert_eq!(cause.site().column(), 9);
}

#[test]
fn a_kind_becomes_a_terminal_node_at_the_site_of_the_attachment() {
    let err: Error<TestErrorKind> = Err::<(), TestErrorKind>(TestErrorKind::BaseError("late"))
        .err_context(TestErrorKind::Context, here())
        .unwrap_err();
    let cause: &Error<TestErrorKind> = err.cause().unwrap();
    assert_eq!(cause.kind(), &TestErrorKind::BaseError("late"));
    assert_eq!(cause.site().line(), 40);
    assert!(cause.cause().is_none());
}

#[test]
fn depth_is_one_more_than_the_number_of_attachments() {
    for n in 0..6usize {
        let mut res: TestResult = Err(Error::new(TestErrorKind::BaseError("root"), origin()));
        for i in 0..n {
            res = res.err_context(
                TestErrorKind::Context,
                CallSite::new("src/layer.rs", i as u32, 1),
            );
        }
        let err = res.unwrap_err();
        let mut steps = 0usize;
        let mut node = Some(&err);
        while let Some(e) = node {
            steps += 1;
            node = e.cause();
        }
        assert_eq!(steps, n + 1);
    }
}

#[test]
fn lazy_kind_is_not_produced_on_success() {
    let mut calls = 0u32;
    let res: TestResult = TestResult::Ok(()).err_context_with(
        || {
            calls += 1;
            TestErrorKind::Context
        },
        here(),
    );
    assert!(res.is_ok());
    assert_eq!(calls, 0);
}

#[test]
fn lazy_kind_is_produced_once_on_failure() {
    let mut calls = 0u32;
    let res: TestResult = TestResult::Err(Error::new(TestErrorKind::BaseError("x"), origin()))
        .err_context_with(
            || {
                calls += 1;
                TestErrorKind::Context
            },
            here(),
        );
    assert!(res.is_err());
    assert_eq!(calls, 1);
}

#[test]
fn rendering_lists_every_layer_with_its_site() {
    let terminal = Error::new(TestErrorKind::BaseError("disk full"), origin());
    assert_eq!(terminal.render(), "[src/disk.rs:12:9] disk full");
    let err: Error<TestErrorKind> = TestResult::Err(terminal)
        .err_context(TestErrorKind::Context, here())
        .unwrap_err();
    assert_eq!(
        err.render(),
        "[src/parse.rs:40:14] Context: [src/disk.rs:12:9] disk full"
    );
}

#[test]
fn rendering_twice_gives_the_same_text() {
    let err: Error<TestErrorKind> = TestResult::Err(Error::new(TestErrorKind::BaseError("disk full"), origin()))
        .err_context(TestErrorKind::Context, here())
        .unwrap_err();
    assert_eq!(err.render(), err.render());
}

#[test]
fn two_attachments_make_a_chain_of_three() {
    #[derive(Debug, PartialEq)]
    enum Context {
        Load,
        Startup,
        Io,
    }
    let loaded: Result<(), Error<Context>> =
        Err::<(), Error<Context>>(Error::new(Context::Io, origin()))
            .err_context(Context::Load, CallSite::new("src/load.rs", 3, 5));
    let started: Result<(), Error<Context>> =
        loaded.err_context(Context::Startup, CallSite::new("src/main.rs", 8, 5));
    let err = started.unwrap_err();
    assert_eq!(err.kind(), &Context::Startup);
    assert_eq!(err.cause().unwrap().kind(), &Context::Load);
    assert_eq!(err.cause().unwrap().cause().unwrap().kind(), &Context::Io);
    assert!(err.cause().unwrap().cause().unwrap().cause().is_none());
}

#[test]
fn error_type_new_links_the_given_cause() {
    let cause = Error::new(TestErrorKind::BaseError("inner"), origin());
    let err: Error<TestErrorKind> =
        ErrorType::new(TestErrorKind::Context, Some(Box::new(cause)), here());
    assert_eq!(err.kind(), &TestErrorKind::Context);
    assert_eq!(
        err.cause().unwrap().kind(),
        &TestErrorKind::BaseError("inner")
    );
    let alone: Error<TestErrorKind> = ErrorType::new(TestErrorKind::Context, None, here());
    assert!(alone.cause().is_none());
}

#[test]
fn site_renders_as_file_line_column() {
    assert_eq!(CallSite::new("a/b.rs", 0, 4294967295).render(), "a/b.rs:0:4294967295");
}

#[derive(Debug, PartialEq)]
enum Context {
    Parse,
    BaseError(&'static str),
}

impl From<&'static str> for Context {
    fn from(message: &'static str) -> Context {
        Context::BaseError(message)
    }
}

impl Describe for Context {
    fn describe(&self) -> String {
        match self {
            Context::Parse => String::from("Parse"),
            Context::BaseError(message) => String::from(*message),
        }
    }
}

#[test]
fn disk_full_wrapped_once_with_parse() {
    let site1 = CallSite::new("src/store.rs", 7, 13);
    let site2 = CallSite::new("src/config.rs", 120, 5);
    let terminal = Error::new(Context::BaseError("disk full"), site1);
    let err: Error<Context> = Err::<(), Error<Context>>(terminal)
        .err_context(Context::Parse, site2)
        .unwrap_err();
    assert_eq!(
        err.render(),
        format!("[{}] Parse: [{}] disk full", site2.render(), site1.render())
    );
    assert_eq!(
        err.render(),
        "[src/config.rs:120:5] Parse: [src/store.rs:7:13] disk full"
    );
}

#[test]
fn from_kind_converts_and_makes_a_terminal_node() {
    let site = CallSite::new("src/store.rs", 7, 13);
    let err: Error<Context> = Error::from_kind("disk full", site);
    assert_eq!(err, Error::new(Context::BaseError("disk full"), site));
    assert_eq!(err.kind(), &Context::BaseError("disk full"));
    assert_eq!(err.site(), &site);
    assert!(err.cause().is_none());
}

#[test]
fn chains_compare_layer_by_layer() {
    let site = CallSite::new("a.rs", 1, 1);
    let other = CallSite::new("a.rs", 1, 2);
    let chain = |outer: CallSite| -> Error<Context> {
        Err::<(), Error<Context>>(Error::new(Context::BaseError("x"), site))
            .err_context(Context::Parse, outer)
            .unwrap_err()
    };
    assert_eq!(chain(site), chain(site));
    assert_ne!(chain(site), chain(other));
    assert_ne!(chain(site), Error::new(Context::Parse, site));
}
