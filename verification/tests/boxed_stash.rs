use std::error::Error;
use std::fmt::Display;

use errorstash::{BoxedError, BoxedErrors, BoxedStash, ErrorList, ErrorStash, ErrorStashInternal};

#[derive(Debug)]
enum CustomError {
    A(String),
    B(String),
}

impl Display for CustomError {
    fn fmt(&self, f: &mut std::fmt::Formatter<'_>) -> std::fmt::Result {
        match self {
            CustomError::A(s) => f.write_str(&format!("Error A: {}", s)),
            CustomError::B(s) => f.write_str(&format!("Error B: {}", s)),
        }
    }
}

impl Error for CustomError {}

#[test]
fn boxed_stash_basic_use() {
    let e1 = "first error";
    let e2 = "Second error".to_string();
    let e3 = CustomError::A("third error".to_string());

    let wrapper: BoxedErrors = BoxedStash::new()
        .set_summary("Found {count} errors")
        .push(e1)
        .push(e2)
        .fail_now(e3)
        .unwrap_err();

    assert_eq!(3, wrapper.len());
    assert_eq!("first error", wrapper[0].to_string());
    assert_eq!("Second error", wrapper[1].to_string());
    assert_eq!("Error A: third error", wrapper[2].to_string());

    let v = wrapper.to_vec();
    assert_eq!(3, v.len());
}

#[test]
fn boxed_stash_display_with_count_replacement() {
    let errors: Vec<Box<dyn Error + Send + Sync + 'static>> = vec![
        Box::new(std::io::Error::new(
            std::io::ErrorKind::Other,
            "IO error occurred",
        )),
        Box::new(CustomError::B("Custom error B occurred".to_string())),
    ];

    let error_list = BoxedErrors::new(
        "Multiple errors occurred: {count} issues found".into(),
        errors,
    );

    let display_output = error_list.to_string();

    let expected_output = "Multiple errors occurred: 2 issues found\n- IO error occurred\n- Error B: Custom error B occurred\n";
    assert_eq!(expected_output, display_output);
}

#[test]
fn display_without_count_replacement() {
    let errors: Vec<Box<dyn Error + Send + Sync + 'static>> = vec![
        Box::new(std::io::Error::new(
            std::io::ErrorKind::Other,
            "IO error occurred",
        )),
        Box::new(CustomError::B("Custom error B occurred".to_string())),
    ];

    let error_list = BoxedErrors::new("Some errors occurred".into(), errors);

    let display_output = error_list.to_string();

    let expected_output =
        "Some errors occurred\n- IO error occurred\n- Error B: Custom error B occurred\n";
    assert_eq!(expected_output, display_output);
}

#[test]
fn boxed_stash_push_all_with_strs() {
    let strs = vec!["error one", "error two", "error three"];
    let mut stash: BoxedStash = BoxedStash::new();
    stash.push_all(strs.iter().copied().collect());
    let errors = stash.consume();
    assert_eq!(errors.len(), 3);
    assert_eq!(errors[0].to_string(), "error one");
    assert_eq!(errors[1].to_string(), "error two");
    assert_eq!(errors[2].to_string(), "error three");
}

#[test]
fn summary_returns_raw_summary_with_placeholder() {
    let errors: Vec<_> = vec!["first error".into(), "second error".into()];
    let error_list = BoxedErrors::new("Found {count} problems".into(), errors);
    assert_eq!("Found 2 problems", error_list.summary());
}

#[test]
fn summary_returns_raw_summary_without_placeholder() {
    let errors: Vec<BoxedError> = vec![Box::new(std::io::Error::new(
        std::io::ErrorKind::Other,
        "IO error",
    ))];
    let error_list = BoxedErrors::new("Some summary text".into(), errors);
    assert_eq!("Some summary text", error_list.summary());
}

#[test]
fn extend_with_str_iterator() {
    let strs = vec!["error a", "error b", "error c"];
    let mut stash: BoxedStash = BoxedStash::new();
    stash.push("initial error");
    stash.extend(strs.iter().copied().collect());
    let errors = stash.consume();
    assert_eq!(errors.len(), 4);
    assert_eq!(errors[0].to_string(), "initial error");
    assert_eq!(errors[1].to_string(), "error a");
    assert_eq!(errors[2].to_string(), "error b");
    assert_eq!(errors[3].to_string(), "error c");
}

#[test]
fn push_all_with_str_iterator() {
    let strs = vec!["error x", "error y", "error z"];
    let mut stash: BoxedStash = BoxedStash::new();
    stash.push("first error");
    stash.push_all(strs.iter().copied().collect());
    let errors = stash.consume();
    assert_eq!(errors.len(), 4);
    assert_eq!(errors[0].to_string(), "first error");
    assert_eq!(errors[1].to_string(), "error x");
    assert_eq!(errors[2].to_string(), "error y");
    assert_eq!(errors[3].to_string(), "error z");
}

#[test]
fn boxed_stash_summary_with_capturing_closure() {
    let prefix = "errors detected";
    let mut stash: BoxedStash = BoxedStash::new();
    stash.set_summary_with(move || prefix.to_ascii_uppercase() + ": {count}");
    stash.push("boom");

    let errors = stash.consume();
    assert_eq!(1, errors.len());
    assert_eq!("ERRORS DETECTED: 1", errors.summary());

    let summary_after = stash.push("test").to_error().unwrap().summary();

    assert_eq!("Encountered 1 errors:", summary_after);
}

#[test]
fn check_fmt_adds_formatted_error_when_false() {
    let mut stash: BoxedStash = BoxedStash::new();
    let value = 42;
    stash.check_fmt(value > 100, || {
        format!("value {} is not greater than 100", value)
    });
    let errors = stash.consume();
    assert_eq!(1, errors.len());
    assert_eq!("value 42 is not greater than 100", errors[0].to_string());
}

#[test]
fn check_fmt_noop_when_true() {
    let mut stash: BoxedStash = BoxedStash::new();
    let value = 200;
    stash.check_fmt(value > 100, || {
        format!("value {} is not greater than 100", value)
    });
    assert_eq!(0, stash.len());
}

#[test]
fn new_sets_summary_and_errors() {
    let errors = vec!["err1", "err2"];

    let list = ErrorList::new("Found {count} issues".into(), errors.clone());

    assert_eq!(list.summary(), "Found 2 issues");
    assert_eq!(&*list, errors.as_slice());
}
