use std::fmt::Display;

use errorstash::{ErrorList, ErrorStash, ErrorStashInternal, StashErrorsIter, StashableResult, TypedStash};

#[derive(Debug)]
struct CustomError {
    msg: String,
}

impl Display for CustomError {
    fn fmt(&self, f: &mut std::fmt::Formatter<'_>) -> std::fmt::Result {
        f.write_str(&format!("{}", self.msg))
    }
}

impl CustomError {
    fn new(msg: String) -> Self {
        Self { msg }
    }
}

impl std::error::Error for CustomError {}

fn oops(msg: &str) -> CustomError {
    CustomError::new(msg.to_string())
}

type AppError = CustomError;

#[derive(Debug)]
struct StringErrorWrapper {
    errors: Vec<String>,
}

impl std::fmt::Display for StringErrorWrapper {
    fn fmt(&self, f: &mut std::fmt::Formatter<'_>) -> std::fmt::Result {
        for err in &self.errors {
            f.write_str(&format!("- {}\n", err))?;
        }
        Ok(())
    }
}

impl std::error::Error for StringErrorWrapper {}

impl StringErrorWrapper {
    fn new(errors: Vec<String>) -> Self {
        Self { errors }
    }
}

#[derive(Debug)]
struct WrapperError {
    errors: Vec<AppError>,
}

impl Display for WrapperError {
    fn fmt(&self, f: &mut std::fmt::Formatter<'_>) -> std::fmt::Result {
        for error in &self.errors {
            f.write_str(&format!("- {}\n", error))?;
        }
        Ok(())
    }
}

impl WrapperError {
    fn new(errors: Vec<AppError>) -> Self {
        Self { errors }
    }
}

impl std::error::Error for WrapperError {}

#[test]
fn returns_ok_when_no_errors() {
    let mut collector: TypedStash<_, _> = TypedStash::with_constructor(WrapperError::new);
    let result = collector.fail_unless_empty();
    assert!(result.is_ok());
}

#[test]
fn returns_err_with_collected_errors() {
    let mut collector = TypedStash::new();

    collector.push(oops("first"));
    collector.push(oops("second"));

    let result = collector.fail_unless_empty();

    let messages = result
        .unwrap_err()
        .into_iter()
        .map(|e| e.to_string())
        .collect::<Vec<_>>();

    assert_eq!(messages, vec!["first", "second"]);
}

#[test]
fn is_empty_returns_true_for_new_stash() {
    let collector = TypedStash::<String, _>::new();
    assert!(collector.is_empty());
}

#[test]
fn is_empty_returns_false_after_adding_error() {
    let mut collector = TypedStash::new();
    collector.push(oops("error"));
    assert!(!collector.is_empty());
}

#[test]
fn errors_returns_empty_slice_initially() {
    let collector = TypedStash::<String, _>::new();
    assert_eq!(collector.len(), 0);
}

#[test]
fn errors_returns_slice_of_collected_errors() {
    let mut collector: TypedStash<_, _> = TypedStash::with_constructor(WrapperError::new);
    collector.push(oops("first"));
    collector.push(oops("second"));

    let errors = collector.errors();
    assert_eq!(errors.len(), 2);
    assert_eq!(errors[0].to_string(), "first");
    assert_eq!(errors[1].to_string(), "second");
}

#[test]
fn push_adds_error_and_returns_self() {
    let mut collector = TypedStash::new();
    let result = collector.push(oops("test error"));

    assert!(!result.is_empty());
    let errors = result.to_error().unwrap();
    assert_eq!(errors.len(), 1);
    assert_eq!(errors[0].to_string(), "test error");
}

#[test]
fn push_can_be_chained() {
    let mut collector: TypedStash<_, _> = TypedStash::with_constructor(WrapperError::new);
    collector
        .push(oops("first"))
        .push(oops("second"))
        .push(oops("third"));

    let errors = collector.to_error().unwrap().errors;
    assert_eq!(errors.len(), 3);
    assert_eq!(errors[0].to_string(), "first");
    assert_eq!(errors[1].to_string(), "second");
    assert_eq!(errors[2].to_string(), "third");
}

#[test]
fn to_result_returns_ok_when_no_errors() {
    let collector: TypedStash<_, _> = TypedStash::with_constructor(WrapperError::new);
    let result = collector.to_result(|| "success");

    assert!(result.is_ok());
    assert_eq!(result.unwrap(), "success");
}

#[test]
fn to_result_returns_err_when_errors_exist() {
    let mut collector: TypedStash<_, _> = TypedStash::with_constructor(WrapperError::new);
    collector.push(oops("error1"));
    collector.push(oops("error2"));

    let result = collector.to_result(|| "success");

    assert!(result.is_err());
    let wrapper_error = result.unwrap_err();
    assert_eq!(wrapper_error.errors.len(), 2);
    assert_eq!(wrapper_error.errors[0].to_string(), "error1");
    assert_eq!(wrapper_error.errors[1].to_string(), "error2");
}

#[test]
fn to_error_returns_none_when_no_errors() {
    let collector: TypedStash<_, _> = TypedStash::with_constructor(WrapperError::new);
    let result = collector.to_error();

    assert!(result.is_none());
}

#[test]
fn to_error_returns_some_when_errors_exist() {
    let mut collector: TypedStash<_, _> = TypedStash::with_constructor(WrapperError::new);
    collector.push(oops("error1"));
    collector.push(oops("error2"));

    let result = collector.to_error();

    assert!(result.is_some());
    let wrapper_error = result.unwrap();
    assert_eq!(wrapper_error.errors.len(), 2);
    assert_eq!(wrapper_error.errors[0].to_string(), "error1");
    assert_eq!(wrapper_error.errors[1].to_string(), "error2");
}

#[test]
fn ok_returns_some_when_no_errors() {
    let collector: TypedStash<_, _> = TypedStash::with_constructor(WrapperError::new);
    assert_eq!(collector.ok(), Some(()));
}

#[test]
fn ok_returns_none_when_errors_exist() {
    let mut collector: TypedStash<_, _> = TypedStash::with_constructor(WrapperError::new);
    collector.push(oops("an error"));
    assert_eq!(collector.ok(), None);
}

#[test]
fn fail_now_returns_err_and_consumes_errors_when_empty() {
    let mut collector: TypedStash<_, _> = TypedStash::with_constructor(WrapperError::new);

    let res = collector.fail_now(oops("single"));

    assert!(res.is_err());
    let wrapper = res.unwrap_err();
    assert_eq!(wrapper.errors.len(), 1);
    assert_eq!(wrapper.errors[0].to_string(), "single");

    assert!(collector.errors().is_empty());
}

#[test]
fn fail_now_returns_err_and_consumes_prior_errors() {
    let mut collector: TypedStash<_, _> = TypedStash::with_constructor(WrapperError::new);
    collector.push(oops("first"));
    collector.push(oops("second"));

    let res = collector.fail_now(oops("third"));

    assert!(res.is_err());
    let wrapper = res.unwrap_err();
    let msgs: Vec<String> = wrapper.errors.into_iter().map(|e| e.to_string()).collect();
    assert_eq!(msgs, vec!["first", "second", "third"]);

    assert!(collector.is_empty());
}

#[test]
fn or_stash_returns_some_for_ok_result() {
    let mut collector: TypedStash<_, _> = TypedStash::with_constructor(WrapperError::new);
    let result: Result<String, AppError> = Ok("success".to_string());

    let value = result.or_stash(&mut collector);

    assert_eq!(value, Some("success".to_string()));
    assert!(collector.is_empty());
}

#[test]
fn or_stash_collects_error_and_returns_none() {
    let mut collector: TypedStash<_, _> = TypedStash::with_constructor(WrapperError::new);
    let result: Result<String, AppError> = Err(oops("test error"));

    let value = result.or_stash(&mut collector);

    assert!(value.is_none());
    assert!(!collector.is_empty());
    assert_eq!(collector.len(), 1);
}

#[test]
fn or_stash_can_collect_multiple_errors() {
    let mut collector: TypedStash<_, _> = TypedStash::with_constructor(WrapperError::new);

    let result1: Result<i32, AppError> = Err(oops("first error"));
    let result2: Result<String, AppError> = Ok("success".to_string());
    let result3: Result<i32, AppError> = Err(oops("second error"));

    let value1 = result1.or_stash(&mut collector);
    let value2 = result2.or_stash(&mut collector);
    let value3 = result3.or_stash(&mut collector);

    assert!(value1.is_none());
    assert_eq!(value2, Some("success".to_string()));
    assert!(value3.is_none());

    assert_eq!(collector.errors().len(), 2);
    assert_eq!(collector.errors()[0].to_string(), "first error");
    assert_eq!(collector.errors()[1].to_string(), "second error");
}

#[test]
fn or_stash_with_iterator_filter_map() {
    let mut collector: TypedStash<_, _> = TypedStash::with_constructor(WrapperError::new);

    let results = vec![
        Ok(1),
        Err(oops("error 1")),
        Ok(2),
        Err(oops("error 2")),
        Ok(3),
    ];

    let values: Vec<i32> = results
        .into_iter()
        .filter_map(|r| r.or_stash(&mut collector))
        .collect();

    assert_eq!(values, vec![1, 2, 3]);
    assert_eq!(collector.errors().len(), 2);
    assert_eq!(collector.errors()[0].to_string(), "error 1");
    assert_eq!(collector.errors()[1].to_string(), "error 2");
}

#[test]
fn or_fail_ok_when_stash_has_prior_errors() {
    let mut stash: TypedStash<AppError, WrapperError> =
        TypedStash::with_constructor(WrapperError::new);

    stash.push(oops("previous"));

    let ok_result: Result<i32, AppError> = Ok(42);
    let ok = ok_result.or_fail(&mut stash);
    assert!(ok.is_ok());
    assert_eq!(ok.unwrap(), 42);

    assert_eq!(stash.len(), 1);
}

#[test]
fn or_fail_err_includes_prior_and_new_error() {
    let mut stash: TypedStash<AppError, WrapperError> =
        TypedStash::with_constructor(WrapperError::new);
    stash.push(oops("previous"));

    let err_result: Result<i32, AppError> = Err(oops("second"));
    let res = err_result.or_fail(&mut stash);
    assert!(res.is_err());

    let wrapper = res.unwrap_err();
    let messages: Vec<String> = wrapper.errors.into_iter().map(|e| e.to_string()).collect();

    assert_eq!(messages, vec!["previous", "second"]);
}

#[test]
fn stash_errors_with_empty_iterator() {
    let mut collector: TypedStash<_, _> = TypedStash::with_constructor(WrapperError::new);
    let results: Vec<Result<i32, AppError>> = vec![];

    let values: Vec<i32> = results.stash_errors(&mut collector).collect();

    assert_eq!(values, Vec::<i32>::new());
    assert!(collector.is_empty());
}

#[test]
fn stash_errors_with_all_ok_values() {
    let mut collector: TypedStash<_, _> = TypedStash::with_constructor(WrapperError::new);
    let results: Vec<Result<_, AppError>> = vec![Ok(1), Ok(2), Ok(3)];

    let values: Vec<i32> = results.stash_errors(&mut collector).collect();

    assert_eq!(values, vec![1, 2, 3]);
    assert!(collector.is_empty());
}

#[test]
fn stash_errors_enables_type_inference() {
    let mut collector = TypedStash::new();
    let results = vec![Ok(1), Ok(2), Err(oops("error")), Ok(3)];
    let mut sum: i32 = 0;
    for result in results {
        let value = result.or_stash(&mut collector);
        if let Some(v) = value {
            sum += v;
        }
    }
    assert_eq!(sum, 6);
    let result = collector.fail_unless_empty();
    assert!(result.is_err());
    let errors = result.unwrap_err();
    assert_eq!(errors.len(), 1);
    assert_eq!(errors[0].to_string(), "error");
}

#[test]
fn stash_errors_with_all_err_values() {
    let mut collector: TypedStash<_, _> = TypedStash::with_constructor(WrapperError::new);
    let results = vec![
        Err(oops("error 1")),
        Err(oops("error 2")),
        Err(oops("error 3")),
    ];

    let values: Vec<i32> = results.stash_errors(&mut collector).collect();

    assert_eq!(values, Vec::<i32>::new());
    assert_eq!(collector.errors().len(), 3);
    assert_eq!(collector.errors()[0].to_string(), "error 1");
    assert_eq!(collector.errors()[1].to_string(), "error 2");
    assert_eq!(collector.errors()[2].to_string(), "error 3");
}

#[test]
fn stash_errors_with_mixed_results() {
    let mut collector: TypedStash<_, _> = TypedStash::with_constructor(WrapperError::new);
    let results = vec![
        Ok(1),
        Err(oops("first error")),
        Ok(2),
        Ok(3),
        Err(oops("second error")),
        Ok(4),
    ];

    let values: Vec<i32> = results.stash_errors(&mut collector).collect();

    assert_eq!(values, vec![1, 2, 3, 4]);
    assert_eq!(collector.errors().len(), 2);
    assert_eq!(collector.errors()[0].to_string(), "first error");
    assert_eq!(collector.errors()[1].to_string(), "second error");
}

#[test]
fn stash_errors_can_be_chained_with_other_iterator_methods() {
    let mut collector: TypedStash<_, _> = TypedStash::with_constructor(WrapperError::new);
    let results = vec![
        Ok(1),
        Err(oops("error")),
        Ok(2),
        Ok(3),
        Err(oops("another error")),
        Ok(4),
    ];

    let values: Vec<i32> = results
        .stash_errors(&mut collector)
        .map(|x| x * 2)
        .filter(|&x| x > 2)
        .collect();

    assert_eq!(values, vec![4, 6, 8]);
    assert_eq!(collector.errors().len(), 2);
}

#[test]
fn push_all_with_empty_iterator() {
    let mut collector: TypedStash<_, _> = TypedStash::with_constructor(WrapperError::new);
    let empty_errors: Vec<AppError> = vec![];

    let result = collector.push_all(empty_errors);

    assert!(result.is_empty());
    assert_eq!(result.errors().len(), 0);
}

#[test]
fn push_all_with_single_error() {
    let mut collector: TypedStash<_, _> = TypedStash::with_constructor(WrapperError::new);
    let errors = vec![oops("single error")];

    collector.push_all(errors);

    assert!(!collector.is_empty());
    assert_eq!(collector.errors().len(), 1);
    assert_eq!(collector.errors()[0].to_string(), "single error");
}

#[test]
fn push_all_with_multiple_errors() {
    let mut collector: TypedStash<_, _> = TypedStash::with_constructor(WrapperError::new);
    let errors = vec![
        oops("first error"),
        oops("second error"),
        oops("third error"),
    ];

    collector.push_all(errors);

    assert!(!collector.is_empty());
    assert_eq!(collector.errors().len(), 3);
    assert_eq!(collector.errors()[0].to_string(), "first error");
    assert_eq!(collector.errors()[1].to_string(), "second error");
    assert_eq!(collector.errors()[2].to_string(), "third error");
}

#[test]
fn push_all_can_be_chained() {
    let mut collector: TypedStash<_, _> = TypedStash::with_constructor(WrapperError::new);

    collector
        .push_all(vec![oops("first"), oops("second")])
        .push_all(vec![oops("third")])
        .push(oops("fourth"));

    assert_eq!(collector.errors().len(), 4);
    assert_eq!(collector.errors()[0].to_string(), "first");
    assert_eq!(collector.errors()[1].to_string(), "second");
    assert_eq!(collector.errors()[2].to_string(), "third");
    assert_eq!(collector.errors()[3].to_string(), "fourth");
}

#[test]
fn push_all_appends_to_existing_errors() {
    let mut collector: TypedStash<_, _> = TypedStash::with_constructor(WrapperError::new);
    collector.push(oops("initial"));

    collector.push_all(vec![oops("added1"), oops("added2")]);

    assert_eq!(collector.errors().len(), 3);
    assert_eq!(collector.errors()[0].to_string(), "initial");
    assert_eq!(collector.errors()[1].to_string(), "added1");
    assert_eq!(collector.errors()[2].to_string(), "added2");
}

#[test]
fn push_all_works_with_different_iterables() {
    let mut collector: TypedStash<_, _> = TypedStash::with_constructor(WrapperError::new);

    // From a Vec
    collector.push_all(vec![oops("from vec")]);

    // From an array
    collector.push_all(Vec::from([oops("from array")]));

    // From an iterator chain
    let more_errors = vec![oops("chained1"), oops("chained2")];
    collector.push_all(more_errors.into_iter().chain(vec![oops("chained3")]).collect());

    assert_eq!(collector.errors().len(), 5);
    assert_eq!(collector.errors()[0].to_string(), "from vec");
    assert_eq!(collector.errors()[1].to_string(), "from array");
    assert_eq!(collector.errors()[2].to_string(), "chained1");
    assert_eq!(collector.errors()[3].to_string(), "chained2");
    assert_eq!(collector.errors()[4].to_string(), "chained3");
}

#[test]
fn extend_appends_errors_via_extend_trait() {
    let mut collector: TypedStash<String, StringErrorWrapper> =
        TypedStash::with_constructor(StringErrorWrapper::new);

    collector.push("initial".to_string());

    collector.extend(vec!["a".to_string(), "b".to_string()]);

    collector.extend(Vec::from(["c".to_string(), "d".to_string()]));

    assert_eq!(collector.errors().len(), 5);
    assert_eq!(collector.errors()[0], "initial");
    assert_eq!(collector.errors()[1], "a");
    assert_eq!(collector.errors()[2], "b");
    assert_eq!(collector.errors()[3], "c");
    assert_eq!(collector.errors()[4], "d");
}

#[test]
fn into_iter_with_empty_stash() {
    let collector: TypedStash<_, _> = TypedStash::with_constructor(WrapperError::new);

    let errors: Vec<AppError> = collector.into_iter().collect();

    assert_eq!(errors.len(), 0);
}

#[test]
fn into_iter_with_multiple_errors() {
    let mut collector: TypedStash<_, _> = TypedStash::with_constructor(WrapperError::new);
    collector.push(oops("first"));
    collector.push(oops("second"));
    collector.push(oops("third"));

    let errors: Vec<String> = collector.into_iter().map(|e| e.to_string()).collect();

    assert_eq!(errors, vec!["first", "second", "third"]);
}

#[test]
fn into_iter_preserves_order() {
    let mut collector: TypedStash<_, _> = TypedStash::with_constructor(WrapperError::new);
    let input_errors = vec![
        oops("error_1"),
        oops("error_2"),
        oops("error_3"),
        oops("error_4"),
        oops("error_5"),
    ];

    for error in input_errors {
        collector.push(error);
    }

    let output_errors: Vec<String> = collector.into_iter().map(|e| e.to_string()).collect();

    assert_eq!(
        output_errors,
        vec!["error_1", "error_2", "error_3", "error_4", "error_5"],
    );
}

#[test]
fn push_all_from_another_error_stash() {
    let mut source_collector: TypedStash<_, _> =
        TypedStash::with_constructor(WrapperError::new);
    source_collector.push(oops("source error 1"));
    source_collector.push(oops("source error 2"));
    source_collector.push(oops("source error 3"));

    let mut target_collector: TypedStash<_, _> =
        TypedStash::with_constructor(WrapperError::new);
    target_collector.push(oops("target initial"));

    target_collector.push_all(source_collector.into_iter().collect());

    assert_eq!(target_collector.errors().len(), 4);
    assert_eq!(target_collector.errors()[0].to_string(), "target initial");
    assert_eq!(target_collector.errors()[1].to_string(), "source error 1");
    assert_eq!(target_collector.errors()[2].to_string(), "source error 2");
    assert_eq!(target_collector.errors()[3].to_string(), "source error 3");

    let result = target_collector.fail_unless_empty();
    assert!(result.is_err());
    let wrapper_error = result.unwrap_err();
    assert_eq!(wrapper_error.errors.len(), 4);
}

#[test]
fn push_all_multiple_error_stashes() {
    let mut stash1: TypedStash<_, _> = TypedStash::with_constructor(WrapperError::new);
    stash1.push(oops("stash1 error"));

    let mut stash2: TypedStash<_, _> = TypedStash::with_constructor(WrapperError::new);
    stash2.push(oops("stash2 error1"));
    stash2.push(oops("stash2 error2"));

    let mut stash3: TypedStash<_, _> = TypedStash::with_constructor(WrapperError::new);
    stash3.push(oops("stash3 error"));

    let mut target: TypedStash<_, _> = TypedStash::with_constructor(WrapperError::new);
    target.push(oops("target initial"));

    target
        .push_all(stash1.into_iter().collect())
        .push_all(stash2.into_iter().collect())
        .push_all(stash3.into_iter().collect());

    assert_eq!(target.errors().len(), 5);
    assert_eq!(target.errors()[0].to_string(), "target initial");
    assert_eq!(target.errors()[1].to_string(), "stash1 error");
    assert_eq!(target.errors()[2].to_string(), "stash2 error1");
    assert_eq!(target.errors()[3].to_string(), "stash2 error2");
    assert_eq!(target.errors()[4].to_string(), "stash3 error");
}

#[test]
fn check_adds_error_only_when_condition_false() {
    let mut collector: TypedStash<_, _> = TypedStash::with_constructor(WrapperError::new);

    collector.check(true, oops("should not be added"));
    assert!(collector.is_empty());

    collector.check(false, oops("was added"));
    assert!(!collector.is_empty());
    assert_eq!(collector.errors().len(), 1);
    assert_eq!(collector.errors()[0].to_string(), "was added");

    let res = collector.fail_unless_empty();
    assert!(res.is_err());
    let wrapper = res.unwrap_err();
    assert_eq!(wrapper.errors.len(), 1);
    assert!(collector.is_empty());
}

#[test]
fn new_initializes_with_empty_errors() {
    let stash: TypedStash<String, ErrorList<String>> = TypedStash::new();

    assert!(stash.is_empty());

    let maybe_err: Option<ErrorList<String>> = stash.into();
    assert!(maybe_err.is_none());
}

#[test]
fn new_initializes_with_default_summary() {
    let errlist = TypedStash::new()
        .push("error one")
        .push("error two")
        .to_error()
        .unwrap();

    let summary = errlist.summary();
    assert_eq!(summary, "Encountered 2 errors:");
    assert_eq!(
        "Encountered 2 errors:\n- error one\n- error two\n",
        errlist.to_string()
    );
}

#[test]
fn with_summary_uses_provided_summary_and_counts_errors() {
    let errlist = TypedStash::with_summary("Found {count} hiccups:")
        .push("one")
        .push("two")
        .to_error()
        .unwrap();

    let summary = errlist.summary();
    assert_eq!(summary, "Found 2 hiccups:");
    assert!(errlist.to_string().starts_with("Found 2 hiccups:\n"));
}

#[derive(Debug)]
struct ChildError(String);

impl Display for ChildError {
    fn fmt(&self, f: &mut std::fmt::Formatter<'_>) -> std::fmt::Result {
        f.write_str(&format!("Child error: {}", self.0))
    }
}

impl std::error::Error for ChildError {}

#[test]
fn thiserr_child_error() {
    let child = ChildError("something went wrong".to_string());

    let wrapper = TypedStash::new().push(child).to_error().unwrap();
    assert_eq!(wrapper.len(), 1);
    assert_eq!(wrapper[0].to_string(), "Child error: something went wrong");
}

#[derive(Debug)]
struct Wrapper(Vec<String>);

impl Display for Wrapper {
    fn fmt(&self, f: &mut std::fmt::Formatter<'_>) -> std::fmt::Result {
        f.write_str(&format!("Wrapper for {} errors (first error: {:?})", self.0.len(), self.0.first()))
    }
}

impl std::error::Error for Wrapper {}

impl Wrapper {
    fn new(errors: Vec<String>) -> Self {
        Self(errors)
    }
}

#[test]
fn thiserror_wrapper_error() {
    let mut stash: TypedStash<String, Wrapper> = TypedStash::with_constructor(Wrapper::new);
    stash.push("first issue".to_string());
    stash.push("second issue".to_string());

    let wrapper = stash.to_error().unwrap();
    assert_eq!(wrapper.0.len(), 2);
    let first_error = &wrapper.0[0];
    assert!(first_error.contains("first issue"));
}

#[test]
fn anyhow_child_error() {
    let mut stash: TypedStash<anyhow::Error, ErrorList<anyhow::Error>> = TypedStash::new();

    stash.push(anyhow::Error::msg("downstream failure"));

    let errlist = stash.to_error().unwrap();
    assert_eq!(errlist.len(), 1);
    let msgs: Vec<String> = errlist.into_iter().map(|e| e.to_string()).collect();
    assert_eq!(msgs, vec!["downstream failure"]);
}

#[test]
fn eyre_child_error() {
    let mut stash: TypedStash<eyre::Report, ErrorList<eyre::Report>> = TypedStash::new();

    stash.push(eyre::Report::msg("downstream failure"));

    let errlist = stash.to_error().unwrap();
    assert_eq!(errlist.len(), 1);
    let msgs: Vec<String> = errlist.into_iter().map(|e| e.to_string()).collect();
    assert_eq!(msgs, vec!["downstream failure"]);
}
