use std::borrow::Cow;

use errorstash::{
    BoxedStash, ErrorList, ErrorStash, ErrorStashInternal, StashableResult, StringError,
    StringStash,
};

#[test]
fn string_stash_basic_use() {
    let mut stash = StringStash::new();
    stash.set_summary("Found {count} errors");
    stash.push("first error");
    stash.push("Second error".to_string());

    let errors = stash.fail_now(42).unwrap_err();
    assert_eq!(3, errors.len());
    assert_eq!("first error", &*errors[0]);
    assert_eq!("Second error", &*errors[1]);
    assert_eq!("42", &*errors[2]);
    assert_eq!("Found 3 errors", errors.summary());
}

#[test]
fn string_stash_display_with_count_replacement() {
    let mut stash = StringStash::with_summary("Multiple errors occurred: {count} issues found");
    stash.push("IO error occurred");
    stash.push("Custom error occurred");

    let error_list = stash.to_error().unwrap();
    let display_output = error_list.to_string();
    let expected_output =
        "Multiple errors occurred: 2 issues found\n- IO error occurred\n- Custom error occurred\n";
    assert_eq!(expected_output, display_output);
}

#[test]
fn string_stash_push_all_with_strs() {
    let strs = ["error one", "error two", "error three"];
    let mut stash = StringStash::new();
    stash.push_all(strs.iter().copied().collect());
    let errors = stash.consume();
    assert_eq!(errors.len(), 3);
    assert_eq!("error one", &*errors[0]);
    assert_eq!("error two", &*errors[1]);
    assert_eq!("error three", &*errors[2]);
}

#[test]
fn string_stash_summary_with_capturing_closure() {
    let prefix = "errors detected";
    let mut stash = StringStash::new();
    stash.set_summary_with(move || prefix.to_ascii_uppercase() + ": {count}");
    stash.push("boom");

    let errors = stash.consume();
    assert_eq!(1, errors.len());
    assert_eq!("ERRORS DETECTED: 1", errors.summary());
}

#[test]
fn check_adds_error_when_false() {
    let mut stash = StringStash::new();
    stash.check(false, "should be added");
    stash.check(true, "should not be added");
    assert_eq!(1, stash.len());
    assert_eq!("should be added", &*stash.consume()[0]);
}

#[test]
fn extend_and_into_iterator() {
    let mut stash = StringStash::new();
    stash.extend(vec!["error 1", "error 2"]);
    assert_eq!(stash.len(), 2);
    let collected: Vec<StringError> = stash.into_iter().collect();
    assert_eq!(
        collected,
        vec![
            StringError::from("error 1".to_string()),
            StringError::from("error 2".to_string())
        ]
    );
}

#[test]
fn or_stash_simple_error() {
    let mut stash = StringStash::new();
    let result: Result<i32, &str> = Err("an error occurred");
    let value = result.or_stash(&mut stash);
    assert!(value.is_none());
    assert_eq!(1, stash.len());
    assert_eq!("an error occurred", &*stash.consume()[0]);
}

#[test]
fn or_stash_with_string_error() {
    let mut stash = StringStash::new();
    let result: Result<i32, StringError> = Err(StringError::from("string error".to_string()));
    let value = result.or_stash(&mut stash);
    assert!(value.is_none());
    assert_eq!(1, stash.len());
    assert_eq!("string error", &*stash.consume()[0]);
}

#[test]
fn or_stash_with_errorlist() {
    let mut target_stash = StringStash::new();
    let source_errors = ErrorList::new(
        "summary".into(),
        vec![
            StringError::from("error A".to_string()),
            StringError::from("error B".to_string()),
        ],
    );
    let err_value: Result<i32, ErrorList<StringError>> = Err(source_errors);

    let value = err_value.or_stash(&mut target_stash);
    assert!(value.is_none());
    assert_eq!(2, target_stash.len());
    let errors = target_stash.consume();
    assert_eq!("error A", &*errors[0]);
    assert_eq!("error B", &*errors[1]);
}

#[test]
fn or_stash_with_anyhow_error() {
    let mut stash = StringStash::new();
    let result: Result<i32, anyhow::Error> = Err(anyhow::Error::msg("anyhow error message"));
    let value = result.or_stash(&mut stash);
    assert!(value.is_none());
    assert_eq!(1, stash.len());
    assert_eq!("anyhow error message", &*stash.consume()[0]);
}

#[test]
fn or_stash_with_boxed_error_list() {
    let mut target_stash = StringStash::new();
    let mut source_stash: BoxedStash = BoxedStash::new();
    source_stash.push("boxed err 1");
    source_stash.push("boxed err 2");
    let source_errors = source_stash.to_error().unwrap();
    let err_value: Result<i32, ErrorList<errorstash::BoxedError>> = Err(source_errors);

    let value = err_value.or_stash(&mut target_stash);
    assert!(value.is_none());
    assert_eq!(2, target_stash.len());
    let errors = target_stash.consume();
    assert_eq!("boxed err 1", &*errors[0]);
    assert_eq!("boxed err 2", &*errors[1]);
}

#[test]
fn empty_stash_behavior() {
    let stash = StringStash::new();
    assert!(stash.is_empty());
    assert_eq!(stash.len(), 0);

    let error = stash.to_error();
    assert!(error.is_none());

    let stash2 = StringStash::new();
    let result = stash2.to_result(|| "success");
    assert!(result.is_ok());
    assert_eq!(result.unwrap(), "success");

    let mut stash3 = StringStash::new();
    let res = stash3.fail_unless_empty();
    assert!(res.is_ok());
}

#[test]
fn string_error_reflection_optimization() {
    let literal = "test error literal";
    let err_literal = StringError::from(literal);
    assert!(err_literal.is_borrowed());
    assert_eq!(&*err_literal, literal);

    let owned = "test error owned".to_string();
    let err_owned = StringError::from(owned);
    assert!(!err_owned.is_borrowed());
    assert_eq!(&*err_owned, "test error owned");

    let cow_borrowed: Cow<'static, str> = Cow::Borrowed("cow borrowed");
    let err_cow_borrowed = StringError::from(cow_borrowed);
    assert!(err_cow_borrowed.is_borrowed());
    assert_eq!(&*err_cow_borrowed, "cow borrowed");

    let self_err = StringError::from(StringError::from("nested"));
    assert!(self_err.is_borrowed());
    assert_eq!(&*self_err, "nested");
}

#[test]
fn string_error_from_formats_other_values() {
    let number = StringError::from(42u32);
    assert!(!number.is_borrowed());
    assert_eq!("42", number.as_str());
    let owned_cow: Cow<'static, str> = Cow::Owned("owned cow".to_string());
    let from_cow = StringError::from(owned_cow);
    assert!(!from_cow.is_borrowed());
    assert_eq!("owned cow", from_cow.as_str());
}

#[test]
fn pushed_literals_stay_borrowed() {
    let mut stash = StringStash::new();
    stash.push("literal").push("owned".to_string()).push(7);
    let errors: Vec<StringError> = stash.into_iter().collect();
    assert!(errors[0].is_borrowed());
    assert!(!errors[1].is_borrowed());
    assert!(!errors[2].is_borrowed());
    assert_eq!("7", errors[2].as_str());
}

#[test]
fn or_stash_with_other_error_list_keeps_it_whole() {
    let mut target = StringStash::new();
    let source: ErrorList<String> = ErrorList::new(
        "Failed {count} steps".into(),
        vec!["step one".to_string(), "step two".to_string()],
    );
    let err_value: Result<i32, ErrorList<String>> = Err(source);
    assert!(err_value.or_stash(&mut target).is_none());
    assert_eq!(1, target.len());
    let errors = target.consume();
    assert_eq!("Failed 2 steps\n- step one\n- step two\n", &*errors[0]);
}

#[test]
fn or_fail_with_other_error_list_keeps_it_whole() {
    let mut target = StringStash::with_summary("{count} problems");
    target.push("first");
    let source: ErrorList<&'static str> = ErrorList::new("inner".into(), vec!["x"]);
    let err_value: Result<(), ErrorList<&'static str>> = Err(source);
    let failed = err_value.or_fail(&mut target).unwrap_err();
    assert_eq!(2, failed.len());
    assert_eq!("inner\n- x\n", &*failed[1]);
    assert_eq!("2 problems\n- first\n- inner\n- x\n\n", failed.to_string());
}

#[test]
fn debug_output_matches_the_error_types() {
    let e = StringError::from("quoted \"text\"");
    assert_eq!("\"quoted \\\"text\\\"\"", format!("{:?}", e));

    let list: ErrorList<StringError> =
        ErrorList::new("Found {count} errors".into(), vec![StringError::from("a")]);
    assert_eq!(
        "ErrorList { summary: \"Found {count} errors\", errors: [\"a\"] }",
        format!("{:?}", list)
    );

    let mut typed: errorstash::TypedStash<String, ErrorList<String>> = errorstash::TypedStash::new();
    typed.push("t".to_string());
    assert_eq!("TypedStash { errors: [\"t\"] }", format!("{:?}", typed));

    let dynamic = errorstash::ErrorSummary::new_dynamic(|| "line".to_string());
    assert_eq!("Dynamic(\"<closure>\", 0)", format!("{:?}", dynamic));
    let fixed = errorstash::ErrorSummary::new_static("fixed");
    assert_eq!("Static(\"fixed\", 0)", format!("{:?}", fixed));
}
