//! Utilities for collecting multiple errors and emitting them as a single
//! wrapper error.
//!
//! Error stashes are useful when you want to perform multiple operations that
//! may independently fail, and you want to collect all errors that occur and
//! return them together, rather than failing fast on the first error.
//!
//! Three stash types are provided:
//! - [`BoxedStash`]: collects errors convertible into a boxed error, and emits
//!   them in an [`ErrorList`] under a summary line.
//! - [`StringStash`]: collects the text of anything displayable as a
//!   [`StringError`], and emits an [`ErrorList`] of them.
//! - [`TypedStash`]: collects child errors of one type, and emits them in an
//!   [`ErrorList`] or in any wrapper type made by a constructor.
//!
//! All of them implement the [`ErrorStash`] trait. [`StashableResult`] adds
//! `or_stash` and `or_fail` to `Result`, and [`StashErrorsIter`] stashes the
//! errors of a sequence of results.
pub mod boxed_stash;
pub mod error_list;
pub mod error_stash;
pub mod laws;
pub mod string_stash;
pub mod summary_text;
pub mod typed_stash;

pub use boxed_stash::{BoxedError, BoxedErrors, BoxedStash};
pub use error_list::{DynamicSummary, ErrorList, ErrorSummary, ErrorText, SummarySource, DEFAULT_SUMMARY};
pub use error_stash::{ErrorStash, ErrorStashInternal, StashErrorsIter, StashableResult};
pub use string_stash::{StringError, StringStash};
pub use typed_stash::{ListBuilder, TypedStash, WrapperBuilder, WrapperConstructor};
