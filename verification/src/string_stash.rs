//! `StringStash`: a stash that keeps the text of anything displayable as a
//! `StringError`.
use std::borrow::Cow;
use vstd::prelude::*;
use vstd::std_specs::convert::FromSpecImpl;
use vstd::std_specs::cmp::PartialEqSpecImpl;
use vstd::string::StrSliceExecFns;
use vstd::string::StringExecFns;

use crate::boxed_stash::default_summary;
use crate::error_list::copy_cow;
use crate::error_list::cow_str;
use crate::error_list::ErrorList;
use crate::error_list::ErrorSummary;
use crate::error_list::ErrorText;
use crate::error_stash::ErrorStash;
use crate::error_stash::ErrorStashInternal;
use crate::error_stash::StashableResult;
use crate::summary_text::decimal;
use crate::summary_text::push_decimal;

verus! {

/// An error that is its text.
#[derive(Eq)]
pub struct StringError(Cow<'static, str>);

impl std::fmt::Debug for StringError {
    /// Writes the text in its debug form (quoted and escaped), through the
    /// `std::fmt::Debug` implementation of `Cow<str>`; no contract is claimed
    /// of it.
    #[verifier::external_body]
    fn fmt(&self, f: &mut std::fmt::Formatter<'_>) -> std::fmt::Result {
        std::fmt::Debug::fmt(&self.0, f)
    }
}

impl View for StringError {
    type V = Seq<char>;

    closed spec fn view(&self) -> Seq<char> {
        self.0@
    }
}

impl Clone for StringError {
    fn clone(&self) -> (e: Self)
        ensures
            e@ == self@,
            e.borrowed() == self.borrowed(),
    {
        StringError(copy_cow(&self.0))
    }
}

impl std::ops::Deref for StringError {
    type Target = str;

    fn deref(&self) -> (s: &str)
        ensures
            s@ == self@,
    {
        cow_str(&self.0)
    }
}

/// Types whose values read as a text that a spec function gives: the string
/// types a `StringError` can hold without formatting, and `StringError`
/// itself.
pub(crate) trait KnownText: 'static {
    /// The text this value reads as.
    spec fn known_text(&self) -> Seq<char>;
}

impl KnownText for &'static str {
    open spec fn known_text(&self) -> Seq<char> {
        (*self)@
    }
}

impl KnownText for String {
    open spec fn known_text(&self) -> Seq<char> {
        self@
    }
}

impl KnownText for Cow<'static, str> {
    open spec fn known_text(&self) -> Seq<char> {
        self@
    }
}

impl KnownText for StringError {
    open spec fn known_text(&self) -> Seq<char> {
        self@
    }
}

/// `<dyn std::any::Any>::downcast_ref`: `Some` exactly when the type of
/// `value` is `U`, and then the reference is `value` itself seen as a `U`. So
/// a `Some` means that `value` reads as that `U`'s text: a `str`, `String` or
/// `Cow<str>` displays as its characters, and a `StringError` is its text.
/// Which types match is not stated: Verus has no notion of type identity.
#[verifier::external_body]
fn downcast_ref<T: ErrorText + 'static, U: KnownText>(value: &T) -> (r: Option<&U>)
    ensures
        r matches Some(u) ==> value.shows(u.known_text()),
{
    <dyn std::any::Any>::downcast_ref::<U>(value)
}

impl StringError {
    /// Creates a `StringError` holding the text of `err`.
    ///
    /// A `&'static str`, a `Cow<'static, str>` or a `StringError` is taken
    /// without formatting, and a borrowed string stays borrowed; a `String`
    /// is copied, also without formatting. Anything else is formatted into
    /// an owned string.
    pub fn from<T: ErrorText + 'static>(err: T) -> (e: Self)
        ensures
            err.shows(e@),
    {
        if let Some(s) = downcast_ref::<T, &'static str>(&err) {
            return StringError(Cow::Borrowed(*s));
        }
        if let Some(s) = downcast_ref::<T, String>(&err) {
            return StringError(Cow::Owned(s.clone()));
        }
        if let Some(c) = downcast_ref::<T, Cow<'static, str>>(&err) {
            return StringError(copy_cow(c));
        }
        if let Some(inner) = downcast_ref::<T, StringError>(&err) {
            return inner.clone();
        }
        StringError(Cow::Owned(err.error_text()))
    }

    /// The text of the error.
    pub fn as_str(&self) -> (s: &str)
        ensures
            s@ == self@,
    {
        cow_str(&self.0)
    }

    /// The text is a borrowed `&'static str` rather than an owned string.
    pub closed spec fn borrowed(&self) -> bool {
        self.0 is Borrowed
    }

    /// Whether the text is a borrowed `&'static str` rather than an owned
    /// string.
    pub fn is_borrowed(&self) -> (b: bool)
        ensures
            b == self.borrowed(),
    {
        match &self.0 {
            Cow::Borrowed(_) => true,
            Cow::Owned(_) => false,
        }
    }
}

/// Whether two strings hold the same characters.
fn same_text(a: &str, b: &str) -> (r: bool)
    ensures
        r == (a@ == b@),
{
    let n = a.unicode_len();
    let m = b.unicode_len();
    if n != m {
        return false;
    }
    let mut i: usize = 0;
    while i < n
        invariant
            n == a@.len(),
            m == b@.len(),
            n == m,
            i <= n,
            forall|k: int| 0 <= k < i ==> a@[k] == b@[k],
        decreases n - i,
    {
        if a.get_char(i) != b.get_char(i) {
            return false;
        }
        i = i + 1;
    }
    assert(a@ =~= b@);
    true
}

impl PartialEq for StringError {
    fn eq(&self, other: &StringError) -> (r: bool) {
        same_text(cow_str(&self.0), cow_str(&other.0))
    }
}

impl PartialEqSpecImpl for StringError {
    open spec fn obeys_eq_spec() -> bool {
        true
    }

    open spec fn eq_spec(&self, other: &StringError) -> bool {
        self@ == other@
    }
}

impl PartialEq<str> for StringError {
    fn eq(&self, other: &str) -> (r: bool) {
        same_text(cow_str(&self.0), other)
    }
}

impl PartialEqSpecImpl<str> for StringError {
    open spec fn obeys_eq_spec() -> bool {
        true
    }

    open spec fn eq_spec(&self, other: &str) -> bool {
        self@ == other@
    }
}

impl<'a> PartialEq<&'a str> for StringError {
    fn eq(&self, other: &&'a str) -> (r: bool) {
        same_text(cow_str(&self.0), *other)
    }
}

impl<'a> PartialEqSpecImpl<&'a str> for StringError {
    open spec fn obeys_eq_spec() -> bool {
        true
    }

    open spec fn eq_spec(&self, other: &&'a str) -> bool {
        self@ == (*other)@
    }
}

impl ErrorText for StringError {
    open spec fn shows(&self, text: Seq<char>) -> bool {
        text == self@
    }

    fn error_text(&self) -> (s: String) {
        String::from_str(cow_str(&self.0))
    }

    open spec fn taken_apart() -> bool {
        true
    }

    fn is_taken_apart() -> (b: bool) {
        true
    }
}

impl From<String> for StringError {
    fn from(s: String) -> (e: Self)
        ensures
            e@ == s@,
            !e.borrowed(),
    {
        StringError(Cow::Owned(s))
    }
}

impl FromSpecImpl<String> for StringError {
    open spec fn obeys_from_spec() -> bool {
        true
    }

    closed spec fn from_spec(s: String) -> StringError {
        StringError(Cow::Owned(s))
    }
}

impl From<&'static str> for StringError {
    fn from(s: &'static str) -> (e: Self)
        ensures
            e@ == s@,
            e.borrowed(),
    {
        StringError(Cow::Borrowed(s))
    }
}

impl FromSpecImpl<&'static str> for StringError {
    open spec fn obeys_from_spec() -> bool {
        true
    }

    closed spec fn from_spec(s: &'static str) -> StringError {
        StringError(Cow::Borrowed(s))
    }
}

impl From<Cow<'static, str>> for StringError {
    fn from(s: Cow<'static, str>) -> (e: Self)
        ensures
            e@ == s@,
            e.borrowed() == (s is Borrowed),
    {
        StringError(s)
    }
}

impl FromSpecImpl<Cow<'static, str>> for StringError {
    open spec fn obeys_from_spec() -> bool {
        true
    }

    closed spec fn from_spec(s: Cow<'static, str>) -> StringError {
        StringError(s)
    }
}

impl From<StringError> for String {
    fn from(err: StringError) -> (s: String)
        ensures
            s@ == err@,
    {
        match err.0 {
            Cow::Borrowed(b) => String::from_str(b),
            Cow::Owned(o) => o,
        }
    }
}

impl FromSpecImpl<StringError> for String {
    open spec fn obeys_from_spec() -> bool {
        false
    }

    open spec fn from_spec(err: StringError) -> String {
        vstd::pervasive::arbitrary()
    }
}

/// Converting a `String` or a `&'static str` into a `StringError` keeps its
/// text.
pub proof fn law_string_error_keeps_text(s: String, t: &'static str)
    ensures
        <StringError as vstd::std_specs::convert::FromSpec<String>>::from_spec(s)@ == s@,
        <StringError as vstd::std_specs::convert::FromSpec<&'static str>>::from_spec(t)@ == t@,
{
}

/// An error stash that accepts anything that has a text (anything displayable,
/// or a `StringError`) and keeps that text as a
/// [`StringError`], producing an [`ErrorList<StringError>`] under a summary
/// line. The terminal methods leave the stash empty and reset its summary
/// line to the default one.
#[derive(Debug)]
pub struct StringStash {
    summary: ErrorSummary,
    errors: Vec<StringError>,
}

impl StringStash {
    /// The summary line the stash gives its wrapper error.
    pub closed spec fn summary_spec(&self) -> ErrorSummary {
        self.summary
    }
}

impl ErrorStashInternal<StringError, ErrorList<StringError>> for StringStash {
    closed spec fn stashed(&self) -> Seq<StringError> {
        self.errors@
    }

    open spec fn wraps(&self, errors: Seq<StringError>, w: ErrorList<StringError>) -> bool {
        &&& w.items() == errors
        &&& w.summary_spec() == self.summary_spec().recount(errors.len() as usize)
    }

    open spec fn same_config(&self, other: &Self) -> bool {
        self.summary_spec() == other.summary_spec()
    }

    open spec fn drained_from(&self, before: &Self) -> bool {
        &&& self.stashed().len() == 0
        &&& self.summary_spec() == default_summary()
    }

    proof fn lemma_same_config_reflexive(&self) {
    }

    proof fn lemma_same_config_transitive(&self, b: &Self, c: &Self) {
    }

    fn errors(&self) -> (r: &[StringError]) {
        self.errors.as_slice()
    }

    fn mut_errors(&mut self) -> (r: &mut Vec<StringError>) {
        &mut self.errors
    }

    fn consume(&mut self) -> (w: ErrorList<StringError>) {
        let mut errors: Vec<StringError> = Vec::new();
        std::mem::swap(&mut errors, &mut self.errors);
        let mut summary = ErrorSummary::default();
        std::mem::swap(&mut summary, &mut self.summary);
        let count = errors.len();
        ErrorList::new(summary.with_count(count), errors)
    }
}

impl ErrorStash<StringError, ErrorList<StringError>> for StringStash {
    fn to_result<T, F: FnOnce() -> T>(self, closure: F) -> (r: Result<T, ErrorList<StringError>>) {
        let mut stash = self;
        ErrorStashInternal::to_result(&mut stash, closure)
    }

    fn to_error(self) -> (r: Option<ErrorList<StringError>>) {
        let mut stash = self;
        ErrorStashInternal::to_error(&mut stash)
    }
}

impl Default for StringStash {
    fn default() -> (s: Self)
        ensures
            s.stashed().len() == 0,
            s.summary_spec() == default_summary(),
    {
        StringStash { summary: ErrorSummary::default(), errors: Vec::new() }
    }
}

impl StringStash {
    /// Creates a new stash with the default summary line.
    pub fn new() -> (s: Self)
        ensures
            s.stashed().len() == 0,
            s.summary_spec() == default_summary(),
    {
        Self::default()
    }

    /// Creates a new stash with the given summary line.
    pub fn with_summary(summary: &'static str) -> (s: Self)
        ensures
            s.stashed().len() == 0,
            s.summary_spec() == ErrorSummary::Static(Cow::Borrowed(summary), 0),
    {
        let summary = ErrorSummary::new_static(summary);
        StringStash { summary, errors: Vec::new() }
    }

    /// Sets a custom summary line for the wrapper error.
    pub fn set_summary(&mut self, summary: &'static str) -> (r: &mut Self)
        ensures
            r.stashed() == old(self).stashed(),
            r.summary_spec() == ErrorSummary::Static(Cow::Borrowed(summary), 0),
            *final(self) == *final(r),
    {
        let summary = ErrorSummary::new_static(summary);
        self.summary = summary;
        self
    }

    /// Sets a closure that produces the summary line of the wrapper error. The
    /// closure is called each time the summary is rendered.
    pub fn set_summary_with<F>(&mut self, summary_func: F) -> (r: &mut Self)
        where F: Fn() -> String + Send + Sync + 'static,
        requires
            call_requires(summary_func, ()),
        ensures
            r.stashed() == old(self).stashed(),
            r.summary_spec() is Dynamic,
            r.summary_spec().counted() == 0,
            forall|t: Seq<char>|
                #![trigger r.summary_spec().yields(t)]
                r.summary_spec().yields(t) <==> exists|s: String|
                    s@ == t && call_ensures(summary_func, (), s),
            *final(self) == *final(r),
    {
        let summary = ErrorSummary::new_dynamic(summary_func);
        self.summary = summary;
        self
    }

    /// Adds a child error holding the text of `err` to the stash.
    pub fn push<D: ErrorText + 'static>(&mut self, err: D) -> (r: &mut Self)
        ensures
            r.stashed().len() == old(self).stashed().len() + 1,
            r.stashed().drop_last() == old(self).stashed(),
            err.shows(r.stashed().last()@),
            old(self).same_config(r),
            *final(self) == *final(r),
    {
        let e = StringError::from(err);
        self.errors.push(e);
        proof {
            assert(self.errors@.drop_last() =~= old(self).errors@);
        }
        self
    }

    /// Adds child errors holding the texts of `errors` to the stash, in order.
    pub fn push_all<D: ErrorText + 'static>(&mut self, errors: Vec<D>) -> (r: &mut Self)
        ensures
            r.stashed().len() == old(self).stashed().len() + errors@.len(),
            r.stashed().take(old(self).stashed().len() as int) == old(self).stashed(),
            forall|k: int|
                0 <= k < errors@.len() ==> errors@[k].shows(
                    #[trigger] r.stashed()[old(self).stashed().len() + k]@,
                ),
            old(self).same_config(r),
            *final(self) == *final(r),
    {
        self.extend(errors);
        self
    }

    /// If the condition is false, adds a child error holding the text of `e`
    /// to the stash. Otherwise, does nothing.
    pub fn check<D: ErrorText + 'static>(&mut self, condition: bool, e: D) -> (r: &mut Self)
        ensures
            condition ==> r.stashed() == old(self).stashed(),
            !condition ==> {
                &&& r.stashed().len() == old(self).stashed().len() + 1
                &&& r.stashed().drop_last() == old(self).stashed()
                &&& e.shows(r.stashed().last()@)
            },
            old(self).same_config(r),
            *final(self) == *final(r),
    {
        if !condition {
            let err = StringError::from(e);
            self.errors.push(err);
            proof {
                assert(self.errors@.drop_last() =~= old(self).errors@);
            }
        }
        self
    }

    /// Adds an error and immediately returns `Err` with all collected errors,
    /// leaving the stash empty with the default summary line.
    pub fn fail_now<D: ErrorText + 'static>(&mut self, e: D) -> (r: Result<
        (),
        ErrorList<StringError>,
    >)
        ensures
            r is Err,
            exists|err: StringError|
                e.shows(err@) && old(self).wraps(old(self).stashed().push(err), r->Err_0),
            final(self).stashed().len() == 0,
            final(self).drained_from(old(self)),
    {
        let err = StringError::from(e);
        let ghost pushed = err;
        self.errors.push(err);
        let wrapper = self.consume();
        proof {
            assert(old(self).wraps(old(self).stashed().push(pushed), wrapper));
        }
        Err(wrapper)
    }

    /// Adds child errors holding the texts of `items` to the stash, in order.
    pub fn extend<D: ErrorText + 'static>(&mut self, items: Vec<D>)
        ensures
            final(self).stashed().len() == old(self).stashed().len() + items@.len(),
            final(self).stashed().take(old(self).stashed().len() as int) == old(self).stashed(),
            forall|k: int|
                0 <= k < items@.len() ==> items@[k].shows(
                    #[trigger] final(self).stashed()[old(self).stashed().len() + k]@,
                ),
            old(self).same_config(final(self)),
    {
        let ghost start = self.errors@;
        let ghost all = items@;
        let _count: usize = items.len();
        let mut rest = crate::error_stash::reversed(items);
        let mut i: usize = 0;
        while rest.len() > 0
            invariant
                i + rest@.len() == all.len(),
                all.len() <= usize::MAX,
                forall|k: int| 0 <= k < rest@.len() ==> #[trigger] rest@[k] == all[all.len() - 1 - k],
                self.errors@.len() == start.len() + i,
                self.errors@.take(start.len() as int) == start,
                forall|k: int| 0 <= k < i ==> all[k].shows(#[trigger] self.errors@[start.len() + k]@),
                self.summary == old(self).summary,
            decreases rest@.len(),
        {
            let item = rest.pop().unwrap();
            proof {
                assert(item == all[i as int]);
            }
            let e = StringError::from(item);
            self.errors.push(e);
            proof {
                assert(self.errors@.take(start.len() as int) =~= start);
            }
            i = i + 1;
        }
    }
}

impl StringStash {
    /// A short description of the stash: `StringStash with N errors`.
    pub fn to_string(&self) -> (s: String)
        ensures
            s@ == "StringStash with "@ + decimal(self.stashed().len()) + " errors"@,
    {
        let mut s = String::from_str("StringStash with ");
        push_decimal(&mut s, self.errors.len());
        s.append(" errors");
        s
    }
}

impl IntoIterator for StringStash {
    type Item = StringError;

    type IntoIter = std::vec::IntoIter<StringError>;

    fn into_iter(self) -> (it: std::vec::IntoIter<StringError>)
        ensures
            exists|v: Vec<StringError>| v@ == self.stashed() && it == vstd::std_specs::vec::spec_into_iter(v),
    {
        self.errors.into_iter()
    }
}

/// Stashing the error of a `Result` whose error has a text: anything
/// displayable, or a `StringError`.
impl<T, FE: ErrorText + 'static> StashableResult<
    T,
    StringError,
    ErrorList<StringError>,
    StringStash,
> for Result<T, FE> {
    open spec fn success(&self) -> Option<T> {
        match *self {
            Ok(v) => Some(v),
            Err(_) => None,
        }
    }

    open spec fn stashes_as(&self, errors: Seq<StringError>) -> bool {
        match *self {
            Ok(_) => false,
            Err(fe) => errors.len() == 1 && fe.shows(errors[0]@),
        }
    }

    fn or_stash(self, stash: &mut StringStash) -> (r: Option<T>) {
        match self {
            Ok(v) => Some(v),
            Err(fe) => {
                let e = StringError::from(fe);
                let ghost errors = seq![e];
                stash.errors.push(e);
                proof {
                    assert(stash.stashed() =~= old(stash).stashed() + errors);
                    assert(<Self as StashableResult<T, StringError, ErrorList<StringError>, StringStash>>::stashes_as(&self, errors));
                }
                None
            },
        }
    }

    fn or_fail(self, stash: &mut StringStash) -> (r: Result<T, ErrorList<StringError>>) {
        match self {
            Ok(v) => Ok(v),
            Err(fe) => {
                let e = StringError::from(fe);
                let ghost errors = seq![e];
                stash.errors.push(e);
                proof {
                    assert(stash.stashed() =~= old(stash).stashed() + errors);
                }
                let w = stash.consume();
                proof {
                    assert(<Self as StashableResult<T, StringError, ErrorList<StringError>, StringStash>>::stashes_as(&self, errors));
                    assert(old(stash).wraps(old(stash).stashed() + errors, w));
                }
                Err(w)
            },
        }
    }
}

/// The errors of `list`, each kept as a `StringError` holding its text.
fn texts_of<E: ErrorText + 'static>(list: ErrorList<E>) -> (r: Vec<StringError>)
    ensures
        r@.len() == list.items().len(),
        forall|k: int| 0 <= k < r@.len() ==> list.items()[k].shows(#[trigger] r@[k]@),
{
    let ghost all = list.items();
    let items = list.to_vec();
    let mut rest = crate::error_stash::reversed(items);
    let mut out: Vec<StringError> = Vec::new();
    while rest.len() > 0
        invariant
            out@.len() + rest@.len() == all.len(),
            forall|k: int| 0 <= k < rest@.len() ==> #[trigger] rest@[k] == all[all.len() - 1 - k],
            forall|k: int| 0 <= k < out@.len() ==> all[k].shows(#[trigger] out@[k]@),
        decreases rest@.len(),
    {
        let item = rest.pop().unwrap();
        proof {
            assert(item == all[out@.len() as int]);
        }
        out.push(StringError::from(item));
    }
    out
}

/// `<dyn std::any::Any>::is::<BoxedErrors>`: whether the type of `value` is
/// [`crate::BoxedErrors`]. The type argument stands here because verified code
/// cannot name a trait object of more than one trait. Nothing is stated of the
/// answer: Verus has no notion of type identity.
#[verifier::external_body]
fn is_boxed_errors<T: 'static>(value: &T) -> bool {
    <dyn std::any::Any>::is::<crate::boxed_stash::BoxedErrors>(value)
}

/// How the errors of a list are stashed in a `StringStash`: either each
/// child error as its own `StringError` holding its text, the list's summary
/// dropped, or the whole list as one `StringError` holding the list's text.
/// A list of errors that are taken apart (such as `StringError`s) is always
/// stashed child by child.
pub open spec fn stashed_list<E: ErrorText>(list: ErrorList<E>, errors: Seq<StringError>) -> bool {
    let one_by_one = {
        &&& errors.len() == list.items().len()
        &&& forall|k: int| 0 <= k < errors.len() ==> list.items()[k].shows(#[trigger] errors[k]@)
    };
    &&& E::taken_apart() ==> one_by_one
    &&& one_by_one || (errors.len() == 1 && list.renders(errors[0]@))
}

/// The errors to stash for `list`: the children of an
/// `ErrorList<StringError>` or of a [`crate::BoxedErrors`] one by one, any
/// other list as one error holding its whole text.
fn list_errors<E: ErrorText + 'static>(list: ErrorList<E>) -> (r: Vec<StringError>)
    ensures
        stashed_list(list, r@),
{
    if E::is_taken_apart() || is_boxed_errors(&list) {
        texts_of(list)
    } else {
        let text = list.to_string();
        let mut r: Vec<StringError> = Vec::new();
        r.push(StringError(Cow::Owned(text)));
        r
    }
}

/// Stashing the errors of a `Result` whose error is a list of errors. The
/// children of an `ErrorList<StringError>` or of a [`crate::BoxedErrors`] are
/// stashed one by one, each as a `StringError` holding its text, and the
/// list's summary is dropped; any other list is stashed as one `StringError`
/// holding the whole list's text. The element type decides which: the
/// contract states that a list of `StringError`s is taken apart; for
/// `BoxedErrors` it states only the two outcomes, since Verus cannot speak of
/// type identity.
impl<T, E: ErrorText + 'static> StashableResult<
    T,
    StringError,
    ErrorList<StringError>,
    StringStash,
> for Result<T, ErrorList<E>> {
    open spec fn success(&self) -> Option<T> {
        match *self {
            Ok(v) => Some(v),
            Err(_) => None,
        }
    }

    open spec fn stashes_as(&self, errors: Seq<StringError>) -> bool {
        match *self {
            Ok(_) => false,
            Err(list) => stashed_list(list, errors),
        }
    }

    fn or_stash(self, stash: &mut StringStash) -> (r: Option<T>) {
        match self {
            Ok(v) => Some(v),
            Err(list) => {
                let mut texts = list_errors(list);
                let ghost errors = texts@;
                stash.errors.append(&mut texts);
                proof {
                    assert(stash.stashed() =~= old(stash).stashed() + errors);
                    assert(<Self as StashableResult<T, StringError, ErrorList<StringError>, StringStash>>::stashes_as(&self, errors));
                }
                None
            },
        }
    }

    fn or_fail(self, stash: &mut StringStash) -> (r: Result<T, ErrorList<StringError>>) {
        match self {
            Ok(v) => Ok(v),
            Err(list) => {
                let mut texts = list_errors(list);
                let ghost errors = texts@;
                stash.errors.append(&mut texts);
                let w = stash.consume();
                proof {
                    assert(<Self as StashableResult<T, StringError, ErrorList<StringError>, StringStash>>::stashes_as(&self, errors));
                    assert(old(stash).wraps(old(stash).stashed() + errors, w));
                }
                Err(w)
            },
        }
    }
}

} // verus!
