//! The wrapper error type `ErrorList` and the summary line it carries.
use std::borrow::Cow;
use vstd::prelude::*;
use vstd::std_specs::convert::FromSpecImpl;
use vstd::string::StringExecFns;

use crate::summary_text::fill_count;
use crate::summary_text::fill_count_placeholder;

verus! {

/// Makes `std::fmt::Formatter` known, as an opaque type, so that `Debug` can be
/// written by hand for the types that hold closures. Nothing is claimed of it.
#[verifier::external_type_specification]
#[verifier::external_body]
pub struct ExFormatter<'a>(std::fmt::Formatter<'a>);

/// Makes `std::fmt::Error` known, as an opaque type, for the same `Debug`
/// implementations. Nothing is claimed of it.
#[verifier::external_type_specification]
#[verifier::external_body]
pub struct ExFmtError(std::fmt::Error);

/// The summary line used when none was configured.
pub const DEFAULT_SUMMARY: &'static str = "Encountered {count} errors:";

/// Something that produces a summary line each time it is asked for one.
pub trait SummarySource: Send + Sync {
    /// The source may be asked for a summary.
    spec fn ready(&self) -> bool;

    /// `text` is a summary line that the source may produce.
    spec fn yields(&self, text: Seq<char>) -> bool;

    /// Produces a summary line.
    fn render(&self) -> (s: String)
        requires
            self.ready(),
        ensures
            self.yields(s@),
    ;
}

impl<F: Fn() -> String + Send + Sync> SummarySource for F {
    open spec fn ready(&self) -> bool {
        call_requires(*self, ())
    }

    open spec fn yields(&self, text: Seq<char>) -> bool {
        exists|s: String| s@ == text && call_ensures(*self, (), s)
    }

    fn render(&self) -> (s: String) {
        (self)()
    }
}

/// A summary line computed by a closure each time it is needed.
pub struct DynamicSummary {
    source: Box<dyn SummarySource>,
}

impl DynamicSummary {
    #[verifier::type_invariant]
    spec fn source_ready(self) -> bool {
        self.source.ready()
    }

    /// `text` is a summary line that this source may produce.
    pub closed spec fn yields(self, text: Seq<char>) -> bool {
        self.source.yields(text)
    }

    /// Wraps a closure that produces summary lines.
    pub fn new<F: Fn() -> String + Send + Sync + 'static>(summary_func: F) -> (d: Self)
        requires
            call_requires(summary_func, ()),
        ensures
            forall|t: Seq<char>|
                #![trigger d.yields(t)]
                d.yields(t) <==> exists|s: String| s@ == t && call_ensures(summary_func, (), s),
    {
        let source: Box<dyn SummarySource> = Box::new(summary_func);
        DynamicSummary { source }
    }

    /// Asks the closure for a summary line.
    pub fn render(&self) -> (s: String)
        ensures
            self.yields(s@),
    {
        proof {
            use_type_invariant(self);
        }
        self.source.render()
    }
}

impl std::fmt::Debug for DynamicSummary {
    /// Writes `"<closure>"`, quoted as a string's debug form is, through
    /// `std::fmt::Formatter::write_str`; no contract is claimed of it.
    #[verifier::external_body]
    fn fmt(&self, f: &mut std::fmt::Formatter<'_>) -> std::fmt::Result {
        f.write_str("\"<closure>\"")
    }
}

/// A summary message for a collection of errors, with the number of errors it
/// describes.
///
/// The message can be a fixed string or a closure that produces one. Either may
/// hold the placeholder `{count}`, which is replaced by the number of errors
/// when the summary is rendered.
#[derive(Debug)]
pub enum ErrorSummary {
    Static(Cow<'static, str>, usize),
    Dynamic(DynamicSummary, usize),
}

impl ErrorSummary {
    /// The number of errors the summary describes.
    pub open spec fn counted(self) -> usize {
        match self {
            ErrorSummary::Static(_, n) => n,
            ErrorSummary::Dynamic(_, n) => n,
        }
    }

    /// `text` is a summary template (before the count is filled in) that this
    /// summary may produce.
    pub open spec fn yields(self, text: Seq<char>) -> bool {
        match self {
            ErrorSummary::Static(s, _) => text == s@,
            ErrorSummary::Dynamic(d, _) => d.yields(text),
        }
    }

    /// The summary yields at most one template: a fixed line, or a closure
    /// that always returns the same line.
    pub open spec fn single_template(self) -> bool {
        forall|a: Seq<char>, b: Seq<char>| #[trigger] self.yields(a) && #[trigger] self.yields(b) ==> a == b
    }

    /// The summary with its count replaced by `n`.
    pub open spec fn recount(self, n: usize) -> ErrorSummary {
        match self {
            ErrorSummary::Static(s, _) => ErrorSummary::Static(s, n),
            ErrorSummary::Dynamic(d, _) => ErrorSummary::Dynamic(d, n),
        }
    }

    /// A fixed summary line.
    pub fn new_static(summary: &'static str) -> (s: Self)
        ensures
            s == ErrorSummary::Static(Cow::Borrowed(summary), 0),
    {
        ErrorSummary::Static(Cow::Borrowed(summary), 0)
    }

    /// A summary line produced by `summary_func` each time it is rendered.
    pub fn new_dynamic<F: Fn() -> String + Send + Sync + 'static>(summary_func: F) -> (s: Self)
        requires
            call_requires(summary_func, ()),
        ensures
            s is Dynamic,
            s.counted() == 0,
            forall|t: Seq<char>|
                #![trigger s.yields(t)]
                s.yields(t) <==> exists|r: String| r@ == t && call_ensures(summary_func, (), r),
    {
        ErrorSummary::Dynamic(DynamicSummary::new(summary_func), 0)
    }

    /// The number of errors the summary describes.
    pub fn count(&self) -> (n: usize)
        ensures
            n == self.counted(),
    {
        match self {
            ErrorSummary::Static(_, count) => *count,
            ErrorSummary::Dynamic(_, count) => *count,
        }
    }

    /// The summary template, before the count is filled in.
    pub fn as_cow(&self) -> (c: Cow<'static, str>)
        ensures
            self.yields(c@),
    {
        match self {
            ErrorSummary::Static(s, _) => copy_cow(s),
            ErrorSummary::Dynamic(func, _) => Cow::Owned(func.render()),
        }
    }

    /// A fixed copy of this summary: a closure is asked once for its line.
    pub fn freeze(&self) -> (s: Self)
        ensures
            s is Static,
            s.counted() == self.counted(),
            self.yields(s->Static_0@),
    {
        match self {
            ErrorSummary::Static(s, count) => ErrorSummary::Static(copy_cow(s), *count),
            ErrorSummary::Dynamic(f, count) => {
                let s = f.render();
                ErrorSummary::Static(Cow::Owned(s), *count)
            },
        }
    }

    /// The summary with its count replaced by `count`.
    pub fn with_count(self, count: usize) -> (s: Self)
        ensures
            s == self.recount(count),
    {
        match self {
            ErrorSummary::Static(s, _) => ErrorSummary::Static(s, count),
            ErrorSummary::Dynamic(f, _) => ErrorSummary::Dynamic(f, count),
        }
    }

    /// The summary line: the template with its first `{count}` placeholder
    /// replaced by the count.
    pub fn to_string(&self) -> (s: String)
        ensures
            exists|t: Seq<char>| self.yields(t) && s@ == fill_count(t, self.counted() as nat),
    {
        let count = self.count();
        let template = self.as_cow();
        let raw: &str = cow_str(&template);
        fill_count_placeholder(raw, count)
    }
}

/// A copy of a string held in a `Cow`; a borrowed string stays borrowed.
pub(crate) fn copy_cow(c: &Cow<'static, str>) -> (r: Cow<'static, str>)
    ensures
        r@ == c@,
        r is Borrowed <==> c is Borrowed,
{
    match c {
        Cow::Borrowed(s) => Cow::Borrowed(*s),
        Cow::Owned(s) => Cow::Owned(s.clone()),
    }
}

/// The string held in a `Cow`.
pub(crate) fn cow_str<'a>(c: &'a Cow<'static, str>) -> (r: &'a str)
    ensures
        r@ == c@,
{
    match c {
        Cow::Borrowed(s) => *s,
        Cow::Owned(s) => s.as_str(),
    }
}

impl Default for ErrorSummary {
    fn default() -> (s: Self)
        ensures
            s == ErrorSummary::Static(Cow::Borrowed(DEFAULT_SUMMARY), 0),
    {
        ErrorSummary::new_static(DEFAULT_SUMMARY)
    }
}

impl From<&'static str> for ErrorSummary {
    fn from(s: &'static str) -> (r: Self) {
        ErrorSummary::new_static(s)
    }
}

impl FromSpecImpl<&'static str> for ErrorSummary {
    open spec fn obeys_from_spec() -> bool {
        true
    }

    open spec fn from_spec(s: &'static str) -> ErrorSummary {
        ErrorSummary::Static(Cow::Borrowed(s), 0)
    }
}

/// How an error reads when it is listed.
pub trait ErrorText {
    /// `text` is a way this error may read.
    spec fn shows(&self, text: Seq<char>) -> bool;

    /// The text of this error.
    fn error_text(&self) -> (s: String)
        ensures
            self.shows(s@),
    ;

    /// A list of errors of this type, stashed in a `StringStash`, is taken
    /// apart: each error is stashed on its own.
    spec fn taken_apart() -> bool;

    /// Whether a list of errors of this type, stashed in a `StringStash`, is
    /// taken apart.
    fn is_taken_apart() -> (b: bool)
        ensures
            b == Self::taken_apart(),
    ;
}

impl<T: std::fmt::Display + ?Sized> ErrorText for T {
    open spec fn shows(&self, text: Seq<char>) -> bool {
        exists|s: String| s@ == text && vstd::string::to_string_from_display_ensures::<T>(self, s)
    }

    fn error_text(&self) -> (s: String) {
        self.to_string()
    }

    open spec fn taken_apart() -> bool {
        false
    }

    fn is_taken_apart() -> (b: bool) {
        false
    }
}

/// The characters `- `, which start each listed error.
pub open spec fn bullet() -> Seq<char> {
    seq!['-', ' ']
}

/// The listed errors, one per line, each line starting with `- `.
pub open spec fn bullet_lines(lines: Seq<Seq<char>>) -> Seq<char>
    decreases lines.len(),
{
    if lines.len() == 0 {
        Seq::empty()
    } else {
        bullet_lines(lines.drop_last()) + bullet() + lines.last() + seq!['\n']
    }
}

/// The full text of an error list: the summary line, then one line per error.
pub open spec fn list_text(summary: Seq<char>, lines: Seq<Seq<char>>) -> Seq<char> {
    summary + seq!['\n'] + bullet_lines(lines)
}

/// A collection of errors, along with a summary message.
pub struct ErrorList<T> {
    summary: ErrorSummary,
    errors: Vec<T>,
}

impl<T> ErrorList<T> {
    /// The errors in the list, in order.
    pub closed spec fn items(&self) -> Seq<T> {
        self.errors@
    }

    /// The summary of the list.
    pub closed spec fn summary_spec(&self) -> ErrorSummary {
        self.summary
    }

    /// `line` is a summary line this list may render: a template its summary
    /// may yield, with the count filled in.
    pub open spec fn summary_line(&self, line: Seq<char>) -> bool {
        exists|t: Seq<char>|
            self.summary_spec().yields(t) && line == fill_count(t, self.summary_spec().counted() as nat)
    }

    /// This list holds `errors`, in order, under the fixed summary line
    /// `summary`, counting them.
    pub open spec fn is_list_of(&self, errors: Seq<T>, summary: &'static str) -> bool {
        &&& self.items() == errors
        &&& self.summary_spec() == ErrorSummary::Static(Cow::Borrowed(summary), errors.len() as usize)
    }

    /// Creates a list with the given summary line and errors; the summary
    /// counts the errors.
    pub fn new(summary: ErrorSummary, errors: Vec<T>) -> (l: Self)
        ensures
            l.items() == errors@,
            l.summary_spec() == summary.recount(errors@.len() as usize),
    {
        let summary = summary.with_count(errors.len());
        ErrorList { summary, errors }
    }

    /// The errors of the list.
    pub fn to_vec(self) -> (v: Vec<T>)
        ensures
            v@ == self.items(),
    {
        self.errors
    }

    /// The summary line, with the `{count}` placeholder replaced with the
    /// number of errors.
    pub fn summary(&self) -> (s: String)
        ensures
            self.summary_line(s@),
    {
        self.summary.to_string()
    }

    /// The number of errors in the list.
    pub fn len(&self) -> (n: usize)
        ensures
            n == self.items().len(),
    {
        self.errors.len()
    }

    /// The list holds no error.
    pub fn is_empty(&self) -> (b: bool)
        ensures
            b == (self.items().len() == 0),
    {
        self.errors.len() == 0
    }

    /// The errors of the list, as a slice.
    pub fn as_slice(&self) -> (s: &[T])
        ensures
            s@ == self.items(),
    {
        self.errors.as_slice()
    }

    /// The summary line followed by one line per error, each starting with
    /// `- `.
    pub fn to_string(&self) -> (s: String)
        where T: ErrorText,
        ensures
            self.renders(s@),
    {
        let mut out = self.summary.to_string();
        let ghost head = out@;
        let ghost t = choose|t: Seq<char>|
            self.summary_spec().yields(t) && head == fill_count(t, self.summary_spec().counted() as nat);
        proof {
            reveal_strlit("\n");
            reveal_strlit("- ");
        }
        out.append("\n");
        let ghost mut lines: Seq<Seq<char>> = Seq::empty();
        let mut i: usize = 0;
        while i < self.errors.len()
            invariant
                i <= self.errors@.len(),
                lines.len() == i,
                forall|k: int| 0 <= k < i ==> #[trigger] self.errors@[k].shows(lines[k]),
                out@ == head + seq!['\n'] + bullet_lines(lines),
            decreases self.errors@.len() - i,
        {
            let text = self.errors[i].error_text();
            let ghost before = out@;
            proof {
                reveal_strlit("\n");
                reveal_strlit("- ");
            }
            out.append("- ");
            out.append(text.as_str());
            out.append("\n");
            proof {
                let old_lines = lines;
                lines = lines.push(text@);
                assert(lines.drop_last() =~= old_lines);
                assert(bullet_lines(lines) == bullet_lines(old_lines) + bullet() + text@ + seq!['\n']);
                assert(out@ =~= before + bullet() + text@ + seq!['\n']);
            }
            i = i + 1;
        }
        assert(self.summary_spec().yields(t));
        assert(out@ == list_text(fill_count(t, self.summary_spec().counted() as nat), lines));
        out
    }
}

impl<T: ErrorText> ErrorList<T> {
    /// `text` is a way the whole list may read: its summary line (a template
    /// it may yield, with the count filled in), then one line per error, each
    /// starting with `- ` and holding a text of that error.
    pub open spec fn renders(&self, text: Seq<char>) -> bool {
        exists|t: Seq<char>, lines: Seq<Seq<char>>|
            {
                &&& self.summary_spec().yields(t)
                &&& lines.len() == self.items().len()
                &&& forall|i: int| 0 <= i < lines.len() ==> #[trigger] self.items()[i].shows(lines[i])
                &&& text == list_text(fill_count(t, self.summary_spec().counted() as nat), lines)
            }
    }
}

/// A copy of the list: the errors are cloned, and a summary closure is asked
/// once for its line, which the copy keeps as a fixed summary.
impl<T: Clone> ErrorList<T> {
    /// This list is a copy of `other`: each error a clone of the one at its
    /// place, and the summary a fixed line that `other`'s summary yields, with
    /// the same count.
    pub open spec fn copied_from(&self, other: &Self) -> bool {
        &&& self.items().len() == other.items().len()
        &&& forall|i: int|
            0 <= i < self.items().len() ==> cloned::<T>(other.items()[i], #[trigger] self.items()[i])
        &&& self.summary_spec() is Static
        &&& self.summary_spec().counted() == other.summary_spec().counted()
        &&& other.summary_spec().yields(self.summary_spec()->Static_0@)
    }
}

impl<T: Clone> Clone for ErrorList<T> {
    fn clone(&self) -> (c: Self)
        ensures
            c.copied_from(self),
    {
        ErrorList { summary: self.summary.freeze(), errors: self.errors.clone() }
    }
}

/// `std::fmt::Formatter::debug_struct`, with its `field` and `finish`: writes
/// a struct named `ErrorList` with the fields `summary` and `errors`. No
/// contract is claimed of it.
#[verifier::external_body]
fn write_list_debug<T: std::fmt::Debug>(
    f: &mut std::fmt::Formatter<'_>,
    summary: &str,
    errors: &Vec<T>,
) -> std::fmt::Result {
    f.debug_struct("ErrorList").field("summary", &summary).field("errors", errors).finish()
}

impl<T: std::fmt::Debug> std::fmt::Debug for ErrorList<T> {
    /// Writes the list as a struct named `ErrorList` with the fields
    /// `summary` (the summary template, before the count is filled in) and
    /// `errors`.
    fn fmt(&self, f: &mut std::fmt::Formatter<'_>) -> std::fmt::Result {
        let template = self.summary.as_cow();
        write_list_debug(f, cow_str(&template), &self.errors)
    }
}

impl<T> std::ops::Deref for ErrorList<T> {
    type Target = [T];

    fn deref(&self) -> (s: &[T])
        ensures
            s@ == self.items(),
    {
        self.errors.as_slice()
    }
}

impl<T> IntoIterator for ErrorList<T> {
    type Item = T;

    type IntoIter = std::vec::IntoIter<T>;

    fn into_iter(self) -> (it: std::vec::IntoIter<T>)
        ensures
            exists|v: Vec<T>| v@ == self.items() && it == vstd::std_specs::vec::spec_into_iter(v),
    {
        self.errors.into_iter()
    }
}


} // verus!
