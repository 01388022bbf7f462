//! `BoxedStash`: a stash of boxed, possibly heterogeneous errors, emitted
//! together in an `ErrorList` under a summary line.
use std::borrow::Cow;
use vstd::prelude::*;

use crate::error_list::DEFAULT_SUMMARY;
use crate::error_list::ErrorList;
use crate::error_list::ErrorSummary;
use crate::error_stash::ErrorStash;
use crate::error_stash::ErrorStashInternal;
use crate::error_stash::StashableResult;

verus! {

/// The child error type used by [`BoxedStash`] and [`BoxedErrors`].
pub type BoxedError = Box<dyn std::error::Error + Send + Sync + 'static>;

/// The wrapper error type produced by [`BoxedStash`]: an [`ErrorList`] of
/// [`BoxedError`] values.
pub type BoxedErrors = ErrorList<BoxedError>;

/// The summary a stash is given when it is created or drained.
pub open spec fn default_summary() -> ErrorSummary {
    ErrorSummary::Static(Cow::Borrowed(DEFAULT_SUMMARY), 0)
}

/// An error stash that produces an [`ErrorList`] under a configurable summary
/// line.
///
/// Its child errors are of type `E`, by default [`BoxedError`], so that any
/// error type convertible into a boxed error can be added. The terminal
/// methods leave the stash empty and reset its summary line to the default
/// one.
#[derive(Debug)]
pub struct BoxedStash<E = BoxedError> {
    summary: ErrorSummary,
    errors: Vec<E>,
}

impl<E> BoxedStash<E> {
    /// The summary line the stash gives its wrapper error.
    pub closed spec fn summary_spec(&self) -> ErrorSummary {
        self.summary
    }
}

impl<E> ErrorStashInternal<E, ErrorList<E>> for BoxedStash<E> {
    closed spec fn stashed(&self) -> Seq<E> {
        self.errors@
    }

    open spec fn wraps(&self, errors: Seq<E>, w: ErrorList<E>) -> bool {
        &&& w.items() == errors
        &&& w.summary_spec() == self.summary_spec().recount(errors.len() as usize)
    }

    open spec fn same_config(&self, other: &Self) -> bool {
        self.summary_spec() == other.summary_spec()
    }

    open spec fn drained_from(&self, before: &Self) -> bool {
        &&& self.stashed().len() == 0
        &&& self.summary_spec() == default_summary()
    }

    proof fn lemma_same_config_reflexive(&self) {
    }

    proof fn lemma_same_config_transitive(&self, b: &Self, c: &Self) {
    }

    fn errors(&self) -> (r: &[E]) {
        self.errors.as_slice()
    }

    fn mut_errors(&mut self) -> (r: &mut Vec<E>) {
        &mut self.errors
    }

    fn consume(&mut self) -> (w: ErrorList<E>) {
        let mut errors: Vec<E> = Vec::new();
        std::mem::swap(&mut errors, &mut self.errors);
        let mut summary = ErrorSummary::default();
        std::mem::swap(&mut summary, &mut self.summary);
        let count = errors.len();
        ErrorList::new(summary.with_count(count), errors)
    }
}

impl<E> ErrorStash<E, ErrorList<E>> for BoxedStash<E> {
    fn to_result<T, F: FnOnce() -> T>(self, closure: F) -> (r: Result<T, ErrorList<E>>) {
        let mut stash = self;
        ErrorStashInternal::to_result(&mut stash, closure)
    }

    fn to_error(self) -> (r: Option<ErrorList<E>>) {
        let mut stash = self;
        ErrorStashInternal::to_error(&mut stash)
    }
}

impl<E> Default for BoxedStash<E> {
    fn default() -> (s: Self)
        ensures
            s.stashed().len() == 0,
            s.summary_spec() == default_summary(),
    {
        BoxedStash { summary: ErrorSummary::default(), errors: Vec::new() }
    }
}

impl<E> BoxedStash<E> {
    /// Creates a new stash with the default summary line.
    pub fn new() -> (s: Self)
        ensures
            s.stashed().len() == 0,
            s.summary_spec() == default_summary(),
    {
        Self::default()
    }

    /// Creates a new stash with the given summary line.
    pub fn with_summary(summary: &'static str) -> (s: Self)
        ensures
            s.stashed().len() == 0,
            s.summary_spec() == ErrorSummary::Static(Cow::Borrowed(summary), 0),
    {
        let summary = ErrorSummary::new_static(summary);
        BoxedStash { summary, errors: Vec::new() }
    }

    /// Sets a custom summary line for the wrapper error.
    ///
    /// If the summary string contains the `{count}` placeholder, it will be
    /// replaced with the number of errors when formatted.
    pub fn set_summary(&mut self, summary: &'static str) -> (r: &mut Self)
        ensures
            r.stashed() == old(self).stashed(),
            r.summary_spec() == ErrorSummary::Static(Cow::Borrowed(summary), 0),
            *final(self) == *final(r),
    {
        let summary = ErrorSummary::new_static(summary);
        self.summary = summary;
        self
    }

    /// Sets a closure that produces the summary line of the wrapper error. The
    /// closure is called each time the summary is rendered; the `{count}`
    /// placeholder in what it returns is replaced with the number of errors.
    pub fn set_summary_with<F>(&mut self, summary_func: F) -> (r: &mut Self)
        where F: Fn() -> String + Send + Sync + 'static,
        requires
            call_requires(summary_func, ()),
        ensures
            r.stashed() == old(self).stashed(),
            r.summary_spec() is Dynamic,
            r.summary_spec().counted() == 0,
            forall|t: Seq<char>|
                #![trigger r.summary_spec().yields(t)]
                r.summary_spec().yields(t) <==> exists|s: String|
                    s@ == t && call_ensures(summary_func, (), s),
            *final(self) == *final(r),
    {
        let summary = ErrorSummary::new_dynamic(summary_func);
        self.summary = summary;
        self
    }

    /// Adds a child error, converted from `err`, to the stash.
    pub fn push<T>(&mut self, err: T) -> (r: &mut Self)
        where E: From<T>,
        ensures
            r.stashed().len() == old(self).stashed().len() + 1,
            r.stashed().drop_last() == old(self).stashed(),
            call_ensures(E::from, (err,), r.stashed().last()),
            old(self).same_config(r),
            *final(self) == *final(r),
    {
        let e: E = err.into();
        self.errors.push(e);
        proof {
            assert(self.errors@.drop_last() =~= old(self).errors@);
        }
        self
    }

    /// Adds the child errors converted from `errors` to the stash, in order.
    pub fn push_all<T>(&mut self, errors: Vec<T>) -> (r: &mut Self)
        where E: From<T>,
        ensures
            r.stashed().len() == old(self).stashed().len() + errors@.len(),
            r.stashed().take(old(self).stashed().len() as int) == old(self).stashed(),
            forall|k: int|
                0 <= k < errors@.len() ==> call_ensures(
                    E::from,
                    (errors@[k],),
                    #[trigger] r.stashed()[old(self).stashed().len() + k],
                ),
            old(self).same_config(r),
            *final(self) == *final(r),
    {
        self.extend(errors);
        self
    }

    /// If the condition is false, adds the child error converted from `e` to
    /// the stash. Otherwise, does nothing.
    pub fn check<T>(&mut self, condition: bool, e: T) -> (r: &mut Self)
        where E: From<T>,
        ensures
            condition ==> r.stashed() == old(self).stashed(),
            !condition ==> {
                &&& r.stashed().len() == old(self).stashed().len() + 1
                &&& r.stashed().drop_last() == old(self).stashed()
                &&& call_ensures(E::from, (e,), r.stashed().last())
            },
            old(self).same_config(r),
            *final(self) == *final(r),
    {
        if !condition {
            let err: E = e.into();
            self.errors.push(err);
            proof {
                assert(self.errors@.drop_last() =~= old(self).errors@);
            }
        }
        self
    }

    /// Adds an error and immediately returns `Err` with all collected errors,
    /// leaving the stash empty with the default summary line.
    pub fn fail_now<T>(&mut self, e: T) -> (r: Result<(), ErrorList<E>>)
        where E: From<T>,
        ensures
            r is Err,
            exists|err: E|
                call_ensures(E::from, (e,), err) && old(self).wraps(
                    old(self).stashed().push(err),
                    r->Err_0,
                ),
            final(self).stashed().len() == 0,
            final(self).drained_from(old(self)),
    {
        let err: E = e.into();
        let ghost pushed = err;
        self.errors.push(err);
        let wrapper = self.consume();
        proof {
            assert(old(self).wraps(old(self).stashed().push(pushed), wrapper));
        }
        Err(wrapper)
    }

    /// Adds the child errors converted from `items` to the stash, in order.
    pub fn extend<T>(&mut self, items: Vec<T>)
        where E: From<T>,
        ensures
            final(self).stashed().len() == old(self).stashed().len() + items@.len(),
            final(self).stashed().take(old(self).stashed().len() as int) == old(self).stashed(),
            forall|k: int|
                0 <= k < items@.len() ==> call_ensures(
                    E::from,
                    (items@[k],),
                    #[trigger] final(self).stashed()[old(self).stashed().len() + k],
                ),
            old(self).same_config(final(self)),
    {
        let ghost start = self.errors@;
        let ghost all = items@;
        let _count: usize = items.len();
        let mut rest = crate::error_stash::reversed(items);
        let mut i: usize = 0;
        while rest.len() > 0
            invariant
                i + rest@.len() == all.len(),
                all.len() <= usize::MAX,
                forall|k: int| 0 <= k < rest@.len() ==> #[trigger] rest@[k] == all[all.len() - 1 - k],
                self.errors@.len() == start.len() + i,
                self.errors@.take(start.len() as int) == start,
                forall|k: int|
                    0 <= k < i ==> call_ensures(
                        E::from,
                        (all[k],),
                        #[trigger] self.errors@[start.len() + k],
                    ),
                self.summary == old(self).summary,
            decreases rest@.len(),
        {
            let item = rest.pop().unwrap();
            proof {
                assert(item == all[i as int]);
            }
            let e: E = item.into();
            self.errors.push(e);
            proof {
                assert(self.errors@.take(start.len() as int) =~= start);
            }
            i = i + 1;
        }
    }
}

impl<E> IntoIterator for BoxedStash<E> {
    type Item = E;

    type IntoIter = std::vec::IntoIter<E>;

    fn into_iter(self) -> (it: std::vec::IntoIter<E>)
        ensures
            exists|v: Vec<E>| v@ == self.stashed() && it == vstd::std_specs::vec::spec_into_iter(v),
    {
        self.errors.into_iter()
    }
}

/// Stashing the error of a `Result` whose error type converts into the child
/// error type.
impl<T, FE, E> StashableResult<T, E, ErrorList<E>, BoxedStash<E>> for Result<T, FE> where
    E: From<FE>,
 {
    open spec fn success(&self) -> Option<T> {
        match *self {
            Ok(v) => Some(v),
            Err(_) => None,
        }
    }

    open spec fn stashes_as(&self, errors: Seq<E>) -> bool {
        match *self {
            Ok(_) => false,
            Err(fe) => errors.len() == 1 && call_ensures(E::from, (fe,), errors[0]),
        }
    }

    fn or_stash(self, stash: &mut BoxedStash<E>) -> (r: Option<T>) {
        match self {
            Ok(v) => Some(v),
            Err(fe) => {
                let e: E = fe.into();
                let ghost errors = seq![e];
                stash.errors.push(e);
                proof {
                    assert(stash.stashed() =~= old(stash).stashed() + errors);
                    assert(<Self as StashableResult<T, E, ErrorList<E>, BoxedStash<E>>>::stashes_as(&self, errors));
                }
                None
            },
        }
    }

    fn or_fail(self, stash: &mut BoxedStash<E>) -> (r: Result<T, ErrorList<E>>) {
        match self {
            Ok(v) => Ok(v),
            Err(fe) => {
                let e: E = fe.into();
                let ghost errors = seq![e];
                stash.errors.push(e);
                proof {
                    assert(stash.stashed() =~= old(stash).stashed() + errors);
                }
                let w = stash.consume();
                proof {
                    assert(<Self as StashableResult<T, E, ErrorList<E>, BoxedStash<E>>>::stashes_as(&self, errors));
                    assert(old(stash).wraps(old(stash).stashed() + errors, w));
                }
                Err(w)
            },
        }
    }
}

} // verus!
