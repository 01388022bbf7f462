//! `TypedStash`: a stash whose child errors all have one type, and whose
//! wrapper error is built by a constructor.
use std::borrow::Cow;
use vstd::prelude::*;
use vstd::std_specs::convert::FromSpecImpl;
use vstd::std_specs::vec::spec_into_iter;
use vstd::string::StringExecFns;

use crate::error_list::DEFAULT_SUMMARY;
use crate::error_list::ErrorList;
use crate::error_list::ErrorSummary;
use crate::error_stash::ErrorStash;
use crate::error_stash::ErrorStashInternal;
use crate::error_stash::StashableResult;
use crate::summary_text::decimal;
use crate::summary_text::push_decimal;

verus! {

/// Builds a wrapper error out of the collected child errors.
pub trait WrapperBuilder<E, W>: Send {
    /// The builder may be asked for a wrapper.
    spec fn ready(&self) -> bool;

    /// `w` is a wrapper that the builder may make of `errors`.
    spec fn builds(&self, errors: Seq<E>, w: W) -> bool;

    /// Builds the wrapper error of `errors`.
    fn build(&self, errors: Vec<E>) -> (w: W)
        requires
            self.ready(),
        ensures
            self.builds(errors@, w),
    ;
}

impl<E, W, F: Fn(Vec<E>) -> W + Send> WrapperBuilder<E, W> for F {
    open spec fn ready(&self) -> bool {
        forall|v: Vec<E>| call_requires(*self, (v,))
    }

    open spec fn builds(&self, errors: Seq<E>, w: W) -> bool {
        exists|v: Vec<E>| v@ == errors && call_ensures(*self, (v,), w)
    }

    fn build(&self, errors: Vec<E>) -> (w: W) {
        (self)(errors)
    }
}

/// Builds an [`ErrorList`] with a fixed summary line.
pub struct ListBuilder {
    summary: &'static str,
}

impl<E: 'static> WrapperBuilder<E, ErrorList<E>> for ListBuilder {
    open spec fn ready(&self) -> bool {
        true
    }

    closed spec fn builds(&self, errors: Seq<E>, w: ErrorList<E>) -> bool {
        &&& w.items() == errors
        &&& w.summary_spec() == ErrorSummary::Static(
            Cow::Borrowed(self.summary),
            errors.len() as usize,
        )
    }

    fn build(&self, errors: Vec<E>) -> (w: ErrorList<E>) {
        TypedStash::<E, ErrorList<E>>::create_error_list(errors, self.summary)
    }
}

/// The constructor of the wrapper error of a [`TypedStash`].
#[verifier::reject_recursive_types(E)]
#[verifier::reject_recursive_types(W)]
pub struct WrapperConstructor<E, W> {
    builder: Box<dyn WrapperBuilder<E, W>>,
}

impl<E, W> WrapperConstructor<E, W> {
    #[verifier::type_invariant]
    spec fn builder_ready(self) -> bool {
        self.builder.ready()
    }

    /// `w` is a wrapper that the constructor may make of `errors`.
    pub closed spec fn builds(self, errors: Seq<E>, w: W) -> bool {
        self.builder.builds(errors, w)
    }

    /// Builds the wrapper error of `errors`.
    pub fn construct(&self, errors: Vec<E>) -> (w: W)
        ensures
            self.builds(errors@, w),
    {
        proof {
            use_type_invariant(self);
        }
        self.builder.build(errors)
    }

    /// A constructor that calls `f` with the collected errors.
    pub fn for_closure<F: Fn(Vec<E>) -> W + Send + 'static>(f: F) -> (c: Self)
        requires
            forall|v: Vec<E>| call_requires(f, (v,)),
        ensures
            forall|errors: Seq<E>, w: W|
                #![trigger c.builds(errors, w)]
                c.builds(errors, w) <==> exists|v: Vec<E>| v@ == errors && call_ensures(f, (v,), w),
    {
        let builder: Box<dyn WrapperBuilder<E, W>> = Box::new(f);
        WrapperConstructor { builder }
    }
}

impl<E: 'static> WrapperConstructor<E, ErrorList<E>> {
    /// A constructor that makes an [`ErrorList`] with the given summary line.
    pub fn for_static_str(summary: &'static str) -> (c: Self)
        ensures
            forall|errors: Seq<E>, w: ErrorList<E>|
                #![trigger c.builds(errors, w)]
                c.builds(errors, w) <==> w.is_list_of(errors, summary),
    {
        let builder: Box<dyn WrapperBuilder<E, ErrorList<E>>> = Box::new(ListBuilder { summary });
        WrapperConstructor { builder }
    }
}

/// Collects child errors of one type, then produces a wrapper error if any
/// errors were collected.
///
/// The wrapper error is made by a constructor: by default an [`ErrorList`]
/// with a summary line, or any closure given to
/// [`TypedStash::with_constructor`]. The terminal methods leave the stash
/// empty and keep its constructor.
#[verifier::reject_recursive_types(E)]
#[verifier::reject_recursive_types(W)]
pub struct TypedStash<E, W> {
    errors: Vec<E>,
    constructor: WrapperConstructor<E, W>,
}

impl<E: std::fmt::Debug, W> std::fmt::Debug for TypedStash<E, W> {
    /// Writes the stash as a struct named `TypedStash` with its one field
    /// `errors`, through `std::fmt::Formatter::debug_struct`; no contract is
    /// claimed of it.
    #[verifier::external_body]
    fn fmt(&self, f: &mut std::fmt::Formatter<'_>) -> std::fmt::Result {
        f.debug_struct("TypedStash").field("errors", &self.errors).finish()
    }
}

impl<E, W> TypedStash<E, W> {
    /// The constructor of the stash's wrapper error.
    pub closed spec fn constructor_spec(&self) -> WrapperConstructor<E, W> {
        self.constructor
    }
}

impl<E, W> ErrorStashInternal<E, W> for TypedStash<E, W> {
    closed spec fn stashed(&self) -> Seq<E> {
        self.errors@
    }

    open spec fn wraps(&self, errors: Seq<E>, w: W) -> bool {
        self.constructor_spec().builds(errors, w)
    }

    open spec fn same_config(&self, other: &Self) -> bool {
        self.constructor_spec() == other.constructor_spec()
    }

    open spec fn drained_from(&self, before: &Self) -> bool {
        &&& self.stashed().len() == 0
        &&& self.constructor_spec() == before.constructor_spec()
    }

    proof fn lemma_same_config_reflexive(&self) {
    }

    proof fn lemma_same_config_transitive(&self, b: &Self, c: &Self) {
    }

    fn errors(&self) -> (r: &[E]) {
        self.errors.as_slice()
    }

    fn mut_errors(&mut self) -> (r: &mut Vec<E>) {
        &mut self.errors
    }

    fn consume(&mut self) -> (w: W) {
        let mut errors: Vec<E> = Vec::new();
        std::mem::swap(&mut errors, &mut self.errors);
        self.constructor.construct(errors)
    }
}

impl<E, W> ErrorStash<E, W> for TypedStash<E, W> {
    fn to_result<T, F: FnOnce() -> T>(self, closure: F) -> (r: Result<T, W>) {
        let mut stash = self;
        ErrorStashInternal::to_result(&mut stash, closure)
    }

    fn to_error(self) -> (r: Option<W>) {
        let mut stash = self;
        ErrorStashInternal::to_error(&mut stash)
    }
}

impl<E: 'static> TypedStash<E, ErrorList<E>> {
    /// Creates a new stash that produces an [`ErrorList`] with the default
    /// summary "Encountered {count} errors:" if any errors are collected.
    pub fn new() -> (s: Self)
        ensures
            s.stashed().len() == 0,
            forall|errors: Seq<E>, w: ErrorList<E>|
                #![trigger s.wraps(errors, w)]
                s.wraps(errors, w) <==> w.is_list_of(errors, DEFAULT_SUMMARY),
    {
        Self::with_summary(DEFAULT_SUMMARY)
    }

    /// Creates a new stash that produces an [`ErrorList`] with the provided
    /// summary line if any errors are collected. The placeholder `{count}` in
    /// the summary is replaced with the number of errors when it is rendered.
    pub fn with_summary(summary: &'static str) -> (s: Self)
        ensures
            s.stashed().len() == 0,
            forall|errors: Seq<E>, w: ErrorList<E>|
                #![trigger s.wraps(errors, w)]
                s.wraps(errors, w) <==> w.is_list_of(errors, summary),
    {
        let constructor = WrapperConstructor::for_static_str(summary);
        TypedStash { errors: Vec::new(), constructor }
    }

    /// Makes the [`ErrorList`] of `errors` under `summary`.
    fn create_error_list(errors: Vec<E>, summary: &'static str) -> (l: ErrorList<E>)
        ensures
            l.is_list_of(errors@, summary),
    {
        ErrorList::new(summary.into(), errors)
    }
}

impl<E, W> TypedStash<E, W> {
    /// Creates a new stash that makes its wrapper error by calling
    /// `constructor` with the collected child errors.
    pub fn with_constructor<F>(constructor: F) -> (s: Self)
        where F: Fn(Vec<E>) -> W + Send + 'static,
        requires
            forall|v: Vec<E>| call_requires(constructor, (v,)),
        ensures
            s.stashed().len() == 0,
            forall|errors: Seq<E>, w: W|
                #![trigger s.wraps(errors, w)]
                s.wraps(errors, w) <==> exists|v: Vec<E>|
                    v@ == errors && call_ensures(constructor, (v,), w),
    {
        TypedStash { errors: Vec::new(), constructor: WrapperConstructor::for_closure(constructor) }
    }

    /// Adds a child error to the stash.
    pub fn push(&mut self, err: E) -> (r: &mut Self)
        ensures
            r.stashed() == old(self).stashed().push(err),
            old(self).same_config(r),
            *final(self) == *final(r),
    {
        self.errors.push(err);
        self
    }

    /// Adds the child errors `errors` to the stash, in order.
    pub fn push_all(&mut self, errors: Vec<E>) -> (r: &mut Self)
        ensures
            r.stashed() == old(self).stashed() + errors@,
            old(self).same_config(r),
            *final(self) == *final(r),
    {
        let mut errors = errors;
        self.errors.append(&mut errors);
        self
    }

    /// If the condition is false, adds error `e` to the stash. Otherwise,
    /// does nothing.
    pub fn check(&mut self, condition: bool, e: E) -> (r: &mut Self)
        ensures
            r.stashed() == if condition {
                old(self).stashed()
            } else {
                old(self).stashed().push(e)
            },
            old(self).same_config(r),
            *final(self) == *final(r),
    {
        if !condition {
            self.errors.push(e);
        }
        self
    }

    /// Adds an error and immediately returns `Err(W)` with all collected
    /// errors, leaving the stash empty.
    pub fn fail_now(&mut self, e: E) -> (r: Result<(), W>)
        ensures
            r is Err,
            old(self).wraps(old(self).stashed().push(e), r->Err_0),
            final(self).stashed().len() == 0,
            final(self).drained_from(old(self)),
    {
        self.errors.push(e);
        let wrapper = self.consume();
        Err(wrapper)
    }

    /// Adds the child errors converted from `items` to the stash, in order.
    pub fn extend<T>(&mut self, items: Vec<T>)
        where E: From<T>,
        ensures
            final(self).stashed().len() == old(self).stashed().len() + items@.len(),
            final(self).stashed().take(old(self).stashed().len() as int) == old(self).stashed(),
            forall|k: int|
                0 <= k < items@.len() ==> call_ensures(
                    E::from,
                    (items@[k],),
                    #[trigger] final(self).stashed()[old(self).stashed().len() + k],
                ),
            old(self).same_config(final(self)),
    {
        let ghost start = self.errors@;
        let ghost all = items@;
        let _count: usize = items.len();
        let mut rest = crate::error_stash::reversed(items);
        let mut i: usize = 0;
        while rest.len() > 0
            invariant
                i + rest@.len() == all.len(),
                all.len() <= usize::MAX,
                forall|k: int| 0 <= k < rest@.len() ==> #[trigger] rest@[k] == all[all.len() - 1 - k],
                self.errors@.len() == start.len() + i,
                self.errors@.take(start.len() as int) == start,
                forall|k: int|
                    0 <= k < i ==> call_ensures(
                        E::from,
                        (all[k],),
                        #[trigger] self.errors@[start.len() + k],
                    ),
                self.constructor == old(self).constructor,
            decreases rest@.len(),
        {
            let item = rest.pop().unwrap();
            proof {
                assert(item == all[i as int]);
            }
            let e: E = item.into();
            self.errors.push(e);
            proof {
                assert(self.errors@.take(start.len() as int) =~= start);
            }
            i = i + 1;
        }
    }

    /// A short description of the stash: `TypedStash with N errors`.
    pub fn to_string(&self) -> (s: String)
        ensures
            s@ == "TypedStash with "@ + decimal(self.stashed().len()) + " errors"@,
    {
        let mut s = String::from_str("TypedStash with ");
        push_decimal(&mut s, self.errors.len());
        s.append(" errors");
        s
    }

    /// The collected child errors, consuming the stash.
    pub fn into_vec(self) -> (v: Vec<E>)
        ensures
            v@ == self.stashed(),
    {
        self.errors
    }
}

impl<E: 'static> Default for TypedStash<E, ErrorList<E>> {
    fn default() -> (s: Self)
        ensures
            s.stashed().len() == 0,
            forall|errors: Seq<E>, w: ErrorList<E>|
                #![trigger s.wraps(errors, w)]
                s.wraps(errors, w) <==> w.is_list_of(errors, DEFAULT_SUMMARY),
    {
        Self::new()
    }
}

impl<E, W> IntoIterator for TypedStash<E, W> {
    type Item = E;

    type IntoIter = std::vec::IntoIter<E>;

    fn into_iter(self) -> (it: std::vec::IntoIter<E>)
        ensures
            exists|v: Vec<E>| v@ == self.stashed() && it == spec_into_iter(v),
    {
        self.errors.into_iter()
    }
}

impl<E, W> From<TypedStash<E, W>> for Option<W> {
    fn from(stash: TypedStash<E, W>) -> (r: Option<W>)
        ensures
            match r {
                None => stash.stashed().len() == 0,
                Some(w) => stash.stashed().len() > 0 && stash.wraps(stash.stashed(), w),
            },
    {
        stash.to_error()
    }
}

impl<E, W> FromSpecImpl<TypedStash<E, W>> for Option<W> {
    open spec fn obeys_from_spec() -> bool {
        false
    }

    open spec fn from_spec(stash: TypedStash<E, W>) -> Option<W> {
        None
    }
}

impl<E, W> From<TypedStash<E, W>> for Vec<E> {
    fn from(stash: TypedStash<E, W>) -> (v: Vec<E>)
        ensures
            v@ == stash.stashed(),
    {
        stash.into_vec()
    }
}

impl<E, W> FromSpecImpl<TypedStash<E, W>> for Vec<E> {
    open spec fn obeys_from_spec() -> bool {
        false
    }

    open spec fn from_spec(stash: TypedStash<E, W>) -> Vec<E> {
        vstd::pervasive::arbitrary()
    }
}

impl<T, W, E> StashableResult<T, E, W, TypedStash<E, W>> for Result<T, E> {
    open spec fn success(&self) -> Option<T> {
        match *self {
            Ok(v) => Some(v),
            Err(_) => None,
        }
    }

    open spec fn stashes_as(&self, errors: Seq<E>) -> bool {
        match *self {
            Ok(_) => false,
            Err(e) => errors == seq![e],
        }
    }

    fn or_stash(self, stash: &mut TypedStash<E, W>) -> (r: Option<T>) {
        match self {
            Ok(v) => Some(v),
            Err(e) => {
                stash.push(e);
                proof {
                    assert(stash.stashed() =~= old(stash).stashed() + seq![e]);
                }
                None
            },
        }
    }

    fn or_fail(self, stash: &mut TypedStash<E, W>) -> (r: Result<T, W>) {
        match self {
            Ok(v) => Ok(v),
            Err(e) => {
                let ghost errors = seq![e];
                stash.push(e);
                proof {
                    assert(stash.stashed() =~= old(stash).stashed() + errors);
                }
                let w = stash.consume();
                proof {
                    assert(<Self as StashableResult<T, E, W, TypedStash<E, W>>>::stashes_as(&self, errors));
                    assert(old(stash).wraps(old(stash).stashed() + errors, w));
                }
                Err(w)
            },
        }
    }
}

impl<T, W, E> StashableResult<T, E, W, TypedStash<E, W>> for Result<T, ErrorList<E>> {
    open spec fn success(&self) -> Option<T> {
        match *self {
            Ok(v) => Some(v),
            Err(_) => None,
        }
    }

    open spec fn stashes_as(&self, errors: Seq<E>) -> bool {
        match *self {
            Ok(_) => false,
            Err(list) => errors == list.items(),
        }
    }

    fn or_stash(self, stash: &mut TypedStash<E, W>) -> (r: Option<T>) {
        match self {
            Ok(v) => Some(v),
            Err(list) => {
                stash.push_all(list.to_vec());
                None
            },
        }
    }

    fn or_fail(self, stash: &mut TypedStash<E, W>) -> (r: Result<T, W>) {
        match self {
            Ok(v) => Ok(v),
            Err(list) => {
                let ghost errors = list.items();
                stash.push_all(list.to_vec());
                let w = stash.consume();
                proof {
                    assert(<Self as StashableResult<T, E, W, TypedStash<E, W>>>::stashes_as(&self, errors));
                    assert(old(stash).wraps(old(stash).stashed() + errors, w));
                }
                Err(w)
            },
        }
    }
}

impl<T, W, E> StashableResult<T, E, W, TypedStash<E, W>> for Result<T, Vec<E>> {
    open spec fn success(&self) -> Option<T> {
        match *self {
            Ok(v) => Some(v),
            Err(_) => None,
        }
    }

    open spec fn stashes_as(&self, errors: Seq<E>) -> bool {
        match *self {
            Ok(_) => false,
            Err(v) => errors == v@,
        }
    }

    fn or_stash(self, stash: &mut TypedStash<E, W>) -> (r: Option<T>) {
        match self {
            Ok(v) => Some(v),
            Err(errors) => {
                stash.push_all(errors);
                None
            },
        }
    }

    fn or_fail(self, stash: &mut TypedStash<E, W>) -> (r: Result<T, W>) {
        match self {
            Ok(v) => Ok(v),
            Err(errors) => {
                let ghost items = errors@;
                stash.push_all(errors);
                let w = stash.consume();
                proof {
                    assert(<Self as StashableResult<T, E, W, TypedStash<E, W>>>::stashes_as(&self, items));
                    assert(old(stash).wraps(old(stash).stashed() + items, w));
                }
                Err(w)
            },
        }
    }
}

} // verus!
