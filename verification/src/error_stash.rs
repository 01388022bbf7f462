//! The traits shared by all stashes, and their integration with `Result` and
//! with sequences of results.
use vstd::prelude::*;
use vstd::std_specs::vec::spec_into_iter;

verus! {

/// Converting a value into its own type gives the value back unchanged (the
/// standard library's `impl<T> From<T> for T` "returns the argument unchanged").
pub assume_specification<V>[ <V as std::convert::From<V>>::from ](v: V) -> (r: V)
    ensures
        r == v,
;

/// The methods that the provided methods of [`ErrorStash`] build on.
pub trait ErrorStashInternal<E, W>: Sized {
    /// The child errors collected so far, oldest first.
    spec fn stashed(&self) -> Seq<E>;

    /// `w` is a wrapper error that this stash, as it is configured, makes of
    /// the child errors `errors`.
    spec fn wraps(&self, errors: Seq<E>, w: W) -> bool;

    /// `other` is configured as this stash is (its child errors may differ).
    spec fn same_config(&self, other: &Self) -> bool;

    /// This stash is what `before` becomes once a terminal method has handed
    /// out its errors: it holds no error, and its configuration is the one that
    /// the stash type keeps after such a call.
    spec fn drained_from(&self, before: &Self) -> bool;

    /// Every stash is configured as itself.
    proof fn lemma_same_config_reflexive(&self)
        ensures
            self.same_config(self),
    ;

    /// Being configured alike is transitive.
    proof fn lemma_same_config_transitive(&self, b: &Self, c: &Self)
        requires
            self.same_config(b),
            b.same_config(c),
        ensures
            self.same_config(c),
    ;

    /// If no errors have been collected, calls the closure and returns
    /// `Ok(result)`. Otherwise, consumes the collected errors and returns
    /// `Err(W)`.
    fn to_result<T, F: FnOnce() -> T>(&mut self, closure: F) -> (r: Result<T, W>)
        requires
            old(self).stashed().len() == 0 ==> call_requires(closure, ()),
        ensures
            match r {
                Ok(t) => {
                    &&& old(self).stashed().len() == 0
                    &&& call_ensures(closure, (), t)
                    &&& *final(self) == *old(self)
                },
                Err(w) => {
                    &&& old(self).stashed().len() > 0
                    &&& old(self).wraps(old(self).stashed(), w)
                    &&& final(self).stashed().len() == 0
                    &&& final(self).drained_from(old(self))
                },
            },
    {
        if self.errors().len() == 0 {
            Ok(closure())
        } else {
            let wrapper = self.consume();
            Err(wrapper)
        }
    }

    /// If no errors have been collected, returns `None`. Otherwise, consumes
    /// the collected errors and returns `Some(W)`.
    fn to_error(&mut self) -> (r: Option<W>)
        ensures
            match r {
                None => old(self).stashed().len() == 0 && *final(self) == *old(self),
                Some(w) => {
                    &&& old(self).stashed().len() > 0
                    &&& old(self).wraps(old(self).stashed(), w)
                    &&& final(self).stashed().len() == 0
                    &&& final(self).drained_from(old(self))
                },
            },
    {
        if self.errors().len() == 0 {
            None
        } else {
            let wrapper = self.consume();
            Some(wrapper)
        }
    }

    /// Returns a slice of the collected errors.
    fn errors(&self) -> (r: &[E])
        ensures
            r@ == self.stashed(),
    ;

    /// Returns a mutable reference to the collected errors.
    fn mut_errors(&mut self) -> (r: &mut Vec<E>)
        ensures
            r@ == old(self).stashed(),
            final(self).stashed() == final(r)@,
            old(self).same_config(final(self)),
    ;

    /// Hands out a wrapper error containing all collected errors, leaving the
    /// stash empty.
    fn consume(&mut self) -> (w: W)
        ensures
            old(self).wraps(old(self).stashed(), w),
            final(self).stashed().len() == 0,
            final(self).drained_from(old(self)),
    ;
}

/// Collects child errors, then emits a wrapper error if any were collected.
///
/// The terminal methods (`to_result`, `to_error`, `fail_now` and
/// `fail_unless_empty`) leave the stash empty whenever they hand out a wrapper
/// error.
pub trait ErrorStash<E, W>: ErrorStashInternal<E, W> {
    /// Returns true if no errors have been collected.
    fn is_empty(&self) -> (b: bool)
        ensures
            b == (self.stashed().len() == 0),
    {
        self.errors().len() == 0
    }

    /// Returns the number of collected errors.
    fn len(&self) -> (n: usize)
        ensures
            n == self.stashed().len(),
    {
        self.errors().len()
    }

    /// If no errors have been collected, returns `Some(())`. Otherwise,
    /// returns `None`.
    fn ok(&self) -> (r: Option<()>)
        ensures
            r is Some <==> self.stashed().len() == 0,
    {
        if self.is_empty() {
            Some(())
        } else {
            None
        }
    }

    /// If the condition is false, adds the error made from the message that
    /// `message` produces to the stash. Otherwise, does nothing. The message is
    /// only produced if the condition is false.
    fn check_fmt<F: FnOnce() -> String>(&mut self, condition: bool, message: F) -> (r: &mut Self)
        where E: From<String>,
        requires
            !condition ==> call_requires(message, ()),
        ensures
            condition ==> r.stashed() == old(self).stashed(),
            !condition ==> {
                &&& r.stashed().len() == old(self).stashed().len() + 1
                &&& r.stashed().drop_last() == old(self).stashed()
                &&& exists|s: String|
                    call_ensures(message, (), s) && call_ensures(E::from, (s,), r.stashed().last())
            },
            old(self).same_config(r),
            *final(self) == *final(r),
    {
        if !condition {
            let text = message();
            let ghost t = text;
            let e: E = text.into();
            let ghost pushed = e;
            let errors = self.mut_errors();
            errors.push(e);
            assert(self.stashed() == old(self).stashed().push(pushed));
            assert(self.stashed().drop_last() =~= old(self).stashed());
            assert(call_ensures(message, (), t) && call_ensures(E::from, (t,), self.stashed().last()));
        } else {
            proof {
                self.lemma_same_config_reflexive();
            }
        }
        self
    }

    /// If no errors have been collected, returns `Ok(())`. Otherwise, consumes
    /// the collected errors and returns `Err(W)`.
    fn fail_unless_empty(&mut self) -> (r: Result<(), W>)
        ensures
            match r {
                Ok(()) => old(self).stashed().len() == 0 && *final(self) == *old(self),
                Err(w) => {
                    &&& old(self).stashed().len() > 0
                    &&& old(self).wraps(old(self).stashed(), w)
                    &&& final(self).stashed().len() == 0
                    &&& final(self).drained_from(old(self))
                },
            },
    {
        if self.is_empty() {
            return Ok(());
        }
        let wrapper = self.consume();
        Err(wrapper)
    }

    /// If no errors have been collected, calls the closure and returns
    /// `Ok(result)`. Otherwise, consumes the collected errors and returns
    /// `Err(W)`.
    fn to_result<T, F: FnOnce() -> T>(self, closure: F) -> (r: Result<T, W>)
        requires
            self.stashed().len() == 0 ==> call_requires(closure, ()),
        ensures
            match r {
                Ok(t) => self.stashed().len() == 0 && call_ensures(closure, (), t),
                Err(w) => self.stashed().len() > 0 && self.wraps(self.stashed(), w),
            },
    ;

    /// If no errors have been collected, returns `None`. Otherwise, consumes
    /// the collected errors and returns `Some(W)`.
    fn to_error(self) -> (r: Option<W>)
        ensures
            match r {
                None => self.stashed().len() == 0,
                Some(w) => self.stashed().len() > 0 && self.wraps(self.stashed(), w),
            },
    ;
}

/// An extension trait for [Result] that adds
/// [or_stash][StashableResult::or_stash] and
/// [or_fail][StashableResult::or_fail] methods that can be used to stash
/// errors.
pub trait StashableResult<T, E, W, S: ErrorStash<E, W>>: Sized {
    /// The value of this result, if it is a success.
    spec fn success(&self) -> Option<T>;

    /// `errors` are the child errors that this failed result adds to a stash.
    spec fn stashes_as(&self, errors: Seq<E>) -> bool;

    /// Consumes this `Result`, returning `Some(T)` if this result is ok, or
    /// collecting the error into the provided `ErrorStash` and returning `None`
    /// if this result is an error.
    fn or_stash(self, stash: &mut S) -> (r: Option<T>)
        ensures
            r == self.success(),
            self.success() is Some ==> *final(stash) == *old(stash),
            self.success() is None ==> exists|errors: Seq<E>|
                {
                    &&& self.stashes_as(errors)
                    &&& final(stash).stashed() == old(stash).stashed() + errors
                    &&& old(stash).same_config(final(stash))
                },
    ;

    /// Consumes this `Result`, returning `Ok(T)` if this result is ok, or
    /// collecting the error into the provided `ErrorStash` and returning the
    /// aggregated errors in a `Err(W)` if this result is an error.
    ///
    /// If this result is `Ok`, the stash is left as it is, even if it already
    /// holds errors.
    fn or_fail(self, stash: &mut S) -> (r: Result<T, W>)
        ensures
            match self.success() {
                Some(v) => r == Ok::<T, W>(v) && *final(stash) == *old(stash),
                None => {
                    &&& r is Err
                    &&& exists|errors: Seq<E>|
                        self.stashes_as(errors) && old(stash).wraps(
                            old(stash).stashed() + errors,
                            r->Err_0,
                        )
                    &&& final(stash).stashed().len() == 0
                    &&& final(stash).drained_from(old(stash))
                },
            },
    ;
}

/// The values of the successful results, in order.
pub open spec fn ok_values<T, FE>(results: Seq<Result<T, FE>>) -> Seq<T>
    decreases results.len(),
{
    if results.len() == 0 {
        Seq::empty()
    } else {
        let rest = ok_values(results.drop_last());
        match results.last() {
            Ok(v) => rest.push(v),
            Err(_) => rest,
        }
    }
}

/// `errors` are the errors of the failed results, in order, each converted
/// into the child error type `E`.
pub open spec fn converted_errors<T, FE, E: From<FE>>(
    results: Seq<Result<T, FE>>,
    errors: Seq<E>,
) -> bool
    decreases results.len(),
{
    if results.len() == 0 {
        errors.len() == 0
    } else {
        match results.last() {
            Ok(_) => converted_errors(results.drop_last(), errors),
            Err(fe) => {
                &&& errors.len() > 0
                &&& call_ensures(E::from, (fe,), errors.last())
                &&& converted_errors(results.drop_last(), errors.drop_last())
            },
        }
    }
}

/// The elements of `v`, last first.
pub(crate) fn reversed<A>(v: Vec<A>) -> (r: Vec<A>)
    ensures
        r@.len() == v@.len(),
        forall|k: int| 0 <= k < r@.len() ==> #[trigger] r@[k] == v@[v@.len() - 1 - k],
{
    let ghost orig = v@;
    let mut rest = v;
    let mut out: Vec<A> = Vec::new();
    while rest.len() > 0
        invariant
            rest@ == orig.take(rest@.len() as int),
            rest@.len() + out@.len() == orig.len(),
            forall|k: int| 0 <= k < out@.len() ==> #[trigger] out@[k] == orig[orig.len() - 1 - k],
        decreases rest@.len(),
    {
        let ghost before = rest@;
        let x = rest.pop().unwrap();
        out.push(x);
        assert(rest@ =~= orig.take(rest@.len() as int));
    }
    out
}

/// Adds a `stash_errors` method to a vector of `Result<T, E>`, collecting the
/// errors into an `ErrorStash` while producing the successful values.
///
/// The work is eager: every error is stashed during the call, before any
/// value is read from the returned iterator, and dropping that iterator
/// unread leaves the errors in the stash.
pub trait StashErrorsIter<T, W, E, S: ErrorStash<E, W>>: Sized {
    /// The values of the successful results, in order.
    spec fn successes(&self) -> Seq<T>;

    /// `errors` are the child errors that the failed results add to a stash.
    spec fn stashes_as(&self, errors: Seq<E>) -> bool;

    /// Collects the errors of the failed results into `stash`, in order, at
    /// once, and returns an iterator over the values of the successful
    /// results, in order. All errors are in the stash when this returns,
    /// whether or not the values are read.
    fn stash_errors(self, stash: &mut S) -> (it: std::vec::IntoIter<T>)
        ensures
            exists|values: Vec<T>| values@ == self.successes() && it == spec_into_iter(values),
            exists|errors: Seq<E>|
                {
                    &&& self.stashes_as(errors)
                    &&& final(stash).stashed() == old(stash).stashed() + errors
                    &&& old(stash).same_config(final(stash))
                },
    ;
}

impl<T, W, E, FE, S> StashErrorsIter<T, W, E, S> for Vec<Result<T, FE>> where
    E: From<FE>,
    S: ErrorStash<E, W>,
 {
    open spec fn successes(&self) -> Seq<T> {
        ok_values(self@)
    }

    open spec fn stashes_as(&self, errors: Seq<E>) -> bool {
        converted_errors(self@, errors)
    }

    fn stash_errors(self, stash: &mut S) -> (it: std::vec::IntoIter<T>) {
        let ghost results = self@;
        let _len: usize = self.len();
        let ghost start = *stash;
        let mut values: Vec<T> = Vec::new();
        let ghost mut errors: Seq<E> = Seq::empty();
        proof {
            stash.lemma_same_config_reflexive();
        }
        let mut i: usize = 0;
        let mut rest = reversed(self);
        while rest.len() > 0
            invariant
                i + rest@.len() == results.len(),
                results.len() <= usize::MAX,
                forall|k: int| 0 <= k < rest@.len() ==> #[trigger] rest@[k] == results[results.len() - 1 - k],
                values@ == ok_values(results.take(i as int)),
                converted_errors(results.take(i as int), errors),
                stash.stashed() == start.stashed() + errors,
                start.same_config(stash),
            decreases rest@.len(),
        {
            let ghost last_index = rest@.len() - 1;
            let r = rest.pop().unwrap();
            let ghost prev_errors = errors;
            proof {
                assert(r == results[i as int]);
                assert(results.take(i + 1).drop_last() =~= results.take(i as int));
                assert(results.take(i + 1).last() == results[i as int]);
            }
            match r {
                Ok(v) => {
                    values.push(v);
                },
                Err(fe) => {
                    let e: E = fe.into();
                    let ghost pushed = e;
                    let ghost before = *stash;
                    let errs = stash.mut_errors();
                    errs.push(e);
                    proof {
                        start.lemma_same_config_transitive(&before, stash);
                    }
                    proof {
                        errors = errors.push(pushed);
                        assert(errors.drop_last() =~= prev_errors);
                        assert(stash.stashed() =~= start.stashed() + errors);
                    }
                },
            }
            i = i + 1;
        }
        proof {
            assert(results.take(i as int) =~= results);
        }
        values.into_iter()
    }
}

} // verus!
