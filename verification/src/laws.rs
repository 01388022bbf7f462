//! Properties of the library that span several functions.
use std::borrow::Cow;
use vstd::prelude::*;

use crate::error_list::bullet_lines;
use crate::error_list::list_text;
use crate::error_list::ErrorList;
use crate::error_list::ErrorText;
use crate::string_stash::StringError;
use crate::string_stash::StringStash;
use crate::error_list::ErrorSummary;
use crate::error_list::DEFAULT_SUMMARY;
use crate::boxed_stash::BoxedStash;
use crate::error_stash::StashableResult;
use crate::error_stash::converted_errors;
use crate::error_stash::ok_values;
use crate::summary_text::decimal;
use crate::summary_text::fill_count;
use crate::summary_text::first_placeholder_from;
use crate::summary_text::placeholder;
use crate::summary_text::placeholder_at;

verus! {

/// The errors of the failed results, in order.
pub open spec fn err_values<T, E>(results: Seq<Result<T, E>>) -> Seq<E>
    decreases results.len(),
{
    if results.len() == 0 {
        Seq::empty()
    } else {
        let rest = err_values(results.drop_last());
        match results.last() {
            Ok(_) => rest,
            Err(e) => rest.push(e),
        }
    }
}

/// What `or_stash` into a `BoxedStash<E>` gives, applied to each result in
/// turn: `values` are the returned values that are `Some`, in order, and
/// `errors` what the failed results add to the stash, in order.
pub open spec fn or_stash_each<T, FE, E: From<FE>>(
    results: Seq<Result<T, FE>>,
    values: Seq<T>,
    errors: Seq<E>,
) -> bool
    decreases results.len(),
{
    if results.len() == 0 {
        values.len() == 0 && errors.len() == 0
    } else {
        let r = results.last();
        match <Result<T, FE> as StashableResult<T, E, ErrorList<E>, BoxedStash<E>>>::success(&r) {
            Some(v) => {
                &&& values.len() > 0
                &&& values.last() == v
                &&& or_stash_each(results.drop_last(), values.drop_last(), errors)
            },
            None => {
                &&& errors.len() > 0
                &&& <Result<T, FE> as StashableResult<
                    T,
                    E,
                    ErrorList<E>,
                    BoxedStash<E>,
                >>::stashes_as(&r, seq![errors.last()])
                &&& or_stash_each(results.drop_last(), values, errors.drop_last())
            },
        }
    }
}

/// Calling `or_stash` on each result in turn (as `filter_map` does) keeps the
/// same values and collects the same errors as `stash_errors` on the whole
/// sequence.
pub proof fn law_or_stash_each_is_stash_errors<T, FE, E: From<FE>>(
    results: Seq<Result<T, FE>>,
    values: Seq<T>,
    errors: Seq<E>,
)
    ensures
        or_stash_each(results, values, errors) <==> (values == ok_values(results)
            && converted_errors(results, errors)),
    decreases results.len(),
{
    if results.len() > 0 {
        let r = results.last();
        match r {
            Ok(v) => {
                law_or_stash_each_is_stash_errors(results.drop_last(), values.drop_last(), errors);
                let before = ok_values(results.drop_last());
                assert(ok_values(results) == before.push(v));
                if values.len() > 0 {
                    if values.drop_last() == before && values.last() == v {
                        assert(values =~= before.push(v));
                    }
                    if values == before.push(v) {
                        assert(values.drop_last() =~= before);
                    }
                }
            },
            Err(fe) => {
                law_or_stash_each_is_stash_errors(results.drop_last(), values, errors.drop_last());
                assert(ok_values(results) == ok_values(results.drop_last()));
                if errors.len() > 0 {
                    assert(seq![errors.last()][0] == errors.last());
                    assert(seq![errors.last()].len() == 1);
                }
            },
        }
    } else {
        if values.len() == 0 {
            assert(values =~= Seq::<T>::empty());
        }
    }
}

/// Stashing the errors of a sequence of results puts every result in exactly
/// one place: its value among the produced values, or its error in the stash.
pub proof fn law_stash_errors_partitions<T, FE, E: From<FE>>(
    results: Seq<Result<T, FE>>,
    errors: Seq<E>,
)
    requires
        converted_errors(results, errors),
    ensures
        ok_values(results).len() + errors.len() == results.len(),
    decreases results.len(),
{
    if results.len() > 0 {
        match results.last() {
            Ok(_) => law_stash_errors_partitions(results.drop_last(), errors),
            Err(_) => law_stash_errors_partitions(results.drop_last(), errors.drop_last()),
        }
    }
}

/// Stashing the errors of two sequences of results one after the other
/// produces the same values and collects the same errors as stashing the errors
/// of the two sequences joined.
pub proof fn law_stash_errors_in_chunks<T, FE, E: From<FE>>(
    a: Seq<Result<T, FE>>,
    b: Seq<Result<T, FE>>,
    ea: Seq<E>,
    eb: Seq<E>,
)
    requires
        converted_errors(a, ea),
        converted_errors(b, eb),
    ensures
        ok_values(a + b) == ok_values(a) + ok_values(b),
        converted_errors(a + b, ea + eb),
    decreases b.len(),
{
    if b.len() == 0 {
        assert(a + b =~= a);
        assert(ea + eb =~= ea);
        assert(ok_values(a) + ok_values(b) =~= ok_values(a));
    } else {
        let b0 = b.drop_last();
        assert((a + b).drop_last() =~= a + b0);
        assert((a + b).last() == b.last());
        match b.last() {
            Ok(v) => {
                law_stash_errors_in_chunks(a, b0, ea, eb);
                assert(ok_values(a) + ok_values(b) =~= (ok_values(a) + ok_values(b0)).push(v));
            },
            Err(_) => {
                let eb0 = eb.drop_last();
                law_stash_errors_in_chunks(a, b0, ea, eb0);
                assert((ea + eb).drop_last() =~= ea + eb0);
                assert((ea + eb).last() == eb.last());
                assert(ok_values(a) + ok_values(b) =~= ok_values(a) + ok_values(b0));
            },
        }
    }
}

/// When the results already hold the stash's own child error type, stashing
/// their errors collects exactly those errors, in order.
pub proof fn law_stash_errors_keeps_own_errors<T, E>(results: Seq<Result<T, E>>, errors: Seq<E>)
    requires
        converted_errors(results, errors),
    ensures
        errors == err_values(results),
    decreases results.len(),
{
    if results.len() > 0 {
        match results.last() {
            Ok(_) => law_stash_errors_keeps_own_errors(results.drop_last(), errors),
            Err(e) => {
                law_stash_errors_keeps_own_errors(results.drop_last(), errors.drop_last());
                assert(errors.last() == e);
                assert(errors =~= errors.drop_last().push(e));
            },
        }
    }
}

/// A list made under the fixed summary `summary` renders its summary line
/// from `summary` alone, counting its errors: by the contract of
/// `ErrorList::summary`, the line is `summary` with its first `{count}`
/// placeholder replaced by the number of errors.
pub proof fn law_fixed_summary_line<E>(w: ErrorList<E>, errors: Seq<E>, summary: &'static str)
    requires
        w.is_list_of(errors, summary),
    ensures
        forall|t: Seq<char>| #[trigger] w.summary_spec().yields(t) <==> t == summary@,
        w.summary_spec().counted() == errors.len() as usize,
{
}

/// The default summary line reads "Encountered N errors:", N being the
/// number of errors.
pub proof fn law_default_summary_line(n: nat)
    ensures
        fill_count(DEFAULT_SUMMARY@, n) == "Encountered "@ + decimal(n) + " errors:"@,
{
    reveal_strlit("Encountered {count} errors:");
    reveal_strlit("Encountered ");
    reveal_strlit(" errors:");
    let t = DEFAULT_SUMMARY@;
    assert(t.len() == 27);
    assert forall|k: int| 0 <= k < 12 implies !placeholder_at(t, k) by {
        if placeholder_at(t, k) {
            assert(t.subrange(k, k + 7)[0] == t[k]);
            assert(t.subrange(k, k + 7)[0] == placeholder()[0]);
        }
    }
    assert(t.subrange(12, 19) =~= placeholder());
    assert(placeholder_at(t, 12));
    assert forall|k: int| 0 <= k <= 12 implies first_placeholder_from(t, k) == Some(12int) by {
        lemma_first_from_reaches(t, k, 12);
    }
    assert(t.take(12) =~= "Encountered "@);
    assert(t.skip(19) =~= " errors:"@);
}

/// A copy of a list renders its summary line from a fixed line, one that the
/// original could render: a summary closure is not asked again when the copy
/// renders. When the original's summary yields a single template (a fixed
/// line, or a closure that always returns the same line), the copy renders
/// the very same summary line as the original. The copy's errors are clones
/// of the original's, in the same order.
pub proof fn law_copy_keeps_summary_line<T: Clone>(
    list: ErrorList<T>,
    copy: ErrorList<T>,
    line: Seq<char>,
)
    requires
        copy.copied_from(&list),
        copy.summary_line(line),
    ensures
        copy.summary_spec() is Static,
        list.summary_line(line),
        list.summary_spec().single_template() ==> forall|other: Seq<char>|
            #[trigger] list.summary_line(other) ==> other == line,
        copy.items().len() == list.items().len(),
        forall|i: int|
            0 <= i < list.items().len() ==> cloned::<T>(list.items()[i], #[trigger] copy.items()[i]),
{
    let t = copy.summary_spec()->Static_0@;
    assert(list.summary_spec().yields(t));
    assert forall|other: Seq<char>|
        list.summary_spec().single_template() && #[trigger] list.summary_line(other) implies other == line by {
        let u = choose|u: Seq<char>|
            list.summary_spec().yields(u) && other == fill_count(u, list.summary_spec().counted() as nat);
        assert(list.summary_spec().yields(u) && list.summary_spec().yields(t));
    }
}

/// The text of a list is its summary line, a line break, then one line per
/// error, each made of `- `, a text of that error and a line break, in the
/// order of the errors. When the summary yields a single template (a fixed
/// line, or a closure that always returns the same line), that summary line
/// is the one `ErrorList::summary` renders.
pub proof fn law_list_text_is_summary_then_lines<T: ErrorText>(
    list: ErrorList<T>,
    text: Seq<char>,
    line: Seq<char>,
)
    requires
        list.renders(text),
        list.summary_line(line),
        list.summary_spec().single_template(),
    ensures
        exists|lines: Seq<Seq<char>>|
            {
                &&& lines.len() == list.items().len()
                &&& forall|i: int| 0 <= i < lines.len() ==> #[trigger] list.items()[i].shows(lines[i])
                &&& text == line + seq!['\n'] + bullet_lines(lines)
            },
{
    let n = list.summary_spec().counted() as nat;
    let (t, lines) = choose|t: Seq<char>, lines: Seq<Seq<char>>|
        {
            &&& list.summary_spec().yields(t)
            &&& lines.len() == list.items().len()
            &&& forall|i: int| 0 <= i < lines.len() ==> #[trigger] list.items()[i].shows(lines[i])
            &&& text == list_text(fill_count(t, n), lines)
        };
    let u = choose|u: Seq<char>| list.summary_spec().yields(u) && line == fill_count(u, n);
    assert(list.summary_spec().yields(t) && list.summary_spec().yields(u));
    assert(t == u);
    assert(text == line + seq!['\n'] + bullet_lines(lines));
}

/// A failed result whose error is a list of `StringError`s adds to a
/// `StringStash` exactly one error per child of the list, in order, each
/// holding the text of that child: the list is taken apart and its summary
/// line dropped, whatever its length.
pub proof fn law_string_error_lists_taken_apart<T>(
    r: Result<T, ErrorList<StringError>>,
    errors: Seq<StringError>,
)
    requires
        <Result<T, ErrorList<StringError>> as StashableResult<
            T,
            StringError,
            ErrorList<StringError>,
            StringStash,
        >>::stashes_as(&r, errors),
    ensures
        r is Err,
        errors.len() == r->Err_0.items().len(),
        forall|k: int| 0 <= k < errors.len() ==> #[trigger] errors[k]@ == r->Err_0.items()[k]@,
{
    let list = r->Err_0;
    assert forall|k: int| 0 <= k < errors.len() implies #[trigger] errors[k]@ == list.items()[k]@ by {
        assert(list.items()[k].shows(errors[k]@));
    }
}

/// When no placeholder starts between `k` and `i`, and one starts at `i`, the
/// search from `k` finds it at `i`.
proof fn lemma_first_from_reaches(t: Seq<char>, k: int, i: int)
    requires
        0 <= k <= i,
        placeholder_at(t, i),
        forall|j: int| k <= j < i ==> !placeholder_at(t, j),
    ensures
        first_placeholder_from(t, k) == Some(i),
    decreases i - k,
{
    if k < i {
        lemma_first_from_reaches(t, k + 1, i);
    }
}

} // verus!
