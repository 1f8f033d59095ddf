//! Splitting the outcomes of a batch into what succeeded and what failed.

use vstd::prelude::*;

verus! {

/// Picks the value of a success.
pub open spec fn ok_of<T, E>() -> spec_fn(Result<T, E>) -> Option<T> {
    |result: Result<T, E>|
        match result {
            Ok(value) => Some(value),
            Err(_) => None,
        }
}

/// Picks the error of a failure.
pub open spec fn err_of<T, E>() -> spec_fn(Result<T, E>) -> Option<E> {
    |result: Result<T, E>|
        match result {
            Ok(_) => None,
            Err(error) => Some(error),
        }
}

/// The values of the successes among `results`, in their order.
pub open spec fn successes<T, E>(results: Seq<Result<T, E>>) -> Seq<T> {
    results.filter_map(ok_of::<T, E>())
}

/// The errors of the failures among `results`, in their order.
pub open spec fn failures<T, E>(results: Seq<Result<T, E>>) -> Seq<E> {
    results.filter_map(err_of::<T, E>())
}

/// Splits outcomes into the values of the successes and the errors of the
/// failures. Each part keeps the order of the outcomes.
pub fn partition_results<T, E>(results: Vec<Result<T, E>>) -> (parts: (Vec<T>, Vec<E>))
    ensures
        parts.0@ == successes(results@),
        parts.1@ == failures(results@),
{
    let mut oks: Vec<T> = Vec::new();
    let mut errs: Vec<E> = Vec::new();
    for result in it: results
        invariant
            it.seq() == results@,
            oks@ == successes(it.seq().take(it.index() as int)),
            errs@ == failures(it.seq().take(it.index() as int)),
    {
        proof {
            it.seq().lemma_filter_map_take_succ(ok_of::<T, E>(), it.index() as int);
            it.seq().lemma_filter_map_take_succ(err_of::<T, E>(), it.index() as int);
        }
        match result {
            Ok(value) => oks.push(value),
            Err(error) => errs.push(error),
        }
    }
    assert(results@.take(results@.len() as int) =~= results@);
    (oks, errs)
}

/// Reads a success with `f` and a failure with `g`.
pub open spec fn either<T, E, X>(f: spec_fn(T) -> X, g: spec_fn(E) -> X) -> spec_fn(
    Result<T, E>,
) -> X {
    |result: Result<T, E>|
        match result {
            Ok(value) => f(value),
            Err(error) => g(error),
        }
}

/// Every outcome lands in exactly one part. Whatever is read off the
/// successes with `f` and off the failures with `g`, the two parts
/// together give what the batch gives, each reading as often as it occurs.
pub proof fn lemma_partition_covers<T, E, X>(
    results: Seq<Result<T, E>>,
    f: spec_fn(T) -> X,
    g: spec_fn(E) -> X,
)
    ensures
        successes(results).len() + failures(results).len() == results.len(),
        successes(results).map_values(f).to_multiset().add(
            failures(results).map_values(g).to_multiset(),
        ) == results.map_values(either(f, g)).to_multiset(),
    decreases results.len(),
{
    broadcast use vstd::seq_lib::group_to_multiset_ensures;

    let all = results.map_values(either(f, g));
    if results.len() == 0 {
        assert(successes(results).map_values(f) =~= Seq::empty());
        assert(failures(results).map_values(g) =~= Seq::empty());
        assert(all =~= Seq::empty());
    } else {
        let rest = results.drop_last();
        let last = results.last();
        lemma_partition_covers(rest, f, g);
        assert(all =~= rest.map_values(either(f, g)).push(either(f, g)(last)));
        match last {
            Ok(value) => {
                assert(successes(results).map_values(f) =~= successes(rest).map_values(f).push(
                    f(value),
                ));
            },
            Err(error) => {
                assert(failures(results).map_values(g) =~= failures(rest).map_values(g).push(
                    g(error),
                ));
            },
        }
        assert(successes(results).map_values(f).to_multiset().add(
            failures(results).map_values(g).to_multiset(),
        ) =~= all.to_multiset());
    }
}

/// Put back together, the two parts hold what the batch held: each
/// outcome lands in exactly one part, none is lost and none is doubled.
pub proof fn lemma_partition_complete<T, E>(results: Seq<Result<T, E>>)
    ensures
        successes(results).len() + failures(results).len() == results.len(),
        successes(results).map_values(|value: T| Ok::<T, E>(value)).to_multiset().add(
            failures(results).map_values(|error: E| Err::<T, E>(error)).to_multiset(),
        ) == results.to_multiset(),
{
    let wrap_ok = |value: T| Ok::<T, E>(value);
    let wrap_err = |error: E| Err::<T, E>(error);
    lemma_partition_covers(results, wrap_ok, wrap_err);
    assert(results.map_values(either(wrap_ok, wrap_err)) =~= results);
}

} // verus!
