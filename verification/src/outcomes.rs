//! A sequence of outcomes taken together: all of them, or the first failure.
use vstd::prelude::*;

verus! {

/// The values of `outcomes` in order when each is `Ok`, and else the error
/// of the first that is not.
pub open spec fn all_or_first_error<T, E>(outcomes: Seq<Result<T, E>>) -> Result<Seq<T>, E>
    decreases outcomes.len(),
{
    if outcomes.len() == 0 {
        Ok(Seq::empty())
    } else {
        match all_or_first_error(outcomes.drop_last()) {
            Err(error) => Err(error),
            Ok(values) => match outcomes.last() {
                Err(error) => Err(error),
                Ok(value) => Ok(values.push(value)),
            },
        }
    }
}

/// Where every outcome is `Ok`, the whole is `Ok`, with one value for each
/// outcome and in the same order.
pub proof fn lemma_all_ok<T, E>(outcomes: Seq<Result<T, E>>)
    requires
        forall|i: int| 0 <= i < outcomes.len() ==> outcomes[i] is Ok,
    ensures
        all_or_first_error(outcomes) matches Ok(values) && values.len() == outcomes.len()
            && forall|i: int| 0 <= i < outcomes.len() ==> outcomes[i] == Ok::<T, E>(values[i]),
    decreases outcomes.len(),
{
    if outcomes.len() > 0 {
        let before = outcomes.drop_last();
        assert forall|i: int| 0 <= i < before.len() implies before[i] is Ok by {
            assert(before[i] == outcomes[i]);
        }
        lemma_all_ok(before);
        let values = all_or_first_error(outcomes)->Ok_0;
        assert forall|i: int| 0 <= i < outcomes.len() implies outcomes[i] == Ok::<T, E>(
            values[i],
        ) by {
            if i < before.len() {
                assert(before[i] == outcomes[i]);
            }
        }
    }
}

/// Where an outcome fails and none before it does, the whole fails with
/// that error, whatever comes after.
pub proof fn lemma_first_error<T, E>(outcomes: Seq<Result<T, E>>, at: int)
    requires
        0 <= at < outcomes.len(),
        outcomes[at] is Err,
        forall|i: int| 0 <= i < at ==> outcomes[i] is Ok,
    ensures
        all_or_first_error(outcomes) == Err::<Seq<T>, E>(outcomes[at]->Err_0),
    decreases outcomes.len(),
{
    let before = outcomes.drop_last();
    assert forall|i: int| 0 <= i < before.len() implies before[i] == outcomes[i] by {}
    if at == outcomes.len() - 1 {
        lemma_all_ok(before);
    } else {
        lemma_first_error(before, at);
    }
}

/// The whole is `Ok` only where every outcome is.
pub proof fn lemma_ok_means_all_ok<T, E>(outcomes: Seq<Result<T, E>>)
    requires
        all_or_first_error(outcomes) is Ok,
    ensures
        forall|i: int| 0 <= i < outcomes.len() ==> outcomes[i] is Ok,
    decreases outcomes.len(),
{
    if outcomes.len() > 0 {
        let before = outcomes.drop_last();
        lemma_ok_means_all_ok(before);
        assert forall|i: int| 0 <= i < outcomes.len() implies outcomes[i] is Ok by {
            if i < before.len() {
                assert(before[i] == outcomes[i]);
            }
        }
    }
}

/// Where the first outcomes fail together, so do all of them, and with the
/// same error.
pub proof fn lemma_prefix_failure<T, E>(outcomes: Seq<Result<T, E>>, length: int)
    requires
        0 <= length <= outcomes.len(),
        all_or_first_error(outcomes.take(length)) is Err,
    ensures
        all_or_first_error(outcomes) == Err::<Seq<T>, E>(
            all_or_first_error(outcomes.take(length))->Err_0,
        ),
    decreases outcomes.len() - length,
{
    if length == outcomes.len() {
        assert(outcomes.take(length) =~= outcomes);
    } else {
        assert(outcomes.take(length + 1).drop_last() =~= outcomes.take(length));
        lemma_prefix_failure(outcomes, length + 1);
    }
}

} // verus!
