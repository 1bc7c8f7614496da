//! The reasons for which a subscription is refused.

use crate::limits::FilterLimitsCheckError;
use crate::name::FilterNameError;
use crate::pubkey::{ParsePubkeyError, ParseSignatureError};
use vstd::prelude::*;

verus! {

#[derive(Debug, Clone, Copy)]
pub enum FilterError {
    Name(FilterNameError),
    LimitsCheck(FilterLimitsCheckError),
    InvalidCommitment { commitment: i32 },
    InvalidPubkey(ParsePubkeyError),
    InvalidSignature(ParseSignatureError),
    CreateAccountStateMaxFilters { max: usize },
    CreateAccountState(&'static str),
    CreateBlocksNotAllowed(&'static str),
    CreateDataSliceOutOfOrder,
    CreateDataSliceOverlap,
}

pub type FilterResult<T> = Result<T, FilterError>;

/// A result is what a specification says it is: the same error, or a value with the same view.
pub open spec fn agrees<T: View>(r: FilterResult<T>, wanted: FilterResult<T::V>) -> bool {
    match (r, wanted) {
        (Ok(value), Ok(view)) => value@ == view,
        (Err(e), Err(f)) => e == f,
        _ => false,
    }
}

/// The values of a list of results where none is an error, else the first error.
pub open spec fn collected<A>(results: Seq<FilterResult<A>>) -> FilterResult<Seq<A>>
    decreases results.len(),
{
    if results.len() == 0 {
        Ok(Seq::empty())
    } else {
        match (collected(results.drop_last()), results.last()) {
            (Err(e), _) => Err(e),
            (Ok(_), Err(e)) => Err(e),
            (Ok(values), Ok(value)) => Ok(values.push(value)),
        }
    }
}

/// What the first results collect to.
pub proof fn lemma_collected_step<A>(results: Seq<FilterResult<A>>, i: int)
    requires
        0 <= i < results.len(),
    ensures
        collected(results.take(i + 1)) == match (collected(results.take(i)), results[i]) {
            (Err(e), _) => Err::<Seq<A>, FilterError>(e),
            (Ok(_), Err(e)) => Err(e),
            (Ok(values), Ok(value)) => Ok(values.push(value)),
        },
{
    assert(results.take(i + 1).drop_last() =~= results.take(i));
}

/// An error among the first results is the error of all of them.
pub proof fn lemma_collected_error<A>(results: Seq<FilterResult<A>>, i: int)
    requires
        0 <= i <= results.len(),
        collected(results.take(i)) is Err,
    ensures
        collected(results) == collected(results.take(i)),
    decreases results.len() - i,
{
    if i < results.len() {
        lemma_collected_step(results, i);
        lemma_collected_error(results, i + 1);
    } else {
        assert(results.take(i) =~= results);
    }
}

/// Collecting succeeds where every result is a value, and then gives all values in their
/// order; else it gives the first error.
pub proof fn lemma_collected<A>(results: Seq<FilterResult<A>>)
    ensures
        match collected(results) {
            Ok(values) => {
                &&& values.len() == results.len()
                &&& forall|i: int|
                    0 <= i < results.len() ==> #[trigger] results[i] == Ok::<A, FilterError>(
                        values[i],
                    )
            },
            Err(e) => exists|i: int|
                {
                    &&& 0 <= i < results.len()
                    &&& #[trigger] results[i] == Err::<A, FilterError>(e)
                    &&& forall|j: int| 0 <= j < i ==> (#[trigger] results[j]) is Ok
                },
        },
    decreases results.len(),
{
    if results.len() > 0 {
        let rest = results.drop_last();
        lemma_collected(rest);
        assert forall|i: int| 0 <= i < rest.len() implies rest[i] == #[trigger] results[i] by {}
        match collected(rest) {
            Err(e) => {
                let i = choose|i: int|
                    {
                        &&& 0 <= i < rest.len()
                        &&& #[trigger] rest[i] == Err::<A, FilterError>(e)
                        &&& forall|j: int| 0 <= j < i ==> (#[trigger] rest[j]) is Ok
                    };
                assert(results[i] == Err::<A, FilterError>(e));
                assert forall|j: int| 0 <= j < i implies (#[trigger] results[j]) is Ok by {
                    assert(rest[j] is Ok);
                }
            },
            Ok(values) => {
                assert forall|j: int| 0 <= j < rest.len() implies (#[trigger] results[j]) == Ok::<
                    A,
                    FilterError,
                >(values[j]) by {
                    assert(rest[j] == results[j]);
                }
                assert(results[results.len() - 1] == results.last());
            },
        }
    }
}

} // verus!
