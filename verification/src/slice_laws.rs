//! Which data slices are accepted, and what is left of data that is sliced.

use crate::bindings::varint;
use crate::data_slice::{
    all_fit, each_range, encoded_field, out_of_order_at, overlap_at, picked, ranges_of,
    requested_ranges, sliceable, sliced, SubscribeRequestAccountsDataSlice,
};
use crate::error::{lemma_collected, FilterError};
use crate::limits::FilterLimitsCheckError;
use crate::request_laws::lemma_first_error;
use std::ops::Range;
use vstd::prelude::*;

verus! {

/// Data slices are accepted exactly where they are not too many and each ends before the next ones
/// start. Else the reason is their number or, with a number that is allowed, given by the first
/// slice that starts behind a later one or within an earlier one, in this order.
pub proof fn lemma_slices_accepted(
    slices: Seq<SubscribeRequestAccountsDataSlice>,
    max: usize,
    k: int,
)
    requires
        forall|i: int|
            0 <= i < slices.len() ==> (#[trigger] slices[i]).offset + slices[i].length
                <= usize::MAX,
    ensures
        ({
            let r = requested_ranges(slices, max);
            let fine_before = forall|a: int, b: int|
                0 <= a < b < slices.len() && a < k ==> {
                    &&& (#[trigger] slices[a]).offset <= (#[trigger] slices[b]).offset
                    &&& b < k ==> slices[a].offset + slices[a].length <= slices[b].offset
                };
            let behind_later = exists|b: int|
                k < b < slices.len() && (#[trigger] slices[b]).offset < slices[k].offset;
            let within_earlier = exists|a: int|
                0 <= a < k && slices[k].offset < (#[trigger] slices[a]).offset + slices[a].length;
            &&& r is Ok <==> slices.len() <= max && forall|a: int, b: int|
                0 <= a < b < slices.len() ==> (#[trigger] slices[a]).offset + slices[a].length <= (
                #[trigger] slices[b]).offset
            &&& slices.len() > max ==> r is Err && r->Err_0 == FilterError::LimitsCheck(
                FilterLimitsCheckError::Max { max },
            )
            &&& slices.len() <= max && 0 <= k < slices.len() && fine_before ==> {
                &&& behind_later ==> r is Err && r->Err_0 == FilterError::CreateDataSliceOutOfOrder
                &&& !behind_later && within_earlier ==> r is Err && r->Err_0
                    == FilterError::CreateDataSliceOverlap
            }
        }),
{
    let ranges = ranges_of(slices);
    let results = each_range(ranges);
    lemma_collected(results);
    assert forall|i: int| 0 <= i < slices.len() implies (#[trigger] ranges[i]).start
        == slices[i].offset && ranges[i].end == slices[i].offset + slices[i].length by {}
    if forall|a: int, b: int|
        0 <= a < b < slices.len() ==> (#[trigger] slices[a]).offset + slices[a].length <= (
        #[trigger] slices[b]).offset {
        assert forall|i: int| 0 <= i < results.len() implies (#[trigger] results[i]) is Ok by {
            if out_of_order_at(ranges, i) {
                let j = choose|j: int|
                    i < j < ranges.len() && ranges[i].start > (#[trigger] ranges[j]).start;
                assert(slices[i].offset + slices[i].length <= slices[j].offset);
            }
            if overlap_at(ranges, i) {
                let j = choose|j: int|
                    0 <= j < i && ranges[i].start < (#[trigger] ranges[j]).end;
                assert(slices[j].offset + slices[j].length <= slices[i].offset);
            }
        }
    }
    if requested_ranges(slices, max) is Ok {
        assert forall|a: int, b: int| 0 <= a < b < slices.len() implies (
        #[trigger] slices[a]).offset + slices[a].length <= (#[trigger] slices[b]).offset by {
            assert(results[b] is Ok);
            assert(!overlap_at(ranges, b));
            assert(ranges[a].end <= ranges[b].start);
        }
    }
    if 0 <= k < slices.len() && forall|a: int, b: int|
        0 <= a < b < slices.len() && a < k ==> {
            &&& (#[trigger] slices[a]).offset <= (#[trigger] slices[b]).offset
            &&& b < k ==> slices[a].offset + slices[a].length <= slices[b].offset
        } {
        assert forall|j: int| 0 <= j < k implies (#[trigger] results[j]) is Ok by {
            if out_of_order_at(ranges, j) {
                let b = choose|b: int|
                    j < b < ranges.len() && ranges[j].start > (#[trigger] ranges[b]).start;
                assert(slices[j].offset <= slices[b].offset);
            }
            if overlap_at(ranges, j) {
                let a = choose|a: int|
                    0 <= a < j && ranges[j].start < (#[trigger] ranges[a]).end;
                assert(slices[a].offset + slices[a].length <= slices[j].offset);
            }
        }
        if exists|b: int|
            k < b < slices.len() && (#[trigger] slices[b]).offset < slices[k].offset {
            let b = choose|b: int|
                k < b < slices.len() && (#[trigger] slices[b]).offset < slices[k].offset;
            assert(ranges[k].start > ranges[b].start);
            assert(out_of_order_at(ranges, k));
            lemma_first_error(results, k);
        } else if exists|a: int|
            0 <= a < k && slices[k].offset < (#[trigger] slices[a]).offset + slices[a].length {
            let a = choose|a: int|
                0 <= a < k && slices[k].offset < (#[trigger] slices[a]).offset + slices[a].length;
            assert(ranges[k].start < ranges[a].end);
            assert(overlap_at(ranges, k));
            if out_of_order_at(ranges, k) {
                let j = choose|j: int|
                    k < j < ranges.len() && ranges[k].start > (#[trigger] ranges[j]).start;
                assert(slices[j].offset < slices[k].offset);
            }
            lemma_first_error(results, k);
        }
    }
}

/// Without ranges all of the data is left. Of one range its bytes are left where it lies within
/// the data, and nothing where it reaches past its end.
pub proof fn lemma_one_range_slices(range: Range<usize>, source: Seq<u8>)
    requires
        range.start <= range.end,
    ensures
        sliced(Seq::empty(), source) == source,
        ({
            let left = sliced(seq![range], source);
            &&& range.end > source.len() ==> left.len() == 0
            &&& range.end <= source.len() ==> {
                &&& left.len() == range.end - range.start
                &&& forall|n: int|
                    0 <= n < left.len() ==> #[trigger] left[n] == source[range.start + n]
            }
        }),
{
    reveal_with_fuel(picked, 2);
    assert(seq![range].drop_last() =~= Seq::<Range<usize>>::empty());
}

/// What ranges leave of data is what the first of them leave and then what the others do.
pub proof fn lemma_ranges_slice_one_after_the_other(
    ranges: Seq<Range<usize>>,
    more: Seq<Range<usize>>,
    source: Seq<u8>,
)
    requires
        ranges.len() > 0,
        more.len() > 0,
    ensures
        sliced(ranges + more, source) == sliced(ranges, source) + sliced(more, source),
{
    lemma_picked_one_after_the_other(ranges, more, source);
}

proof fn lemma_picked_one_after_the_other(
    ranges: Seq<Range<usize>>,
    more: Seq<Range<usize>>,
    source: Seq<u8>,
)
    ensures
        picked(ranges + more, source) == picked(ranges, source) + picked(more, source),
    decreases more.len(),
{
    if more.len() == 0 {
        assert(ranges + more =~= ranges);
        assert(picked(ranges, source) + picked(more, source) =~= picked(ranges, source));
    } else {
        let rest = more.drop_last();
        lemma_picked_one_after_the_other(ranges, rest, source);
        assert((ranges + more).drop_last() =~= ranges + rest);
        assert((ranges + more).last() == more.last());
        assert(picked(ranges + more, source) =~= picked(ranges, source) + picked(more, source));
    }
}

/// Data can be sliced by every range that does not run backwards.
pub proof fn lemma_forward_range_slices(range: Range<usize>, source: Seq<u8>)
    requires
        range.start <= range.end,
        source.len() <= usize::MAX,
    ensures
        sliceable(Seq::empty(), source),
        sliceable(seq![range], source),
{
    lemma_one_range_slices(range, source);
    assert(seq![range][0] == range);
}

/// A field without bytes is not written. Every other is written as its key, which tells its number
/// and that it has a length, then the number of its bytes, then the bytes themselves.
pub proof fn lemma_field_is_written_in_full(tag: u32, bytes: Seq<u8>)
    ensures
        bytes.len() == 0 ==> encoded_field(tag, bytes).len() == 0,
        bytes.len() > 0 ==> {
            let written = encoded_field(tag, bytes);
            let key = varint((tag * 8 + 2) as nat);
            let count = varint(bytes.len());
            &&& written.len() == key.len() + count.len() + bytes.len()
            &&& written.take(key.len() as int) == key
            &&& written.subrange(key.len() as int, (key.len() + count.len()) as int) == count
            &&& written.skip((key.len() + count.len()) as int) == bytes
        },
{
    if bytes.len() > 0 {
        let written = encoded_field(tag, bytes);
        let key = varint((tag * 8 + 2) as nat);
        let count = varint(bytes.len());
        assert(written.take(key.len() as int) =~= key);
        assert(written.subrange(key.len() as int, (key.len() + count.len()) as int) =~= count);
        assert(written.skip((key.len() + count.len()) as int) =~= bytes);
    }
}

/// Data can be sliced exactly where no range that lies within it runs backwards and what is left
/// has a length. The end of a slice can be stated where it is a number of sixty-four bits.
pub proof fn lemma_what_can_be_sliced(
    ranges: Seq<Range<usize>>,
    source: Seq<u8>,
    slices: Seq<SubscribeRequestAccountsDataSlice>,
)
    requires
        ranges.len() > 0,
    ensures
        sliceable(ranges, source) <==> {
            &&& forall|i: int|
                0 <= i < ranges.len() ==> (#[trigger] ranges[i]).end > source.len()
                    || ranges[i].start <= ranges[i].end
            &&& sliced(ranges, source).len() <= usize::MAX
        },
        all_fit(slices) <==> forall|i: int|
            0 <= i < slices.len() ==> (#[trigger] slices[i]).offset + slices[i].length
                < 0x1_0000_0000_0000_0000,
{
    assert forall|i: int| 0 <= i < slices.len() implies (#[trigger] slices[i]).fits() == (
    slices[i].offset + slices[i].length < 0x1_0000_0000_0000_0000) by {}
}

} // verus!
