//! Slices of account data.

use crate::bindings::{put_length_delimited_key, put_slice, put_varint, share, share_items, varint};
use crate::error::{
    agrees, collected, lemma_collected, lemma_collected_error, lemma_collected_step, FilterError,
    FilterResult,
};
use crate::limits::{max_check, FilterLimits};
use std::ops::Range;
use std::sync::Arc;
use vstd::prelude::*;

verus! {

/// A slice of account data, as a request states it.
#[derive(Debug, Clone, Copy, PartialEq, Eq)]
pub struct SubscribeRequestAccountsDataSlice {
    pub offset: u64,
    pub length: u64,
}

impl SubscribeRequestAccountsDataSlice {
    /// The range of bytes that the slice stands for.
    pub open spec fn range(self) -> Range<usize> {
        Range { start: self.offset as usize, end: (self.offset + self.length) as usize }
    }

    /// The end of the slice is a number that a request can state.
    pub open spec fn fits(self) -> bool {
        self.offset + self.length <= u64::MAX
    }

    /// The slice ends at a position that can be addressed.
    pub open spec fn addressable(self) -> bool {
        self.offset + self.length <= usize::MAX
    }
}

/// The end of every slice is a number that a request can state.
pub open spec fn all_fit(slices: Seq<SubscribeRequestAccountsDataSlice>) -> bool {
    forall|i: int| 0 <= i < slices.len() ==> (#[trigger] slices[i]).fits()
}

/// Tells whether the end of every slice is a number that a request can state.
pub fn check_all_fit(slices: &[SubscribeRequestAccountsDataSlice]) -> (r: bool)
    ensures
        r == all_fit(slices@),
{
    let mut i: usize = 0;
    while i < slices.len()
        invariant
            i <= slices@.len(),
            forall|j: int| 0 <= j < i ==> (#[trigger] slices@[j]).fits(),
        decreases slices@.len() - i,
    {
        if slices[i].offset.checked_add(slices[i].length).is_none() {
            assert(!slices@[i as int].fits());
            return false;
        }
        i += 1;
    }
    true
}

/// The bytes that the ranges pick out of `source`, in the order of the ranges. A range that
/// reaches past the end of `source` picks nothing.
pub open spec fn picked(ranges: Seq<Range<usize>>, source: Seq<u8>) -> Seq<u8>
    decreases ranges.len(),
{
    if ranges.len() == 0 {
        Seq::empty()
    } else {
        let rest = picked(ranges.drop_last(), source);
        let range = ranges.last();
        if range.end <= source.len() {
            rest + source.subrange(range.start as int, range.end as int)
        } else {
            rest
        }
    }
}

/// What is left of `source`: all of it where there is no range, else what the ranges pick.
pub open spec fn sliced(ranges: Seq<Range<usize>>, source: Seq<u8>) -> Seq<u8> {
    if ranges.len() == 0 {
        source
    } else {
        picked(ranges, source)
    }
}

/// Slicing `source` is possible: no range that lies within it runs backwards, and the result
/// has a length.
pub open spec fn sliceable(ranges: Seq<Range<usize>>, source: Seq<u8>) -> bool {
    &&& forall|i: int|
        0 <= i < ranges.len() && (#[trigger] ranges[i]).end <= source.len() ==> ranges[i].start
            <= ranges[i].end
    &&& picked(ranges, source).len() <= usize::MAX
}

/// A later range starts before range `i` does.
pub open spec fn out_of_order_at(ranges: Seq<Range<usize>>, i: int) -> bool {
    exists|j: int| i < j < ranges.len() && ranges[i].start > (#[trigger] ranges[j]).start
}

/// Range `i` starts before the end of an earlier range.
pub open spec fn overlap_at(ranges: Seq<Range<usize>>, i: int) -> bool {
    exists|j: int| 0 <= j < i && ranges[i].start < (#[trigger] ranges[j]).end
}

/// The ranges of a request.
pub open spec fn ranges_of(slices: Seq<SubscribeRequestAccountsDataSlice>) -> Seq<Range<usize>> {
    slices.map_values(|s: SubscribeRequestAccountsDataSlice| s.range())
}

/// What becomes of each range.
pub open spec fn each_range(ranges: Seq<Range<usize>>) -> Seq<FilterResult<Range<usize>>> {
    Seq::new(
        ranges.len(),
        |i: int|
            if out_of_order_at(ranges, i) {
                Err(FilterError::CreateDataSliceOutOfOrder)
            } else if overlap_at(ranges, i) {
                Err(FilterError::CreateDataSliceOverlap)
            } else {
                Ok(ranges[i])
            },
    )
}

/// The ranges that a request asks for.
pub open spec fn requested_ranges(
    slices: Seq<SubscribeRequestAccountsDataSlice>,
    limits: usize,
) -> FilterResult<Seq<Range<usize>>> {
    if let Err(e) = max_check(slices.len() as int, limits) {
        Err(FilterError::LimitsCheck(e))
    } else {
        collected(each_range(ranges_of(slices)))
    }
}

/// Each range ends before the next ones start.
pub open spec fn disjoint_in_order(ranges: Seq<Range<usize>>) -> bool {
    forall|i: int, j: int|
        0 <= i < j < ranges.len() ==> (#[trigger] ranges[i]).end <= (#[trigger] ranges[j]).start
}

/// Ranges that run forwards.
pub open spec fn forward(ranges: Seq<Range<usize>>) -> bool {
    forall|i: int| 0 <= i < ranges.len() ==> (#[trigger] ranges[i]).start <= ranges[i].end
}

proof fn lemma_picked_step(ranges: Seq<Range<usize>>, source: Seq<u8>, i: int)
    requires
        0 <= i < ranges.len(),
    ensures
        picked(ranges.take(i + 1), source) == if ranges[i].end <= source.len() {
            picked(ranges.take(i), source) + source.subrange(
                ranges[i].start as int,
                ranges[i].end as int,
            )
        } else {
            picked(ranges.take(i), source)
        },
{
    assert(ranges.take(i + 1).drop_last() =~= ranges.take(i));
}

/// The bytes picked by the first ranges are no more than those picked by all.
proof fn lemma_picked_prefix(ranges: Seq<Range<usize>>, source: Seq<u8>, i: int)
    requires
        0 <= i <= ranges.len(),
        sliceable(ranges, source),
    ensures
        picked(ranges.take(i), source).len() <= picked(ranges, source).len(),
    decreases ranges.len() - i,
{
    if i < ranges.len() {
        lemma_picked_step(ranges, source, i);
        lemma_picked_prefix(ranges, source, i + 1);
    } else {
        assert(ranges.take(i) =~= ranges);
    }
}

/// Ranges that are disjoint and in order pick no more bytes than lie before the end of the
/// last one.
proof fn lemma_picked_len(ranges: Seq<Range<usize>>, source: Seq<u8>, bound: int)
    requires
        forward(ranges),
        disjoint_in_order(ranges),
        0 <= bound,
        forall|i: int|
            0 <= i < ranges.len() && (#[trigger] ranges[i]).end <= source.len() ==> ranges[i].end
                <= bound,
    ensures
        picked(ranges, source).len() <= bound,
    decreases ranges.len(),
{
    if ranges.len() > 0 {
        let rest = ranges.drop_last();
        assert forall|i: int, j: int| 0 <= i < j < rest.len() implies (#[trigger] rest[i]).end <= (
        #[trigger] rest[j]).start by {
            assert(rest[i] == ranges[i] && rest[j] == ranges[j]);
        }
        assert(forward(rest));
        if ranges.last().end <= source.len() {
            assert(ranges.last() == ranges[ranges.len() - 1]);
            lemma_picked_len(rest, source, ranges.last().start as int);
        } else {
            lemma_picked_len(rest, source, bound);
        }
    }
}

/// Ranges that run forwards, disjoint and in order, slice every source, to no more bytes than
/// it has.
pub proof fn lemma_disjoint_ranges_slice_every_source(ranges: Seq<Range<usize>>, source: Seq<u8>)
    requires
        forward(ranges),
        disjoint_in_order(ranges),
        source.len() <= usize::MAX,
    ensures
        sliceable(ranges, source),
        sliced(ranges, source).len() <= source.len(),
{
    lemma_picked_len(ranges, source, source.len() as int);
}

/// Ranges that were accepted are those of the request, disjoint and in order. Where they can be
/// addressed, they slice every source, to no more bytes than it has.
pub proof fn lemma_accepted_ranges(
    slices: Seq<SubscribeRequestAccountsDataSlice>,
    limits: usize,
    source: Seq<u8>,
)
    requires
        requested_ranges(slices, limits) is Ok,
        source.len() <= usize::MAX,
    ensures
        requested_ranges(slices, limits)->Ok_0 == ranges_of(slices),
        disjoint_in_order(ranges_of(slices)),
        (forall|i: int| 0 <= i < slices.len() ==> (#[trigger] slices[i]).addressable()) ==> {
            &&& sliceable(ranges_of(slices), source)
            &&& sliced(ranges_of(slices), source).len() <= source.len()
        },
{
    let ranges = ranges_of(slices);
    lemma_collected(each_range(ranges));
    assert(requested_ranges(slices, limits)->Ok_0 =~= ranges) by {
        assert forall|i: int| 0 <= i < ranges.len() implies requested_ranges(
            slices,
            limits,
        )->Ok_0[i] == ranges[i] by {
            assert(each_range(ranges)[i] is Ok);
        }
    }
    assert forall|a: int, b: int| 0 <= a < b < ranges.len() implies (#[trigger] ranges[a]).end <= (
    #[trigger] ranges[b]).start by {
        assert(each_range(ranges)[b] is Ok);
        assert(!overlap_at(ranges, b));
    }
    if forall|i: int| 0 <= i < slices.len() ==> (#[trigger] slices[i]).addressable() {
        assert forall|i: int| 0 <= i < ranges.len() implies (#[trigger] ranges[i]).start
            <= ranges[i].end by {
            assert(slices[i].addressable());
        }
        lemma_disjoint_ranges_slice_every_source(ranges, source);
    }
}

/// The wire form of a length-delimited field: its key, the length and the bytes. A field
/// without bytes is not written.
pub open spec fn encoded_field(tag: u32, bytes: Seq<u8>) -> Seq<u8> {
    if bytes.len() == 0 {
        Seq::empty()
    } else {
        varint((tag * 8 + 2) as nat) + varint(bytes.len()) + bytes
    }
}

/// Which parts of an account's data an update carries.
#[derive(Debug, PartialEq)]
pub struct FilterAccountsDataSlice(Arc<[Range<usize>]>);

impl View for FilterAccountsDataSlice {
    type V = Seq<Range<usize>>;

    closed spec fn view(&self) -> Seq<Range<usize>> {
        self.0@
    }
}

impl Clone for FilterAccountsDataSlice {
    fn clone(&self) -> (r: Self)
        ensures
            r@ == self@,
    {
        Self(share(&self.0))
    }
}

/// No ranges: an update carries all of the data.
impl Default for FilterAccountsDataSlice {
    fn default() -> (r: Self)
        ensures
            r@ == Seq::<Range<usize>>::empty(),
    {
        Self(share_items(Vec::new()))
    }
}

impl AsRef<[Range<usize>]> for FilterAccountsDataSlice {
    fn as_ref(&self) -> (r: &[Range<usize>])
        ensures
            r@ == self@,
    {
        &self.0
    }
}

impl FilterAccountsDataSlice {
    pub fn new(
        slices: &[SubscribeRequestAccountsDataSlice],
        limits: usize,
    ) -> (r: FilterResult<Self>)
        requires
            slices@.len() <= limits ==> all_fit(slices@),
        ensures
            agrees(r, requested_ranges(slices@, limits)),
    {
        if let Err(e) = FilterLimits::check_max(slices.len(), limits) {
            return Err(FilterError::LimitsCheck(e));
        }
        let mut ranges: Vec<Range<usize>> = Vec::with_capacity(slices.len());
        let mut n: usize = 0;
        while n < slices.len()
            invariant
                all_fit(slices@),
                n <= slices@.len(),
                ranges@ =~= ranges_of(slices@).take(n as int),
            decreases slices@.len() - n,
        {
            assert(slices@[n as int].fits());
            let start: usize = slices[n].offset as usize;
            let end: usize = (slices[n].offset + slices[n].length) as usize;
            ranges.push(Range { start, end });
            n += 1;
        }
        assert(ranges@ =~= ranges_of(slices@));

        let ghost results = each_range(ranges@);
        let mut i: usize = 0;
        assert(results.take(0) =~= Seq::empty());
        assert(ranges@.take(0) =~= Seq::empty());
        while i < ranges.len()
            invariant
                slices@.len() <= limits,
                ranges@ == ranges_of(slices@),
                results == each_range(ranges@),
                i <= ranges@.len(),
                collected(results.take(i as int)) == Ok::<Seq<Range<usize>>, FilterError>(
                    ranges@.take(i as int),
                ),
            decreases ranges@.len() - i,
        {
            proof {
                lemma_collected_step(results, i as int);
                if results[i as int] is Err {
                    lemma_collected_error(results, i + 1);
                }
            }
            let mut j: usize = i + 1;
            while j < ranges.len()
                invariant
                    slices@.len() <= limits,
                    ranges@ == ranges_of(slices@),
                    i < j <= ranges@.len(),
                    out_of_order_at(ranges@, i as int) ==> collected(each_range(ranges@)) == Err::<
                        Seq<Range<usize>>,
                        FilterError,
                    >(FilterError::CreateDataSliceOutOfOrder),
                    forall|k: int|
                        i < k < j ==> ranges@[i as int].start <= (#[trigger] ranges@[k]).start,
                decreases ranges@.len() - j,
            {
                if ranges[i].start > ranges[j].start {
                    assert(out_of_order_at(ranges@, i as int));
                    return Err(FilterError::CreateDataSliceOutOfOrder);
                }
                j += 1;
            }
            assert(!out_of_order_at(ranges@, i as int));

            let mut k: usize = 0;
            while k < i
                invariant
                    slices@.len() <= limits,
                    ranges@ == ranges_of(slices@),
                    k <= i < ranges@.len(),
                    overlap_at(ranges@, i as int) ==> collected(each_range(ranges@)) == Err::<
                        Seq<Range<usize>>,
                        FilterError,
                    >(FilterError::CreateDataSliceOverlap),
                    forall|m: int|
                        0 <= m < k ==> ranges@[i as int].start >= (#[trigger] ranges@[m]).end,
                decreases i - k,
            {
                if ranges[i].start < ranges[k].end {
                    assert(overlap_at(ranges@, i as int));
                    return Err(FilterError::CreateDataSliceOverlap);
                }
                k += 1;
            }
            assert(!overlap_at(ranges@, i as int));
            assert(ranges@.take(i + 1) =~= ranges@.take(i as int).push(ranges@[i as int]));
            i += 1;
        }
        assert(results.take(i as int) =~= results);
        assert(ranges@.take(i as int) =~= ranges@);
        Ok(Self::new_unchecked(share_items(ranges)))
    }

    pub fn new_unchecked(slices: Arc<[Range<usize>]>) -> (r: Self)
        ensures
            r@ == slices@,
    {
        Self(slices)
    }

    pub fn get_slice(&self, source: &[u8]) -> (r: Vec<u8>)
        requires
            sliceable(self@, source@),
        ensures
            r@ == sliced(self@, source@),
    {
        // The capacity fits the data exactly.
        let mut data: Vec<u8> = Vec::with_capacity(self.get_slice_len(source));
        if self.0.is_empty() {
            data.extend_from_slice(source);
            assert(data@ =~= source@);
        } else {
            let mut i: usize = 0;
            while i < self.0.len()
                invariant
                    sliceable(self@, source@),
                    i <= self@.len(),
                    data@ == picked(self@.take(i as int), source@),
                decreases self@.len() - i,
            {
                proof {
                    lemma_picked_step(self@, source@, i as int);
                }
                let start: usize = self.0[i].start;
                let end: usize = self.0[i].end;
                if source.len() >= end {
                    assert(self@[i as int].start <= self@[i as int].end);
                    let ghost before = data@;
                    let part = vstd::slice::slice_subrange(source, start, end);
                    data.extend_from_slice(part);
                    assert(data@ =~= before + part@);
                }
                i += 1;
            }
            assert(self@.take(i as int) =~= self@);
        }
        data
    }

    pub fn get_slice_len(&self, source: &[u8]) -> (r: usize)
        requires
            sliceable(self@, source@),
        ensures
            r == sliced(self@, source@).len(),
    {
        if self.0.is_empty() {
            source.len()
        } else {
            let mut len: usize = 0;
            let mut i: usize = 0;
            while i < self.0.len()
                invariant
                    sliceable(self@, source@),
                    i <= self@.len(),
                    len == picked(self@.take(i as int), source@).len(),
                decreases self@.len() - i,
            {
                proof {
                    lemma_picked_step(self@, source@, i as int);
                    lemma_picked_prefix(self@, source@, i + 1);
                }
                let start: usize = self.0[i].start;
                let end: usize = self.0[i].end;
                if source.len() >= end {
                    assert(self@[i as int].start <= self@[i as int].end);
                    len += end - start;
                }
                i += 1;
            }
            assert(self@.take(i as int) =~= self@);
            len
        }
    }

    /// Appends what is left of `source` to `buf` as a length-delimited field; nothing where
    /// nothing is left.
    pub fn slice_encode_raw(&self, tag: u32, source: &[u8], buf: &mut Vec<u8>)
        requires
            sliceable(self@, source@),
            sliced(self@, source@).len() > 0 ==> 1 <= tag < 0x2000_0000,
        ensures
            final(buf)@ == old(buf)@ + encoded_field(tag, sliced(self@, source@)),
    {
        let len: usize = self.get_slice_len(source);
        if len > 0 {
            put_length_delimited_key(tag, buf);
            put_varint(len as u64, buf);
            let ghost head = buf@;
            if self.0.is_empty() {
                put_slice(source, buf);
            } else {
                let mut i: usize = 0;
                assert(buf@ =~= head + picked(self@.take(0), source@));
                while i < self.0.len()
                    invariant
                        sliceable(self@, source@),
                        i <= self@.len(),
                        buf@ == head + picked(self@.take(i as int), source@),
                    decreases self@.len() - i,
                {
                    proof {
                        lemma_picked_step(self@, source@, i as int);
                    }
                    let start: usize = self.0[i].start;
                    let end: usize = self.0[i].end;
                    if source.len() >= end {
                        assert(self@[i as int].start <= self@[i as int].end);
                        let part = vstd::slice::slice_subrange(source, start, end);
                        let ghost before = buf@;
                        put_slice(part, buf);
                        assert(buf@ =~= head + (picked(self@.take(i as int), source@) + part@));
                    }
                    i += 1;
                }
                assert(self@.take(i as int) =~= self@);
            }
        }
        assert(buf@ =~= old(buf)@ + encoded_field(tag, sliced(self@, source@)));
    }
}

} // verus!
