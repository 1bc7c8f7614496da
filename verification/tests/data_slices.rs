use geyser_filter::data_slice::{FilterAccountsDataSlice, SubscribeRequestAccountsDataSlice};
use geyser_filter::error::FilterError;
use geyser_filter::limits::FilterLimitsCheckError;
use std::ops::Range;
use std::sync::Arc;

fn slices(parts: &[(u64, u64)]) -> Vec<SubscribeRequestAccountsDataSlice> {
    parts
        .iter()
        .map(|(offset, length)| SubscribeRequestAccountsDataSlice {
            offset: *offset,
            length: *length,
        })
        .collect()
}

fn slice(parts: &[(u64, u64)]) -> FilterAccountsDataSlice {
    FilterAccountsDataSlice::new(&slices(parts), 10).unwrap()
}

fn refused(parts: &[(u64, u64)], limits: usize) -> FilterError {
    FilterAccountsDataSlice::new(&slices(parts), limits).unwrap_err()
}

const SOURCE: [u8; 8] = [10, 11, 12, 13, 14, 15, 16, 17];

#[test]
fn slices_become_ranges() {
    let ranges: [Range<usize>; 2] = [1..3, 3..7];
    assert_eq!(slice(&[(1, 2), (3, 4)]).as_ref(), ranges);
    assert!(FilterAccountsDataSlice::default().as_ref().is_empty());
    assert_eq!(slice(&[(1, 2)]), slice(&[(1, 2)]).clone());
}

#[test]
fn slices_out_of_order_are_refused() {
    assert!(matches!(
        refused(&[(4, 1), (0, 1)], 10),
        FilterError::CreateDataSliceOutOfOrder
    ));
    assert!(matches!(
        refused(&[(0, 1), (4, 1), (2, 1)], 10),
        FilterError::CreateDataSliceOutOfOrder
    ));
}

#[test]
fn slices_that_overlap_are_refused() {
    assert!(matches!(
        refused(&[(0, 4), (3, 4)], 10),
        FilterError::CreateDataSliceOverlap
    ));
    assert!(matches!(
        refused(&[(0, 10), (2, 1), (20, 1)], 10),
        FilterError::CreateDataSliceOverlap
    ));
    // of an overlap and a wrong order, what is seen first counts
    assert!(matches!(
        refused(&[(2, 4), (3, 1), (0, 1)], 10),
        FilterError::CreateDataSliceOutOfOrder
    ));
}

#[test]
fn slices_beyond_the_limit_are_refused() {
    assert!(matches!(
        refused(&[(0, 1), (1, 1)], 1),
        FilterError::LimitsCheck(FilterLimitsCheckError::Max { max: 1 })
    ));
    assert!(FilterAccountsDataSlice::new(&slices(&[(0, 1), (1, 1)]), 2).is_ok());
}

#[test]
fn data_is_sliced() {
    assert_eq!(slice(&[]).get_slice(&SOURCE), SOURCE);
    assert_eq!(slice(&[(2, 3)]).get_slice(&SOURCE), [12, 13, 14]);
    assert_eq!(slice(&[(0, 1), (6, 2)]).get_slice(&SOURCE), [10, 16, 17]);
    // a range that reaches past the end gives nothing
    assert_eq!(slice(&[(0, 1), (6, 3)]).get_slice(&SOURCE), [10]);
    assert!(slice(&[(9, 3)]).get_slice(&SOURCE).is_empty());
    assert!(slice(&[(3, 0)]).get_slice(&SOURCE).is_empty());
}

#[test]
fn the_length_of_a_slice_is_known_beforehand() {
    for parts in [
        vec![],
        vec![(2, 3)],
        vec![(0, 1), (6, 2)],
        vec![(0, 1), (6, 3)],
        vec![(9, 3)],
    ] {
        let slice = slice(&parts);
        let data = slice.get_slice(&SOURCE);
        assert_eq!(slice.get_slice_len(&SOURCE), data.len());
        assert_eq!(data.capacity(), data.len());
        assert!(data.len() <= SOURCE.len());
    }
}

#[test]
fn data_is_encoded_as_a_field() {
    let mut buf = vec![99];
    slice(&[(2, 3)]).slice_encode_raw(6, &SOURCE, &mut buf);
    // field 6 with wire type 2, three bytes
    assert_eq!(buf, [99, 50, 3, 12, 13, 14]);

    let mut buf = vec![];
    slice(&[]).slice_encode_raw(1, &SOURCE[..2], &mut buf);
    assert_eq!(buf, [10, 2, 10, 11]);

    let mut buf = vec![];
    slice(&[(0, 1), (6, 2)]).slice_encode_raw(16, &SOURCE, &mut buf);
    assert_eq!(buf, [130, 1, 3, 10, 16, 17]);

    let mut buf = vec![];
    let long = vec![7u8; 300];
    slice(&[]).slice_encode_raw(1, &long, &mut buf);
    assert_eq!(buf[..3], [10, 172, 2]);
    assert_eq!(buf[3..], long[..]);
}

#[test]
fn an_empty_field_is_not_encoded() {
    let mut buf = vec![1, 2];
    slice(&[(9, 1)]).slice_encode_raw(6, &SOURCE, &mut buf);
    slice(&[]).slice_encode_raw(6, &[], &mut buf);
    assert_eq!(buf, [1, 2]);
}

#[test]
fn ranges_can_be_given_directly() {
    let ranges: Arc<[Range<usize>]> = Arc::from(vec![6..8, 0..2]);
    let slice = FilterAccountsDataSlice::new_unchecked(ranges);
    assert_eq!(slice.get_slice(&SOURCE), [16, 17, 10, 11]);
}
