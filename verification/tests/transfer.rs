//! Chunking and write-outcome behaviour of the transfer layer.

use pos58_usb::error::{UsbError, WriteErrorKind};
use pos58_usb::transfer::{chunk_plan, flush_payload, write_outcome};

#[test]
fn plan_200_bytes_with_64_byte_chunks() {
    // max packet size 64, buffer of 200 bytes: chunks of 64, 64, 64, 8.
    let plan = chunk_plan(200, 64);
    assert_eq!(plan, vec![(0, 64), (64, 128), (128, 192), (192, 200)]);
}

#[test]
fn write_200_bytes_without_partial_transfers() {
    let outcomes: Vec<Result<usize, UsbError>> = vec![Ok(64), Ok(64), Ok(64), Ok(8)];
    assert_eq!(write_outcome(200, 64, &outcomes), Ok(200));
}

#[test]
fn plan_of_empty_buffer_is_empty() {
    let plan = chunk_plan(0, 64);
    assert!(plan.is_empty());
    let outcomes: Vec<Result<usize, UsbError>> = Vec::new();
    assert_eq!(write_outcome(0, 64, &outcomes), Ok(0));
}

#[test]
fn plan_of_exact_multiple_has_only_full_chunks() {
    assert_eq!(chunk_plan(128, 64), vec![(0, 64), (64, 128)]);
}

#[test]
fn plan_with_unit_chunks() {
    assert_eq!(chunk_plan(3, 1), vec![(0, 1), (1, 2), (2, 3)]);
}

#[test]
fn plan_smaller_than_one_chunk() {
    assert_eq!(chunk_plan(17, 64), vec![(0, 17)]);
}

#[test]
fn total_is_sum_of_reported_bytes() {
    // Partial transfers: each chunk may report fewer bytes than requested.
    let plan = chunk_plan(10, 3);
    assert_eq!(plan, vec![(0, 3), (3, 6), (6, 9), (9, 10)]);
    let outcomes: Vec<Result<usize, UsbError>> = vec![Ok(3), Ok(2), Ok(3), Ok(1)];
    assert_eq!(write_outcome(10, 3, &outcomes), Ok(9));
}

#[test]
fn timeout_mid_write_fails_with_timed_out() {
    let outcomes: Vec<Result<usize, UsbError>> =
        vec![Ok(64), Err(UsbError::Timeout), Ok(64), Ok(8)];
    assert_eq!(
        write_outcome(200, 64, &outcomes),
        Err(WriteErrorKind::TimedOut)
    );
}

#[test]
fn failure_on_first_chunk_decides_the_error() {
    let outcomes: Vec<Result<usize, UsbError>> =
        vec![Err(UsbError::NoDevice), Ok(64), Ok(64), Ok(8)];
    assert_eq!(
        write_outcome(200, 64, &outcomes),
        Err(WriteErrorKind::NotConnected)
    );
}

#[test]
fn earliest_failure_wins() {
    let outcomes: Vec<Result<usize, UsbError>> =
        vec![Ok(64), Err(UsbError::Busy), Err(UsbError::Timeout), Ok(8)];
    assert_eq!(
        write_outcome(200, 64, &outcomes),
        Err(WriteErrorKind::WouldBlock)
    );
}

#[test]
fn flush_sends_a_single_null_byte_as_one_chunk() {
    let payload = flush_payload();
    assert_eq!(payload, vec![0u8]);
    // Whatever the endpoint's packet size, one byte is a single chunk.
    assert_eq!(chunk_plan(payload.len(), 64), vec![(0, 1)]);
    assert_eq!(chunk_plan(payload.len(), 1), vec![(0, 1)]);
    let outcomes: Vec<Result<usize, UsbError>> = vec![Ok(1)];
    assert_eq!(write_outcome(1, 64, &outcomes), Ok(1));
}
