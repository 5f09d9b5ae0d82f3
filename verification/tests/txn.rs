//! Transaction lifecycle: exclusivity of begin, reclaim at commit and
//! rollback, and the fail-fast behavior while operations are in flight.

use query_bridge::context::PolicySystem;
use query_bridge::context::TypeSystem;
use query_bridge::error::DataError;
use query_bridge::ops::op_chisel_begin_transaction;
use query_bridge::ops::op_chisel_commit_transaction;
use query_bridge::ops::op_chisel_rollback_transaction;
use query_bridge::ops::borrow_transaction;
use query_bridge::ops::release_transaction;
use query_bridge::state::WorkerState;

fn fresh_worker() -> WorkerState {
    WorkerState::new(PolicySystem {}, TypeSystem { types: Vec::new() })
}

#[test]
fn begin_twice_fails_and_keeps_first() {
    let mut w = fresh_worker();
    assert!(matches!(op_chisel_begin_transaction(&mut w, 7), Ok(())));
    assert!(matches!(
        op_chisel_begin_transaction(&mut w, 8),
        Err(DataError::AlreadyInProgress)
    ));
    // the slot still holds the first transaction
    assert!(matches!(op_chisel_commit_transaction(&mut w), Ok(7)));
}

#[test]
fn commit_without_begin_fails() {
    let mut w = fresh_worker();
    assert!(matches!(
        op_chisel_commit_transaction(&mut w),
        Err(DataError::NoneInProgress)
    ));
}

#[test]
fn rollback_without_begin_fails() {
    let mut w = fresh_worker();
    assert!(matches!(
        op_chisel_rollback_transaction(&mut w),
        Err(DataError::NoneInProgress)
    ));
}

#[test]
fn commit_fails_while_operation_in_flight_then_succeeds() {
    let mut w = fresh_worker();
    assert!(matches!(op_chisel_begin_transaction(&mut w, 3), Ok(())));
    // a data operation is suspended, still holding its borrow
    assert!(matches!(borrow_transaction(&mut w), Ok(3)));
    assert!(matches!(
        op_chisel_commit_transaction(&mut w),
        Err(DataError::OperationInProgress)
    ));
    // the operation completes; commit on the same transaction succeeds
    assert!(matches!(release_transaction(&mut w), Ok(())));
    assert!(matches!(op_chisel_commit_transaction(&mut w), Ok(3)));
    // the slot is empty afterwards
    assert!(matches!(
        op_chisel_commit_transaction(&mut w),
        Err(DataError::NoneInProgress)
    ));
}

#[test]
fn rollback_fails_while_operation_in_flight_then_succeeds() {
    let mut w = fresh_worker();
    assert!(matches!(op_chisel_begin_transaction(&mut w, 4), Ok(())));
    assert!(matches!(borrow_transaction(&mut w), Ok(4)));
    assert!(matches!(
        op_chisel_rollback_transaction(&mut w),
        Err(DataError::OperationInProgress)
    ));
    assert!(matches!(release_transaction(&mut w), Ok(())));
    assert!(matches!(op_chisel_rollback_transaction(&mut w), Ok(4)));
}

#[test]
fn begin_again_after_commit() {
    let mut w = fresh_worker();
    assert!(matches!(op_chisel_begin_transaction(&mut w, 1), Ok(())));
    assert!(matches!(op_chisel_commit_transaction(&mut w), Ok(1)));
    assert!(matches!(op_chisel_begin_transaction(&mut w, 2), Ok(())));
    assert!(matches!(op_chisel_rollback_transaction(&mut w), Ok(2)));
}

#[test]
fn release_without_borrow_fails() {
    let mut w = fresh_worker();
    assert!(matches!(
        release_transaction(&mut w),
        Err(DataError::NoneInProgress)
    ));
    assert!(matches!(op_chisel_begin_transaction(&mut w, 5), Ok(())));
    assert!(matches!(
        release_transaction(&mut w),
        Err(DataError::NoneInProgress)
    ));
}
