//! Cursor behavior: delivery in order, end-of-stream, the one-slot
//! buffer, closing mid-stream, and engine failures surfaced verbatim.

use query_bridge::context::PolicySystem;
use query_bridge::context::TypeSystem;
use query_bridge::error::DataError;
use query_bridge::ops::close_query_stream;
use query_bridge::ops::op_chisel_begin_transaction;
use query_bridge::ops::op_chisel_commit_transaction;
use query_bridge::ops::op_chisel_query_get_value;
use query_bridge::ops::op_chisel_query_next;
use query_bridge::ops::op_chisel_relational_query_create;
use query_bridge::ops::publish_query_stream;
use query_bridge::ops::QueryOpChain;
use query_bridge::state::StreamItem;
use query_bridge::state::WorkerState;
use query_bridge::value::HostValue;
use query_bridge::value::RowValue;

fn worker_with_txn(txn_id: u64) -> WorkerState {
    let mut w = WorkerState::new(PolicySystem {}, TypeSystem { types: Vec::new() });
    op_chisel_begin_transaction(&mut w, txn_id).expect("begin");
    w
}

fn rows_abc() -> Vec<StreamItem> {
    vec![
        StreamItem::Row(RowValue::Text("A".to_owned())),
        StreamItem::Row(RowValue::Text("B".to_owned())),
        StreamItem::Row(RowValue::Text("C".to_owned())),
    ]
}

#[test]
fn three_rows_arrive_in_order_then_empty() {
    let mut w = worker_with_txn(1);
    let rid = publish_query_stream(&mut w, 1, rows_abc());
    for expected in ["A", "B", "C"] {
        assert!(matches!(op_chisel_query_next(&mut w, rid), Ok(())));
        let got = op_chisel_query_get_value(&mut w, rid).expect("value");
        assert_eq!(got, HostValue::Text(expected.to_owned()));
    }
    // fourth advance succeeds and leaves the buffer empty
    assert!(matches!(op_chisel_query_next(&mut w, rid), Ok(())));
    let got = op_chisel_query_get_value(&mut w, rid).expect("value");
    assert_eq!(got, HostValue::Null);
}

#[test]
fn closing_mid_stream_makes_later_advances_fail() {
    let mut w = worker_with_txn(1);
    let rid = publish_query_stream(&mut w, 1, rows_abc());
    assert!(matches!(op_chisel_query_next(&mut w, rid), Ok(())));
    assert!(matches!(close_query_stream(&mut w, rid), Ok(())));
    assert!(matches!(
        op_chisel_query_next(&mut w, rid),
        Err(DataError::ClosedResource)
    ));
    assert!(matches!(
        op_chisel_query_next(&mut w, rid),
        Err(DataError::ClosedResource)
    ));
    assert!(matches!(
        op_chisel_query_get_value(&mut w, rid),
        Err(DataError::ClosedResource)
    ));
}

#[test]
fn unknown_handle_fails_closed() {
    let mut w = worker_with_txn(1);
    assert!(matches!(
        op_chisel_query_next(&mut w, 42),
        Err(DataError::ClosedResource)
    ));
    assert!(matches!(
        close_query_stream(&mut w, 42),
        Err(DataError::ClosedResource)
    ));
}

#[test]
fn engine_failure_is_surfaced_verbatim_then_stream_acts_exhausted() {
    let mut w = worker_with_txn(1);
    let rid = publish_query_stream(
        &mut w,
        1,
        vec![
            StreamItem::Row(RowValue::Int(1)),
            StreamItem::Fail("disk on fire".to_owned()),
            StreamItem::Row(RowValue::Int(2)),
        ],
    );
    assert!(matches!(op_chisel_query_next(&mut w, rid), Ok(())));
    match op_chisel_query_next(&mut w, rid) {
        Err(DataError::StoreError(m)) => assert_eq!(m, "disk on fire"),
        other => panic!("expected store error, got {:?}", other.is_ok()),
    }
    // after the failure the cursor is treated as exhausted
    assert!(matches!(op_chisel_query_next(&mut w, rid), Ok(())));
    let got = op_chisel_query_get_value(&mut w, rid).expect("value");
    assert_eq!(got, HostValue::Null);
}

#[test]
fn advancing_twice_without_taking_overwrites_the_buffer() {
    let mut w = worker_with_txn(1);
    let rid = publish_query_stream(&mut w, 1, rows_abc());
    assert!(matches!(op_chisel_query_next(&mut w, rid), Ok(())));
    assert!(matches!(op_chisel_query_next(&mut w, rid), Ok(())));
    // last write wins: the first row was lost, the buffer holds the second
    let got = op_chisel_query_get_value(&mut w, rid).expect("value");
    assert_eq!(got, HostValue::Text("B".to_owned()));
}

#[test]
fn taking_twice_yields_the_row_then_null() {
    let mut w = worker_with_txn(1);
    let rid = publish_query_stream(&mut w, 1, rows_abc());
    assert!(matches!(op_chisel_query_next(&mut w, rid), Ok(())));
    assert_eq!(
        op_chisel_query_get_value(&mut w, rid).expect("value"),
        HostValue::Text("A".to_owned())
    );
    assert_eq!(op_chisel_query_get_value(&mut w, rid).expect("value"), HostValue::Null);
}

#[test]
fn open_cursor_blocks_commit_until_closed() {
    let mut w = worker_with_txn(6);
    let qreq = op_chisel_relational_query_create(
        &mut w,
        QueryOpChain { ops: Vec::new() },
        query_context(),
    )
    .expect("query create");
    let rid = publish_query_stream(&mut w, qreq.txn_id, rows_abc());
    assert!(matches!(
        op_chisel_commit_transaction(&mut w),
        Err(DataError::OperationInProgress)
    ));
    assert!(matches!(close_query_stream(&mut w, rid), Ok(())));
    assert!(matches!(op_chisel_commit_transaction(&mut w), Ok(6)));
}

fn query_context() -> query_bridge::context::ChiselRequestContext {
    query_bridge::context::ChiselRequestContext {
        version_id: "dev".to_owned(),
        headers: Vec::new(),
        path: "/".to_owned(),
        routing_path: "/posts".to_owned(),
        user_id: None,
    }
}
