//! The per-execution-context worker state: the single transaction slot,
//! the table of published query cursors, and the version's policy and
//! type systems.

use vstd::prelude::*;

use crate::context::PolicySystem;
use crate::context::TypeSystem;
use crate::value::RowValue;

verus! {

/// One element the underlying row sequence will produce when pulled:
/// either the next row, or an engine failure surfaced verbatim.
#[derive(Debug)]
pub enum StreamItem {
    Row(RowValue),
    Fail(String),
}

/// Shared handle to one open, uncommitted transaction. `op_borrows`
/// counts the clones held by data operations and cursors still in
/// flight; the slot's own reference is not counted. Commit and rollback
/// reclaim sole ownership only when the count is zero.
#[derive(Debug)]
pub struct TransactionHandle {
    pub txn_id: u64,
    pub op_borrows: u64,
}

/// One open server-side cursor: the items the underlying sequence has
/// not yet produced, the one-slot buffer holding the most recently
/// pulled row, the transaction the cursor borrows, and whether the
/// sequence has already failed.
#[derive(Debug)]
pub struct QueryStreamResource {
    pub txn_id: u64,
    pub stream: Vec<StreamItem>,
    pub next: Option<RowValue>,
    pub errored: bool,
}

/// Worker state of one execution context. A cursor handle is an index
/// into `resources`; a closed handle holds `None`.
pub struct WorkerState {
    pub policy_system: PolicySystem,
    pub type_system: TypeSystem,
    pub transaction: Option<TransactionHandle>,
    pub resources: Vec<Option<QueryStreamResource>>,
}

/// Mathematical view of a transaction handle, with an unbounded borrow
/// count.
pub struct TxnView {
    pub txn_id: u64,
    pub op_borrows: nat,
}

/// Mathematical view of one open cursor.
pub struct ResourceView {
    pub txn_id: u64,
    pub stream: Seq<StreamItem>,
    pub next: Option<RowValue>,
    pub errored: bool,
}

impl View for TransactionHandle {
    type V = TxnView;

    open spec fn view(&self) -> TxnView {
        TxnView { txn_id: self.txn_id, op_borrows: self.op_borrows as nat }
    }
}

impl View for QueryStreamResource {
    type V = ResourceView;

    open spec fn view(&self) -> ResourceView {
        ResourceView {
            txn_id: self.txn_id,
            stream: self.stream@,
            next: self.next,
            errored: self.errored,
        }
    }
}

impl WorkerState {
    /// The transaction slot as seen by the contracts.
    pub open spec fn slot(self) -> Option<TxnView> {
        match self.transaction {
            Some(t) => Some(t@),
            None => None,
        }
    }

    /// The cursor published under a handle; `None` for a handle that is
    /// closed or was never published.
    pub open spec fn resource_at(self, rid: int) -> Option<ResourceView> {
        if 0 <= rid < self.resources@.len() {
            match self.resources@[rid] {
                Some(q) => Some(q@),
                None => None,
            }
        } else {
            None
        }
    }

    /// A fresh worker: empty slot, no published cursors.
    pub fn new(policy_system: PolicySystem, type_system: TypeSystem) -> (s: WorkerState)
        ensures
            s.slot() is None,
            s.resources@.len() == 0,
            s.policy_system == policy_system,
            s.type_system == type_system,
    {
        WorkerState { policy_system, type_system, transaction: None, resources: Vec::new() }
    }
}

} // verus!
