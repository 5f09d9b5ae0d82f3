//! The operations of the bridge: transaction lifecycle, data operations
//! that borrow the held transaction, and cursor publication and
//! consumption.
//!
//! The store engine and the planner are external collaborators. Each
//! operation here does every check and every state change that is this
//! core's own, and hands back a validated request describing the work
//! the engine is to perform; the surrounding runtime performs it and
//! reports the outcome back through the next call.

use vstd::prelude::*;

use crate::context::ChiselRequestContext;
use crate::context::TypeEntry;
use crate::context::is_auth_path;
use crate::context::lookup_in;
use crate::context::spec_is_auth_path;
use crate::error::DataError;
use crate::state::QueryStreamResource;
use crate::state::ResourceView;
use crate::state::StreamItem;
use crate::state::TransactionHandle;
use crate::state::TxnView;
use crate::state::WorkerState;
use crate::value::HostValue;
use crate::value::RowValue;
use crate::value::encode_model;
use crate::value::encode_value;

verus! {

/// A filter expression, carried through to the external planner
/// unexamined.
#[derive(Debug)]
pub struct Expr {
    pub repr: String,
}

/// A chain of query operations, carried through to the external planner
/// unexamined.
#[derive(Debug)]
pub struct QueryOpChain {
    pub ops: Vec<String>,
}

/// Arguments of a store call: the target type and the value to save.
#[derive(Debug)]
pub struct StoreParams {
    pub name: String,
    pub value: RowValue,
}

/// Arguments of a delete call.
#[derive(Debug)]
pub struct DeleteParams {
    pub entity_name: String,
    pub filter_expr: Option<Expr>,
}

/// Arguments of an entity-oriented delete driven by a URL query.
#[derive(Debug)]
pub struct CrudDeleteParams {
    pub entity_name: String,
    pub url_query: Vec<(String, String)>,
}

/// Arguments of an entity-oriented read driven by a URL query.
#[derive(Debug)]
pub struct QueryParams {
    pub entity_name: String,
    pub url_query: Vec<(String, String)>,
}

/// A validated write, ready for the engine: the borrowed transaction,
/// the checked target type, and the record to add.
#[derive(Debug)]
pub struct StoreRequest {
    pub txn_id: u64,
    pub entity_name: String,
    pub value: RowValue,
    pub context: ChiselRequestContext,
}

/// A validated delete, ready for the planner and the engine.
#[derive(Debug)]
pub struct MutationRequest {
    pub txn_id: u64,
    pub entity_name: String,
    pub filter_expr: Option<Expr>,
    pub context: ChiselRequestContext,
}

/// A validated entity-oriented delete, ready for the planner and the
/// engine.
#[derive(Debug)]
pub struct CrudDeleteRequest {
    pub txn_id: u64,
    pub entity_name: String,
    pub url_query: Vec<(String, String)>,
    pub context: ChiselRequestContext,
}

/// A validated entity-oriented read, ready for the planner and the
/// engine.
#[derive(Debug)]
pub struct CrudQueryRequest {
    pub txn_id: u64,
    pub params: QueryParams,
    pub context: ChiselRequestContext,
}

/// A validated relational query, ready for the planner and the engine.
#[derive(Debug)]
pub struct QueryRequest {
    pub txn_id: u64,
    pub op_chain: QueryOpChain,
    pub context: ChiselRequestContext,
}

/// What `begin` does to the slot.
pub open spec fn spec_begin(slot: Option<TxnView>, txn_id: u64) -> (Option<TxnView>, Result<
    (),
    DataError,
>) {
    match slot {
        Some(_) => (slot, Err(DataError::AlreadyInProgress)),
        None => (Some(TxnView { txn_id, op_borrows: 0 }), Ok(())),
    }
}

/// What `commit` does to the slot: reclaim sole ownership, then hand the
/// transaction out for the engine to commit.
pub open spec fn spec_commit(slot: Option<TxnView>) -> (Option<TxnView>, Result<u64, DataError>) {
    match slot {
        None => (slot, Err(DataError::NoneInProgress)),
        Some(t) => if t.op_borrows > 0 {
            (slot, Err(DataError::OperationInProgress))
        } else {
            (None, Ok(t.txn_id))
        },
    }
}

/// What `rollback` does to the slot: the same reclaim as `commit`, but
/// the transaction handed out is to be discarded.
pub open spec fn spec_rollback(slot: Option<TxnView>) -> (Option<TxnView>, Result<u64, DataError>) {
    spec_commit(slot)
}

/// What borrowing the held transaction for one operation does.
pub open spec fn spec_acquire(slot: Option<TxnView>) -> (Option<TxnView>, Result<u64, DataError>) {
    match slot {
        None => (slot, Err(DataError::NoneInProgress)),
        Some(t) => (
            Some(TxnView { txn_id: t.txn_id, op_borrows: t.op_borrows + 1 }),
            Ok(t.txn_id),
        ),
    }
}

/// What returning one operation's borrow does.
pub open spec fn spec_release(slot: Option<TxnView>) -> (Option<TxnView>, Result<(), DataError>) {
    match slot {
        Some(t) => if t.op_borrows > 0 {
            (
                Some(TxnView { txn_id: t.txn_id, op_borrows: (t.op_borrows - 1) as nat }),
                Ok(()),
            )
        } else {
            (slot, Err(DataError::NoneInProgress))
        },
        None => (slot, Err(DataError::NoneInProgress)),
    }
}

/// Everything but the slot is left alone.
pub open spec fn same_but_slot(pre: WorkerState, post: WorkerState) -> bool {
    &&& post.policy_system == pre.policy_system
    &&& post.type_system == pre.type_system
    &&& post.resources == pre.resources
}

/// Open a transaction in the slot. The caller first asks the store to
/// open a transaction and passes its identifier in; when the slot is
/// already occupied the call fails with `AlreadyInProgress`, the slot
/// keeps the transaction it held, and the caller must discard the newly
/// opened one.
pub fn op_chisel_begin_transaction(state: &mut WorkerState, txn_id: u64) -> (r: Result<
    (),
    DataError,
>)
    ensures
        same_but_slot(*old(state), *final(state)),
        (final(state).slot(), r) == spec_begin(old(state).slot(), txn_id),
{
    match &state.transaction {
        Some(_) => Err(DataError::AlreadyInProgress),
        None => {
            state.transaction = Some(TransactionHandle { txn_id, op_borrows: 0 });
            Ok(())
        },
    }
}

/// Take the transaction out of the slot for the engine to commit. Fails
/// with `NoneInProgress` on an empty slot and with `OperationInProgress`
/// while any operation still borrows the transaction; in the latter case
/// the slot keeps the transaction, so a commit retried after the
/// operation completes succeeds. On success the slot is empty before the
/// engine runs: an engine-level commit failure is surfaced by the caller
/// and the transaction is not restored.
pub fn op_chisel_commit_transaction(state: &mut WorkerState) -> (r: Result<u64, DataError>)
    ensures
        same_but_slot(*old(state), *final(state)),
        (final(state).slot(), r) == spec_commit(old(state).slot()),
{
    match &state.transaction {
        None => Err(DataError::NoneInProgress),
        Some(t) => {
            if t.op_borrows > 0 {
                Err(DataError::OperationInProgress)
            } else {
                let txn_id = t.txn_id;
                state.transaction = None;
                Ok(txn_id)
            }
        },
    }
}

/// Take the transaction out of the slot to be discarded; dropping the
/// last reference rolls the store transaction back. The preconditions
/// and the reclaim check are those of `op_chisel_commit_transaction`.
pub fn op_chisel_rollback_transaction(state: &mut WorkerState) -> (r: Result<u64, DataError>)
    ensures
        same_but_slot(*old(state), *final(state)),
        (final(state).slot(), r) == spec_rollback(old(state).slot()),
{
    match &state.transaction {
        None => Err(DataError::NoneInProgress),
        Some(t) => {
            if t.op_borrows > 0 {
                Err(DataError::OperationInProgress)
            } else {
                let txn_id = t.txn_id;
                state.transaction = None;
                Ok(txn_id)
            }
        },
    }
}

/// Borrow the held transaction for the duration of one data operation;
/// fails with `NoneInProgress` on an empty slot.
pub fn borrow_transaction(state: &mut WorkerState) -> (r: Result<u64, DataError>)
    requires
        old(state).transaction matches Some(t) ==> t.op_borrows < u64::MAX,
    ensures
        same_but_slot(*old(state), *final(state)),
        (final(state).slot(), r) == spec_acquire(old(state).slot()),
{
    match &state.transaction {
        None => Err(DataError::NoneInProgress),
        Some(t) => {
            let txn_id = t.txn_id;
            let op_borrows = t.op_borrows;
            state.transaction = Some(
                TransactionHandle { txn_id, op_borrows: op_borrows + 1 },
            );
            Ok(txn_id)
        },
    }
}

/// Return one operation's borrow of the held transaction once its
/// asynchronous work has completed.
pub fn release_transaction(state: &mut WorkerState) -> (r: Result<(), DataError>)
    ensures
        same_but_slot(*old(state), *final(state)),
        (final(state).slot(), r) == spec_release(old(state).slot()),
{
    match &state.transaction {
        None => Err(DataError::NoneInProgress),
        Some(t) => {
            if t.op_borrows == 0 {
                Err(DataError::NoneInProgress)
            } else {
                let txn_id = t.txn_id;
                let op_borrows = t.op_borrows;
                state.transaction = Some(
                    TransactionHandle { txn_id, op_borrows: op_borrows - 1 },
                );
                Ok(())
            }
        },
    }
}

/// Beginning a transaction twice never succeeds twice: from an empty
/// slot, the first `begin` succeeds and the second fails with
/// `AlreadyInProgress`, while the slot still holds the first
/// transaction.
pub proof fn lemma_begin_begin(slot: Option<TxnView>, id1: u64, id2: u64)
    requires
        slot is None,
    ensures
        ({
            let (s1, r1) = spec_begin(slot, id1);
            let (s2, r2) = spec_begin(s1, id2);
            &&& r1 == Ok::<(), DataError>(())
            &&& r2 == Err::<(), DataError>(DataError::AlreadyInProgress)
            &&& s2 == Some(TxnView { txn_id: id1, op_borrows: 0 })
        }),
{
}

/// `commit` and `rollback` with no transaction in progress fail with
/// `NoneInProgress` and change nothing.
pub proof fn lemma_finalize_without_begin(slot: Option<TxnView>)
    requires
        slot is None,
    ensures
        spec_commit(slot) == (slot, Err::<u64, DataError>(DataError::NoneInProgress)),
        spec_rollback(slot) == (slot, Err::<u64, DataError>(DataError::NoneInProgress)),
{
}

/// While one data operation still borrows the held transaction, `commit`
/// fails with `OperationInProgress` and leaves the slot as it was; after
/// the operation completes and releases its borrow, `commit` on the same
/// transaction succeeds and empties the slot.
pub proof fn lemma_commit_waits_for_operations(slot: Option<TxnView>)
    requires
        slot matches Some(t) && t.op_borrows == 1,
    ensures
        ({
            let (s1, r1) = spec_commit(slot);
            let (s2, r2) = spec_release(s1);
            let (s3, r3) = spec_commit(s2);
            &&& r1 == Err::<u64, DataError>(DataError::OperationInProgress)
            &&& s1 == slot
            &&& r2 == Ok::<(), DataError>(())
            &&& r3 == Ok::<u64, DataError>(slot->Some_0.txn_id)
            &&& s3 is None
        }),
{
}

/// What a store call decides, in order: the slot must be occupied, the
/// target type must exist and be an entity type, a protected auth type
/// takes writes only over the privileged internal path, and the value
/// must be a record. When every check passes the transaction gains the
/// operation's borrow.
pub open spec fn spec_store_outcome(
    slot: Option<TxnView>,
    types: Seq<TypeEntry>,
    name: Seq<char>,
    value: RowValue,
    version_id: Seq<char>,
    routing_path: Seq<char>,
) -> (Option<TxnView>, Result<u64, DataError>) {
    match slot {
        None => (slot, Err(DataError::NoneInProgress)),
        Some(t) => {
            let lk = lookup_in(types, name);
            if !(lk matches Some(e) && e.is_entity) {
                (slot, Err(DataError::InvalidType))
            } else if lk->Some_0.is_auth && !spec_is_auth_path(version_id, routing_path) {
                (slot, Err(DataError::PermissionDenied))
            } else if !(value is Record) {
                (slot, Err(DataError::ConversionError))
            } else {
                (Some(TxnView { txn_id: t.txn_id, op_borrows: t.op_borrows + 1 }), Ok(t.txn_id))
            }
        },
    }
}

/// A write into a protected auth type from a path that is not the
/// privileged internal one is denied, and denies without touching the
/// slot.
pub proof fn lemma_auth_write_denied(
    slot: Option<TxnView>,
    types: Seq<TypeEntry>,
    name: Seq<char>,
    value: RowValue,
    version_id: Seq<char>,
    routing_path: Seq<char>,
)
    requires
        slot is Some,
        lookup_in(types, name) matches Some(e) && e.is_entity && e.is_auth,
        !spec_is_auth_path(version_id, routing_path),
    ensures
        spec_store_outcome(slot, types, name, value, version_id, routing_path) == (
            slot,
            Err::<u64, DataError>(DataError::PermissionDenied),
        ),
{
}

/// A record written into an entity type succeeds whenever the slot holds
/// a transaction and the type either is not protected or the call
/// arrives over the privileged internal path.
pub proof fn lemma_entity_write_allowed(
    slot: Option<TxnView>,
    types: Seq<TypeEntry>,
    name: Seq<char>,
    value: RowValue,
    version_id: Seq<char>,
    routing_path: Seq<char>,
)
    requires
        slot is Some,
        lookup_in(types, name) matches Some(e) && e.is_entity && (!e.is_auth
            || spec_is_auth_path(version_id, routing_path)),
        value is Record,
    ensures
        spec_store_outcome(slot, types, name, value, version_id, routing_path).1 == Ok::<
            u64,
            DataError,
        >(slot->Some_0.txn_id),
{
}

/// Validate a store call and borrow the transaction for it. On success
/// the returned request carries exactly the checked type name, the
/// record to add, and the caller's context; the engine performs the
/// write and the runtime then releases the borrow.
pub fn op_chisel_store(
    state: &mut WorkerState,
    params: StoreParams,
    context: ChiselRequestContext,
) -> (r: Result<StoreRequest, DataError>)
    requires
        old(state).transaction matches Some(t) ==> t.op_borrows < u64::MAX,
    ensures
        same_but_slot(*old(state), *final(state)),
        ({
            let (slot2, res) = spec_store_outcome(
                old(state).slot(),
                old(state).type_system.types@,
                params.name@,
                params.value,
                context.version_id@,
                context.routing_path@,
            );
            &&& final(state).slot() == slot2
            &&& match (r, res) {
                (Ok(q), Ok(id)) => q.txn_id == id && q.entity_name == params.name && q.value
                    == params.value && q.context == context,
                (Err(e1), Err(e2)) => e1 == e2,
                _ => false,
            }
        }),
{
    let (txn_id, op_borrows) = match &state.transaction {
        None => {
            return Err(DataError::NoneInProgress);
        },
        Some(t) => (t.txn_id, t.op_borrows),
    };
    match state.type_system.lookup_type(params.name.as_str()) {
        Some(entry) => {
            if !entry.is_entity {
                return Err(DataError::InvalidType);
            }
            if entry.is_auth && !is_auth_path(
                context.version_id.as_str(),
                context.routing_path.as_str(),
            ) {
                return Err(DataError::PermissionDenied);
            }
        },
        None => {
            return Err(DataError::InvalidType);
        },
    }
    match &params.value {
        RowValue::Record(_) => {},
        _ => {
            return Err(DataError::ConversionError);
        },
    }
    state.transaction = Some(TransactionHandle { txn_id, op_borrows: op_borrows + 1 });
    Ok(StoreRequest { txn_id, entity_name: params.name, value: params.value, context })
}

/// Validate a delete call and borrow the transaction for it; the
/// returned request carries the filter unexamined for the external
/// planner.
pub fn op_chisel_delete(
    state: &mut WorkerState,
    params: DeleteParams,
    context: ChiselRequestContext,
) -> (r: Result<MutationRequest, DataError>)
    requires
        old(state).transaction matches Some(t) ==> t.op_borrows < u64::MAX,
    ensures
        same_but_slot(*old(state), *final(state)),
        final(state).slot() == spec_acquire(old(state).slot()).0,
        match (r, spec_acquire(old(state).slot()).1) {
            (Ok(q), Ok(id)) => q.txn_id == id && q.entity_name == params.entity_name && q.filter_expr
                == params.filter_expr && q.context == context,
            (Err(e1), Err(e2)) => e1 == e2,
            _ => false,
        },
{
    let txn_id = match borrow_transaction(state) {
        Ok(id) => id,
        Err(e) => {
            return Err(e);
        },
    };
    Ok(MutationRequest {
        txn_id,
        entity_name: params.entity_name,
        filter_expr: params.filter_expr,
        context,
    })
}

/// Validate an entity-oriented delete and borrow the transaction for it.
pub fn op_chisel_crud_delete(
    state: &mut WorkerState,
    params: CrudDeleteParams,
    context: ChiselRequestContext,
) -> (r: Result<CrudDeleteRequest, DataError>)
    requires
        old(state).transaction matches Some(t) ==> t.op_borrows < u64::MAX,
    ensures
        same_but_slot(*old(state), *final(state)),
        final(state).slot() == spec_acquire(old(state).slot()).0,
        match (r, spec_acquire(old(state).slot()).1) {
            (Ok(q), Ok(id)) => q.txn_id == id && q.entity_name == params.entity_name && q.url_query
                == params.url_query && q.context == context,
            (Err(e1), Err(e2)) => e1 == e2,
            _ => false,
        },
{
    let txn_id = match borrow_transaction(state) {
        Ok(id) => id,
        Err(e) => {
            return Err(e);
        },
    };
    Ok(CrudDeleteRequest {
        txn_id,
        entity_name: params.entity_name,
        url_query: params.url_query,
        context,
    })
}

/// Validate an entity-oriented read and borrow the transaction for it.
pub fn op_chisel_crud_query(
    state: &mut WorkerState,
    params: QueryParams,
    context: ChiselRequestContext,
) -> (r: Result<CrudQueryRequest, DataError>)
    requires
        old(state).transaction matches Some(t) ==> t.op_borrows < u64::MAX,
    ensures
        same_but_slot(*old(state), *final(state)),
        final(state).slot() == spec_acquire(old(state).slot()).0,
        match (r, spec_acquire(old(state).slot()).1) {
            (Ok(q), Ok(id)) => q.txn_id == id && q.params == params && q.context == context,
            (Err(e1), Err(e2)) => e1 == e2,
            _ => false,
        },
{
    let txn_id = match borrow_transaction(state) {
        Ok(id) => id,
        Err(e) => {
            return Err(e);
        },
    };
    Ok(CrudQueryRequest { txn_id, params, context })
}

/// Validate a relational query and borrow the transaction for it; the
/// borrow passes into the cursor that `publish_query_stream` creates and
/// is returned when the cursor is closed.
pub fn op_chisel_relational_query_create(
    state: &mut WorkerState,
    op_chain: QueryOpChain,
    context: ChiselRequestContext,
) -> (r: Result<QueryRequest, DataError>)
    requires
        old(state).transaction matches Some(t) ==> t.op_borrows < u64::MAX,
    ensures
        same_but_slot(*old(state), *final(state)),
        final(state).slot() == spec_acquire(old(state).slot()).0,
        match (r, spec_acquire(old(state).slot()).1) {
            (Ok(q), Ok(id)) => q.txn_id == id && q.op_chain == op_chain && q.context == context,
            (Err(e1), Err(e2)) => e1 == e2,
            _ => false,
        },
{
    let txn_id = match borrow_transaction(state) {
        Ok(id) => id,
        Err(e) => {
            return Err(e);
        },
    };
    Ok(QueryRequest { txn_id, op_chain, context })
}

/// Publish the executed query's row sequence as a cursor and hand its
/// handle to the caller. The cursor keeps the borrow taken by
/// `op_chisel_relational_query_create` until it is closed.
pub fn publish_query_stream(state: &mut WorkerState, txn_id: u64, stream: Vec<StreamItem>) -> (rid:
    u32)
    requires
        old(state).resources@.len() < u32::MAX,
    ensures
        final(state).transaction == old(state).transaction,
        final(state).policy_system == old(state).policy_system,
        final(state).type_system == old(state).type_system,
        rid == old(state).resources@.len(),
        final(state).resources@.len() == old(state).resources@.len() + 1,
        forall|k: int|
            0 <= k < old(state).resources@.len() ==> final(state).resources@[k] == old(state).resources@[k],
        final(state).resource_at(rid as int) == Some(
            ResourceView { txn_id, stream: stream@, next: None, errored: false },
        ),
{
    let rid = state.resources.len() as u32;
    state.resources.push(
        Some(QueryStreamResource { txn_id, stream, next: None, errored: false }),
    );
    rid
}

/// What one pull does to an open cursor. An errored or exhausted
/// sequence leaves the buffer empty to signal end-of-stream; a produced
/// row overwrites the buffer; a sequence failure marks the cursor
/// errored and surfaces the engine's message verbatim.
pub open spec fn spec_advance(q: ResourceView) -> (ResourceView, Result<(), DataError>) {
    if q.errored || q.stream.len() == 0 {
        (
            ResourceView { txn_id: q.txn_id, stream: q.stream, next: None, errored: q.errored },
            Ok(()),
        )
    } else {
        match q.stream[0] {
            StreamItem::Row(v) => (
                ResourceView {
                    txn_id: q.txn_id,
                    stream: q.stream.drop_first(),
                    next: Some(v),
                    errored: false,
                },
                Ok(()),
            ),
            StreamItem::Fail(m) => (
                ResourceView {
                    txn_id: q.txn_id,
                    stream: q.stream.drop_first(),
                    next: q.next,
                    errored: true,
                },
                Err(DataError::StoreError(m)),
            ),
        }
    }
}

/// Pull the next element of a cursor into its one-slot buffer. A handle
/// that is closed or was never published fails with `ClosedResource`;
/// rows arrive in exactly the order the underlying sequence produces
/// them.
pub fn op_chisel_query_next(state: &mut WorkerState, query_stream_rid: u32) -> (r: Result<
    (),
    DataError,
>)
    ensures
        final(state).transaction == old(state).transaction,
        final(state).policy_system == old(state).policy_system,
        final(state).type_system == old(state).type_system,
        final(state).resources@.len() == old(state).resources@.len(),
        forall|k: int|
            0 <= k < old(state).resources@.len() && k != query_stream_rid as int ==> final(state).resources@[k] == old(state).resources@[k],
        match old(state).resource_at(query_stream_rid as int) {
            None => r == Err::<(), DataError>(DataError::ClosedResource) && final(state).resources@ == old(state).resources@,
            Some(q) => ({
                let (q2, res) = spec_advance(q);
                r == res && final(state).resource_at(query_stream_rid as int) == Some(q2)
            }),
        },
{
    let rid = query_stream_rid as usize;
    if rid >= state.resources.len() {
        return Err(DataError::ClosedResource);
    }
    let entry = state.resources.remove(rid);
    match entry {
        None => {
            state.resources.insert(rid, None);
            proof {
                assert(final(state).resources@ =~= old(state).resources@);
            }
            Err(DataError::ClosedResource)
        },
        Some(mut q) => {
            if q.errored || q.stream.len() == 0 {
                q.next = None;
                state.resources.insert(rid, Some(q));
                proof {
                    assert(final(state).resources@ =~= old(state).resources@.update(
                        rid as int,
                        final(state).resources@[rid as int],
                    ));
                }
                Ok(())
            } else {
                let item = q.stream.remove(0);
                proof {
                    assert(q.stream@ =~= old(state).resources@[rid as int]->Some_0.stream@
                        .drop_first());
                }
                match item {
                    StreamItem::Row(v) => {
                        q.next = Some(v);
                        state.resources.insert(rid, Some(q));
                        proof {
                            assert(final(state).resources@ =~= old(state).resources@.update(
                                rid as int,
                                final(state).resources@[rid as int],
                            ));
                        }
                        Ok(())
                    },
                    StreamItem::Fail(m) => {
                        q.errored = true;
                        state.resources.insert(rid, Some(q));
                        proof {
                            assert(final(state).resources@ =~= old(state).resources@.update(
                                rid as int,
                                final(state).resources@[rid as int],
                            ));
                        }
                        Err(DataError::StoreError(m))
                    },
                }
            }
        },
    }
}

/// A sequence that will produce rows only, no failures.
pub open spec fn all_rows(stream: Seq<StreamItem>) -> bool {
    forall|i: int| 0 <= i < stream.len() ==> stream[i] is Row
}

/// The cursor after `k` alternating advance/take rounds, together with
/// the values taken, in order.
pub open spec fn spec_rounds(q: ResourceView, k: nat) -> (ResourceView, Seq<Option<RowValue>>)
    decreases k,
{
    if k == 0 {
        (q, Seq::empty())
    } else {
        let (q1, taken) = spec_rounds(q, (k - 1) as nat);
        let (q2, _r) = spec_advance(q1);
        let (q3, t) = spec_take_value(q2);
        (q3, taken.push(t))
    }
}

/// Order of delivery: alternating `advance` and `take_value` on a fresh
/// cursor over a row-only sequence yields exactly the rows of the
/// sequence, one per round and in the sequence's order, and the empty
/// marker on every later round.
pub proof fn lemma_cursor_delivers_in_order(q: ResourceView, k: nat)
    requires
        !q.errored,
        q.next is None,
        all_rows(q.stream),
    ensures
        ({
            let (qk, taken) = spec_rounds(q, k);
            &&& taken.len() == k
            &&& !qk.errored
            &&& qk.next is None
            &&& qk.stream == (if k <= q.stream.len() {
                q.stream.skip(k as int)
            } else {
                Seq::<StreamItem>::empty()
            })
            &&& forall|i: int|
                0 <= i < k ==> taken[i] == (if i < q.stream.len() {
                    Some(q.stream[i]->Row_0)
                } else {
                    None::<RowValue>
                })
        }),
    decreases k,
{
    if k == 0 {
        assert(q.stream.skip(0) =~= q.stream);
    } else {
        lemma_cursor_delivers_in_order(q, (k - 1) as nat);
        let (q1, taken1) = spec_rounds(q, (k - 1) as nat);
        if k - 1 < q.stream.len() {
            assert(q1.stream == q.stream.skip(k - 1));
            assert(q1.stream[0] == q.stream[k - 1]);
            assert(q.stream[k - 1] is Row);
            assert(q1.stream.drop_first() =~= q.stream.skip(k as int));
        } else {
            assert(q1.stream.len() == 0);
            if k == q.stream.len() + 1 && k - 1 <= q.stream.len() {
                assert(q.stream.skip(k - 1) =~= Seq::<StreamItem>::empty());
            }
        }
    }
}

/// What reading the buffer does: it is cleared, and the row it held (if
/// any) is handed out.
pub open spec fn spec_take_value(q: ResourceView) -> (ResourceView, Option<RowValue>) {
    (
        ResourceView { txn_id: q.txn_id, stream: q.stream, next: None, errored: q.errored },
        q.next,
    )
}

/// Read and clear the one-slot buffer, converting the buffered row to
/// the host representation; an empty buffer yields the host's null,
/// which signals end-of-stream after an exhausting pull.
pub fn op_chisel_query_get_value(state: &mut WorkerState, query_stream_rid: u32) -> (r: Result<
    HostValue,
    DataError,
>)
    ensures
        final(state).transaction == old(state).transaction,
        final(state).policy_system == old(state).policy_system,
        final(state).type_system == old(state).type_system,
        final(state).resources@.len() == old(state).resources@.len(),
        forall|k: int|
            0 <= k < old(state).resources@.len() && k != query_stream_rid as int ==> final(state).resources@[k] == old(state).resources@[k],
        match old(state).resource_at(query_stream_rid as int) {
            None => r == Err::<HostValue, DataError>(DataError::ClosedResource) && final(state).resources@ == old(state).resources@,
            Some(q) => ({
                let (q2, taken) = spec_take_value(q);
                &&& final(state).resource_at(query_stream_rid as int) == Some(q2)
                &&& match taken {
                    Some(v) => r matches Ok(h) && h.model() == encode_model(v.model()),
                    None => r == Ok::<HostValue, DataError>(HostValue::Null),
                }
            }),
        },
{
    let rid = query_stream_rid as usize;
    if rid >= state.resources.len() {
        return Err(DataError::ClosedResource);
    }
    let entry = state.resources.remove(rid);
    match entry {
        None => {
            state.resources.insert(rid, None);
            proof {
                assert(final(state).resources@ =~= old(state).resources@);
            }
            Err(DataError::ClosedResource)
        },
        Some(mut q) => {
            let taken = match q.next {
                Some(v) => {
                    q.next = None;
                    Some(v)
                },
                None => None,
            };
            let h = match &taken {
                Some(v) => encode_value(v),
                None => HostValue::Null,
            };
            state.resources.insert(rid, Some(q));
            proof {
                assert(final(state).resources@ =~= old(state).resources@.update(
                    rid as int,
                    final(state).resources@[rid as int],
                ));
            }
            Ok(h)
        },
    }
}

/// Close a cursor handle: the pending pull (if any) and every later pull
/// on this handle resolve as `ClosedResource`, and the cursor's borrow
/// on its transaction is returned.
pub fn close_query_stream(state: &mut WorkerState, query_stream_rid: u32) -> (r: Result<
    (),
    DataError,
>)
    ensures
        final(state).policy_system == old(state).policy_system,
        final(state).type_system == old(state).type_system,
        final(state).resources@.len() == old(state).resources@.len(),
        forall|k: int|
            0 <= k < old(state).resources@.len() && k != query_stream_rid as int ==> final(state).resources@[k] == old(state).resources@[k],
        match old(state).resource_at(query_stream_rid as int) {
            None => r == Err::<(), DataError>(DataError::ClosedResource) && final(state).resources@
                == old(state).resources@ && final(state).transaction == old(state).transaction,
            Some(q) => {
                &&& r == Ok::<(), DataError>(())
                &&& final(state).resource_at(query_stream_rid as int) is None
                &&& ({
                    let s = old(state).slot();
                    if s is Some && s->Some_0.txn_id == q.txn_id && s->Some_0.op_borrows > 0 {
                        final(state).slot() == Some(
                            TxnView {
                                txn_id: s->Some_0.txn_id,
                                op_borrows: (s->Some_0.op_borrows - 1) as nat,
                            },
                        )
                    } else {
                        final(state).slot() == s
                    }
                })
            },
        },
{
    let rid = query_stream_rid as usize;
    if rid >= state.resources.len() {
        return Err(DataError::ClosedResource);
    }
    let entry = state.resources.remove(rid);
    match entry {
        None => {
            state.resources.insert(rid, None);
            proof {
                assert(final(state).resources@ =~= old(state).resources@);
            }
            Err(DataError::ClosedResource)
        },
        Some(q) => {
            state.resources.insert(rid, None);
            proof {
                assert(state.resources@ =~= old(state).resources@.update(rid as int, None));
            }
            match &state.transaction {
                Some(t) => {
                    if t.txn_id == q.txn_id && t.op_borrows > 0 {
                        let txn_id = t.txn_id;
                        let op_borrows = t.op_borrows;
                        state.transaction = Some(
                            TransactionHandle { txn_id, op_borrows: op_borrows - 1 },
                        );
                    }
                },
                None => {},
            }
            Ok(())
        },
    }
}

} // verus!
