//! Order persistence inside a transaction: the insert, the co-enqueued
//! `order.created` outbox row, and the storage-error mapping.
//!
//! The order row and the outbox row share one commit boundary: the write
//! either lands whole or leaves the store exactly as it was.

use vstd::prelude::*;
use vstd::string::StringExecFns;
use crate::error::{is_conflict_error, is_internal_error, is_not_found_error, is_validation_error, ApiError};
use crate::jsonenc::{append_json_str, json_of_order_created};
use crate::orders::{CreateOrderResponse, GetOrderResponse, OrderResponseV};
use crate::outbox::{enqueue, pending_rec, OutboxEvent, OutboxRecordV, StorageError};
use crate::request::{parse_uuid, uuid_parse, RequestId};
use crate::store::{
    find_order,
    has_event_id,
    has_external_id,
    has_order_id,
    wf,
    OrderRecord,
    OrderRecordV,
    Store,
    StoreV,
};
use crate::text::{append_dec, push_char};

verus! {

/// The one write the service performs idempotently: insert an order row and
/// co-enqueue its `order.created` event, under caller-generated ids.
pub struct OrderWriteOp {
    pub external_id: String,
    pub item_count: i32,
    pub total_qty: i32,
    pub order_id: String,
    pub event_id: String,
}

#[verifier::ext_equal]
pub struct OrderWriteOpV {
    pub external_id: Seq<char>,
    pub item_count: int,
    pub total_qty: int,
    pub order_id: Seq<char>,
    pub event_id: Seq<char>,
}

impl View for OrderWriteOp {
    type V = OrderWriteOpV;

    open spec fn view(&self) -> OrderWriteOpV {
        OrderWriteOpV {
            external_id: self.external_id@,
            item_count: self.item_count as int,
            total_qty: self.total_qty as int,
            order_id: self.order_id@,
            event_id: self.event_id@,
        }
    }
}

/// The order row the write inserts.
pub open spec fn op_order_rec(op: OrderWriteOpV) -> OrderRecordV {
    OrderRecordV {
        id: op.order_id,
        external_id: op.external_id,
        item_count: op.item_count,
        total_qty: op.total_qty,
    }
}

/// The response built from the inserted row.
pub open spec fn op_response(op: OrderWriteOpV) -> OrderResponseV {
    OrderResponseV {
        id: op.order_id,
        external_id: op.external_id,
        item_count: op.item_count,
        total_qty: op.total_qty,
    }
}

/// The `order.created` payload, carrying the inserted order's id.
pub open spec fn op_payload(op: OrderWriteOpV) -> Seq<char> {
    json_of_order_created(op.order_id, op.external_id, op.item_count, op.total_qty)
}

/// The outbox row the write co-enqueues.
pub open spec fn op_outbox_rec(op: OrderWriteOpV, now: int) -> OutboxRecordV {
    pending_rec(op.event_id, "order.created"@, op_payload(op), now)
}

/// The write lands iff nothing collides: `external_id` free, both ids free.
pub open spec fn op_succeeds(s: StoreV, op: OrderWriteOpV) -> bool {
    !has_external_id(s.orders, op.external_id) && !has_order_id(s.orders, op.order_id)
        && !has_event_id(s.outbox, op.event_id)
}

/// A collision the unique constraints of the `orders` table report.
pub open spec fn op_conflicts(s: StoreV, op: OrderWriteOpV) -> bool {
    has_external_id(s.orders, op.external_id) || has_order_id(s.orders, op.order_id)
}

/// The store after a landed write: one order row and one outbox row more.
pub open spec fn op_store(s: StoreV, op: OrderWriteOpV, now: int) -> StoreV {
    StoreV {
        orders: s.orders.push(op_order_rec(op)),
        records: s.records,
        outbox: s.outbox.push(op_outbox_rec(op, now)),
    }
}

/// Maps a storage failure to the API surface: the unique-violation
/// SQLSTATE `23505` becomes a conflict, anything else stays internal.
pub fn map_db_error(req_id: &RequestId, err: &StorageError) -> (r: ApiError)
    ensures
        (err.code matches Some(c) && c@ == "23505"@) ==> is_conflict_error(
            r,
            "external_id already exists"@,
            req_id.0@,
        ),
        !(err.code matches Some(c) && c@ == "23505"@) ==> is_internal_error(r, req_id.0@),
{
    match &err.code {
        Some(c) => {
            if crate::text::str_eq(c.as_str(), "23505") {
                ApiError::conflict(req_id, "external_id already exists")
            } else {
                ApiError::internal(req_id)
            }
        },
        None => ApiError::internal(req_id),
    }
}

/// Inserts an order row, failing as the table's unique constraints would:
/// SQLSTATE `23505` when the `external_id` or the id is already taken.
fn insert_order(store: &mut Store, rec: OrderRecord) -> (r: Result<(), StorageError>)
    ensures
        r is Ok <==> !has_external_id(old(store)@.orders, rec.external_id@) && !has_order_id(
            old(store)@.orders,
            rec.id@,
        ),
        r is Ok ==> final(store)@.orders == old(store)@.orders.push(rec@),
        r matches Err(e) ==> (e.code matches Some(c) && c@ == "23505"@) && final(store)@.orders
            == old(store)@.orders,
        final(store)@.records == old(store)@.records,
        final(store)@.outbox == old(store)@.outbox,
        wf(old(store)@) ==> wf(final(store)@),
{
    if store.contains_external_id(rec.external_id.as_str()) || store.contains_order_id(
        rec.id.as_str(),
    ) {
        return Err(StorageError { code: Some("23505".to_owned()) });
    }
    let ghost recv = rec@;
    store.orders.push(rec);
    proof {
        assert(store@.orders =~= old(store)@.orders.push(recv));
        assert(store@.records =~= old(store)@.records);
        assert(store@.outbox =~= old(store)@.outbox);
        if wf(old(store)@) {
            let s = store@;
            assert forall|i: int, j: int| 0 <= i < j < s.orders.len() implies (
            #[trigger] s.orders[i]).external_id != (#[trigger] s.orders[j]).external_id
                && s.orders[i].id != s.orders[j].id by {
                if j < s.orders.len() - 1 {
                    assert(s.orders[i] == old(store)@.orders[i]);
                    assert(s.orders[j] == old(store)@.orders[j]);
                } else {
                    assert(s.orders[i] == old(store)@.orders[i]);
                    assert(s.orders[j] == recv);
                }
            }
        }
    }
    Ok(())
}

/// The `order.created` payload for one write, canonical JSON.
pub fn order_created_payload(op: &OrderWriteOp) -> (r: String)
    requires
        op.item_count >= 0,
        op.total_qty >= 0,
    ensures
        r@ == op_payload(op@),
{
    let mut out = String::new();
    out.append("{\"external_id\":");
    append_json_str(&mut out, op.external_id.as_str());
    out.append(",\"item_count\":");
    append_dec(&mut out, op.item_count as u64);
    out.append(",\"order_id\":");
    append_json_str(&mut out, op.order_id.as_str());
    out.append(",\"total_qty\":");
    append_dec(&mut out, op.total_qty as u64);
    push_char(&mut out, '}');
    proof {
        reveal_strlit("}");
        assert(("}"@) =~= seq!['}']);
        assert(out@ =~= op_payload(op@));
    }
    out
}

/// Creates an order inside the surrounding operation: inserts the row,
/// builds the response from it, and co-enqueues the `order.created` event.
/// On any failure the store is left exactly as it was, as the aborted
/// transaction would leave it.
pub fn create_order_tx(store: &mut Store, req_id: &RequestId, op: &OrderWriteOp, now: u64) -> (r:
    Result<(u16, CreateOrderResponse), ApiError>)
    requires
        op.item_count >= 0,
        op.total_qty >= 0,
    ensures
        wf(old(store)@) ==> wf(final(store)@),
        final(store)@.records == old(store)@.records,
        op_succeeds(old(store)@, op@) ==> (r matches Ok(p) && p.0 == 201 && p.1@ == op_response(
            op@,
        ) && final(store)@ == op_store(old(store)@, op@, now as int)),
        !op_succeeds(old(store)@, op@) && op_conflicts(old(store)@, op@) ==> (r matches Err(e)
            && is_conflict_error(e, "external_id already exists"@, req_id.0@) && final(store)@
            == old(store)@),
        !op_succeeds(old(store)@, op@) && !op_conflicts(old(store)@, op@) ==> (r matches Err(e)
            && is_internal_error(e, req_id.0@) && final(store)@ == old(store)@),
{
    let rec = OrderRecord {
        id: op.order_id.clone(),
        external_id: op.external_id.clone(),
        item_count: op.item_count,
        total_qty: op.total_qty,
    };
    match insert_order(store, rec) {
        Err(e) => {
            proof {
                assert(store@ =~= old(store)@);
            }
            return Err(map_db_error(req_id, &e));
        },
        Ok(()) => {},
    }
    let resp = CreateOrderResponse {
        id: op.order_id.clone(),
        external_id: op.external_id.clone(),
        item_count: op.item_count,
        total_qty: op.total_qty,
    };
    let payload = order_created_payload(op);
    let event = OutboxEvent {
        id: op.event_id.clone(),
        event_type: "order.created".to_owned(),
        payload,
    };
    match enqueue(store, &event, now) {
        Ok(()) => {
            proof {
                assert(store@ =~= op_store(old(store)@, op@, now as int));
            }
            Ok((201, resp))
        },
        Err(_) => {
            let ghost pre = store@.orders;
            let ghost pre_vec = store.orders@;
            proof {
                assert(pre =~= old(store)@.orders.push(op_order_rec(op@)));
            }
            let _ = store.orders.pop();
            proof {
                assert(store.orders@ =~= pre_vec.drop_last());
                assert forall|i: int|
                    0 <= i < store@.orders.len() implies store@.orders[i] == old(
                    store,
                )@.orders[i] by {
                    assert(store@.orders[i] == store.orders@[i]@);
                    assert(store.orders@[i] == pre_vec[i]);
                    assert(pre_vec[i]@ == pre[i]);
                    assert(pre[i] == old(store)@.orders[i]);
                }
                assert(store@.orders =~= old(store)@.orders);
                assert(store@ =~= old(store)@);
            }
            Err(ApiError::internal(req_id))
        },
    }
}

/// Fetches an order by its id string: 400 for text that is no UUID, 404
/// when no row carries the id, else the row.
pub fn get_order_by_id_tx(store: &Store, req_id: &RequestId, id: &str) -> (r: Result<
    GetOrderResponse,
    ApiError,
>)
    ensures
        uuid_parse(id@) is None ==> (r matches Err(e) && is_validation_error(
            e,
            "invalid id (expected UUID)"@,
            req_id.0@,
        )),
        uuid_parse(id@) matches Some(canon) ==> (match find_order(store@.orders, canon) {
            Some(rec) => r matches Ok(resp) && resp@ == OrderResponseV {
                id: rec.id,
                external_id: rec.external_id,
                item_count: rec.item_count,
                total_qty: rec.total_qty,
            },
            None => r matches Err(e) && is_not_found_error(e, req_id.0@),
        }),
{
    let canon = match parse_uuid(id) {
        None => {
            return Err(ApiError::validation(req_id, "invalid id (expected UUID)".to_owned()));
        },
        Some(u) => u,
    };
    match store.get_order(canon.as_str()) {
        Some(rec) => Ok(
            GetOrderResponse {
                id: rec.id.clone(),
                external_id: rec.external_id.clone(),
                item_count: rec.item_count,
                total_qty: rec.total_qty,
            },
        ),
        None => Err(ApiError::not_found(req_id)),
    }
}

} // verus!
