//! The request-idempotency protocol: an `(endpoint, Idempotency-Key)`
//! claim/complete engine with request-hash conflict detection and response
//! replay.
//!
//! A slot is claimed by an insert that does nothing on conflict, so at most
//! one executor owns a key at a time. The claim, the operation's writes and
//! the completed record share one commit: an operation that fails gives the
//! slot back untouched, and a replay of a completed slot is a pure read
//! returning the stored response.

use vstd::prelude::*;
use crate::error::{is_conflict_error, is_internal_error, ApiError};
use crate::orders::CreateOrderResponse;
use crate::repo::{
    create_order_tx,
    op_conflicts,
    op_order_rec,
    op_outbox_rec,
    op_response,
    op_store,
    op_succeeds,
    OrderWriteOp,
    OrderWriteOpV,
};
use crate::request::RequestId;
use crate::store::{
    find_record,
    lemma_find_record_push,
    record_complete,
    wf,
    IdempotencyRecord,
    IdempotencyRecordV,
    Status,
    Store,
    StoreV,
};
use crate::text::{all_space, is_blank, str_eq, trim_spec, trim_str};

verus! {

/// The header that scopes retry identity for one endpoint.
pub const IDEMPOTENCY_HEADER: &'static str = "Idempotency-Key";

/// The idempotency key a header value denotes: its trim, unless blank.
pub open spec fn extract_key_spec(h: Option<Seq<char>>) -> Option<Seq<char>> {
    match h {
        None => None,
        Some(s) => if all_space(s) {
            None
        } else {
            Some(trim_spec(s))
        },
    }
}

/// The view of an optional header value.
pub open spec fn header_view(h: Option<&String>) -> Option<Seq<char>> {
    match h {
        Some(s) => Some(s@),
        None => None,
    }
}

/// Extracts the trimmed idempotency key, if the header carries one.
pub fn extract_key(header: Option<&String>) -> (r: Option<String>)
    ensures
        r matches Some(k) ==> extract_key_spec(header_view(header)) == Some(k@),
        r is None ==> extract_key_spec(header_view(header)) is None,
{
    match header {
        None => None,
        Some(raw) => {
            proof {
                crate::text::lemma_trim_len(raw@);
            }
            if is_blank(raw.as_str()) {
                None
            } else {
                Some(trim_str(raw.as_str()))
            }
        },
    }
}

/// The record a completed operation leaves in its slot.
pub open spec fn completed_rec(
    endpoint: Seq<char>,
    key: Seq<char>,
    hash: Seq<char>,
    op: OrderWriteOpV,
) -> IdempotencyRecordV {
    IdempotencyRecordV {
        endpoint: endpoint,
        key: key,
        request_hash: hash,
        status: Status::Completed,
        response_status: Some(201u16),
        response_body: Some(op_response(op)),
    }
}

/// What running the operation outside any idempotency slot does: commit on
/// success, roll back on error.
pub open spec fn op_run_post(
    s0: StoreV,
    s1: StoreV,
    op: OrderWriteOpV,
    now: int,
    rid: Seq<char>,
    r: Result<(u16, CreateOrderResponse), ApiError>,
) -> bool {
    if op_succeeds(s0, op) {
        match r {
            Ok(p) => p.0 == 201 && p.1@ == op_response(op) && s1 == op_store(s0, op, now),
            Err(_) => false,
        }
    } else if op_conflicts(s0, op) {
        match r {
            Ok(_) => false,
            Err(e) => is_conflict_error(e, "external_id already exists"@, rid) && s1 == s0,
        }
    } else {
        match r {
            Ok(_) => false,
            Err(e) => is_internal_error(e, rid) && s1 == s0,
        }
    }
}

/// The whole protocol, as a relation between the store before and after,
/// the header, the request hash, the operation, and the outcome.
pub open spec fn engine_post(
    s0: StoreV,
    s1: StoreV,
    keyh: Option<Seq<char>>,
    endpoint: Seq<char>,
    hash: Seq<char>,
    op: OrderWriteOpV,
    now: int,
    rid: Seq<char>,
    r: Result<(u16, CreateOrderResponse), ApiError>,
) -> bool {
    match extract_key_spec(keyh) {
        None => op_run_post(s0, s1, op, now, rid, r),
        Some(key) => match find_record(s0.records, endpoint, key) {
            None => if op_succeeds(s0, op) {
                match r {
                    Ok(p) => p.0 == 201 && p.1@ == op_response(op) && s1.orders == s0.orders.push(
                        op_order_rec(op),
                    ) && s1.outbox == s0.outbox.push(op_outbox_rec(op, now)) && s1.records
                        == s0.records.push(completed_rec(endpoint, key, hash, op)),
                    Err(_) => false,
                }
            } else if op_conflicts(s0, op) {
                match r {
                    Ok(_) => false,
                    Err(e) => is_conflict_error(e, "external_id already exists"@, rid) && s1 == s0,
                }
            } else {
                match r {
                    Ok(_) => false,
                    Err(e) => is_internal_error(e, rid) && s1 == s0,
                }
            },
            Some(rec) => if rec.request_hash != hash {
                match r {
                    Ok(_) => false,
                    Err(e) => is_conflict_error(
                        e,
                        "Idempotency-Key reuse with different request payload"@,
                        rid,
                    ) && s1 == s0,
                }
            } else if rec.status == Status::InProgress {
                match r {
                    Ok(_) => false,
                    Err(e) => is_conflict_error(
                        e,
                        "Request in progress for this Idempotency-Key; retry shortly"@,
                        rid,
                    ) && s1 == s0,
                }
            } else {
                match r {
                    Ok(p) => Some(p.0) == rec.response_status && Some(p.1@) == rec.response_body
                        && s1 == s0,
                    Err(_) => false,
                }
            },
        },
    }
}

/// Wraps the order write in the idempotency protocol: claim the slot, run
/// the operation, store the response in the same commit; replay or refuse
/// when the slot is taken.
pub fn with_idempotency(
    store: &mut Store,
    key_header: Option<&String>,
    req_id: &RequestId,
    endpoint: &str,
    request_hash: &String,
    op: &OrderWriteOp,
    now: u64,
) -> (r: Result<(u16, CreateOrderResponse), ApiError>)
    requires
        wf(old(store)@),
        op.item_count >= 0,
        op.total_qty >= 0,
    ensures
        wf(final(store)@),
        engine_post(
            old(store)@,
            final(store)@,
            header_view(key_header),
            endpoint@,
            request_hash@,
            op@,
            now as int,
            req_id.0@,
            r,
        ),
{
    let key = match extract_key(key_header) {
        None => {
            return create_order_tx(store, req_id, op, now);
        },
        Some(k) => k,
    };
    match store.find_record_index(endpoint, key.as_str()) {
        Some(i) => {
            proof {
                assert(store@.records[i as int] == store.records@[i as int]@);
                assert(record_complete(store@.records[i as int]));
            }
            let rec = &store.records[i];
            if !str_eq(rec.request_hash.as_str(), request_hash.as_str()) {
                return Err(
                    ApiError::conflict(req_id, "Idempotency-Key reuse with different request payload"),
                );
            }
            match rec.status {
                Status::InProgress => Err(
                    ApiError::conflict(
                        req_id,
                        "Request in progress for this Idempotency-Key; retry shortly",
                    ),
                ),
                Status::Completed => {
                    let status: u16 = match rec.response_status {
                        Some(s) => s,
                        None => vstd::pervasive::unreached(),
                    };
                    let body = match &rec.response_body {
                        Some(b) => b.duplicate(),
                        None => vstd::pervasive::unreached(),
                    };
                    Ok((status, body))
                },
            }
        },
        None => {
            let claim = IdempotencyRecord {
                endpoint: endpoint.to_owned(),
                key: key.clone(),
                request_hash: request_hash.clone(),
                status: Status::InProgress,
                response_status: None,
                response_body: None,
            };
            let ghost claimv = claim@;
            store.records.push(claim);
            let ghost mid = store@;
            proof {
                assert(mid.records =~= old(store)@.records.push(claimv));
                assert(mid.orders =~= old(store)@.orders);
                assert(mid.outbox =~= old(store)@.outbox);
                crate::store::lemma_find_record_none(old(store)@.records, endpoint@, key@);
                assert forall|a: int, b: int|
                    0 <= a < b < mid.records.len() implies !((#[trigger] mid.records[a]).endpoint
                    == (#[trigger] mid.records[b]).endpoint && mid.records[a].key
                    == mid.records[b].key) by {
                    if b < mid.records.len() - 1 {
                        assert(mid.records[a] == old(store)@.records[a]);
                        assert(mid.records[b] == old(store)@.records[b]);
                    } else {
                        assert(mid.records[a] == old(store)@.records[a]);
                        assert(mid.records[b] == claimv);
                    }
                }
                assert forall|a: int|
                    0 <= a < mid.records.len() implies record_complete(
                    #[trigger] mid.records[a],
                ) by {
                    if a < mid.records.len() - 1 {
                        assert(mid.records[a] == old(store)@.records[a]);
                    } else {
                        assert(mid.records[a] == claimv);
                    }
                }
                assert(wf(mid));
            }
            let res = create_order_tx(store, req_id, op, now);
            match res {
                Ok((status, resp)) => {
                    let ghost after_op = store@;
                    let ghost pre_vec = store.records@;
                    let _ = store.records.pop();
                    let done = IdempotencyRecord {
                        endpoint: endpoint.to_owned(),
                        key: key,
                        request_hash: request_hash.clone(),
                        status: Status::Completed,
                        response_status: Some(status),
                        response_body: Some(resp.duplicate()),
                    };
                    let ghost donev = done@;
                    store.records.push(done);
                    proof {
                        assert(after_op == op_store(mid, op@, now as int));
                        assert(after_op.records == mid.records);
                        assert forall|a: int|
                            0 <= a < store@.records.len() - 1 implies store@.records[a] == old(
                            store,
                        )@.records[a] by {
                            assert(store@.records[a] == store.records@[a]@);
                            assert(store.records@[a] == pre_vec[a]);
                            assert(pre_vec[a]@ == after_op.records[a]);
                        }
                        assert(store@.records.len() == old(store)@.records.len() + 1);
                        assert(store@.records[store@.records.len() - 1] == donev);
                        assert(store@.records =~= old(store)@.records.push(donev));
                        assert(store@.orders =~= after_op.orders);
                        assert(store@.outbox =~= after_op.outbox);
                        assert(donev == completed_rec(endpoint@, key@, request_hash@, op@));
                        assert forall|a: int, b: int|
                            0 <= a < b < store@.records.len() implies !((
                        #[trigger] store@.records[a]).endpoint == (
                        #[trigger] store@.records[b]).endpoint && store@.records[a].key
                            == store@.records[b].key) by {
                            if b < store@.records.len() - 1 {
                                assert(store@.records[a] == old(store)@.records[a]);
                                assert(store@.records[b] == old(store)@.records[b]);
                            } else {
                                assert(store@.records[a] == old(store)@.records[a]);
                                assert(store@.records[b] == donev);
                            }
                        }
                        assert forall|a: int|
                            0 <= a < store@.records.len() implies record_complete(
                            #[trigger] store@.records[a],
                        ) by {
                            if a < store@.records.len() - 1 {
                                assert(store@.records[a] == old(store)@.records[a]);
                            } else {
                                assert(store@.records[a] == donev);
                            }
                        }
                        assert(wf(store@));
                    }
                    Ok((status, resp))
                },
                Err(e) => {
                    let ghost after_err = store@;
                    let ghost pre_vec = store.records@;
                    let _ = store.records.pop();
                    proof {
                        assert(after_err == mid);
                        assert forall|a: int|
                            0 <= a < store@.records.len() implies store@.records[a] == old(
                            store,
                        )@.records[a] by {
                            assert(store@.records[a] == store.records@[a]@);
                            assert(store.records@[a] == pre_vec[a]);
                            assert(pre_vec[a]@ == after_err.records[a]);
                            assert(mid.records[a] == old(store)@.records.push(claimv)[a]);
                        }
                        assert(store@.records =~= old(store)@.records);
                        assert(store@.orders =~= old(store)@.orders);
                        assert(store@.outbox =~= old(store)@.outbox);
                        assert(store@ =~= old(store)@);
                    }
                    Err(e)
                },
            }
        },
    }
}

} // verus!

verus! {

/// The literal endpoint the order write binds its keys to.
pub const IDEMPOTENCY_ENDPOINT: &'static str = "POST:/api/v1/orders";

/// The create-order handler logic: validate, derive the counts, hash the
/// request, and run the write under the idempotency protocol with fresh
/// server-generated ids.
pub fn handle_create_order(
    store: &mut Store,
    key_header: Option<&String>,
    req_id: &RequestId,
    req: &crate::orders::CreateOrderRequest,
    now: u64,
) -> (r: Result<(u16, CreateOrderResponse), ApiError>)
    requires
        wf(old(store)@),
        crate::orders::valid_create(req@) ==> crate::orders::qty_sum(req@.items) <= i32::MAX,
    ensures
        wf(final(store)@),
        !crate::orders::valid_create(req@) ==> (r matches Err(e)
            && crate::error::is_validation_error(
            e,
            crate::orders::validation_msg(req@.external_id, req@.items),
            req_id.0@,
        ) && final(store)@ == old(store)@),
        crate::orders::valid_create(req@) ==> exists|op: OrderWriteOpV|
            op.external_id == req@.external_id && op.item_count == req@.items.len()
                && op.total_qty == crate::orders::qty_sum(req@.items) && #[trigger] engine_post(
                old(store)@,
                final(store)@,
                header_view(key_header),
                "POST:/api/v1/orders"@,
                crate::digest::request_hash_of(req@.external_id, crate::digest::items_of(req@)),
                op,
                now as int,
                req_id.0@,
                r,
            ),
{
    match crate::orders::create_order(req, req_id) {
        Err(e) => {
            return Err(e);
        },
        Ok(()) => {},
    }
    proof {
        assert forall|i: int|
            0 <= i < req.items@.len() implies crate::orders::item_ok(
            #[trigger] req.items@[i]@,
        ) by {
            assert(req@.items[i] == req.items@[i]@);
        }
    }
    let total_qty: i32 = crate::orders::sum_qty(&req.items);
    proof {
        assert(req.items@.len() <= i32::MAX);
    }
    let item_count: i32 = req.items.len() as i32;
    let request_hash = crate::digest::hash_request(req);
    let op = OrderWriteOp {
        external_id: req.external_id.clone(),
        item_count,
        total_qty,
        order_id: crate::request::new_uuid_string(),
        event_id: crate::request::new_uuid_string(),
    };
    let res = with_idempotency(
        store,
        key_header,
        req_id,
        IDEMPOTENCY_ENDPOINT,
        &request_hash,
        &op,
        now,
    );
    proof {
        assert(engine_post(
            old(store)@,
            store@,
            header_view(key_header),
            "POST:/api/v1/orders"@,
            crate::digest::request_hash_of(req@.external_id, crate::digest::items_of(req@)),
            op@,
            now as int,
            req_id.0@,
            res,
        ));
    }
    res
}

} // verus!

verus! {

/// A second request on the same slot with the same hash replays the first
/// successful outcome: same status, same response value — hence the same
/// serialized body — and the store untouched.
pub proof fn lemma_replay_same_request(
    s0: StoreV,
    s1: StoreV,
    s2: StoreV,
    keyh: Option<Seq<char>>,
    endpoint: Seq<char>,
    hash: Seq<char>,
    op1: OrderWriteOpV,
    op2: OrderWriteOpV,
    now1: int,
    now2: int,
    rid1: Seq<char>,
    rid2: Seq<char>,
    r1: Result<(u16, CreateOrderResponse), ApiError>,
    r2: Result<(u16, CreateOrderResponse), ApiError>,
)
    requires
        wf(s0),
        extract_key_spec(keyh) is Some,
        find_record(s0.records, endpoint, extract_key_spec(keyh)->Some_0) is None,
        engine_post(s0, s1, keyh, endpoint, hash, op1, now1, rid1, r1),
        r1 is Ok,
        engine_post(s1, s2, keyh, endpoint, hash, op2, now2, rid2, r2),
    ensures
        r2 is Ok,
        r2->Ok_0.0 == r1->Ok_0.0,
        r2->Ok_0.1@ == r1->Ok_0.1@,
        crate::jsonenc::json_of_response(
            r2->Ok_0.1@.id,
            r2->Ok_0.1@.external_id,
            r2->Ok_0.1@.item_count,
            r2->Ok_0.1@.total_qty,
        ) == crate::jsonenc::json_of_response(
            r1->Ok_0.1@.id,
            r1->Ok_0.1@.external_id,
            r1->Ok_0.1@.item_count,
            r1->Ok_0.1@.total_qty,
        ),
        s2 == s1,
{
    let key = extract_key_spec(keyh)->Some_0;
    let done = completed_rec(endpoint, key, hash, op1);
    lemma_find_record_push(s0.records, done, endpoint, key);
    assert(find_record(s1.records, endpoint, key) == Some(done));
}

/// A second request on the same slot with a different hash is refused with
/// a conflict and leaves the first outcome untouched.
pub proof fn lemma_conflict_different_request(
    s0: StoreV,
    s1: StoreV,
    s2: StoreV,
    keyh: Option<Seq<char>>,
    endpoint: Seq<char>,
    hash1: Seq<char>,
    hash2: Seq<char>,
    op1: OrderWriteOpV,
    op2: OrderWriteOpV,
    now1: int,
    now2: int,
    rid1: Seq<char>,
    rid2: Seq<char>,
    r1: Result<(u16, CreateOrderResponse), ApiError>,
    r2: Result<(u16, CreateOrderResponse), ApiError>,
)
    requires
        wf(s0),
        extract_key_spec(keyh) is Some,
        find_record(s0.records, endpoint, extract_key_spec(keyh)->Some_0) is None,
        engine_post(s0, s1, keyh, endpoint, hash1, op1, now1, rid1, r1),
        r1 is Ok,
        hash2 != hash1,
        engine_post(s1, s2, keyh, endpoint, hash2, op2, now2, rid2, r2),
    ensures
        r2 matches Err(e) && is_conflict_error(
            e,
            "Idempotency-Key reuse with different request payload"@,
            rid2,
        ),
        s2 == s1,
{
    let key = extract_key_spec(keyh)->Some_0;
    let done = completed_rec(endpoint, key, hash1, op1);
    lemma_find_record_push(s0.records, done, endpoint, key);
    assert(find_record(s1.records, endpoint, key) == Some(done));
}

/// Per slot, one successful operation inserts exactly one order row and one
/// outbox row, and any second request on the slot inserts nothing more,
/// whatever its hash and outcome.
pub proof fn lemma_at_most_one_insert(
    s0: StoreV,
    s1: StoreV,
    s2: StoreV,
    keyh: Option<Seq<char>>,
    endpoint: Seq<char>,
    hash1: Seq<char>,
    hash2: Seq<char>,
    op1: OrderWriteOpV,
    op2: OrderWriteOpV,
    now1: int,
    now2: int,
    rid1: Seq<char>,
    rid2: Seq<char>,
    r1: Result<(u16, CreateOrderResponse), ApiError>,
    r2: Result<(u16, CreateOrderResponse), ApiError>,
)
    requires
        wf(s0),
        extract_key_spec(keyh) is Some,
        find_record(s0.records, endpoint, extract_key_spec(keyh)->Some_0) is None,
        engine_post(s0, s1, keyh, endpoint, hash1, op1, now1, rid1, r1),
        r1 is Ok,
        engine_post(s1, s2, keyh, endpoint, hash2, op2, now2, rid2, r2),
    ensures
        s2.orders == s0.orders.push(op_order_rec(op1)),
        s2.outbox == s0.outbox.push(op_outbox_rec(op1, now1)),
{
    let key = extract_key_spec(keyh)->Some_0;
    let done = completed_rec(endpoint, key, hash1, op1);
    lemma_find_record_push(s0.records, done, endpoint, key);
    assert(find_record(s1.records, endpoint, key) == Some(done));
}

/// A retry that races a still-running original is refused with a conflict
/// and performs no write at all.
pub proof fn lemma_in_progress_excludes(
    s0: StoreV,
    s1: StoreV,
    keyh: Option<Seq<char>>,
    endpoint: Seq<char>,
    hash: Seq<char>,
    op: OrderWriteOpV,
    now: int,
    rid: Seq<char>,
    r: Result<(u16, CreateOrderResponse), ApiError>,
)
    requires
        extract_key_spec(keyh) is Some,
        find_record(s0.records, endpoint, extract_key_spec(keyh)->Some_0) matches Some(rec)
            && rec.status == Status::InProgress,
        engine_post(s0, s1, keyh, endpoint, hash, op, now, rid, r),
    ensures
        r is Err,
        s1 == s0,
{
}

/// A successful create enqueues exactly one outbox row: `order.created`,
/// with the response's own id inside the payload.
pub proof fn lemma_create_enqueues_once(
    s0: StoreV,
    s1: StoreV,
    keyh: Option<Seq<char>>,
    endpoint: Seq<char>,
    hash: Seq<char>,
    op: OrderWriteOpV,
    now: int,
    rid: Seq<char>,
    r: Result<(u16, CreateOrderResponse), ApiError>,
    resp: CreateOrderResponse,
)
    requires
        engine_post(s0, s1, keyh, endpoint, hash, op, now, rid, r),
        r == Result::<(u16, CreateOrderResponse), ApiError>::Ok((201u16, resp)),
        match extract_key_spec(keyh) {
            None => true,
            Some(key) => find_record(s0.records, endpoint, key) is None,
        },
    ensures
        s1.outbox == s0.outbox.push(
            crate::outbox::pending_rec(
                op.event_id,
                "order.created"@,
                crate::jsonenc::json_of_order_created(
                    resp@.id,
                    resp@.external_id,
                    resp@.item_count,
                    resp@.total_qty,
                ),
                now,
            ),
        ),
        s1.orders == s0.orders.push(op_order_rec(op)),
{
    assert(resp@ == op_response(op));
}

/// An idempotent replay of a successful create does not enqueue a second
/// outbox row.
pub proof fn lemma_replay_enqueues_nothing(
    s0: StoreV,
    s1: StoreV,
    s2: StoreV,
    keyh: Option<Seq<char>>,
    endpoint: Seq<char>,
    hash: Seq<char>,
    op1: OrderWriteOpV,
    op2: OrderWriteOpV,
    now1: int,
    now2: int,
    rid1: Seq<char>,
    rid2: Seq<char>,
    r1: Result<(u16, CreateOrderResponse), ApiError>,
    r2: Result<(u16, CreateOrderResponse), ApiError>,
)
    requires
        wf(s0),
        extract_key_spec(keyh) is Some,
        find_record(s0.records, endpoint, extract_key_spec(keyh)->Some_0) is None,
        engine_post(s0, s1, keyh, endpoint, hash, op1, now1, rid1, r1),
        r1 is Ok,
        engine_post(s1, s2, keyh, endpoint, hash, op2, now2, rid2, r2),
    ensures
        s2.outbox == s1.outbox,
{
    lemma_replay_same_request(
        s0,
        s1,
        s2,
        keyh,
        endpoint,
        hash,
        op1,
        op2,
        now1,
        now2,
        rid1,
        rid2,
        r1,
        r2,
    );
}

} // verus!
