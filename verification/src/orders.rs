//! Order DTOs and domain validation.
//!
//! A request is valid when its `external_id` does not trim to nothing, it has
//! at least one item, and every item has a non-blank `sku` and a positive
//! `qty`. Validation reports the first violation, in field order.

use vstd::prelude::*;
use vstd::string::StringExecFns;
use crate::error::{is_validation_error, ApiError};
use crate::request::RequestId;
use crate::text::{all_space, dec_of, append_dec, is_blank};

verus! {

#[derive(Debug)]
pub struct OrderItem {
    pub sku: String,
    pub qty: i32,
}

pub struct OrderItemV {
    pub sku: Seq<char>,
    pub qty: int,
}

impl View for OrderItem {
    type V = OrderItemV;

    open spec fn view(&self) -> OrderItemV {
        OrderItemV { sku: self.sku@, qty: self.qty as int }
    }
}

#[derive(Debug)]
pub struct ValidateOrderRequest {
    pub external_id: String,
    pub items: Vec<OrderItem>,
}

#[derive(Debug)]
pub struct CreateOrderRequest {
    pub external_id: String,
    pub items: Vec<OrderItem>,
}

pub struct OrderRequestV {
    pub external_id: Seq<char>,
    pub items: Seq<OrderItemV>,
}

impl View for ValidateOrderRequest {
    type V = OrderRequestV;

    open spec fn view(&self) -> OrderRequestV {
        OrderRequestV {
            external_id: self.external_id@,
            items: self.items@.map_values(|it: OrderItem| it@),
        }
    }
}

impl View for CreateOrderRequest {
    type V = OrderRequestV;

    open spec fn view(&self) -> OrderRequestV {
        OrderRequestV {
            external_id: self.external_id@,
            items: self.items@.map_values(|it: OrderItem| it@),
        }
    }
}

#[derive(Debug)]
pub struct NormalizedOrder {
    pub external_id: String,
    pub item_count: usize,
    pub total_qty: i32,
}

#[derive(Debug)]
pub struct ValidateOrderResponse {
    pub normalized: NormalizedOrder,
}

#[derive(Debug)]
pub struct CreateOrderResponse {
    pub id: String,
    pub external_id: String,
    pub item_count: i32,
    pub total_qty: i32,
}

#[derive(Debug)]
pub struct GetOrderResponse {
    pub id: String,
    pub external_id: String,
    pub item_count: i32,
    pub total_qty: i32,
}

pub struct OrderResponseV {
    pub id: Seq<char>,
    pub external_id: Seq<char>,
    pub item_count: int,
    pub total_qty: int,
}

impl View for CreateOrderResponse {
    type V = OrderResponseV;

    open spec fn view(&self) -> OrderResponseV {
        OrderResponseV {
            id: self.id@,
            external_id: self.external_id@,
            item_count: self.item_count as int,
            total_qty: self.total_qty as int,
        }
    }
}

impl View for GetOrderResponse {
    type V = OrderResponseV;

    open spec fn view(&self) -> OrderResponseV {
        OrderResponseV {
            id: self.id@,
            external_id: self.external_id@,
            item_count: self.item_count as int,
            total_qty: self.total_qty as int,
        }
    }
}

impl CreateOrderResponse {
    /// A field-wise copy, equal in view to `self`.
    pub fn duplicate(&self) -> (r: CreateOrderResponse)
        ensures
            r@ == self@,
    {
        CreateOrderResponse {
            id: self.id.clone(),
            external_id: self.external_id.clone(),
            item_count: self.item_count,
            total_qty: self.total_qty,
        }
    }
}

/// One item passes validation.
pub open spec fn item_ok(it: OrderItemV) -> bool {
    !all_space(it.sku) && it.qty >= 1
}

/// The whole request passes validation.
pub open spec fn valid_order(external_id: Seq<char>, items: Seq<OrderItemV>) -> bool {
    !all_space(external_id) && items.len() > 0 && (forall|i: int|
        0 <= i < items.len() ==> item_ok(#[trigger] items[i]))
}

pub open spec fn valid_create(req: OrderRequestV) -> bool {
    valid_order(req.external_id, req.items)
}

/// The message for the first invalid item at or after `i`.
pub open spec fn item_error_msg(items: Seq<OrderItemV>, i: int) -> Seq<char>
    decreases items.len() - i,
{
    if i < 0 || i >= items.len() {
        Seq::<char>::empty()
    } else if all_space(items[i].sku) {
        "items["@ + dec_of(i) + "].sku must not be empty"@
    } else if items[i].qty < 1 {
        "items["@ + dec_of(i) + "].qty must be > 0"@
    } else {
        item_error_msg(items, i + 1)
    }
}

/// The message validation reports: the first violation in field order.
pub open spec fn validation_msg(external_id: Seq<char>, items: Seq<OrderItemV>) -> Seq<char> {
    if all_space(external_id) {
        "external_id must not be empty"@
    } else if items.len() == 0 {
        "items must not be empty"@
    } else {
        item_error_msg(items, 0)
    }
}

proof fn lemma_item_error_msg_step(items: Seq<OrderItemV>, i: int)
    requires
        0 <= i < items.len(),
        forall|j: int| 0 <= j < i ==> item_ok(#[trigger] items[j]),
    ensures
        item_error_msg(items, 0) == item_error_msg(items, i),
    decreases i,
{
    if i > 0 {
        lemma_item_error_msg_step(items, i - 1);
        assert(item_ok(items[i - 1]));
    }
}

/// Validates `external_id` and the item list; `Ok` exactly when the request
/// is valid, else the 400 error for the first violation.
pub fn validate_items(external_id: &str, items: &Vec<OrderItem>, req_id: &RequestId) -> (r: Result<
    (),
    ApiError,
>)
    ensures
        r is Ok <==> valid_order(external_id@, items@.map_values(|it: OrderItem| it@)),
        r matches Err(e) ==> is_validation_error(
            e,
            validation_msg(external_id@, items@.map_values(|it: OrderItem| it@)),
            req_id.0@,
        ),
{
    let ghost itemsv = items@.map_values(|it: OrderItem| it@);
    if is_blank(external_id) {
        return Err(ApiError::validation(req_id, "external_id must not be empty".to_owned()));
    }
    if items.len() == 0 {
        proof {
            assert(itemsv.len() == 0);
        }
        return Err(ApiError::validation(req_id, "items must not be empty".to_owned()));
    }
    let n = items.len();
    let mut i: usize = 0;
    while i < n
        invariant
            0 <= i <= n,
            n == items.len(),
            itemsv == items@.map_values(|it: OrderItem| it@),
            !all_space(external_id@),
            itemsv.len() > 0,
            forall|j: int| 0 <= j < i ==> item_ok(#[trigger] itemsv[j]),
        decreases n - i,
    {
        proof {
            assert(itemsv[i as int] == items@[i as int]@);
        }
        if is_blank(items[i].sku.as_str()) {
            proof {
                lemma_item_error_msg_step(itemsv, i as int);
                assert(all_space(itemsv[i as int].sku));
                assert(item_error_msg(itemsv, i as int) == "items["@ + dec_of(i as int)
                    + "].sku must not be empty"@);
            }
            let mut m = String::new();
            m.append("items[");
            append_dec(&mut m, i as u64);
            m.append("].sku must not be empty");
            proof {
                assert(m@ =~= "items["@ + dec_of(i as int) + "].sku must not be empty"@);
            }
            return Err(ApiError::validation(req_id, m));
        }
        if items[i].qty < 1 {
            proof {
                lemma_item_error_msg_step(itemsv, i as int);
                assert(!all_space(itemsv[i as int].sku));
                assert(item_error_msg(itemsv, i as int) == "items["@ + dec_of(i as int)
                    + "].qty must be > 0"@);
            }
            let mut m = String::new();
            m.append("items[");
            append_dec(&mut m, i as u64);
            m.append("].qty must be > 0");
            proof {
                assert(m@ =~= "items["@ + dec_of(i as int) + "].qty must be > 0"@);
            }
            return Err(ApiError::validation(req_id, m));
        }
        i = i + 1;
    }
    Ok(())
}

/// Validates a `POST /api/v1/orders/validate` body.
pub fn validate_order(req: &ValidateOrderRequest, req_id: &RequestId) -> (r: Result<(), ApiError>)
    ensures
        r is Ok <==> valid_order(req@.external_id, req@.items),
        r matches Err(e) ==> is_validation_error(
            e,
            validation_msg(req@.external_id, req@.items),
            req_id.0@,
        ),
{
    validate_items(req.external_id.as_str(), &req.items, req_id)
}

/// Validates a `POST /api/v1/orders` body.
pub fn create_order(req: &CreateOrderRequest, req_id: &RequestId) -> (r: Result<(), ApiError>)
    ensures
        r is Ok <==> valid_create(req@),
        r matches Err(e) ==> is_validation_error(
            e,
            validation_msg(req@.external_id, req@.items),
            req_id.0@,
        ),
{
    validate_items(req.external_id.as_str(), &req.items, req_id)
}

/// The sum of the item quantities.
pub open spec fn qty_sum(items: Seq<OrderItemV>) -> int
    decreases items.len(),
{
    if items.len() == 0 {
        0int
    } else {
        qty_sum(items.drop_last()) + items.last().qty
    }
}

proof fn lemma_qty_sum_bounds(items: Seq<OrderItemV>)
    requires
        forall|i: int| 0 <= i < items.len() ==> item_ok(#[trigger] items[i]),
    ensures
        qty_sum(items) >= items.len(),
    decreases items.len(),
{
    if items.len() > 0 {
        let t = items.drop_last();
        assert(forall|i: int| 0 <= i < t.len() ==> item_ok(#[trigger] t[i]));
        lemma_qty_sum_bounds(t);
    }
}

/// Sums the quantities of a valid item list.
pub fn sum_qty(items: &Vec<OrderItem>) -> (r: i32)
    requires
        forall|i: int|
            0 <= i < items@.len() ==> item_ok(#[trigger] items@[i]@),
        qty_sum(items@.map_values(|it: OrderItem| it@)) <= i32::MAX,
    ensures
        r == qty_sum(items@.map_values(|it: OrderItem| it@)),
        r >= items@.len(),
{
    let ghost itemsv = items@.map_values(|it: OrderItem| it@);
    proof {
        lemma_qty_sum_bounds(itemsv);
    }
    let n = items.len();
    let mut acc: i32 = 0;
    let mut i: usize = 0;
    while i < n
        invariant
            0 <= i <= n,
            n == items.len(),
            itemsv == items@.map_values(|it: OrderItem| it@),
            forall|j: int| 0 <= j < itemsv.len() ==> item_ok(#[trigger] itemsv[j]),
            qty_sum(itemsv) <= i32::MAX,
            acc == qty_sum(itemsv.take(i as int)),
            acc >= i,
        decreases n - i,
    {
        proof {
            assert(itemsv.take(i as int + 1).drop_last() =~= itemsv.take(i as int));
            assert(itemsv.take(i as int + 1).last() == itemsv[i as int]);
            assert(itemsv[i as int] == items@[i as int]@);
            lemma_qty_sum_prefix(itemsv, i as int + 1);
        }
        acc = acc + items[i].qty;
        i = i + 1;
    }
    proof {
        assert(itemsv.take(n as int) =~= itemsv);
    }
    acc
}

proof fn lemma_qty_sum_prefix(items: Seq<OrderItemV>, k: int)
    requires
        0 <= k <= items.len(),
        forall|i: int| 0 <= i < items.len() ==> item_ok(#[trigger] items[i]),
    ensures
        qty_sum(items.take(k)) <= qty_sum(items),
        qty_sum(items.take(k)) >= k,
    decreases items.len() - k,
{
    assert(forall|i: int|
        0 <= i < items.take(k).len() ==> item_ok(#[trigger] items.take(k)[i]));
    lemma_qty_sum_bounds(items.take(k));
    if k == items.len() {
        assert(items.take(k) =~= items);
    } else {
        assert(items.take(k + 1).drop_last() =~= items.take(k));
        assert(items.take(k + 1).last() == items[k]);
        assert(item_ok(items[k]));
        lemma_qty_sum_prefix(items, k + 1);
    }
}

/// The validate-endpoint handler logic: validation, then normalization.
pub fn handle_validate_order(req: &ValidateOrderRequest, req_id: &RequestId) -> (r: Result<
    ValidateOrderResponse,
    ApiError,
>)
    requires
        valid_order(req@.external_id, req@.items) ==> qty_sum(req@.items) <= i32::MAX,
    ensures
        r is Ok <==> valid_order(req@.external_id, req@.items),
        r matches Ok(resp) ==> resp.normalized.external_id@ == req@.external_id
            && resp.normalized.item_count == req@.items.len() && resp.normalized.total_qty
            == qty_sum(req@.items),
        r matches Err(e) ==> is_validation_error(
            e,
            validation_msg(req@.external_id, req@.items),
            req_id.0@,
        ),
{
    match validate_order(req, req_id) {
        Err(e) => Err(e),
        Ok(()) => {
            proof {
                assert forall|i: int| 0 <= i < req.items@.len() implies item_ok(
                    #[trigger] req.items@[i]@,
                ) by {
                    assert(req@.items[i] == req.items@[i]@);
                }
            }
            let item_count = req.items.len();
            let total_qty = sum_qty(&req.items);
            Ok(
                ValidateOrderResponse {
                    normalized: NormalizedOrder {
                        external_id: req.external_id.clone(),
                        item_count,
                        total_qty,
                    },
                },
            )
        },
    }
}

} // verus!
