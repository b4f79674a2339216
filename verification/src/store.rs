//! The persisted-state model: the `orders` table, the `idempotency_keys`
//! table and the `outbox` table, as plain data.
//!
//! The store owns all shared state; the idempotency engine and the outbox
//! dispatcher are stateless between operations. Uniqueness that the real
//! store enforces with primary keys and unique constraints is the
//! well-formedness invariant [`wf`]; every operation preserves it.

use vstd::prelude::*;
use crate::orders::OrderResponseV;
use crate::outbox::{OutboxRecord, OutboxRecordV};
use crate::text::str_eq;

verus! {

/// One `orders` row.
#[derive(Debug)]
pub struct OrderRecord {
    pub id: String,
    pub external_id: String,
    pub item_count: i32,
    pub total_qty: i32,
}

#[verifier::ext_equal]
pub struct OrderRecordV {
    pub id: Seq<char>,
    pub external_id: Seq<char>,
    pub item_count: int,
    pub total_qty: int,
}

impl View for OrderRecord {
    type V = OrderRecordV;

    open spec fn view(&self) -> OrderRecordV {
        OrderRecordV {
            id: self.id@,
            external_id: self.external_id@,
            item_count: self.item_count as int,
            total_qty: self.total_qty as int,
        }
    }
}

/// The status of an idempotency record.
#[derive(Clone, Copy, PartialEq, Eq, Structural, Debug)]
pub enum Status {
    InProgress,
    Completed,
}

impl Status {
    /// The status a stored text column denotes; anything but `COMPLETED`
    /// reads as in progress.
    pub fn from_db(s: &str) -> (r: Status)
        ensures
            r == (if s@ == "COMPLETED"@ {
                Status::Completed
            } else {
                Status::InProgress
            }),
    {
        if str_eq(s, "COMPLETED") {
            Status::Completed
        } else {
            Status::InProgress
        }
    }
}

/// One `idempotency_keys` row.
#[derive(Debug)]
pub struct IdempotencyRecord {
    pub endpoint: String,
    pub key: String,
    pub request_hash: String,
    pub status: Status,
    pub response_status: Option<u16>,
    pub response_body: Option<crate::orders::CreateOrderResponse>,
}

#[verifier::ext_equal]
pub struct IdempotencyRecordV {
    pub endpoint: Seq<char>,
    pub key: Seq<char>,
    pub request_hash: Seq<char>,
    pub status: Status,
    pub response_status: Option<u16>,
    pub response_body: Option<OrderResponseV>,
}

impl View for IdempotencyRecord {
    type V = IdempotencyRecordV;

    open spec fn view(&self) -> IdempotencyRecordV {
        IdempotencyRecordV {
            endpoint: self.endpoint@,
            key: self.key@,
            request_hash: self.request_hash@,
            status: self.status,
            response_status: self.response_status,
            response_body: match self.response_body {
                Some(b) => Some(b@),
                None => None,
            },
        }
    }
}

/// The whole persisted state.
#[derive(Debug)]
pub struct Store {
    pub orders: Vec<OrderRecord>,
    pub records: Vec<IdempotencyRecord>,
    pub outbox: Vec<OutboxRecord>,
}

#[verifier::ext_equal]
pub struct StoreV {
    pub orders: Seq<OrderRecordV>,
    pub records: Seq<IdempotencyRecordV>,
    pub outbox: Seq<OutboxRecordV>,
}

impl View for Store {
    type V = StoreV;

    open spec fn view(&self) -> StoreV {
        StoreV {
            orders: self.orders@.map_values(|r: OrderRecord| r@),
            records: self.records@.map_values(|r: IdempotencyRecord| r@),
            outbox: self.outbox@.map_values(|r: OutboxRecord| r@),
        }
    }
}

/// Some order row carries this `external_id`.
pub open spec fn has_external_id(orders: Seq<OrderRecordV>, ext: Seq<char>) -> bool {
    exists|i: int| 0 <= i < orders.len() && (#[trigger] orders[i]).external_id == ext
}

/// Some order row carries this primary key.
pub open spec fn has_order_id(orders: Seq<OrderRecordV>, id: Seq<char>) -> bool {
    exists|i: int| 0 <= i < orders.len() && (#[trigger] orders[i]).id == id
}

/// Some outbox row carries this primary key.
pub open spec fn has_event_id(outbox: Seq<OutboxRecordV>, id: Seq<char>) -> bool {
    exists|i: int| 0 <= i < outbox.len() && (#[trigger] outbox[i]).id == id
}

/// The first order row with this id.
pub open spec fn find_order(orders: Seq<OrderRecordV>, id: Seq<char>) -> Option<OrderRecordV>
    decreases orders.len(),
{
    if orders.len() == 0 {
        None
    } else if orders[0].id == id {
        Some(orders[0])
    } else {
        find_order(orders.drop_first(), id)
    }
}

/// The first idempotency record for this `(endpoint, key)` slot.
pub open spec fn find_record(
    records: Seq<IdempotencyRecordV>,
    endpoint: Seq<char>,
    key: Seq<char>,
) -> Option<IdempotencyRecordV>
    decreases records.len(),
{
    if records.len() == 0 {
        None
    } else if records[0].endpoint == endpoint && records[0].key == key {
        Some(records[0])
    } else {
        find_record(records.drop_first(), endpoint, key)
    }
}

/// A completed record answers with a stored status and body.
pub open spec fn record_complete(r: IdempotencyRecordV) -> bool {
    r.status == Status::Completed ==> r.response_status is Some && r.response_body is Some
}

/// Well-formedness: what the real store's keys and constraints enforce.
/// `external_id` and order ids are unique, `(endpoint, key)` slots are
/// unique, outbox ids are unique, and completed records carry a response.
pub open spec fn wf(s: StoreV) -> bool {
    &&& forall|i: int, j: int|
        0 <= i < j < s.orders.len() ==> (#[trigger] s.orders[i]).external_id != (
        #[trigger] s.orders[j]).external_id && s.orders[i].id != s.orders[j].id
    &&& forall|i: int, j: int|
        0 <= i < j < s.records.len() ==> !((#[trigger] s.records[i]).endpoint == (
        #[trigger] s.records[j]).endpoint && s.records[i].key == s.records[j].key)
    &&& forall|i: int, j: int|
        0 <= i < j < s.outbox.len() ==> (#[trigger] s.outbox[i]).id != (#[trigger] s.outbox[j]).id
    &&& forall|i: int| 0 <= i < s.records.len() ==> record_complete(#[trigger] s.records[i])
}

impl Store {
    /// An empty store: no orders, no idempotency records, no outbox rows.
    pub fn new() -> (r: Store)
        ensures
            wf(r@),
            r@.orders == Seq::<OrderRecordV>::empty(),
            r@.records == Seq::<IdempotencyRecordV>::empty(),
            r@.outbox == Seq::<OutboxRecordV>::empty(),
    {
        let r = Store { orders: Vec::new(), records: Vec::new(), outbox: Vec::new() };
        proof {
            assert(r@.orders =~= Seq::<OrderRecordV>::empty());
            assert(r@.records =~= Seq::<IdempotencyRecordV>::empty());
            assert(r@.outbox =~= Seq::<OutboxRecordV>::empty());
        }
        r
    }

    /// Whether some order row carries this `external_id`.
    pub fn contains_external_id(&self, ext: &str) -> (r: bool)
        ensures
            r == has_external_id(self@.orders, ext@),
    {
        let n = self.orders.len();
        let mut i: usize = 0;
        while i < n
            invariant
                0 <= i <= n,
                n == self.orders.len(),
                forall|j: int| 0 <= j < i ==> (#[trigger] self@.orders[j]).external_id != ext@,
            decreases n - i,
        {
            proof {
                assert(self@.orders[i as int] == self.orders@[i as int]@);
            }
            if str_eq(self.orders[i].external_id.as_str(), ext) {
                return true;
            }
            i = i + 1;
        }
        false
    }

    /// Whether some order row carries this id.
    pub fn contains_order_id(&self, id: &str) -> (r: bool)
        ensures
            r == has_order_id(self@.orders, id@),
    {
        let n = self.orders.len();
        let mut i: usize = 0;
        while i < n
            invariant
                0 <= i <= n,
                n == self.orders.len(),
                forall|j: int| 0 <= j < i ==> (#[trigger] self@.orders[j]).id != id@,
            decreases n - i,
        {
            proof {
                assert(self@.orders[i as int] == self.orders@[i as int]@);
            }
            if str_eq(self.orders[i].id.as_str(), id) {
                return true;
            }
            i = i + 1;
        }
        false
    }

    /// Whether some outbox row carries this id.
    pub fn contains_event_id(&self, id: &str) -> (r: bool)
        ensures
            r == has_event_id(self@.outbox, id@),
    {
        let n = self.outbox.len();
        let mut i: usize = 0;
        while i < n
            invariant
                0 <= i <= n,
                n == self.outbox.len(),
                forall|j: int| 0 <= j < i ==> (#[trigger] self@.outbox[j]).id != id@,
            decreases n - i,
        {
            proof {
                assert(self@.outbox[i as int] == self.outbox@[i as int]@);
            }
            if str_eq(self.outbox[i].id.as_str(), id) {
                return true;
            }
            i = i + 1;
        }
        false
    }

    /// The index of the idempotency record for `(endpoint, key)`, if any.
    pub fn find_record_index(&self, endpoint: &str, key: &str) -> (r: Option<usize>)
        ensures
            r matches Some(i) ==> i < self@.records.len() && find_record(
                self@.records,
                endpoint@,
                key@,
            ) == Some(self@.records[i as int]),
            r is None ==> find_record(self@.records, endpoint@, key@) is None,
    {
        proof {
            assert(self@.records.skip(0) =~= self@.records);
        }
        let n = self.records.len();
        let mut i: usize = 0;
        while i < n
            invariant
                0 <= i <= n,
                n == self.records.len(),
                find_record(self@.records, endpoint@, key@) == find_record(
                    self@.records.skip(i as int),
                    endpoint@,
                    key@,
                ),
            decreases n - i,
        {
            proof {
                assert(self@.records[i as int] == self.records@[i as int]@);
                assert(self@.records.skip(i as int)[0] == self@.records[i as int]);
            }
            let rec = &self.records[i];
            if str_eq(rec.endpoint.as_str(), endpoint) && str_eq(rec.key.as_str(), key) {
                return Some(i);
            }
            proof {
                assert(self@.records.skip(i as int).drop_first() =~= self@.records.skip(
                    i as int + 1,
                ));
            }
            i = i + 1;
        }
        proof {
            assert(self@.records.skip(n as int) =~= Seq::<IdempotencyRecordV>::empty());
        }
        None
    }

    /// The first order row with this id, if any.
    pub fn get_order(&self, id: &str) -> (r: Option<&OrderRecord>)
        ensures
            r matches Some(rec) ==> find_order(self@.orders, id@) == Some(rec@),
            r is None ==> find_order(self@.orders, id@) is None,
    {
        proof {
            assert(self@.orders.skip(0) =~= self@.orders);
        }
        let n = self.orders.len();
        let mut i: usize = 0;
        while i < n
            invariant
                0 <= i <= n,
                n == self.orders.len(),
                find_order(self@.orders, id@) == find_order(
                    self@.orders.skip(i as int),
                    id@,
                ),
            decreases n - i,
        {
            proof {
                assert(self@.orders[i as int] == self.orders@[i as int]@);
                assert(self@.orders.skip(i as int)[0] == self@.orders[i as int]);
            }
            if str_eq(self.orders[i].id.as_str(), id) {
                return Some(&self.orders[i]);
            }
            proof {
                assert(self@.orders.skip(i as int).drop_first() =~= self@.orders.skip(
                    i as int + 1,
                ));
            }
            i = i + 1;
        }
        proof {
            assert(self@.orders.skip(n as int) =~= Seq::<OrderRecordV>::empty());
        }
        None
    }
}

/// A slot that `find_record` misses is on no record at all.
pub proof fn lemma_find_record_none(
    records: Seq<IdempotencyRecordV>,
    endpoint: Seq<char>,
    key: Seq<char>,
)
    requires
        find_record(records, endpoint, key) is None,
    ensures
        forall|i: int|
            0 <= i < records.len() ==> !((#[trigger] records[i]).endpoint == endpoint
                && records[i].key == key),
    decreases records.len(),
{
    if records.len() > 0 {
        lemma_find_record_none(records.drop_first(), endpoint, key);
        assert forall|i: int|
            0 <= i < records.len() implies !((#[trigger] records[i]).endpoint == endpoint
            && records[i].key == key) by {
            if i > 0 {
                assert(records[i] == records.drop_first()[i - 1]);
            }
        }
    }
}

/// `find_record` looks through a pushed record last: an existing slot wins,
/// else the new record answers exactly for its own `(endpoint, key)`.
pub proof fn lemma_find_record_push(
    records: Seq<IdempotencyRecordV>,
    rec: IdempotencyRecordV,
    endpoint: Seq<char>,
    key: Seq<char>,
)
    ensures
        find_record(records.push(rec), endpoint, key) == (if find_record(
            records,
            endpoint,
            key,
        ) is Some {
            find_record(records, endpoint, key)
        } else if rec.endpoint == endpoint && rec.key == key {
            Some(rec)
        } else {
            None
        }),
    decreases records.len(),
{
    if records.len() == 0 {
        assert(records.push(rec)[0] == rec);
        assert(records.push(rec).drop_first() =~= Seq::<IdempotencyRecordV>::empty());
    } else {
        assert(records.push(rec)[0] == records[0]);
        assert(records.push(rec).drop_first() =~= records.drop_first().push(rec));
        lemma_find_record_push(records.drop_first(), rec, endpoint, key);
    }
}

} // verus!
