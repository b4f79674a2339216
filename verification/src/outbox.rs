//! The transactional outbox: enqueue, claim, mark-sent and mark-failed, and
//! the dispatcher's per-row decision.
//!
//! A row is claimable iff it is `PENDING` and its `available_at` has passed.
//! A claim atomically turns up to `limit` claimable rows, in table order,
//! into `PROCESSING` rows and returns their projections; rows another worker
//! holds are never returned twice. A failed delivery returns the row to
//! `PENDING` with one more attempt and a backoff of `max(attempts, 1)`
//! seconds.

use vstd::prelude::*;
use crate::store::{has_event_id, Store, StoreV};
use crate::text::str_eq;

verus! {

#[derive(Clone, Copy, PartialEq, Eq, Structural, Debug)]
pub enum OutboxStatus {
    Pending,
    Processing,
    Sent,
    Failed,
}

impl OutboxStatus {
    /// The text the store persists for this status.
    pub fn as_str(&self) -> (r: &'static str)
        ensures
            self is Pending ==> r@ == "PENDING"@,
            self is Processing ==> r@ == "PROCESSING"@,
            self is Sent ==> r@ == "SENT"@,
            self is Failed ==> r@ == "FAILED"@,
    {
        match self {
            OutboxStatus::Pending => "PENDING",
            OutboxStatus::Processing => "PROCESSING",
            OutboxStatus::Sent => "SENT",
            OutboxStatus::Failed => "FAILED",
        }
    }

    /// The status a persisted text column denotes; unknown text reads as
    /// `PENDING`.
    pub fn from_db(s: &str) -> (r: OutboxStatus)
        ensures
            s@ == "PROCESSING"@ ==> r is Processing,
            s@ == "SENT"@ ==> r is Sent,
            s@ == "FAILED"@ ==> r is Failed,
            s@ != "PROCESSING"@ && s@ != "SENT"@ && s@ != "FAILED"@ ==> r is Pending,
    {
        proof {
            reveal_strlit("PROCESSING");
            reveal_strlit("SENT");
            reveal_strlit("FAILED");
            assert("PROCESSING"@.len() == 10);
            assert("SENT"@.len() == 4);
            assert("FAILED"@.len() == 6);
        }
        if str_eq(s, "PROCESSING") {
            OutboxStatus::Processing
        } else if str_eq(s, "SENT") {
            OutboxStatus::Sent
        } else if str_eq(s, "FAILED") {
            OutboxStatus::Failed
        } else {
            OutboxStatus::Pending
        }
    }
}

/// What a producer enqueues.
#[derive(Debug)]
pub struct OutboxEvent {
    pub id: String,
    pub event_type: String,
    pub payload: String,
}

/// The projection a claim returns to the worker.
#[derive(Debug)]
pub struct OutboxRow {
    pub id: String,
    pub event_type: String,
    pub payload: String,
    pub status: String,
    pub attempts: i32,
}

#[verifier::ext_equal]
pub struct OutboxRowV {
    pub id: Seq<char>,
    pub event_type: Seq<char>,
    pub payload: Seq<char>,
    pub status: Seq<char>,
    pub attempts: int,
}

impl View for OutboxRow {
    type V = OutboxRowV;

    open spec fn view(&self) -> OutboxRowV {
        OutboxRowV {
            id: self.id@,
            event_type: self.event_type@,
            payload: self.payload@,
            status: self.status@,
            attempts: self.attempts as int,
        }
    }
}

/// One full `outbox` row.
#[derive(Debug)]
pub struct OutboxRecord {
    pub id: String,
    pub event_type: String,
    pub payload: String,
    pub status: OutboxStatus,
    pub attempts: i32,
    pub available_at: u64,
    pub locked_at: Option<u64>,
    pub last_error: Option<String>,
    pub created_at: u64,
    pub updated_at: u64,
}

#[verifier::ext_equal]
pub struct OutboxRecordV {
    pub id: Seq<char>,
    pub event_type: Seq<char>,
    pub payload: Seq<char>,
    pub status: OutboxStatus,
    pub attempts: int,
    pub available_at: int,
    pub locked_at: Option<int>,
    pub last_error: Option<Seq<char>>,
    pub created_at: int,
    pub updated_at: int,
}

impl View for OutboxRecord {
    type V = OutboxRecordV;

    open spec fn view(&self) -> OutboxRecordV {
        OutboxRecordV {
            id: self.id@,
            event_type: self.event_type@,
            payload: self.payload@,
            status: self.status,
            attempts: self.attempts as int,
            available_at: self.available_at as int,
            locked_at: match self.locked_at {
                Some(t) => Some(t as int),
                None => None,
            },
            last_error: match self.last_error {
                Some(ref e) => Some(e@),
                None => None,
            },
            created_at: self.created_at as int,
            updated_at: self.updated_at as int,
        }
    }
}

impl OutboxRecord {
    /// A field-wise copy, equal in view to `self`.
    fn duplicate(&self) -> (r: OutboxRecord)
        ensures
            r@ == self@,
    {
        OutboxRecord {
            id: self.id.clone(),
            event_type: self.event_type.clone(),
            payload: self.payload.clone(),
            status: self.status,
            attempts: self.attempts,
            available_at: self.available_at,
            locked_at: self.locked_at,
            last_error: match &self.last_error {
                Some(e) => Some(e.clone()),
                None => None,
            },
            created_at: self.created_at,
            updated_at: self.updated_at,
        }
    }
}

/// A storage-level failure, carrying the SQLSTATE code when the driver
/// reports one.
#[derive(Debug)]
pub struct StorageError {
    pub code: Option<String>,
}

/// A delivery failure: one error kind, with a message.
#[derive(Debug)]
pub struct DeliveryError {
    pub message: String,
}

impl DeliveryError {
    pub fn new(msg: &str) -> (r: DeliveryError)
        ensures
            r.message@ == msg@,
    {
        DeliveryError { message: msg.to_owned() }
    }
}

pub type DeliveryResult = Result<(), DeliveryError>;

/// Delivery seam: one attempt to deliver one event. Implementations must be
/// safe to call concurrently and must not assume exactly-once consumption.
pub trait DeliverySink {
    fn deliver(&self, event_type: &str, payload: &str) -> DeliveryResult;
}

/// Minimal sink: accepts every event.
pub struct LogSink;

impl DeliverySink for LogSink {
    #[allow(unused_variables)]
    fn deliver(&self, event_type: &str, payload: &str) -> (r: DeliveryResult)
        ensures
            r is Ok,
    {
        Ok(())
    }
}

/// Dispatcher configuration: poll interval and claim batch size.
#[derive(Debug)]
pub struct WorkerConfig {
    pub poll_interval_ms: u64,
    pub batch_size: i64,
}

impl Default for WorkerConfig {
    /// Defaults: poll every 2 s, claim up to 50 rows.
    fn default() -> (r: WorkerConfig)
        ensures
            r.poll_interval_ms == 2000,
            r.batch_size == 50,
    {
        WorkerConfig { poll_interval_ms: 2000, batch_size: 50 }
    }
}

/// Postgres reports an undefined table as SQLSTATE `42P01`; at startup the
/// dispatcher waits instead of crashing when it sees this.
pub fn is_missing_outbox_table(err: &StorageError) -> (r: bool)
    ensures
        r == (err.code matches Some(c) && c@ == "42P01"@),
{
    match &err.code {
        Some(c) => str_eq(c.as_str(), "42P01"),
        None => false,
    }
}

/// The row `enqueue` inserts: `PENDING`, no attempts, available at once.
pub open spec fn pending_rec(
    id: Seq<char>,
    event_type: Seq<char>,
    payload: Seq<char>,
    now: int,
) -> OutboxRecordV {
    OutboxRecordV {
        id: id,
        event_type: event_type,
        payload: payload,
        status: OutboxStatus::Pending,
        attempts: 0,
        available_at: now,
        locked_at: None,
        last_error: None,
        created_at: now,
        updated_at: now,
    }
}

/// Enqueues an outbox event; the caller's surrounding operation decides
/// whether the insert survives. Fails only on a duplicate id, as the store's
/// primary key would (SQLSTATE `23505`).
pub fn enqueue(store: &mut Store, event: &OutboxEvent, now: u64) -> (r: Result<(), StorageError>)
    ensures
        r is Ok <==> !has_event_id(old(store)@.outbox, event.id@),
        r is Ok ==> final(store)@.outbox == old(store)@.outbox.push(
            pending_rec(event.id@, event.event_type@, event.payload@, now as int),
        ),
        r matches Err(e) ==> (e.code matches Some(c) && c@ == "23505"@) && final(store)@.outbox
            == old(store)@.outbox,
        final(store)@.orders == old(store)@.orders,
        final(store)@.records == old(store)@.records,
        crate::store::wf(old(store)@) ==> crate::store::wf(final(store)@),
{
    if store.contains_event_id(event.id.as_str()) {
        return Err(StorageError { code: Some("23505".to_owned()) });
    }
    let rec = OutboxRecord {
        id: event.id.clone(),
        event_type: event.event_type.clone(),
        payload: event.payload.clone(),
        status: OutboxStatus::Pending,
        attempts: 0,
        available_at: now,
        locked_at: None,
        last_error: None,
        created_at: now,
        updated_at: now,
    };
    let ghost recv = rec@;
    store.outbox.push(rec);
    proof {
        assert(store@.outbox =~= old(store)@.outbox.push(recv));
        assert(store@.orders =~= old(store)@.orders);
        assert(store@.records =~= old(store)@.records);
        if crate::store::wf(old(store)@) {
            let s = store@;
            assert forall|i: int, j: int| 0 <= i < j < s.outbox.len() implies (
            #[trigger] s.outbox[i]).id != (#[trigger] s.outbox[j]).id by {
                if j < s.outbox.len() - 1 {
                    assert(s.outbox[i] == old(store)@.outbox[i]);
                    assert(s.outbox[j] == old(store)@.outbox[j]);
                } else {
                    assert(s.outbox[i] == old(store)@.outbox[i]);
                    assert(s.outbox[j] == recv);
                    assert(!has_event_id(old(store)@.outbox, event.id@));
                }
            }
        }
    }
    Ok(())
}

/// A row may be claimed: `PENDING` and already available.
pub open spec fn claimable(r: OutboxRecordV, now: int) -> bool {
    r.status == OutboxStatus::Pending && r.available_at <= now
}

/// The row after a claim: `PROCESSING`, locked now.
pub open spec fn claimed_rec(r: OutboxRecordV, now: int) -> OutboxRecordV {
    OutboxRecordV {
        id: r.id,
        event_type: r.event_type,
        payload: r.payload,
        status: OutboxStatus::Processing,
        attempts: r.attempts,
        available_at: r.available_at,
        locked_at: Some(now),
        last_error: r.last_error,
        created_at: r.created_at,
        updated_at: now,
    }
}

/// The projection a claim returns: the post-update row.
pub open spec fn row_of(r: OutboxRecordV) -> OutboxRowV {
    OutboxRowV {
        id: r.id,
        event_type: r.event_type,
        payload: r.payload,
        status: "PROCESSING"@,
        attempts: r.attempts,
    }
}

/// What one claim of up to `limit` rows does: the table afterwards, and the
/// projections returned, in table order.
pub open spec fn claim_spec(outbox: Seq<OutboxRecordV>, limit: int, now: int) -> (
    Seq<OutboxRecordV>,
    Seq<OutboxRowV>,
)
    decreases outbox.len(),
{
    if outbox.len() == 0 || limit <= 0 {
        (outbox, Seq::<OutboxRowV>::empty())
    } else if claimable(outbox[0], now) {
        let rest = claim_spec(outbox.drop_first(), limit - 1, now);
        (
            seq![claimed_rec(outbox[0], now)] + rest.0,
            seq![row_of(outbox[0])] + rest.1,
        )
    } else {
        let rest = claim_spec(outbox.drop_first(), limit, now);
        (seq![outbox[0]] + rest.0, rest.1)
    }
}

/// Claims up to `limit` claimable rows, oldest first, marking each
/// `PROCESSING` and returning the post-update projections.
pub fn claim_batch(store: &mut Store, limit: i64, now: u64) -> (rows: Vec<OutboxRow>)
    ensures
        final(store)@.outbox == claim_spec(old(store)@.outbox, limit as int, now as int).0,
        rows@.map_values(|r: OutboxRow| r@) == claim_spec(
            old(store)@.outbox,
            limit as int,
            now as int,
        ).1,
        final(store)@.orders == old(store)@.orders,
        final(store)@.records == old(store)@.records,
{
    let ghost outbox0 = store@.outbox;
    proof {
        assert(outbox0.skip(0) =~= outbox0);
    }
    let n = store.outbox.len();
    let mut new_table: Vec<OutboxRecord> = Vec::new();
    let mut rows: Vec<OutboxRow> = Vec::new();
    let mut remaining: i64 = limit;
    let mut i: usize = 0;
    while i < n
        invariant
            0 <= i <= n,
            n == store.outbox.len(),
            store@.outbox == outbox0,
            claim_spec(outbox0, limit as int, now as int).0 =~= new_table@.map_values(
                |r: OutboxRecord| r@,
            ) + claim_spec(outbox0.skip(i as int), remaining as int, now as int).0,
            claim_spec(outbox0, limit as int, now as int).1 =~= rows@.map_values(
                |r: OutboxRow| r@,
            ) + claim_spec(outbox0.skip(i as int), remaining as int, now as int).1,
            remaining <= limit,
        decreases n - i,
    {
        proof {
            assert(outbox0[i as int] == store.outbox@[i as int]@);
            assert(outbox0.skip(i as int)[0] == outbox0[i as int]);
            assert(outbox0.skip(i as int).drop_first() =~= outbox0.skip(i as int + 1));
        }
        let rec = &store.outbox[i];
        let is_claimable = remaining > 0 && matches!(rec.status, OutboxStatus::Pending)
            && rec.available_at <= now;
        if is_claimable {
            let claimed = OutboxRecord {
                id: rec.id.clone(),
                event_type: rec.event_type.clone(),
                payload: rec.payload.clone(),
                status: OutboxStatus::Processing,
                attempts: rec.attempts,
                available_at: rec.available_at,
                locked_at: Some(now),
                last_error: match &rec.last_error {
                    Some(e) => Some(e.clone()),
                    None => None,
                },
                created_at: rec.created_at,
                updated_at: now,
            };
            let row = OutboxRow {
                id: rec.id.clone(),
                event_type: rec.event_type.clone(),
                payload: rec.payload.clone(),
                status: "PROCESSING".to_owned(),
                attempts: rec.attempts,
            };
            proof {
                assert(claimed@ == claimed_rec(outbox0[i as int], now as int));
                assert(row@ == row_of(outbox0[i as int]));
            }
            new_table.push(claimed);
            rows.push(row);
            remaining = remaining - 1;
        } else {
            let copy = rec.duplicate();
            new_table.push(copy);
        }
        i = i + 1;
    }
    proof {
        assert(outbox0.skip(n as int) =~= Seq::<OutboxRecordV>::empty());
        assert(claim_spec(outbox0.skip(n as int), remaining as int, now as int).0
            =~= Seq::<OutboxRecordV>::empty());
        assert(claim_spec(outbox0.skip(n as int), remaining as int, now as int).1
            =~= Seq::<OutboxRowV>::empty());
        assert(rows@.map_values(|r: OutboxRow| r@) =~= claim_spec(
            outbox0,
            limit as int,
            now as int,
        ).1);
    }
    store.outbox = new_table;
    proof {
        assert(store@.outbox =~= claim_spec(outbox0, limit as int, now as int).0);
        assert(store@.orders =~= old(store)@.orders);
        assert(store@.records =~= old(store)@.records);
    }
    rows
}

} // verus!

verus! {

/// The first outbox row with this id.
pub open spec fn find_outbox(outbox: Seq<OutboxRecordV>, id: Seq<char>) -> Option<OutboxRecordV>
    decreases outbox.len(),
{
    if outbox.len() == 0 {
        None
    } else if outbox[0].id == id {
        Some(outbox[0])
    } else {
        find_outbox(outbox.drop_first(), id)
    }
}

/// The row after `mark_sent`: terminal `SENT`.
pub open spec fn sent_rec(r: OutboxRecordV, now: int) -> OutboxRecordV {
    OutboxRecordV {
        id: r.id,
        event_type: r.event_type,
        payload: r.payload,
        status: OutboxStatus::Sent,
        attempts: r.attempts,
        available_at: r.available_at,
        locked_at: r.locked_at,
        last_error: r.last_error,
        created_at: r.created_at,
        updated_at: now,
    }
}

/// The retry backoff, in seconds: linear in the attempts already made,
/// never below one second.
pub open spec fn backoff(attempts: int) -> int {
    if attempts < 1 {
        1
    } else {
        attempts
    }
}

/// The row after `mark_failed`: back to `PENDING`, one more attempt on
/// record, retry no sooner than the backoff.
pub open spec fn failed_rec(r: OutboxRecordV, attempts: int, err: Seq<char>, now: int) -> OutboxRecordV {
    OutboxRecordV {
        id: r.id,
        event_type: r.event_type,
        payload: r.payload,
        status: OutboxStatus::Pending,
        attempts: r.attempts + 1,
        available_at: now + backoff(attempts),
        locked_at: r.locked_at,
        last_error: Some(err),
        created_at: r.created_at,
        updated_at: now,
    }
}

/// The table with every row of this id marked sent.
pub open spec fn mark_sent_spec(outbox: Seq<OutboxRecordV>, id: Seq<char>, now: int) -> Seq<OutboxRecordV> {
    Seq::new(
        outbox.len(),
        |i: int| if outbox[i].id == id {
            sent_rec(outbox[i], now)
        } else {
            outbox[i]
        },
    )
}

/// The table with every row of this id marked failed.
pub open spec fn mark_failed_spec(
    outbox: Seq<OutboxRecordV>,
    id: Seq<char>,
    attempts: int,
    err: Seq<char>,
    now: int,
) -> Seq<OutboxRecordV> {
    Seq::new(
        outbox.len(),
        |i: int| if outbox[i].id == id {
            failed_rec(outbox[i], attempts, err, now)
        } else {
            outbox[i]
        },
    )
}

/// Marks the row with this id `SENT`. The caller holds the row it just
/// claimed, so the target is `PROCESSING`.
pub fn mark_sent(store: &mut Store, id: &str, now: u64)
    requires
        find_outbox(old(store)@.outbox, id@) matches Some(rec) && rec.status
            == OutboxStatus::Processing,
    ensures
        final(store)@.outbox == mark_sent_spec(old(store)@.outbox, id@, now as int),
        final(store)@.orders == old(store)@.orders,
        final(store)@.records == old(store)@.records,
{
    let ghost outbox0 = store@.outbox;
    let n = store.outbox.len();
    let mut new_table: Vec<OutboxRecord> = Vec::new();
    let mut i: usize = 0;
    while i < n
        invariant
            0 <= i <= n,
            n == store.outbox.len(),
            store@.outbox == outbox0,
            new_table@.len() == i,
            forall|j: int|
                0 <= j < i ==> new_table@.map_values(|r: OutboxRecord| r@)[j]
                    == mark_sent_spec(outbox0, id@, now as int)[j],
        decreases n - i,
    {
        proof {
            assert(outbox0[i as int] == store.outbox@[i as int]@);
        }
        let rec = &store.outbox[i];
        if str_eq(rec.id.as_str(), id) {
            let updated = OutboxRecord {
                id: rec.id.clone(),
                event_type: rec.event_type.clone(),
                payload: rec.payload.clone(),
                status: OutboxStatus::Sent,
                attempts: rec.attempts,
                available_at: rec.available_at,
                locked_at: rec.locked_at,
                last_error: match &rec.last_error {
                    Some(e) => Some(e.clone()),
                    None => None,
                },
                created_at: rec.created_at,
                updated_at: now,
            };
            proof {
                assert(updated@ == sent_rec(outbox0[i as int], now as int));
            }
            new_table.push(updated);
        } else {
            new_table.push(rec.duplicate());
        }
        i = i + 1;
    }
    store.outbox = new_table;
    proof {
        assert(store@.outbox =~= mark_sent_spec(outbox0, id@, now as int));
        assert(store@.orders =~= old(store)@.orders);
        assert(store@.records =~= old(store)@.records);
    }
}

/// Marks the row with this id failed: back to `PENDING`, attempts bumped,
/// `available_at` pushed out by the backoff, the error recorded.
pub fn mark_failed(store: &mut Store, id: &str, attempts: i32, err: &str, now: u64)
    requires
        find_outbox(old(store)@.outbox, id@) is Some,
        forall|i: int|
            0 <= i < old(store)@.outbox.len() && (#[trigger] old(store)@.outbox[i]).id == id@
                ==> old(store)@.outbox[i].attempts < i32::MAX,
        now + backoff(attempts as int) <= u64::MAX,
    ensures
        final(store)@.outbox == mark_failed_spec(
            old(store)@.outbox,
            id@,
            attempts as int,
            err@,
            now as int,
        ),
        final(store)@.orders == old(store)@.orders,
        final(store)@.records == old(store)@.records,
{
    let backoff_secs: u64 = if attempts < 1 {
        1
    } else {
        attempts as u64
    };
    let ghost outbox0 = store@.outbox;
    let n = store.outbox.len();
    let mut new_table: Vec<OutboxRecord> = Vec::new();
    let mut i: usize = 0;
    while i < n
        invariant
            0 <= i <= n,
            n == store.outbox.len(),
            store@.outbox == outbox0,
            new_table@.len() == i,
            backoff_secs == backoff(attempts as int),
            now + backoff_secs <= u64::MAX,
            forall|j: int|
                0 <= j < outbox0.len() && (#[trigger] outbox0[j]).id == id@
                    ==> outbox0[j].attempts < i32::MAX,
            forall|j: int|
                0 <= j < i ==> new_table@.map_values(|r: OutboxRecord| r@)[j]
                    == mark_failed_spec(outbox0, id@, attempts as int, err@, now as int)[j],
        decreases n - i,
    {
        proof {
            assert(outbox0[i as int] == store.outbox@[i as int]@);
        }
        let rec = &store.outbox[i];
        if str_eq(rec.id.as_str(), id) {
            let updated = OutboxRecord {
                id: rec.id.clone(),
                event_type: rec.event_type.clone(),
                payload: rec.payload.clone(),
                status: OutboxStatus::Pending,
                attempts: rec.attempts + 1,
                available_at: now + backoff_secs,
                locked_at: rec.locked_at,
                last_error: Some(err.to_owned()),
                created_at: rec.created_at,
                updated_at: now,
            };
            proof {
                assert(updated@ == failed_rec(
                    outbox0[i as int],
                    attempts as int,
                    err@,
                    now as int,
                ));
            }
            new_table.push(updated);
        } else {
            new_table.push(rec.duplicate());
        }
        i = i + 1;
    }
    store.outbox = new_table;
    proof {
        assert(store@.outbox =~= mark_failed_spec(
            outbox0,
            id@,
            attempts as int,
            err@,
            now as int,
        ));
        assert(store@.orders =~= old(store)@.orders);
        assert(store@.records =~= old(store)@.records);
    }
}

/// The dispatcher's decision for one claimed row: a delivered event is
/// marked sent; a failed one is returned to `PENDING` with backoff, the
/// error message recorded.
pub fn settle_delivery(store: &mut Store, row: &OutboxRow, outcome: &DeliveryResult, now: u64)
    requires
        find_outbox(old(store)@.outbox, row@.id) matches Some(rec) && rec.status
            == OutboxStatus::Processing,
        forall|i: int|
            0 <= i < old(store)@.outbox.len() && (#[trigger] old(store)@.outbox[i]).id == row@.id
                ==> old(store)@.outbox[i].attempts < i32::MAX,
        now + backoff(row@.attempts) <= u64::MAX,
    ensures
        outcome is Ok ==> final(store)@.outbox == mark_sent_spec(
            old(store)@.outbox,
            row@.id,
            now as int,
        ),
        outcome matches Err(e) ==> final(store)@.outbox == mark_failed_spec(
            old(store)@.outbox,
            row@.id,
            row@.attempts,
            e.message@,
            now as int,
        ),
        final(store)@.orders == old(store)@.orders,
        final(store)@.records == old(store)@.records,
{
    match outcome {
        Ok(()) => mark_sent(store, row.id.as_str(), now),
        Err(e) => mark_failed(store, row.id.as_str(), row.attempts, e.message.as_str(), now),
    }
}

} // verus!

verus! {

/// A `mark_failed` schedules the retry at least one second out and strictly
/// increases the attempts counter of the targeted row.
pub proof fn lemma_backoff_schedule(
    outbox: Seq<OutboxRecordV>,
    id: Seq<char>,
    attempts: int,
    err: Seq<char>,
    now: int,
    i: int,
)
    requires
        0 <= i < outbox.len(),
        outbox[i].id == id,
    ensures
        mark_failed_spec(outbox, id, attempts, err, now)[i].available_at >= now + 1,
        mark_failed_spec(outbox, id, attempts, err, now)[i].attempts > outbox[i].attempts,
{
}

/// The source index of the `t`-th projection a claim returns.
pub open spec fn claim_src(outbox: Seq<OutboxRecordV>, limit: int, now: int, t: int) -> int
    decreases outbox.len(),
{
    if outbox.len() == 0 || limit <= 0 {
        0
    } else if claimable(outbox[0], now) {
        if t == 0 {
            0
        } else {
            1 + claim_src(outbox.drop_first(), limit - 1, now, t - 1)
        }
    } else {
        1 + claim_src(outbox.drop_first(), limit, now, t)
    }
}

/// Every projection a claim returns comes from a claimable row, at the
/// position the claim turned to `PROCESSING`; the table keeps its length
/// and its ids, and rows not claimed are unchanged.
pub proof fn lemma_claim_sound(outbox: Seq<OutboxRecordV>, limit: int, now: int)
    ensures
        claim_spec(outbox, limit, now).0.len() == outbox.len(),
        forall|i: int|
            0 <= i < outbox.len() ==> (#[trigger] claim_spec(outbox, limit, now).0[i]).id
                == outbox[i].id,
        forall|i: int|
            0 <= i < outbox.len() ==> claim_spec(outbox, limit, now).0[i] == outbox[i] || (
            claimable(outbox[i], now) && claim_spec(outbox, limit, now).0[i] == claimed_rec(
                outbox[i],
                now,
            )),
        forall|t: int|
            #![trigger claim_src(outbox, limit, now, t)]
            0 <= t < claim_spec(outbox, limit, now).1.len() ==> 0 <= claim_src(
                outbox,
                limit,
                now,
                t,
            ) < outbox.len() && claimable(outbox[claim_src(outbox, limit, now, t)], now)
                && claim_spec(outbox, limit, now).1[t] == row_of(
                outbox[claim_src(outbox, limit, now, t)],
            ) && claim_spec(outbox, limit, now).0[claim_src(outbox, limit, now, t)] == claimed_rec(
                outbox[claim_src(outbox, limit, now, t)],
                now,
            ),
        forall|t: int, u: int|
            0 <= t < u < claim_spec(outbox, limit, now).1.len() ==> #[trigger] claim_src(
                outbox,
                limit,
                now,
                t,
            ) < #[trigger] claim_src(outbox, limit, now, u),
    decreases outbox.len(),
{
    if outbox.len() == 0 || limit <= 0 {
    } else {
        let df = outbox.drop_first();
        let c = claim_spec(outbox, limit, now);
        if claimable(outbox[0], now) {
            let rest = claim_spec(df, limit - 1, now);
            lemma_claim_sound(df, limit - 1, now);
            assert forall|i: int|
                0 <= i < outbox.len() implies (#[trigger] c.0[i]).id == outbox[i].id by {
                if i > 0 {
                    assert(c.0[i] == rest.0[i - 1]);
                    assert(outbox[i] == df[i - 1]);
                }
            }
            assert forall|i: int|
                0 <= i < outbox.len() implies c.0[i] == outbox[i] || (claimable(outbox[i], now)
                && c.0[i] == claimed_rec(outbox[i], now)) by {
                if i > 0 {
                    assert(c.0[i] == rest.0[i - 1]);
                    assert(outbox[i] == df[i - 1]);
                }
            }
            assert forall|t: int|
                #![trigger claim_src(outbox, limit, now, t)]
                0 <= t < c.1.len() implies 0 <= claim_src(outbox, limit, now, t) < outbox.len()
                && claimable(outbox[claim_src(outbox, limit, now, t)], now) && c.1[t] == row_of(
                outbox[claim_src(outbox, limit, now, t)],
            ) && c.0[claim_src(outbox, limit, now, t)] == claimed_rec(
                outbox[claim_src(outbox, limit, now, t)],
                now,
            ) by {
                if t == 0 {
                    assert(claim_src(outbox, limit, now, 0) == 0);
                    assert(c.1[0] == row_of(outbox[0]));
                    assert(c.0[0] == claimed_rec(outbox[0], now));
                } else {
                    let i0 = claim_src(df, limit - 1, now, t - 1);
                    assert(claim_src(outbox, limit, now, t) == 1 + i0);
                    assert(c.1[t] == rest.1[t - 1]);
                    assert(outbox[i0 + 1] == df[i0]);
                    assert(c.0[i0 + 1] == rest.0[i0]);
                }
            }
            assert forall|t: int, u: int|
                0 <= t < u < c.1.len() implies #[trigger] claim_src(outbox, limit, now, t)
                < #[trigger] claim_src(outbox, limit, now, u) by {
                if t > 0 {
                    assert(claim_src(df, limit - 1, now, t - 1) < claim_src(
                        df,
                        limit - 1,
                        now,
                        u - 1,
                    ));
                } else {
                    assert(claim_src(outbox, limit, now, t) == 0);
                    assert(claim_src(outbox, limit, now, u) == 1 + claim_src(
                        df,
                        limit - 1,
                        now,
                        u - 1,
                    ));
                    assert(c.1[u] == rest.1[u - 1]);
                    assert(0 <= claim_src(df, limit - 1, now, u - 1));
                }
            }
        } else {
            let rest = claim_spec(df, limit, now);
            lemma_claim_sound(df, limit, now);
            assert forall|i: int|
                0 <= i < outbox.len() implies (#[trigger] c.0[i]).id == outbox[i].id by {
                if i > 0 {
                    assert(c.0[i] == rest.0[i - 1]);
                    assert(outbox[i] == df[i - 1]);
                }
            }
            assert forall|i: int|
                0 <= i < outbox.len() implies c.0[i] == outbox[i] || (claimable(outbox[i], now)
                && c.0[i] == claimed_rec(outbox[i], now)) by {
                if i > 0 {
                    assert(c.0[i] == rest.0[i - 1]);
                    assert(outbox[i] == df[i - 1]);
                }
            }
            assert forall|t: int|
                #![trigger claim_src(outbox, limit, now, t)]
                0 <= t < c.1.len() implies 0 <= claim_src(outbox, limit, now, t) < outbox.len()
                && claimable(outbox[claim_src(outbox, limit, now, t)], now) && c.1[t] == row_of(
                outbox[claim_src(outbox, limit, now, t)],
            ) && c.0[claim_src(outbox, limit, now, t)] == claimed_rec(
                outbox[claim_src(outbox, limit, now, t)],
                now,
            ) by {
                let i0 = claim_src(df, limit, now, t);
                assert(claim_src(outbox, limit, now, t) == 1 + i0);
                assert(c.1[t] == rest.1[t]);
                assert(outbox[i0 + 1] == df[i0]);
                assert(c.0[i0 + 1] == rest.0[i0]);
            }
            assert forall|t: int, u: int|
                0 <= t < u < c.1.len() implies #[trigger] claim_src(outbox, limit, now, t)
                < #[trigger] claim_src(outbox, limit, now, u) by {
                assert(claim_src(df, limit, now, t) < claim_src(df, limit, now, u));
            }
        }
    }
}

/// One claim returns each row at most once: the returned ids are pairwise
/// distinct when the table ids are.
pub proof fn lemma_claim_rows_distinct(outbox: Seq<OutboxRecordV>, limit: int, now: int)
    requires
        forall|i: int, j: int|
            0 <= i < j < outbox.len() ==> (#[trigger] outbox[i]).id != (#[trigger] outbox[j]).id,
    ensures
        forall|t: int, u: int|
            0 <= t < u < claim_spec(outbox, limit, now).1.len() ==> (#[trigger] claim_spec(
                outbox,
                limit,
                now,
            ).1[t]).id != (#[trigger] claim_spec(outbox, limit, now).1[u]).id,
{
    let c = claim_spec(outbox, limit, now);
    lemma_claim_sound(outbox, limit, now);
    assert forall|t: int, u: int|
        0 <= t < u < c.1.len() implies (#[trigger] c.1[t]).id != (#[trigger] c.1[u]).id by {
        let i = claim_src(outbox, limit, now, t);
        let j = claim_src(outbox, limit, now, u);
        assert(i < j);
        assert(c.1[t].id == outbox[i].id);
        assert(c.1[u].id == outbox[j].id);
    }
}

/// Claims from different workers never see the same row: projections of a
/// second claim, taken after a first claim committed, are disjoint by id
/// from the first claim's.
pub proof fn lemma_claims_disjoint(
    outbox: Seq<OutboxRecordV>,
    l1: int,
    now1: int,
    l2: int,
    now2: int,
)
    requires
        forall|i: int, j: int|
            0 <= i < j < outbox.len() ==> (#[trigger] outbox[i]).id != (#[trigger] outbox[j]).id,
    ensures
        forall|t: int, u: int|
            0 <= t < claim_spec(outbox, l1, now1).1.len() && 0 <= u < claim_spec(
                claim_spec(outbox, l1, now1).0,
                l2,
                now2,
            ).1.len() ==> (#[trigger] claim_spec(outbox, l1, now1).1[t]).id != (
            #[trigger] claim_spec(claim_spec(outbox, l1, now1).0, l2, now2).1[u]).id,
{
    let tbl = claim_spec(outbox, l1, now1).0;
    let rows1 = claim_spec(outbox, l1, now1).1;
    let rows2 = claim_spec(tbl, l2, now2).1;
    lemma_claim_sound(outbox, l1, now1);
    lemma_claim_sound(tbl, l2, now2);
    assert forall|t: int, u: int|
        0 <= t < rows1.len() && 0 <= u < rows2.len() implies (#[trigger] rows1[t]).id != (
    #[trigger] rows2[u]).id by {
        let i = claim_src(outbox, l1, now1, t);
        let j = claim_src(tbl, l2, now2, u);
        assert(rows1[t].id == outbox[i].id);
        assert(rows2[u].id == tbl[j].id);
        assert(tbl[j].id == outbox[j].id);
        if rows1[t].id == rows2[u].id {
            if i != j {
                if i < j {
                    assert(outbox[i].id != outbox[j].id);
                } else {
                    assert(outbox[j].id != outbox[i].id);
                }
            }
            assert(i == j);
            assert(tbl[i] == claimed_rec(outbox[i], now1));
            assert(tbl[i].status == OutboxStatus::Processing);
            assert(claimable(tbl[j], now2));
        }
    }
}

} // verus!

verus! {

/// With ids unique, `find_outbox` answers exactly from the position that
/// carries the id.
pub proof fn lemma_find_outbox_at(outbox: Seq<OutboxRecordV>, id: Seq<char>, k: int)
    requires
        forall|i: int, j: int|
            0 <= i < j < outbox.len() ==> (#[trigger] outbox[i]).id != (#[trigger] outbox[j]).id,
        0 <= k < outbox.len(),
        outbox[k].id == id,
    ensures
        find_outbox(outbox, id) == Some(outbox[k]),
    decreases outbox.len(),
{
    if k == 0 {
    } else {
        assert(outbox[0].id != id);
        let df = outbox.drop_first();
        assert forall|i: int, j: int|
            0 <= i < j < df.len() implies (#[trigger] df[i]).id != (#[trigger] df[j]).id by {
            assert(df[i] == outbox[i + 1]);
            assert(df[j] == outbox[j + 1]);
        }
        assert(df[k - 1] == outbox[k]);
        lemma_find_outbox_at(df, id, k - 1);
    }
}

/// The table after a sequence of settlements, one per claimed row, in
/// order: `None` marks the row sent, a message marks it failed.
pub open spec fn settle_fold(
    outbox: Seq<OutboxRecordV>,
    rows: Seq<OutboxRowV>,
    outcomes: Seq<Option<Seq<char>>>,
    now: int,
) -> Seq<OutboxRecordV>
    decreases rows.len(),
{
    if rows.len() == 0 {
        outbox
    } else {
        let settled = match outcomes[0] {
            None => mark_sent_spec(outbox, rows[0].id, now),
            Some(msg) => mark_failed_spec(outbox, rows[0].id, rows[0].attempts, msg, now),
        };
        settle_fold(settled, rows.drop_first(), outcomes.drop_first(), now)
    }
}

proof fn lemma_settle_fold_snoc(
    outbox: Seq<OutboxRecordV>,
    rows: Seq<OutboxRowV>,
    outcomes: Seq<Option<Seq<char>>>,
    x: OutboxRowV,
    o: Option<Seq<char>>,
    now: int,
)
    requires
        rows.len() == outcomes.len(),
    ensures
        settle_fold(outbox, rows.push(x), outcomes.push(o), now) == (match o {
            None => mark_sent_spec(settle_fold(outbox, rows, outcomes, now), x.id, now),
            Some(msg) => mark_failed_spec(
                settle_fold(outbox, rows, outcomes, now),
                x.id,
                x.attempts,
                msg,
                now,
            ),
        }),
    decreases rows.len(),
{
    if rows.len() == 0 {
        assert(rows.push(x)[0] == x);
        assert(outcomes.push(o)[0] == o);
        assert(rows.push(x).drop_first() =~= Seq::<OutboxRowV>::empty());
        assert(outcomes.push(o).drop_first() =~= Seq::<Option<Seq<char>>>::empty());
        let settled_b = match o {
            None => mark_sent_spec(outbox, x.id, now),
            Some(msg) => mark_failed_spec(outbox, x.id, x.attempts, msg, now),
        };
        assert(settle_fold(outbox, rows.push(x), outcomes.push(o), now) == settle_fold(
            settled_b,
            rows.push(x).drop_first(),
            outcomes.push(o).drop_first(),
            now,
        ));
        assert(settle_fold(
            settled_b,
            Seq::<OutboxRowV>::empty(),
            Seq::<Option<Seq<char>>>::empty(),
            now,
        ) == settled_b);
        assert(settle_fold(outbox, rows, outcomes, now) == outbox);
    } else {
        assert(rows.push(x)[0] == rows[0]);
        assert(outcomes.push(o)[0] == outcomes[0]);
        assert(rows.push(x).drop_first() =~= rows.drop_first().push(x));
        assert(outcomes.push(o).drop_first() =~= outcomes.drop_first().push(o));
        let settled = match outcomes[0] {
            None => mark_sent_spec(outbox, rows[0].id, now),
            Some(msg) => mark_failed_spec(outbox, rows[0].id, rows[0].attempts, msg, now),
        };
        let settled2 = match outcomes.push(o)[0] {
            None => mark_sent_spec(outbox, rows.push(x)[0].id, now),
            Some(msg) => mark_failed_spec(
                outbox,
                rows.push(x)[0].id,
                rows.push(x)[0].attempts,
                msg,
                now,
            ),
        };
        assert(settled2 == settled);
        assert(settle_fold(outbox, rows.push(x), outcomes.push(o), now) == settle_fold(
            settled,
            rows.drop_first().push(x),
            outcomes.drop_first().push(o),
            now,
        ));
        assert(settle_fold(outbox, rows, outcomes, now) == settle_fold(
            settled,
            rows.drop_first(),
            outcomes.drop_first(),
            now,
        ));
        lemma_settle_fold_snoc(settled, rows.drop_first(), outcomes.drop_first(), x, o, now);
    }
}

/// One dispatcher iteration: claim a batch, attempt to deliver each claimed
/// row through the sink, and settle each row by its outcome — sent, or back
/// to `PENDING` with backoff. Returns how many rows it processed.
pub fn tick(store: &mut Store, sink: &impl DeliverySink, batch_size: i64, now: u64) -> (n: usize)
    requires
        crate::store::wf(old(store)@),
        forall|i: int|
            0 <= i < old(store)@.outbox.len() ==> (#[trigger] old(store)@.outbox[i]).attempts
                < i32::MAX,
        now + i32::MAX <= u64::MAX,
    ensures
        crate::store::wf(final(store)@),
        final(store)@.orders == old(store)@.orders,
        final(store)@.records == old(store)@.records,
        n == claim_spec(old(store)@.outbox, batch_size as int, now as int).1.len(),
        exists|outcomes: Seq<Option<Seq<char>>>|
            outcomes.len() == n && final(store)@.outbox == #[trigger] settle_fold(
                claim_spec(old(store)@.outbox, batch_size as int, now as int).0,
                claim_spec(old(store)@.outbox, batch_size as int, now as int).1,
                outcomes,
                now as int,
            ),
{
    let ghost outbox0 = old(store)@.outbox;
    let ghost claimed_tbl = claim_spec(outbox0, batch_size as int, now as int).0;
    let ghost claimed_rows = claim_spec(outbox0, batch_size as int, now as int).1;
    proof {
        lemma_claim_sound(outbox0, batch_size as int, now as int);
        lemma_claim_rows_distinct(outbox0, batch_size as int, now as int);
    }
    let rows = claim_batch(store, batch_size, now);
    let n = rows.len();
    let ghost rowsv = rows@.map_values(|r: OutboxRow| r@);
    let mut t: usize = 0;
    let ghost mut outcomes = Seq::<Option<Seq<char>>>::empty();
    proof {
        assert(rowsv.take(0) =~= Seq::<OutboxRowV>::empty());
        assert(store@.outbox =~= settle_fold(claimed_tbl, rowsv.take(0), outcomes, now as int));
    }
    while t < n
        invariant
            0 <= t <= n,
            n == rows.len(),
            rowsv == rows@.map_values(|r: OutboxRow| r@),
            rowsv == claimed_rows,
            claimed_tbl == claim_spec(outbox0, batch_size as int, now as int).0,
            claimed_rows == claim_spec(outbox0, batch_size as int, now as int).1,
            outcomes.len() == t,
            store@.outbox == settle_fold(claimed_tbl, rowsv.take(t as int), outcomes, now as int),
            store@.orders == old(store)@.orders,
            store@.records == old(store)@.records,
            store@.outbox.len() == outbox0.len(),
            forall|i: int|
                0 <= i < outbox0.len() ==> (#[trigger] store@.outbox[i]).id == outbox0[i].id,
            forall|i: int, j: int|
                0 <= i < j < outbox0.len() ==> (#[trigger] outbox0[i]).id != (
                #[trigger] outbox0[j]).id,
            forall|u: int, v: int|
                0 <= u < v < rowsv.len() ==> (#[trigger] rowsv[u]).id != (#[trigger] rowsv[v]).id,
            forall|u: int|
                0 <= u < rowsv.len() ==> 0 <= #[trigger] claim_src(
                    outbox0,
                    batch_size as int,
                    now as int,
                    u,
                ) < outbox0.len() && rowsv[u] == crate::outbox::row_of(
                    outbox0[claim_src(outbox0, batch_size as int, now as int, u)],
                ),
            forall|u: int|
                t <= u < rowsv.len() ==> (#[trigger] store@.outbox[claim_src(
                    outbox0,
                    batch_size as int,
                    now as int,
                    u,
                )]) == claimed_rec(
                    outbox0[claim_src(outbox0, batch_size as int, now as int, u)],
                    now as int,
                ),
            forall|i: int|
                0 <= i < outbox0.len() ==> (#[trigger] outbox0[i]).attempts < i32::MAX,
            forall|i: int|
                0 <= i < store@.outbox.len() ==> (#[trigger] store@.outbox[i]).attempts
                    <= i32::MAX,
            crate::store::wf(StoreV {
                orders: store@.orders,
                records: store@.records,
                outbox: store@.outbox,
            }),
            now + i32::MAX <= u64::MAX,
        decreases n - t,
    {
        let ghost k = claim_src(outbox0, batch_size as int, now as int, t as int);
        proof {
            assert(rowsv[t as int] == rows@[t as int]@);
            assert(store@.outbox[k] == claimed_rec(outbox0[k], now as int));
            assert(store@.outbox[k].id == rowsv[t as int].id);
            assert forall|i: int, j: int|
                0 <= i < j < store@.outbox.len() implies (#[trigger] store@.outbox[i]).id != (
            #[trigger] store@.outbox[j]).id by {
                assert(store@.outbox[i].id == outbox0[i].id);
                assert(store@.outbox[j].id == outbox0[j].id);
            }
            lemma_find_outbox_at(store@.outbox, rowsv[t as int].id, k);
            assert(store@.outbox[k].status == OutboxStatus::Processing);
            assert(store@.outbox[k].attempts == outbox0[k].attempts);
            assert(rowsv[t as int].attempts == outbox0[k].attempts);
        }
        let row = &rows[t];
        let outcome = sink.deliver(row.event_type.as_str(), row.payload.as_str());
        let ghost pre = store@.outbox;
        settle_delivery(store, row, &outcome, now);
        proof {
            let o: Option<Seq<char>> = match outcome {
                Ok(()) => None,
                Err(ref e) => Some(e.message@),
            };
            lemma_settle_fold_snoc(
                claimed_tbl,
                rowsv.take(t as int),
                outcomes,
                rowsv[t as int],
                o,
                now as int,
            );
            assert(rowsv.take(t as int).push(rowsv[t as int]) =~= rowsv.take(t as int + 1));
            outcomes = outcomes.push(o);
            assert(store@.outbox == settle_fold(
                claimed_tbl,
                rowsv.take(t as int + 1),
                outcomes,
                now as int,
            ));
            assert forall|i: int|
                0 <= i < outbox0.len() implies (#[trigger] store@.outbox[i]).id
                == outbox0[i].id by {
                assert(store@.outbox[i].id == pre[i].id);
            }
            assert forall|u: int|
                t + 1 <= u < rowsv.len() implies (#[trigger] store@.outbox[claim_src(
                outbox0,
                batch_size as int,
                now as int,
                u,
            )]) == claimed_rec(
                outbox0[claim_src(outbox0, batch_size as int, now as int, u)],
                now as int,
            ) by {
                let ku = claim_src(outbox0, batch_size as int, now as int, u);
                assert(pre[ku] == claimed_rec(outbox0[ku], now as int));
                assert(rowsv[u].id != rowsv[t as int].id);
                assert(pre[ku].id == rowsv[u].id);
                assert(store@.outbox[ku] == pre[ku]);
            }
            assert forall|i: int|
                0 <= i < store@.outbox.len() implies (#[trigger] store@.outbox[i]).attempts
                <= i32::MAX by {
                assert(pre[i].attempts <= i32::MAX);
            }
            assert(crate::store::wf(StoreV {
                orders: store@.orders,
                records: store@.records,
                outbox: store@.outbox,
            }));
        }
        t = t + 1;
    }
    proof {
        assert(rowsv.take(n as int) =~= rowsv);
        assert(store@ =~= (StoreV {
            orders: store@.orders,
            records: store@.records,
            outbox: store@.outbox,
        }));
    }
    n
}

} // verus!
