//! Request hashing: SHA-256 over the canonical JSON of the request, encoded
//! as lower-case hex. The digest and the hex encoding come from outside
//! crates through trusted wrappers; the canonical JSON is built and
//! verified in [`crate::jsonenc`].

use vstd::prelude::*;
use vstd::string::StringExecFns;
use sha2::Digest;
use crate::jsonenc::{append_json_item, append_json_str, json_of_items, json_of_request};
use crate::orders::CreateOrderRequest;
use crate::text::HEX_DIGITS;

verus! {

/// The SHA-256 digest of the UTF-8 bytes of a string: a function of the
/// characters alone.
pub uninterp spec fn sha256_of(s: Seq<char>) -> Seq<u8>;

/// Relies on sha2's `Sha256`: the digest depends on the input bytes alone
/// and is 32 bytes long.
#[verifier::external_body]
fn sha256_digest(s: &str) -> (r: Vec<u8>)
    ensures
        r@ == sha256_of(s@),
        r@.len() == 32,
{
    let mut h = sha2::Sha256::new();
    h.update(s.as_bytes());
    h.finalize().to_vec()
}

/// The lower-case hex encoding of a byte string: two digits per byte, in
/// order.
pub open spec fn hex_of(b: Seq<u8>) -> Seq<char>
    decreases b.len(),
{
    if b.len() == 0 {
        Seq::<char>::empty()
    } else {
        seq![
            HEX_DIGITS@[(b[0] >> 4) as int],
            HEX_DIGITS@[(b[0] & 0xf) as int],
        ] + hex_of(b.drop_first())
    }
}

/// Relies on hex's `encode`: lower-case hex, two digits per byte, in order.
#[verifier::external_body]
fn hex_encode(b: &Vec<u8>) -> (r: String)
    ensures
        r@ == hex_of(b@),
{
    hex::encode(b)
}

/// The request hash the idempotency protocol stores and compares.
pub open spec fn request_hash_of(external_id: Seq<char>, items: Seq<(Seq<char>, int)>) -> Seq<
    char,
> {
    hex_of(sha256_of(json_of_request(external_id, items)))
}

/// The item list of a request as the pairs its canonical JSON is built of.
pub open spec fn items_of(req: crate::orders::OrderRequestV) -> Seq<(Seq<char>, int)> {
    req.items.map_values(|it: crate::orders::OrderItemV| (it.sku, it.qty))
}

/// Computes the canonical JSON of a create-order request.
pub fn canonical_json(req: &CreateOrderRequest) -> (r: String)
    requires
        forall|i: int| 0 <= i < req@.items.len() ==> (#[trigger] req@.items[i]).qty >= 0,
    ensures
        r@ == json_of_request(req@.external_id, items_of(req@)),
{
    let ghost items = items_of(req@);
    let mut out = String::new();
    out.append("{\"external_id\":");
    append_json_str(&mut out, req.external_id.as_str());
    out.append(",\"items\":[");
    let n = req.items.len();
    let mut i: usize = 0;
    proof {
        assert(items.take(0) =~= Seq::<(Seq<char>, int)>::empty());
        assert(out@ =~= "{\"external_id\":"@ + crate::jsonenc::json_str(req@.external_id)
            + ",\"items\":["@ + json_of_items(items.take(0)));
    }
    while i < n
        invariant
            0 <= i <= n,
            n == req.items.len(),
            items == items_of(req@),
            items.len() == n,
            forall|j: int| 0 <= j < n ==> (#[trigger] items[j]).1 >= 0,
            forall|j: int|
                0 <= j < n ==> #[trigger] items[j] == (req.items@[j]@.sku, req.items@[j]@.qty),
            out@ == "{\"external_id\":"@ + crate::jsonenc::json_str(req@.external_id)
                + ",\"items\":["@ + json_of_items(items.take(i as int)),
        decreases n - i,
    {
        if i > 0 {
            crate::text::push_char(&mut out, ',');
        }
        let item = &req.items[i];
        proof {
            assert(items[i as int] == (req.items@[i as int]@.sku, req.items@[i as int]@.qty));
            assert(items[i as int].1 >= 0);
        }
        append_json_item(&mut out, item.sku.as_str(), item.qty);
        proof {
            crate::jsonenc::lemma_json_of_items_snoc(items, i as int);
            assert(out@ =~= "{\"external_id\":"@ + crate::jsonenc::json_str(req@.external_id)
                + ",\"items\":["@ + json_of_items(items.take(i as int + 1)));
        }
        i = i + 1;
    }
    proof {
        assert(items.take(n as int) =~= items);
    }
    out.append("]}");
    proof {
        assert(out@ =~= json_of_request(req@.external_id, items));
    }
    out
}

/// Hashes a request for idempotency conflict detection: hex-lower SHA-256
/// of its canonical JSON.
pub fn hash_request(req: &CreateOrderRequest) -> (r: String)
    requires
        forall|i: int| 0 <= i < req@.items.len() ==> (#[trigger] req@.items[i]).qty >= 0,
    ensures
        r@ == request_hash_of(req@.external_id, items_of(req@)),
{
    let js = canonical_json(req);
    let digest = sha256_digest(js.as_str());
    hex_encode(&digest)
}

} // verus!
