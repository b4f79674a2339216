//! Canonical JSON encoding of the order payloads.
//!
//! The request hash and the outbox payload are computed over a fixed
//! serialization: object keys in a fixed order, no white space, strings
//! escaped as JSON requires (`"`, `\`, and control characters).

use vstd::prelude::*;
use vstd::string::{StrSliceExecFns, StringExecFns};
use crate::text::{dec_of, append_dec, push_char, HEX_DIGITS};

verus! {

/// The escape of one character inside a JSON string literal.
pub open spec fn escaped_char(c: char) -> Seq<char> {
    if c == '"' {
        seq!['\\', '"']
    } else if c == '\\' {
        seq!['\\', '\\']
    } else if (c as u32) == 0x08 {
        seq!['\\', 'b']
    } else if (c as u32) == 0x09 {
        seq!['\\', 't']
    } else if (c as u32) == 0x0A {
        seq!['\\', 'n']
    } else if (c as u32) == 0x0C {
        seq!['\\', 'f']
    } else if (c as u32) == 0x0D {
        seq!['\\', 'r']
    } else if (c as u32) < 0x20 {
        seq![
            '\\',
            'u',
            '0',
            '0',
            HEX_DIGITS@[((c as u32) >> 4) as int],
            HEX_DIGITS@[((c as u32) & 0xf) as int],
        ]
    } else {
        seq![c]
    }
}

/// The body of a JSON string literal: every character escaped.
pub open spec fn escaped(s: Seq<char>) -> Seq<char>
    decreases s.len(),
{
    if s.len() == 0 {
        Seq::<char>::empty()
    } else {
        escaped_char(s[0]) + escaped(s.drop_first())
    }
}

/// A JSON string literal: quotes around the escaped body.
pub open spec fn json_str(s: Seq<char>) -> Seq<char> {
    seq!['"'] + escaped(s) + seq!['"']
}

proof fn lemma_escaped_push(s: Seq<char>, c: char)
    ensures
        escaped(s.push(c)) =~= escaped(s) + escaped_char(c),
    decreases s.len(),
{
    if s.len() == 0 {
        assert(s.push(c)[0] == c);
        assert(s.push(c).drop_first() =~= Seq::<char>::empty());
        assert(escaped(s.push(c)) == escaped_char(c) + escaped(Seq::<char>::empty()));
        assert(escaped(s.push(c)) =~= escaped(s) + escaped_char(c));
    } else {
        assert(s.push(c)[0] == s[0]);
        assert(s.push(c).drop_first() =~= s.drop_first().push(c));
        lemma_escaped_push(s.drop_first(), c);
        assert(escaped(s.push(c)) == escaped_char(s[0]) + escaped(s.drop_first().push(c)));
        assert(escaped(s.push(c)) =~= escaped(s) + escaped_char(c));
    }
}

/// Appends the escape of one character to `out`.
pub fn append_escaped_char(out: &mut String, c: char)
    ensures
        final(out)@ == old(out)@ + escaped_char(c),
{
    let u = c as u32;
    if c == '"' {
        out.append("\\\"");
        proof {
            reveal_strlit("\\\"");
            assert(out@ =~= old(out)@ + escaped_char(c));
        }
    } else if c == '\\' {
        out.append("\\\\");
        proof {
            reveal_strlit("\\\\");
            assert(out@ =~= old(out)@ + escaped_char(c));
        }
    } else if u == 0x08 {
        out.append("\\b");
        proof {
            reveal_strlit("\\b");
            assert(out@ =~= old(out)@ + escaped_char(c));
        }
    } else if u == 0x09 {
        out.append("\\t");
        proof {
            reveal_strlit("\\t");
            assert(out@ =~= old(out)@ + escaped_char(c));
        }
    } else if u == 0x0A {
        out.append("\\n");
        proof {
            reveal_strlit("\\n");
            assert(out@ =~= old(out)@ + escaped_char(c));
        }
    } else if u == 0x0C {
        out.append("\\f");
        proof {
            reveal_strlit("\\f");
            assert(out@ =~= old(out)@ + escaped_char(c));
        }
    } else if u == 0x0D {
        out.append("\\r");
        proof {
            reveal_strlit("\\r");
            assert(out@ =~= old(out)@ + escaped_char(c));
        }
    } else if u < 0x20 {
        out.append("\\u00");
        proof {
            reveal_strlit("\\u00");
        }
        assert(((u >> 4) as int) < 16 && ((u & 0xf) as int) < 16) by (bit_vector)
            requires
                u < 0x20,
        ;
        push_char(out, HEX_DIGITS[(u >> 4) as usize]);
        push_char(out, HEX_DIGITS[(u & 0xf) as usize]);
        assert(out@ =~= old(out)@ + escaped_char(c));
    } else {
        push_char(out, c);
        assert(out@ =~= old(out)@ + escaped_char(c));
    }
}

/// Appends the JSON string literal for `s` to `out`.
pub fn append_json_str(out: &mut String, s: &str)
    ensures
        final(out)@ == old(out)@ + json_str(s@),
{
    push_char(out, '"');
    let n = s.unicode_len();
    let mut i: usize = 0;
    while i < n
        invariant
            0 <= i <= n,
            n == s@.len(),
            out@ =~= old(out)@ + seq!['"'] + escaped(s@.take(i as int)),
        decreases n - i,
    {
        let c = s.get_char(i);
        append_escaped_char(out, c);
        proof {
            lemma_escaped_push(s@.take(i as int), c);
            assert(s@.take(i as int).push(c) =~= s@.take(i as int + 1));
        }
        i = i + 1;
    }
    proof {
        assert(s@.take(n as int) =~= s@);
    }
    push_char(out, '"');
    proof {
        assert(out@ =~= old(out)@ + json_str(s@));
    }
}

/// The canonical JSON of one order item: `{"sku":S,"qty":N}`.
pub open spec fn json_of_item(sku: Seq<char>, qty: int) -> Seq<char> {
    "{\"sku\":"@ + json_str(sku) + ",\"qty\":"@ + dec_of(qty) + "}"@
}

/// The canonical JSON of an item list, comma-separated.
pub open spec fn json_of_items(items: Seq<(Seq<char>, int)>) -> Seq<char>
    decreases items.len(),
{
    if items.len() == 0 {
        Seq::<char>::empty()
    } else if items.len() == 1 {
        json_of_item(items[0].0, items[0].1)
    } else {
        json_of_item(items[0].0, items[0].1) + seq![','] + json_of_items(items.drop_first())
    }
}

proof fn lemma_json_of_items_push(items: Seq<(Seq<char>, int)>, x: (Seq<char>, int))
    ensures
        items.len() == 0 ==> json_of_items(items.push(x)) =~= json_of_item(x.0, x.1),
        items.len() > 0 ==> json_of_items(items.push(x)) =~= json_of_items(items) + seq![',']
            + json_of_item(x.0, x.1),
    decreases items.len(),
{
    if items.len() == 0 {
        assert(items.push(x)[0] == x);
    } else {
        assert(items.push(x)[0] == items[0]);
        assert(items.push(x).drop_first() =~= items.drop_first().push(x));
        lemma_json_of_items_push(items.drop_first(), x);
    }
}

/// Splitting an item list's JSON at its last element.
pub proof fn lemma_json_of_items_snoc(items: Seq<(Seq<char>, int)>, i: int)
    requires
        0 <= i < items.len(),
    ensures
        i == 0 ==> json_of_items(items.take(1)) =~= json_of_item(items[0].0, items[0].1),
        i > 0 ==> json_of_items(items.take(i + 1)) =~= json_of_items(items.take(i)) + seq![',']
            + json_of_item(items[i].0, items[i].1),
{
    assert(items.take(i + 1) =~= items.take(i).push(items[i]));
    lemma_json_of_items_push(items.take(i), items[i]);
}

/// The canonical JSON of a create-order request:
/// `{"external_id":E,"items":[I1,...,In]}`.
pub open spec fn json_of_request(external_id: Seq<char>, items: Seq<(Seq<char>, int)>) -> Seq<
    char,
> {
    "{\"external_id\":"@ + json_str(external_id) + ",\"items\":["@ + json_of_items(items) + "]}"@
}

/// The canonical JSON of a create-order response:
/// `{"id":I,"external_id":E,"item_count":C,"total_qty":Q}`.
pub open spec fn json_of_response(
    id: Seq<char>,
    external_id: Seq<char>,
    item_count: int,
    total_qty: int,
) -> Seq<char> {
    "{\"id\":"@ + json_str(id) + ",\"external_id\":"@ + json_str(external_id) + ",\"item_count\":"@
        + dec_of(item_count) + ",\"total_qty\":"@ + dec_of(total_qty) + "}"@
}

/// The canonical JSON of an `order.created` outbox payload, keys in
/// alphabetical order:
/// `{"external_id":E,"item_count":C,"order_id":I,"total_qty":Q}`.
pub open spec fn json_of_order_created(
    order_id: Seq<char>,
    external_id: Seq<char>,
    item_count: int,
    total_qty: int,
) -> Seq<char> {
    "{\"external_id\":"@ + json_str(external_id) + ",\"item_count\":"@ + dec_of(item_count)
        + ",\"order_id\":"@ + json_str(order_id) + ",\"total_qty\":"@ + dec_of(total_qty) + "}"@
}

/// Appends `{"sku":...,"qty":...}` for one item.
pub fn append_json_item(out: &mut String, sku: &str, qty: i32)
    requires
        qty >= 0,
    ensures
        final(out)@ == old(out)@ + json_of_item(sku@, qty as int),
{
    out.append("{\"sku\":");
    append_json_str(out, sku);
    out.append(",\"qty\":");
    append_dec(out, qty as u64);
    push_char(out, '}');
    proof {
        reveal_strlit("}");
        assert(("}"@) =~= seq!['}']);
        assert(out@ =~= old(out)@ + json_of_item(sku@, qty as int));
    }
}

} // verus!

verus! {

/// Serializes a create-order response as its canonical JSON: what the HTTP
/// host sends as the response body.
pub fn response_json(resp: &crate::orders::CreateOrderResponse) -> (r: String)
    requires
        resp.item_count >= 0,
        resp.total_qty >= 0,
    ensures
        r@ == json_of_response(resp@.id, resp@.external_id, resp@.item_count, resp@.total_qty),
{
    let mut out = String::new();
    out.append("{\"id\":");
    append_json_str(&mut out, resp.id.as_str());
    out.append(",\"external_id\":");
    append_json_str(&mut out, resp.external_id.as_str());
    out.append(",\"item_count\":");
    append_dec(&mut out, resp.item_count as u64);
    out.append(",\"total_qty\":");
    append_dec(&mut out, resp.total_qty as u64);
    push_char(&mut out, '}');
    proof {
        reveal_strlit("}");
        assert(("}"@) =~= seq!['}']);
        assert(out@ =~= json_of_response(
            resp@.id,
            resp@.external_id,
            resp@.item_count,
            resp@.total_qty,
        ));
    }
    out
}

} // verus!
