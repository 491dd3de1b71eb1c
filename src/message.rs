//! The canonical message: the exact bytes that the signature covers.

use vstd::prelude::*;
use vstd::utf8::encode_utf8;

verus! {

/// The UTF-8 bytes of every address of `addrs`, in order, with nothing between them.
pub open spec fn addresses_bytes(addrs: Seq<String>) -> Seq<u8>
    decreases addrs.len(),
{
    if addrs.len() == 0 {
        Seq::empty()
    } else {
        addresses_bytes(addrs.drop_last()) + encode_utf8(addrs.last()@)
    }
}

/// The signed message: the payload, then each address's UTF-8 bytes, with no
/// separator, length prefix or delimiter anywhere.
pub open spec fn canonical_message(payload: Seq<u8>, addrs: Seq<String>) -> Seq<u8> {
    payload + addresses_bytes(addrs)
}

/// With no addresses the message is the payload alone; with an empty payload it
/// is the addresses' bytes alone; and one more address appends exactly its UTF-8
/// bytes, so the message is the payload followed by each address in order.
pub proof fn canonical_message_shape(payload: Seq<u8>, addrs: Seq<String>, next: String)
    ensures
        canonical_message(payload, Seq::empty()) == payload,
        canonical_message(Seq::empty(), addrs) == addresses_bytes(addrs),
        canonical_message(payload, addrs.push(next)) == canonical_message(payload, addrs)
            + encode_utf8(next@),
        addrs.len() == 1 ==> canonical_message(payload, addrs) == payload + encode_utf8(addrs[0]@),
{
    assert(canonical_message(payload, Seq::empty()) =~= payload);
    assert(canonical_message(Seq::empty(), addrs) =~= addresses_bytes(addrs));
    assert(addrs.push(next).drop_last() =~= addrs);
    assert(canonical_message(payload, addrs.push(next)) =~= canonical_message(payload, addrs)
        + encode_utf8(next@));
    if addrs.len() == 1 {
        assert(addrs.drop_last() =~= Seq::<String>::empty());
        assert(canonical_message(payload, addrs) =~= payload + encode_utf8(addrs[0]@));
    }
}

/// Builds the message that the signature is checked against.
pub fn build_sig_msg(arbitrary_bytes: &[u8], pq_addresses: &[String]) -> (msg: Vec<u8>)
    ensures
        msg@ == canonical_message(arbitrary_bytes@, pq_addresses@),
{
    let mut msg: Vec<u8> = Vec::new();
    msg.extend_from_slice(arbitrary_bytes);
    assert(msg@ =~= arbitrary_bytes@);
    let mut i: usize = 0;
    while i < pq_addresses.len()
        invariant
            i <= pq_addresses@.len(),
            msg@ == arbitrary_bytes@ + addresses_bytes(pq_addresses@.subrange(0, i as int)),
        decreases pq_addresses@.len() - i,
    {
        let bytes: &[u8] = pq_addresses[i].as_str().as_bytes();
        let ghost before = msg@;
        msg.extend_from_slice(bytes);
        assert(msg@ =~= before + bytes@);
        let ghost next = pq_addresses@.subrange(0, i + 1);
        assert(next.drop_last() =~= pq_addresses@.subrange(0, i as int));
        i = i + 1;
    }
    assert(pq_addresses@.subrange(0, i as int) =~= pq_addresses@);
    msg
}

} // verus!
