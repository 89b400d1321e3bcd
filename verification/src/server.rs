//! The per-datagram step of the server loop: pad, parse, process, serialize.
//! The surrounding socket loop performs the receive and the send and hands
//! this module plain bytes.

use vstd::prelude::*;
use crate::ntp::parser::{
    parse_packet, serialize_packet, spec_parse, spec_serialize, spec_wire_valid,
};
use crate::ntp::types::Packet;
use crate::response_strategy::ResponseStrategy;

verus! {

/// A datagram padded with zero bytes up to the 48-byte base size; longer
/// datagrams stay as they are.
pub open spec fn spec_pad(s: Seq<u8>) -> Seq<u8> {
    if s.len() >= 48 {
        s
    } else {
        s + Seq::new((48 - s.len()) as nat, |i: int| 0u8)
    }
}

/// Law: every byte sequence of exactly the 48-byte base size parses: all
/// header bit patterns decode, and nothing trails the base.
pub proof fn lemma_base_size_parses(s: Seq<u8>)
    requires
        s.len() == 48,
    ensures
        spec_parse(s) is Ok,
{
    let b0 = s[0];
    assert(b0 >> 6 <= 3 && b0 & 7 <= 7) by (bit_vector);
    assert(s.skip(48) =~= Seq::<u8>::empty());
}

/// Law: a datagram of fewer than 48 bytes, zero-padded to the base size,
/// parses successfully; its own bytes stay in place and only zero bytes are
/// appended, so nothing stale is ever read.
pub proof fn lemma_padded_datagram_parses(s: Seq<u8>)
    requires
        s.len() < 48,
    ensures
        spec_pad(s).len() == 48,
        spec_pad(s).subrange(0, s.len() as int) == s,
        forall|i: int| s.len() <= i < 48 ==> spec_pad(s)[i] == 0,
        spec_parse(spec_pad(s)) is Ok,
{
    assert(spec_pad(s).subrange(0, s.len() as int) =~= s);
    lemma_base_size_parses(spec_pad(s));
}

/// Pads a short datagram with zero bytes up to the base size. The padding is
/// written byte by byte, so stale bytes of an earlier, larger datagram can
/// never leak into the parsed region.
pub fn pad_datagram(data: &mut Vec<u8>)
    ensures
        final(data)@ == spec_pad(old(data)@),
{
    let ghost orig = data@;
    while data.len() < 48
        invariant
            orig.len() >= 48 ==> data@ == orig,
            orig.len() < 48 ==> {
                &&& orig.len() <= data@.len() <= 48
                &&& data@.subrange(0, orig.len() as int) == orig
                &&& forall|i: int| orig.len() <= i < data@.len() ==> data@[i] == 0
            },
        decreases 48 - data@.len(),
    {
        proof {
            assert(data@.subrange(0, orig.len() as int) =~= data@.push(0u8).subrange(
                0,
                orig.len() as int,
            ));
        }
        data.push(0);
    }
    proof {
        assert(data@ =~= spec_pad(orig));
    }
}

/// One request-to-reply step of the server loop: pads a short datagram with
/// zeros, parses it, hands the request to the strategy, and serializes the
/// strategy's reply. A datagram the codec rejects yields nothing and is
/// simply dropped; otherwise the reply packet comes back together with its
/// wire bytes, which are exactly its serialized form: the reply is wire-valid
/// and echoes the request's transmit timestamp as its origin.
pub fn handle_datagram<S: ResponseStrategy>(strategy: &mut S, data: Vec<u8>) -> (r: Option<
    (Packet, Vec<u8>),
>)
    ensures
        match spec_parse(spec_pad(data@)) {
            Ok(request) => match r {
                Some(reply_out) => {
                    &&& spec_wire_valid(reply_out.0@)
                    &&& reply_out.0@.origin_timestamp == request.transit_timestamp
                    &&& reply_out.1@ == spec_serialize(reply_out.0@)
                },
                None => false,
            },
            Err(_) => r is None,
        },
{
    let mut buf = data;
    pad_datagram(&mut buf);
    let request = match parse_packet(buf.as_slice()) {
        Ok(p) => p,
        Err(_) => {
            return None;
        },
    };
    let reply = strategy.process_packet(request);
    match serialize_packet(&reply) {
        Ok(out) => Some((reply, out)),
        Err(_) => None,
    }
}

} // verus!
