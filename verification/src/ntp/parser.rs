//! The NTP codec: a bit-exact parser and serializer for the wire format.
//!
//! `spec_parse` and `spec_serialize` are the mathematical forms of the two
//! directions; the executable `parse_packet` and `serialize_packet` are proved
//! to agree with them, and the two spec forms are proved to invert each other
//! on wire-valid packets.

use vstd::prelude::*;
use crate::ntp::types::{
    exts_view, li_from_u8, li_to_u8, mode_from_u8, mode_to_u8, stratum_from_byte, stratum_to_byte,
    Auth, LeapIndicator, Mode, ExtensionField, Packet, Short, SpecExtensionField, SpecPacket, Stratum, Timestamp,
    exts_wire_len, lemma_exts_wire_len_nonneg, spec_packet_size,
};

verus! {

/// Why a byte sequence was rejected by the parser, named after the field that
/// failed.
#[derive(Debug, Clone, Copy, PartialEq, Eq, Structural)]
pub enum ParseError {
    /// Fewer than the 48 base bytes were handed to the parser.
    TruncatedPacket,
    /// The two leap-indicator bits decode to no known variant. All four
    /// two-bit values are defined, so well-formed input never raises this.
    InvalidLeapIndicator,
    /// The three mode bits decode to no known variant. All eight three-bit
    /// values are defined, so well-formed input never raises this.
    InvalidMode,
    /// An extension field claims length zero or more bytes than remain.
    MalformedExtension,
    /// After the extension fields, more than zero but fewer than the 20
    /// authenticator bytes remain.
    MalformedTrailer,
}

/// Why a packet could not be serialized.
#[derive(Debug, Clone, Copy, PartialEq, Eq, Structural)]
pub enum SerializeError {
    /// A secondary-server or reserved stratum carries a level outside its
    /// legal numeric sub-range.
    InvalidStratumValue,
}

/// The two big-endian bytes of a 16-bit value.
pub open spec fn u16_be_bytes(v: u16) -> Seq<u8> {
    seq![(v >> 8) as u8, v as u8]
}

/// The four big-endian bytes of a 32-bit value.
pub open spec fn u32_be_bytes(v: u32) -> Seq<u8> {
    u16_be_bytes((v >> 16) as u16) + u16_be_bytes(v as u16)
}

/// The eight big-endian bytes of a 64-bit value.
pub open spec fn u64_be_bytes(v: u64) -> Seq<u8> {
    u32_be_bytes((v >> 32) as u32) + u32_be_bytes(v as u32)
}

/// The sixteen big-endian bytes of a 128-bit value.
pub open spec fn u128_be_bytes(v: u128) -> Seq<u8> {
    u64_be_bytes((v >> 64) as u64) + u64_be_bytes(v as u64)
}

/// The 16-bit value two big-endian bytes spell.
pub open spec fn be_u16(b: Seq<u8>) -> u16
    recommends
        b.len() == 2,
{
    ((b[0] as u16) << 8) | (b[1] as u16)
}

/// The 32-bit value four big-endian bytes spell.
pub open spec fn be_u32(b: Seq<u8>) -> u32
    recommends
        b.len() == 4,
{
    ((be_u16(b.subrange(0, 2)) as u32) << 16) | (be_u16(b.subrange(2, 4)) as u32)
}

/// The 64-bit value eight big-endian bytes spell.
pub open spec fn be_u64(b: Seq<u8>) -> u64
    recommends
        b.len() == 8,
{
    ((be_u32(b.subrange(0, 4)) as u64) << 32) | (be_u32(b.subrange(4, 8)) as u64)
}

/// The 128-bit value sixteen big-endian bytes spell.
pub open spec fn be_u128(b: Seq<u8>) -> u128
    recommends
        b.len() == 16,
{
    ((be_u64(b.subrange(0, 8)) as u128) << 64) | (be_u64(b.subrange(8, 16)) as u128)
}

/// Reading back the big-endian bytes of a 16-bit value gives the value.
pub proof fn lemma_be_u16_roundtrip(v: u16)
    ensures
        be_u16(u16_be_bytes(v)) == v,
{
    assert(((((v >> 8) as u8) as u16) << 8) | ((v as u8) as u16) == v) by (bit_vector);
}

/// Reading back the big-endian bytes of a 32-bit value gives the value.
pub proof fn lemma_be_u32_roundtrip(v: u32)
    ensures
        be_u32(u32_be_bytes(v)) == v,
{
    let hi = (v >> 16) as u16;
    let lo = v as u16;
    assert(u32_be_bytes(v).subrange(0, 2) =~= u16_be_bytes(hi));
    assert(u32_be_bytes(v).subrange(2, 4) =~= u16_be_bytes(lo));
    lemma_be_u16_roundtrip(hi);
    lemma_be_u16_roundtrip(lo);
    assert(((((v >> 16) as u16) as u32) << 16) | ((v as u16) as u32) == v) by (bit_vector);
}

/// Reading back the big-endian bytes of a 64-bit value gives the value.
pub proof fn lemma_be_u64_roundtrip(v: u64)
    ensures
        be_u64(u64_be_bytes(v)) == v,
{
    let hi = (v >> 32) as u32;
    let lo = v as u32;
    assert(u64_be_bytes(v).subrange(0, 4) =~= u32_be_bytes(hi));
    assert(u64_be_bytes(v).subrange(4, 8) =~= u32_be_bytes(lo));
    lemma_be_u32_roundtrip(hi);
    lemma_be_u32_roundtrip(lo);
    assert(((((v >> 32) as u32) as u64) << 32) | ((v as u32) as u64) == v) by (bit_vector);
}

/// Reading back the big-endian bytes of a 128-bit value gives the value.
pub proof fn lemma_be_u128_roundtrip(v: u128)
    ensures
        be_u128(u128_be_bytes(v)) == v,
{
    let hi = (v >> 64) as u64;
    let lo = v as u64;
    assert(u128_be_bytes(v).subrange(0, 8) =~= u64_be_bytes(hi));
    assert(u128_be_bytes(v).subrange(8, 16) =~= u64_be_bytes(lo));
    lemma_be_u64_roundtrip(hi);
    lemma_be_u64_roundtrip(lo);
    assert(((((v >> 64) as u64) as u128) << 64) | ((v as u64) as u128) == v) by (bit_vector);
}

/// Writing back the 16-bit value two bytes spell gives those two bytes.
pub proof fn lemma_be_u16_inverse(b: Seq<u8>)
    requires
        b.len() == 2,
    ensures
        u16_be_bytes(be_u16(b)) == b,
{
    let b0 = b[0];
    let b1 = b[1];
    assert(((((b0 as u16) << 8) | (b1 as u16)) >> 8) as u8 == b0) by (bit_vector);
    assert((((b0 as u16) << 8) | (b1 as u16)) as u8 == b1) by (bit_vector);
    assert(u16_be_bytes(be_u16(b)) =~= b);
}

/// Writing back the 32-bit value four bytes spell gives those four bytes.
pub proof fn lemma_be_u32_inverse(b: Seq<u8>)
    requires
        b.len() == 4,
    ensures
        u32_be_bytes(be_u32(b)) == b,
{
    let hi = be_u16(b.subrange(0, 2));
    let lo = be_u16(b.subrange(2, 4));
    let v = be_u32(b);
    assert((((hi as u32) << 16 | (lo as u32)) >> 16) as u16 == hi) by (bit_vector);
    assert(((hi as u32) << 16 | (lo as u32)) as u16 == lo) by (bit_vector);
    lemma_be_u16_inverse(b.subrange(0, 2));
    lemma_be_u16_inverse(b.subrange(2, 4));
    assert(u32_be_bytes(v) =~= b);
}

/// Writing back the 64-bit value eight bytes spell gives those eight bytes.
pub proof fn lemma_be_u64_inverse(b: Seq<u8>)
    requires
        b.len() == 8,
    ensures
        u64_be_bytes(be_u64(b)) == b,
{
    let hi = be_u32(b.subrange(0, 4));
    let lo = be_u32(b.subrange(4, 8));
    let v = be_u64(b);
    assert((((hi as u64) << 32 | (lo as u64)) >> 32) as u32 == hi) by (bit_vector);
    assert(((hi as u64) << 32 | (lo as u64)) as u32 == lo) by (bit_vector);
    lemma_be_u32_inverse(b.subrange(0, 4));
    lemma_be_u32_inverse(b.subrange(4, 8));
    assert(u64_be_bytes(v) =~= b);
}

/// Writing back the 128-bit value sixteen bytes spell gives those sixteen
/// bytes.
pub proof fn lemma_be_u128_inverse(b: Seq<u8>)
    requires
        b.len() == 16,
    ensures
        u128_be_bytes(be_u128(b)) == b,
{
    let hi = be_u64(b.subrange(0, 8));
    let lo = be_u64(b.subrange(8, 16));
    let v = be_u128(b);
    assert((((hi as u128) << 64 | (lo as u128)) >> 64) as u64 == hi) by (bit_vector);
    assert(((hi as u128) << 64 | (lo as u128)) as u64 == lo) by (bit_vector);
    lemma_be_u64_inverse(b.subrange(0, 8));
    lemma_be_u64_inverse(b.subrange(8, 16));
    assert(u128_be_bytes(v) =~= b);
}

/// The 16-bit value at position `i` of a byte slice.
fn read_u16_be(s: &[u8], i: usize) -> (r: u16)
    requires
        i + 2 <= s@.len(),
    ensures
        r == be_u16(s@.subrange(i as int, i as int + 2)),
{
    let r = ((s[i] as u16) << 8) | (s[i + 1] as u16);
    proof {
        let b = s@.subrange(i as int, i as int + 2);
        assert(b[0] == s@[i as int] && b[1] == s@[i as int + 1]);
    }
    r
}

/// The 32-bit value at position `i` of a byte slice.
fn read_u32_be(s: &[u8], i: usize) -> (r: u32)
    requires
        i + 4 <= s@.len(),
    ensures
        r == be_u32(s@.subrange(i as int, i as int + 4)),
{
    let _n = s.len();
    let hi = read_u16_be(s, i);
    let lo = read_u16_be(s, i + 2);
    proof {
        let b = s@.subrange(i as int, i as int + 4);
        assert(b.subrange(0, 2) =~= s@.subrange(i as int, i as int + 2));
        assert(b.subrange(2, 4) =~= s@.subrange(i as int + 2, i as int + 4));
    }
    ((hi as u32) << 16) | (lo as u32)
}

/// The 64-bit value at position `i` of a byte slice.
fn read_u64_be(s: &[u8], i: usize) -> (r: u64)
    requires
        i + 8 <= s@.len(),
    ensures
        r == be_u64(s@.subrange(i as int, i as int + 8)),
{
    let _n = s.len();
    let hi = read_u32_be(s, i);
    let lo = read_u32_be(s, i + 4);
    proof {
        let b = s@.subrange(i as int, i as int + 8);
        assert(b.subrange(0, 4) =~= s@.subrange(i as int, i as int + 4));
        assert(b.subrange(4, 8) =~= s@.subrange(i as int + 4, i as int + 8));
    }
    ((hi as u64) << 32) | (lo as u64)
}

/// The 128-bit value at position `i` of a byte slice.
fn read_u128_be(s: &[u8], i: usize) -> (r: u128)
    requires
        i + 16 <= s@.len(),
    ensures
        r == be_u128(s@.subrange(i as int, i as int + 16)),
{
    let _n = s.len();
    let hi = read_u64_be(s, i);
    let lo = read_u64_be(s, i + 8);
    proof {
        let b = s@.subrange(i as int, i as int + 16);
        assert(b.subrange(0, 8) =~= s@.subrange(i as int, i as int + 8));
        assert(b.subrange(8, 16) =~= s@.subrange(i as int + 8, i as int + 16));
    }
    ((hi as u128) << 64) | (lo as u128)
}

/// Appends the two big-endian bytes of a 16-bit value.
fn push_u16_be(data: &mut Vec<u8>, v: u16)
    ensures
        final(data)@ == old(data)@ + u16_be_bytes(v),
{
    data.push((v >> 8) as u8);
    data.push(v as u8);
    proof {
        assert(data@ =~= old(data)@ + u16_be_bytes(v));
    }
}

/// Appends the four big-endian bytes of a 32-bit value.
fn push_u32_be(data: &mut Vec<u8>, v: u32)
    ensures
        final(data)@ == old(data)@ + u32_be_bytes(v),
{
    push_u16_be(data, (v >> 16) as u16);
    push_u16_be(data, v as u16);
    proof {
        assert(data@ =~= old(data)@ + u32_be_bytes(v));
    }
}

/// Appends the eight big-endian bytes of a 64-bit value.
fn push_u64_be(data: &mut Vec<u8>, v: u64)
    ensures
        final(data)@ == old(data)@ + u64_be_bytes(v),
{
    push_u32_be(data, (v >> 32) as u32);
    push_u32_be(data, v as u32);
    proof {
        assert(data@ =~= old(data)@ + u64_be_bytes(v));
    }
}

/// Appends the sixteen big-endian bytes of a 128-bit value.
fn push_u128_be(data: &mut Vec<u8>, v: u128)
    ensures
        final(data)@ == old(data)@ + u128_be_bytes(v),
{
    push_u64_be(data, (v >> 64) as u64);
    push_u64_be(data, v as u64);
    proof {
        assert(data@ =~= old(data)@ + u128_be_bytes(v));
    }
}

/// The first header byte: leap indicator in the top two bits, version in the
/// next three, mode in the bottom three.
pub open spec fn spec_header_byte(p: SpecPacket) -> u8 {
    (li_to_u8(p.leap_indicator) << 6) | (p.version << 3) | mode_to_u8(p.mode)
}

/// The stratum wire byte, with zero standing in where the stratum does not
/// encode (the serializer fails there and writes nothing).
pub open spec fn stratum_byte_or_zero(s: Stratum) -> u8 {
    match stratum_to_byte(s) {
        Some(b) => b,
        None => 0,
    }
}

/// The wire bytes of one extension field: type tag, payload length truncated
/// to 16 bits, then the payload.
pub open spec fn spec_serialize_ext(e: SpecExtensionField) -> Seq<u8> {
    u16_be_bytes(e.field_type) + u16_be_bytes(e.value.len() as u16) + e.value
}

/// The wire bytes of a list of extension fields, in list order.
pub open spec fn spec_serialize_exts(exts: Seq<SpecExtensionField>) -> Seq<u8>
    decreases exts.len(),
{
    if exts.len() == 0 {
        Seq::empty()
    } else {
        spec_serialize_ext(exts[0]) + spec_serialize_exts(exts.drop_first())
    }
}

/// The fixed 48-byte body of a packet: header byte, stratum, poll, precision,
/// root delay, root dispersion, reference id, and the four timestamps, all
/// big-endian.
pub open spec fn spec_serialize_base(p: SpecPacket) -> Seq<u8> {
    seq![
        spec_header_byte(p),
        stratum_byte_or_zero(p.stratum),
        p.poll as u8,
        p.precision as u8,
    ] + u32_be_bytes(p.root_delay.0) + u32_be_bytes(p.root_dispersion.0) + p.reference_id
        + u64_be_bytes(p.reference_timestamp.0) + u64_be_bytes(p.origin_timestamp.0)
        + u64_be_bytes(p.receive_timestamp.0) + u64_be_bytes(p.transit_timestamp.0)
}

/// The wire bytes of the authenticator, where one is present.
pub open spec fn spec_serialize_auth(auth: Option<Auth>) -> Seq<u8> {
    match auth {
        Some(a) => u32_be_bytes(a.key_indentifier) + u128_be_bytes(a.digest),
        None => Seq::empty(),
    }
}

/// The full wire form of a packet: base body, extension fields, authenticator.
pub open spec fn spec_serialize(p: SpecPacket) -> Seq<u8> {
    spec_serialize_base(p) + (match p.extensions {
        Some(exts) => spec_serialize_exts(exts),
        None => Seq::empty(),
    }) + spec_serialize_auth(p.auth)
}

/// The fixed byte widths of the big-endian encodings.
pub proof fn lemma_be_bytes_lens()
    ensures
        forall|v: u16| (#[trigger] u16_be_bytes(v)).len() == 2,
        forall|v: u32| (#[trigger] u32_be_bytes(v)).len() == 4,
        forall|v: u64| (#[trigger] u64_be_bytes(v)).len() == 8,
        forall|v: u128| (#[trigger] u128_be_bytes(v)).len() == 16,
{
}

/// The wire bytes of an extension list are exactly as long as its wire
/// length.
pub proof fn lemma_serialize_exts_len(exts: Seq<SpecExtensionField>)
    ensures
        spec_serialize_exts(exts).len() == exts_wire_len(exts),
    decreases exts.len(),
{
    lemma_be_bytes_lens();
    if exts.len() != 0 {
        lemma_serialize_exts_len(exts.drop_first());
    }
}

/// The serialized form of a packet whose reference id holds its four bytes is
/// exactly `spec_packet_size` bytes long.
pub proof fn lemma_serialize_len(p: SpecPacket)
    requires
        p.reference_id.len() == 4,
    ensures
        spec_serialize(p).len() == spec_packet_size(p),
{
    lemma_be_bytes_lens();
    match p.extensions {
        Some(exts) => lemma_serialize_exts_len(exts),
        None => {},
    }
}

/// Serializing one more extension field appends that field's wire bytes.
proof fn lemma_serialize_exts_snoc(exts: Seq<SpecExtensionField>, i: int)
    requires
        0 <= i < exts.len(),
    ensures
        spec_serialize_exts(exts.take(i + 1)) == spec_serialize_exts(exts.take(i))
            + spec_serialize_ext(exts[i]),
    decreases i,
{
    if i == 0 {
        assert(exts.take(1).drop_first() =~= Seq::<SpecExtensionField>::empty());
        assert(exts.take(0) =~= Seq::<SpecExtensionField>::empty());
        assert(exts.take(1)[0] == exts[0]);
        assert(spec_serialize_exts(exts.take(1)) =~= spec_serialize_exts(exts.take(0))
            + spec_serialize_ext(exts[0]));
    } else {
        let rest = exts.drop_first();
        lemma_serialize_exts_snoc(rest, i - 1);
        assert(exts.take(i + 1).drop_first() =~= rest.take(i));
        assert(exts.take(i).drop_first() =~= rest.take(i - 1));
        assert(exts.take(i + 1)[0] == exts[0]);
        assert(exts.take(i)[0] == exts[0]);
        assert(rest[i - 1] == exts[i]);
        assert(spec_serialize_exts(exts.take(i + 1)) =~= spec_serialize_exts(exts.take(i))
            + spec_serialize_ext(exts[i]));
    }
}

/// The wire bytes of a packet, or `InvalidStratumValue` where its stratum
/// carries a level outside the legal sub-range of its variant. On success the
/// output is exactly `spec_serialize` of the packet's value, and its length is
/// exactly the packet's size.
pub fn serialize_packet(packet: &Packet) -> (r: Result<Vec<u8>, SerializeError>)
    ensures
        match r {
            Ok(data) => {
                &&& stratum_to_byte(packet@.stratum) is Some
                &&& data@ == spec_serialize(packet@)
                &&& data@.len() == spec_packet_size(packet@)
            },
            Err(e) => {
                &&& stratum_to_byte(packet@.stratum) is None
                &&& e == SerializeError::InvalidStratumValue
            },
        },
{
    let stratum_byte = match packet.stratum.to_byte() {
        Some(b) => b,
        None => {
            return Err(SerializeError::InvalidStratumValue);
        },
    };
    let mut data: Vec<u8> = Vec::new();
    let header = (packet.leap_indicator.as_u8() << 6) | (packet.version << 3)
        | packet.mode.as_u8();
    data.push(header);
    data.push(stratum_byte);
    data.push(#[verifier::truncate] (packet.poll as u8));
    data.push(#[verifier::truncate] (packet.precision as u8));
    push_u32_be(&mut data, packet.root_delay.0);
    push_u32_be(&mut data, packet.root_dispersion.0);
    data.push(packet.reference_id[0]);
    data.push(packet.reference_id[1]);
    data.push(packet.reference_id[2]);
    data.push(packet.reference_id[3]);
    push_u64_be(&mut data, packet.reference_timestamp.0);
    push_u64_be(&mut data, packet.origin_timestamp.0);
    push_u64_be(&mut data, packet.receive_timestamp.0);
    push_u64_be(&mut data, packet.transit_timestamp.0);
    proof {
        assert(data@ =~= spec_serialize_base(packet@));
    }
    let ghost base = data@;
    if let Some(extensions) = &packet.extensions {
        let ghost all = exts_view(extensions@);
        let mut i: usize = 0;
        proof {
            assert(all.take(0) =~= Seq::<SpecExtensionField>::empty());
        }
        while i < extensions.len()
            invariant
                i <= extensions.len(),
                all == exts_view(extensions@),
                all.len() == extensions@.len(),
                base == spec_serialize_base(packet@),
                data@ == base + spec_serialize_exts(all.take(i as int)),
            decreases extensions.len() - i,
        {
            let ext = &extensions[i];
            push_u16_be(&mut data, ext.field_type);
            push_u16_be(&mut data, (ext.value.len() % 0x1_0000) as u16);
            data.extend_from_slice(ext.value.as_slice());
            proof {
                lemma_serialize_exts_snoc(all, i as int);
                assert(all[i as int] == extensions@[i as int]@);
                let n = ext.value@.len() as usize;
                assert((n % 0x1_0000) as u16 == n as u16) by (bit_vector);
                assert(data@ =~= base + spec_serialize_exts(all.take(i as int + 1)));
            }
            i += 1;
        }
        proof {
            assert(all.take(all.len() as int) =~= all);
        }
    }
    if let Some(auth) = &packet.auth {
        push_u32_be(&mut data, auth.key_indentifier);
        push_u128_be(&mut data, auth.digest);
    }
    proof {
        assert(data@ =~= spec_serialize(packet@));
        lemma_serialize_len(packet@);
    }
    Ok(data)
}

/// The extension fields read from the bytes that trail the 48-byte base: one
/// field after another while more than the 20 authenticator bytes remain,
/// together with what is left over. A field that claims length zero, or more
/// bytes than remain, is malformed.
pub open spec fn spec_parse_exts(s: Seq<u8>) -> Result<
    (Seq<SpecExtensionField>, Seq<u8>),
    ParseError,
>
    decreases s.len(),
{
    if s.len() <= 20 {
        Ok((Seq::empty(), s))
    } else {
        let length = be_u16(s.subrange(2, 4)) as int;
        if length == 0 || 4 + length > s.len() {
            Err(ParseError::MalformedExtension)
        } else {
            match spec_parse_exts(s.skip(4 + length)) {
                Ok(r) => Ok(
                    (
                        seq![
                            SpecExtensionField {
                                field_type: be_u16(s.subrange(0, 2)),
                                value: s.subrange(4, 4 + length),
                            },
                        ] + r.0,
                        r.1,
                    ),
                ),
                Err(e) => Err(e),
            }
        }
    }
}

/// The packet the base bytes of `s` spell, with the given already-decoded
/// header enumerations, extension fields and authenticator.
pub open spec fn spec_parse_fields(
    s: Seq<u8>,
    leap_indicator: LeapIndicator,
    mode: Mode,
    extensions: Option<Seq<SpecExtensionField>>,
    auth: Option<Auth>,
) -> SpecPacket {
    SpecPacket {
        leap_indicator,
        version: (s[0] >> 3) & 7,
        mode,
        stratum: stratum_from_byte(s[1]),
        poll: s[2] as i8,
        precision: s[3] as i8,
        root_delay: Short(be_u32(s.subrange(4, 8))),
        root_dispersion: Short(be_u32(s.subrange(8, 12))),
        reference_id: s.subrange(12, 16),
        reference_timestamp: Timestamp(be_u64(s.subrange(16, 24))),
        origin_timestamp: Timestamp(be_u64(s.subrange(24, 32))),
        receive_timestamp: Timestamp(be_u64(s.subrange(32, 40))),
        transit_timestamp: Timestamp(be_u64(s.subrange(40, 48))),
        extensions,
        auth,
    }
}

/// The packet a byte sequence spells, or the error that rejects it: at least
/// 48 base bytes; then extension fields while more than 20 bytes trail; then
/// exactly 20 trailing bytes are the authenticator, zero are nothing, and any
/// other count is a malformed trailer.
pub open spec fn spec_parse(s: Seq<u8>) -> Result<SpecPacket, ParseError> {
    if s.len() < 48 {
        Err(ParseError::TruncatedPacket)
    } else {
        match (li_from_u8(s[0] >> 6), mode_from_u8(s[0] & 7)) {
            (Some(li), Some(mode)) => match spec_parse_exts(s.skip(48)) {
                Ok(r) => {
                    let exts = r.0;
                    let rem = r.1;
                    let extensions = if exts.len() == 0 {
                        None
                    } else {
                        Some(exts)
                    };
                    if rem.len() == 20 {
                        Ok(
                            spec_parse_fields(
                                s,
                                li,
                                mode,
                                extensions,
                                Some(
                                    Auth {
                                        key_indentifier: be_u32(rem.subrange(0, 4)),
                                        digest: be_u128(rem.subrange(4, 20)),
                                    },
                                ),
                            ),
                        )
                    } else if rem.len() == 0 {
                        Ok(spec_parse_fields(s, li, mode, extensions, None))
                    } else {
                        Err(ParseError::MalformedTrailer)
                    }
                },
                Err(e) => Err(e),
            },
            (None, _) => Err(ParseError::InvalidLeapIndicator),
            (_, None) => Err(ParseError::InvalidMode),
        }
    }
}

/// The extension fields of `tail` continue as those of `rest`: the fields
/// already taken from `tail`, then whatever `rest` parses to.
spec fn exts_parse_continues(
    tail: Seq<u8>,
    done: Seq<SpecExtensionField>,
    rest: Seq<u8>,
) -> bool {
    match spec_parse_exts(rest) {
        Ok(r) => spec_parse_exts(tail) == Ok::<_, ParseError>((done + r.0, r.1)),
        Err(e) => spec_parse_exts(tail) == Err::<(Seq<SpecExtensionField>, Seq<u8>), _>(e),
    }
}

/// The packet a byte slice spells, or the first error that rejects it,
/// exactly as `spec_parse` reads the same bytes.
#[verifier::loop_isolation(false)]
pub fn parse_packet(input: &[u8]) -> (r: Result<Packet, ParseError>)
    ensures
        match r {
            Ok(p) => spec_parse(input@) == Ok::<_, ParseError>(p@),
            Err(e) => spec_parse(input@) == Err::<SpecPacket, _>(e),
        },
{
    let n = input.len();
    if n < 48 {
        return Err(ParseError::TruncatedPacket);
    }
    let b0 = input[0];
    let leap_indicator = match LeapIndicator::from_u8(b0 >> 6) {
        Some(li) => li,
        None => {
            return Err(ParseError::InvalidLeapIndicator);
        },
    };
    let mode = match Mode::from_u8(b0 & 7) {
        Some(m) => m,
        None => {
            return Err(ParseError::InvalidMode);
        },
    };
    let version = (b0 >> 3) & 7;
    let stratum = Stratum::from_byte(input[1]);
    let poll = input[2] as i8;
    let precision = input[3] as i8;
    let root_delay = Short(read_u32_be(input, 4));
    let root_dispersion = Short(read_u32_be(input, 8));
    let reference_id = [input[12], input[13], input[14], input[15]];
    let reference_timestamp = Timestamp(read_u64_be(input, 16));
    let origin_timestamp = Timestamp(read_u64_be(input, 24));
    let receive_timestamp = Timestamp(read_u64_be(input, 32));
    let transit_timestamp = Timestamp(read_u64_be(input, 40));

    let ghost tail = input@.skip(48);
    let mut exts: Vec<ExtensionField> = Vec::new();
    let mut pos: usize = 48;
    proof {
        assert(input@.subrange(48, n as int) =~= tail);
        assert(exts_view(exts@) =~= Seq::<SpecExtensionField>::empty());
        if let Ok(r) = spec_parse_exts(tail) {
            assert(Seq::<SpecExtensionField>::empty() + r.0 =~= r.0);
        }
    }
    while n - pos > 20
        invariant
            48 <= pos <= n,
            n == input@.len(),
            tail == input@.skip(48),
            exts_parse_continues(tail, exts_view(exts@), input@.subrange(pos as int, n as int)),
        decreases n - pos,
    {
        let ghost rem = input@.subrange(pos as int, n as int);
        let field_type = read_u16_be(input, pos);
        let length = read_u16_be(input, pos + 2) as usize;
        proof {
            assert(rem.subrange(0, 2) =~= input@.subrange(pos as int, pos as int + 2));
            assert(rem.subrange(2, 4) =~= input@.subrange(pos as int + 2, pos as int + 4));
        }
        if length == 0 || length > n - pos - 4 {
            proof {
                assert(rem.len() > 20);
                assert(be_u16(rem.subrange(2, 4)) as int == length);
                assert(spec_parse_exts(rem) == Err::<(Seq<SpecExtensionField>, Seq<u8>), _>(
                    ParseError::MalformedExtension,
                ));
                assert(spec_parse_exts(tail) == Err::<(Seq<SpecExtensionField>, Seq<u8>), _>(
                    ParseError::MalformedExtension,
                ));
                assert(spec_parse(input@) == Err::<SpecPacket, _>(ParseError::MalformedExtension));
            }
            return Err(ParseError::MalformedExtension);
        }
        let data_start = pos + 4;
        let mut value: Vec<u8> = Vec::new();
        let mut j: usize = 0;
        proof {
            assert(value@ =~= input@.subrange(data_start as int, data_start as int));
        }
        while j < length
            invariant
                j <= length,
                data_start + length <= n,
                n == input@.len(),
                value@ == input@.subrange(data_start as int, data_start as int + j),
            decreases length - j,
        {
            value.push(input[data_start + j]);
            proof {
                assert(value@ =~= input@.subrange(
                    data_start as int,
                    data_start as int + j + 1,
                ));
            }
            j += 1;
        }
        let ext = ExtensionField { field_type, value };
        proof {
            let new_pos = pos as int + 4 + length;
            let rem2 = input@.subrange(new_pos, n as int);
            assert(rem.skip(4 + length as int) =~= rem2);
            assert(rem.subrange(4, 4 + length as int) =~= input@.subrange(
                data_start as int,
                data_start as int + length,
            ));
            let head = SpecExtensionField {
                field_type: be_u16(rem.subrange(0, 2)),
                value: rem.subrange(4, 4 + length as int),
            };
            assert(ext@ =~= head);
            assert(exts_view(exts@.push(ext)) =~= exts_view(exts@) + seq![head]);
            match spec_parse_exts(rem2) {
                Ok(r2) => {
                    assert(spec_parse_exts(rem) == Ok::<_, ParseError>(
                        (seq![head] + r2.0, r2.1),
                    ));
                    assert(exts_view(exts@) + (seq![head] + r2.0) =~= (exts_view(exts@)
                        + seq![head]) + r2.0);
                },
                Err(_) => {},
            }
        }
        exts.push(ext);
        pos = pos + 4 + length;
    }
    let ghost rem = input@.subrange(pos as int, n as int);
    proof {
        assert(spec_parse_exts(rem) == Ok::<_, ParseError>((Seq::<SpecExtensionField>::empty(), rem)));
        assert(exts_view(exts@) + Seq::<SpecExtensionField>::empty() =~= exts_view(exts@));
        assert(spec_parse_exts(tail) == Ok::<_, ParseError>((exts_view(exts@), rem)));
    }
    let auth = if n - pos == 20 {
        let key_indentifier = read_u32_be(input, pos);
        let digest = read_u128_be(input, pos + 4);
        proof {
            assert(rem.subrange(0, 4) =~= input@.subrange(pos as int, pos as int + 4));
            assert(rem.subrange(4, 20) =~= input@.subrange(pos as int + 4, pos as int + 20));
        }
        Some(Auth { key_indentifier, digest })
    } else if n - pos == 0 {
        None
    } else {
        return Err(ParseError::MalformedTrailer);
    };
    let extensions = if exts.is_empty() {
        None
    } else {
        Some(exts)
    };
    let packet = Packet {
        leap_indicator,
        version,
        mode,
        stratum,
        poll,
        precision,
        root_delay,
        root_dispersion,
        reference_id,
        reference_timestamp,
        origin_timestamp,
        receive_timestamp,
        transit_timestamp,
        extensions,
        auth,
    };
    proof {
        assert(input@.subrange(4, 8) =~= input@.subrange(4int, 4int + 4));
        assert(input@.subrange(8, 12) =~= input@.subrange(8int, 8int + 4));
        assert(reference_id@ =~= input@.subrange(12, 16));
        assert(input@.subrange(16, 24) =~= input@.subrange(16int, 16int + 8));
        assert(input@.subrange(24, 32) =~= input@.subrange(24int, 24int + 8));
        assert(input@.subrange(32, 40) =~= input@.subrange(32int, 32int + 8));
        assert(input@.subrange(40, 48) =~= input@.subrange(40int, 40int + 8));
        let expected = spec_parse(input@);
        assert(expected is Ok);
        assert(packet@ =~~= expected.unwrap());
    }
    Ok(packet)
}

/// A packet the serializer can write and the parser will read back verbatim:
/// the version fits its three bits, the stratum encodes, the reference id
/// holds its four bytes, every extension payload fits the 16-bit length field
/// and is not empty, an extension list is not empty (an empty one is carried
/// as nothing at all), and extension fields without an authenticator leave
/// more than 20 wire bytes at every tail of the list, so that the parser's
/// trailer rule can tell them from an authenticator.
pub open spec fn spec_wire_valid(p: SpecPacket) -> bool {
    &&& p.version < 8
    &&& stratum_to_byte(p.stratum) is Some
    &&& p.reference_id.len() == 4
    &&& match p.extensions {
        Some(exts) => {
            &&& exts.len() > 0
            &&& forall|i: int|
                0 <= i < exts.len() ==> 1 <= (#[trigger] exts[i]).value.len() <= 0xFFFF
        },
        None => true,
    }
    &&& match (p.extensions, p.auth) {
        (Some(exts), None) => forall|k: int|
            0 <= k < exts.len() ==> exts_wire_len(#[trigger] exts.skip(k)) > 20,
        _ => true,
    }
}

/// The two-bit value of a leap indicator reads back as that indicator, and
/// likewise for the three mode bits; the version bits come back unchanged.
proof fn lemma_header_byte_roundtrip(leap_indicator: LeapIndicator, version: u8, mode: Mode)
    requires
        version < 8,
    ensures
        ({
            let h = (li_to_u8(leap_indicator) << 6) | (version << 3) | mode_to_u8(mode);
            &&& li_from_u8(h >> 6) == Some(leap_indicator)
            &&& (h >> 3) & 7 == version
            &&& mode_from_u8(h & 7) == Some(mode)
        }),
{
    let a = li_to_u8(leap_indicator);
    let m = mode_to_u8(mode);
    assert(a <= 3 && m <= 7) by {
        match leap_indicator {
            LeapIndicator::NoWarning => {},
            LeapIndicator::LastMinute61Seconds => {},
            LeapIndicator::LastMinute59Seconds => {},
            LeapIndicator::Unknown => {},
        }
        match mode {
            Mode::Reserved => {},
            Mode::SymmetricActive => {},
            Mode::SymmetricPassive => {},
            Mode::Client => {},
            Mode::Server => {},
            Mode::Broadcast => {},
            Mode::NTPControlMessage => {},
            Mode::ReservedForPrivate => {},
        }
    }
    assert(((a << 6) | (version << 3) | m) >> 6 == a && (((a << 6) | (version << 3) | m) >> 3)
        & 7 == version && ((a << 6) | (version << 3) | m) & 7 == m) by (bit_vector)
        requires
            a <= 3,
            version < 8,
            m <= 7,
    ;
}

/// A stratum that encodes to a byte decodes from that byte to itself.
proof fn lemma_stratum_roundtrip(s: Stratum)
    requires
        stratum_to_byte(s) is Some,
    ensures
        stratum_from_byte(stratum_to_byte(s).unwrap()) == s,
{
}

/// The serialized extension fields followed by a trailer parse back to exactly
/// those fields with exactly that trailer, provided the trailer is either the
/// 20 authenticator bytes or empty with every tail of the list longer than 20
/// wire bytes.
proof fn lemma_parse_exts_roundtrip(exts: Seq<SpecExtensionField>, trailer: Seq<u8>)
    requires
        forall|i: int| 0 <= i < exts.len() ==> 1 <= (#[trigger] exts[i]).value.len() <= 0xFFFF,
        trailer.len() == 20 || (trailer.len() == 0 && forall|k: int|
            0 <= k < exts.len() ==> exts_wire_len(#[trigger] exts.skip(k)) > 20),
    ensures
        spec_parse_exts(spec_serialize_exts(exts) + trailer) == Ok::<_, ParseError>(
            (exts, trailer),
        ),
    decreases exts.len(),
{
    lemma_be_bytes_lens();
    let s = spec_serialize_exts(exts) + trailer;
    if exts.len() == 0 {
        assert(s =~= trailer);
        assert(spec_parse_exts(s) == Ok::<_, ParseError>((Seq::<SpecExtensionField>::empty(), s)));
        assert(Seq::<SpecExtensionField>::empty() =~= exts);
    } else {
        let e = exts[0];
        let rest = exts.drop_first();
        let length = e.value.len() as int;
        lemma_serialize_exts_len(exts);
        lemma_exts_wire_len_nonneg(rest);
        assert(exts_wire_len(exts) == 4 + length + exts_wire_len(rest));
        if trailer.len() == 0 {
            assert(exts.skip(0) =~= exts);
            assert(exts_wire_len(exts) > 20);
        }
        assert(s.len() == exts_wire_len(exts) + trailer.len());
        assert(s.len() > 20);
        assert(s.subrange(0, 2) =~= u16_be_bytes(e.field_type));
        assert(s.subrange(2, 4) =~= u16_be_bytes(e.value.len() as u16));
        lemma_be_u16_roundtrip(e.field_type);
        lemma_be_u16_roundtrip(e.value.len() as u16);
        let n = e.value.len() as usize;
        assert(n <= 0xFFFF ==> n as u16 == n) by (bit_vector);
        assert(be_u16(s.subrange(2, 4)) as int == length);
        assert(4 + length <= s.len());
        assert(s.subrange(4, 4 + length) =~= e.value);
        assert(s.skip(4 + length) =~= spec_serialize_exts(rest) + trailer);
        if trailer.len() == 0 {
            assert(forall|k: int|
                0 <= k < rest.len() ==> exts.skip(k + 1) =~= #[trigger] rest.skip(k));
        }
        lemma_parse_exts_roundtrip(rest, trailer);
        let head = SpecExtensionField {
            field_type: be_u16(s.subrange(0, 2)),
            value: s.subrange(4, 4 + length),
        };
        assert(head =~= e);
        assert(seq![e] + rest =~= exts);
        assert(spec_parse_exts(s) == Ok::<_, ParseError>((exts, trailer)));
    }
}

/// Law: the parser reads back exactly what the serializer wrote, for every
/// wire-valid packet, with and without extension fields, with and without an
/// authenticator.
pub proof fn lemma_parse_serialize_roundtrip(p: SpecPacket)
    requires
        spec_wire_valid(p),
    ensures
        spec_parse(spec_serialize(p)) == Ok::<_, ParseError>(p),
{
    lemma_be_bytes_lens();
    let base = spec_serialize_base(p);
    let extb = match p.extensions {
        Some(exts) => spec_serialize_exts(exts),
        None => Seq::<u8>::empty(),
    };
    let authb = spec_serialize_auth(p.auth);
    let s = spec_serialize(p);
    assert(base.len() == 48);
    assert(s == base + extb + authb);
    assert(s.len() >= 48);
    assert(s.skip(48) =~= extb + authb);

    let h = spec_header_byte(p);
    assert(s[0] == h);
    lemma_header_byte_roundtrip(p.leap_indicator, p.version, p.mode);
    assert(li_from_u8(s[0] >> 6) == Some(p.leap_indicator));
    assert(mode_from_u8(s[0] & 7) == Some(p.mode));

    let tail = s.skip(48);
    match p.extensions {
        Some(exts) => {
            match p.auth {
                Some(_) => {
                    assert(authb.len() == 20);
                },
                None => {
                    assert(authb =~= Seq::<u8>::empty());
                },
            }
            assert(tail =~= spec_serialize_exts(exts) + authb);
            lemma_parse_exts_roundtrip(exts, authb);
            assert(spec_parse_exts(tail) == Ok::<_, ParseError>((exts, authb)));
        },
        None => {
            assert(extb.len() == 0);
            assert(tail =~= authb);
            assert(authb.len() <= 20);
            assert(spec_parse_exts(tail) == Ok::<_, ParseError>(
                (Seq::<SpecExtensionField>::empty(), authb),
            ));
        },
    }

    match p.auth {
        Some(a) => {
            assert(authb =~= u32_be_bytes(a.key_indentifier) + u128_be_bytes(a.digest));
            assert(authb.subrange(0, 4) =~= u32_be_bytes(a.key_indentifier));
            assert(authb.subrange(4, 20) =~= u128_be_bytes(a.digest));
            lemma_be_u32_roundtrip(a.key_indentifier);
            lemma_be_u128_roundtrip(a.digest);
            assert(be_u32(authb.subrange(0, 4)) == a.key_indentifier);
            assert(be_u128(authb.subrange(4, 20)) == a.digest);
        },
        None => {
            assert(authb.len() == 0);
        },
    }

    lemma_stratum_roundtrip(p.stratum);
    assert(s[1] == stratum_byte_or_zero(p.stratum));
    assert(stratum_from_byte(s[1]) == p.stratum);

    assert(s[2] == p.poll as u8 && s[3] == p.precision as u8);
    let poll = p.poll;
    let precision = p.precision;
    assert((poll as u8) as i8 == poll && (precision as u8) as i8 == precision) by (bit_vector);

    assert(s.subrange(4, 8) =~= u32_be_bytes(p.root_delay.0));
    assert(s.subrange(8, 12) =~= u32_be_bytes(p.root_dispersion.0));
    lemma_be_u32_roundtrip(p.root_delay.0);
    lemma_be_u32_roundtrip(p.root_dispersion.0);
    assert(s.subrange(12, 16) =~= p.reference_id);
    assert(s.subrange(16, 24) =~= u64_be_bytes(p.reference_timestamp.0));
    assert(s.subrange(24, 32) =~= u64_be_bytes(p.origin_timestamp.0));
    assert(s.subrange(32, 40) =~= u64_be_bytes(p.receive_timestamp.0));
    assert(s.subrange(40, 48) =~= u64_be_bytes(p.transit_timestamp.0));
    lemma_be_u64_roundtrip(p.reference_timestamp.0);
    lemma_be_u64_roundtrip(p.origin_timestamp.0);
    lemma_be_u64_roundtrip(p.receive_timestamp.0);
    lemma_be_u64_roundtrip(p.transit_timestamp.0);

    let parsed = spec_parse(s);
    assert(parsed is Ok);
    assert(parsed.unwrap() =~~= p);
}

/// Whether `pos` is the start of an extension record the parser reaches in a
/// region `s`: the region's own start, or just past a record the parser
/// consumes on its way there.
pub open spec fn reaches_record(s: Seq<u8>, pos: int) -> bool
    decreases s.len(),
{
    if pos == 0 {
        true
    } else if s.len() <= 20 {
        false
    } else {
        let length = be_u16(s.subrange(2, 4)) as int;
        if length == 0 || 4 + length > s.len() || pos < 4 + length {
            false
        } else {
            reaches_record(s.skip(4 + length), pos - 4 - length)
        }
    }
}

/// A zero length field at any record start the parser reaches fails the whole
/// extension region with the malformed-extension error.
proof fn lemma_zero_length_record_fails(s: Seq<u8>, pos: int)
    requires
        reaches_record(s, pos),
        s.len() - pos > 20,
        be_u16(s.subrange(pos + 2, pos + 4)) == 0,
    ensures
        spec_parse_exts(s) == Err::<(Seq<SpecExtensionField>, Seq<u8>), _>(
            ParseError::MalformedExtension,
        ),
    decreases s.len(),
{
    if pos == 0 {
        assert(s.len() > 20);
    } else {
        let length = be_u16(s.subrange(2, 4)) as int;
        let rest = s.skip(4 + length);
        assert(rest.subrange(pos - 4 - length + 2, pos - 4 - length + 4) =~= s.subrange(
            pos + 2,
            pos + 4,
        ));
        lemma_zero_length_record_fails(rest, pos - 4 - length);
        assert(s.len() > 20);
    }
}

/// Law: a packet carrying an extension record whose length field says zero is
/// rejected as malformed, at whatever record position the parser reaches it —
/// never looped on (each record consumes at least five bytes, so the parse
/// terminates by construction) and never skipped. The extension region starts
/// at byte 48; `position` is the offset of the claiming record within it.
pub proof fn lemma_zero_length_extension_rejected(s: Seq<u8>, position: int)
    requires
        s.len() >= 48,
        reaches_record(s.skip(48), position),
        s.len() - 48 - position > 20,
        be_u16(s.subrange(48 + position + 2, 48 + position + 4)) == 0,
    ensures
        spec_parse(s) == Err::<SpecPacket, _>(ParseError::MalformedExtension),
{
    let tail = s.skip(48);
    assert(tail.subrange(position + 2, position + 4) =~= s.subrange(
        48 + position + 2,
        48 + position + 4,
    ));
    lemma_zero_length_record_fails(tail, position);
    let b0 = s[0];
    assert(b0 >> 6 <= 3 && b0 & 7 <= 7) by (bit_vector);
    assert(li_from_u8(s[0] >> 6) is Some);
    assert(mode_from_u8(s[0] & 7) is Some);
}


/// The extension fields the parser reads serialize back to exactly the bytes
/// they were read from, they all fit the length field and are not empty, the
/// leftover is never longer than an authenticator, and where nothing is left
/// over every tail of the list spans more than 20 wire bytes.
#[verifier::rlimit(60)]
proof fn lemma_parse_exts_faithful(s: Seq<u8>)
    requires
        spec_parse_exts(s) is Ok,
    ensures
        ({
            let r = spec_parse_exts(s).unwrap();
            &&& spec_serialize_exts(r.0) + r.1 == s
            &&& r.1.len() <= 20
            &&& forall|i: int| 0 <= i < r.0.len() ==> 1 <= (#[trigger] r.0[i]).value.len() <= 0xFFFF
            &&& r.1.len() == 0 ==> forall|k: int|
                0 <= k < r.0.len() ==> exts_wire_len(#[trigger] r.0.skip(k)) > 20
        }),
    decreases s.len(),
{
    let r = spec_parse_exts(s).unwrap();
    let exts = r.0;
    let rem = r.1;
    if s.len() <= 20 {
        assert(spec_serialize_exts(exts) + rem =~= s);
    } else {
        let length = be_u16(s.subrange(2, 4)) as int;
        let tail = s.skip(4 + length);
        lemma_parse_exts_faithful(tail);
        let r2 = spec_parse_exts(tail).unwrap();
        let head = SpecExtensionField {
            field_type: be_u16(s.subrange(0, 2)),
            value: s.subrange(4, 4 + length),
        };
        assert(exts == seq![head] + r2.0 && rem == r2.1);
        assert(length <= 0xFFFF) by {
            let two = s.subrange(2, 4);
            let b0 = two[0];
            let b1 = two[1];
            assert(((b0 as u16) << 8 | (b1 as u16)) <= 0xFFFF) by (bit_vector);
        }
        // The head's wire bytes are the bytes it was read from.
        lemma_be_u16_inverse(s.subrange(0, 2));
        assert(head.value.len() == length);
        assert(head.value.len() as u16 == be_u16(s.subrange(2, 4))) by {
            let v = be_u16(s.subrange(2, 4));
            assert((v as int) as u16 == v);
        }
        lemma_be_u16_inverse(s.subrange(2, 4));
        assert(spec_serialize_ext(head) == s.subrange(0, 2) + s.subrange(2, 4) + s.subrange(
            4,
            4 + length,
        ));
        assert(exts.drop_first() =~= r2.0);
        assert(exts[0] == head);
        assert(spec_serialize_exts(exts) == spec_serialize_ext(head) + spec_serialize_exts(r2.0));
        assert(s =~= s.subrange(0, 2) + s.subrange(2, 4) + s.subrange(4, 4 + length) + tail);
        assert(spec_serialize_exts(exts) + rem =~= s);
        // Every element of the whole list fits the length field.
        assert forall|i: int|
            0 <= i < exts.len() implies 1 <= (#[trigger] exts[i]).value.len() <= 0xFFFF by {
            if i > 0 {
                assert(exts[i] == r2.0[i - 1]);
            }
        }
        // Where nothing is left over, each tail of the list fills what was
        // left of the buffer at its turn, which was always more than 20.
        if rem.len() == 0 {
            assert forall|k: int|
                0 <= k < exts.len() implies exts_wire_len(#[trigger] exts.skip(k)) > 20 by {
                if k == 0 {
                    assert(exts.skip(0) =~= exts);
                    lemma_serialize_exts_len(exts);
                    assert(spec_serialize_exts(exts) + rem == s);
                } else {
                    assert(exts.skip(k) =~= r2.0.skip(k - 1));
                }
            }
        }
    }
}

/// Law: the serializer writes back exactly what the parser read, for every
/// byte sequence the parser accepts; and every packet the parser yields is
/// wire-valid, so a parsed packet always serializes.
pub proof fn lemma_serialize_parse_roundtrip(s: Seq<u8>)
    requires
        spec_parse(s) is Ok,
    ensures
        spec_wire_valid(spec_parse(s).unwrap()),
        spec_serialize(spec_parse(s).unwrap()) == s,
{
    lemma_be_bytes_lens();
    let p = spec_parse(s).unwrap();
    let b0 = s[0];
    let li = li_from_u8(b0 >> 6).unwrap();
    let mode = mode_from_u8(b0 & 7).unwrap();
    let tail = s.skip(48);
    lemma_parse_exts_faithful(tail);
    let r = spec_parse_exts(tail).unwrap();
    let exts = r.0;
    let rem = r.1;

    // The header byte reassembles from its three bit fields.
    assert(li_to_u8(li) == b0 >> 6 && mode_to_u8(mode) == b0 & 7) by {
        assert(b0 >> 6 <= 3 && b0 & 7 <= 7) by (bit_vector);
        match li {
            LeapIndicator::NoWarning => {},
            LeapIndicator::LastMinute61Seconds => {},
            LeapIndicator::LastMinute59Seconds => {},
            LeapIndicator::Unknown => {},
        }
        match mode {
            Mode::Reserved => {},
            Mode::SymmetricActive => {},
            Mode::SymmetricPassive => {},
            Mode::Client => {},
            Mode::Server => {},
            Mode::Broadcast => {},
            Mode::NTPControlMessage => {},
            Mode::ReservedForPrivate => {},
        }
    }
    assert(spec_header_byte(p) == b0) by {
        assert(((b0 >> 6) << 6) | (((b0 >> 3) & 7) << 3) | (b0 & 7) == b0) by (bit_vector);
    }

    // The stratum byte reassembles from its decoded variant.
    assert(stratum_byte_or_zero(p.stratum) == s[1]);

    // Poll and precision reassemble from their signed views.
    let b2 = s[2];
    let b3 = s[3];
    assert((b2 as i8) as u8 == b2 && (b3 as i8) as u8 == b3) by (bit_vector);

    // The multi-byte fields reassemble from their big-endian values.
    lemma_be_u32_inverse(s.subrange(4, 8));
    lemma_be_u32_inverse(s.subrange(8, 12));
    lemma_be_u64_inverse(s.subrange(16, 24));
    lemma_be_u64_inverse(s.subrange(24, 32));
    lemma_be_u64_inverse(s.subrange(32, 40));
    lemma_be_u64_inverse(s.subrange(40, 48));
    assert(spec_serialize_base(p) =~= s.subrange(0, 48));

    // The trailer reassembles: the authenticator where 20 bytes remained,
    // nothing where none did.
    if rem.len() == 20 {
        lemma_be_u32_inverse(rem.subrange(0, 4));
        lemma_be_u128_inverse(rem.subrange(4, 20));
        assert(spec_serialize_auth(p.auth) =~= rem);
    } else {
        assert(spec_serialize_auth(p.auth) =~= rem);
    }

    let extb = match p.extensions {
        Some(e) => spec_serialize_exts(e),
        None => Seq::<u8>::empty(),
    };
    assert(extb == spec_serialize_exts(exts)) by {
        if exts.len() == 0 {
            assert(spec_serialize_exts(exts) =~= Seq::<u8>::empty());
        }
    }
    assert(spec_serialize(p) =~= s) by {
        assert(spec_serialize_exts(exts) + rem == tail);
        assert(s =~= s.subrange(0, 48) + tail);
    }

    // Wire validity: the version fits its three bits, the stratum encodes,
    // and the extension list carries what the faithfulness of the extension
    // region guarantees.
    assert(p.version < 8) by {
        assert((b0 >> 3) & 7 < 8) by (bit_vector);
    }
    assert(spec_wire_valid(p));
}

} // verus!
