//! The response strategies: each turns one request packet into one reply
//! packet, echoing the request's transmit timestamp as the reply's origin
//! timestamp and filling the time fields with deliberately unreliable values.

use vstd::prelude::*;
use crate::clock::now_unix_parts;
use crate::ntp::parser::spec_wire_valid;
use crate::ntp::types::{
    ts_nanos_frac, ts_with_fraction, ts_with_seconds, LeapIndicator, Mode, Packet, Short,
    SpecPacket, Stratum, Timestamp, TimestampTrait, NTP_UNIX_OFFSET_SECONDS,
};

verus! {

/// The value of `default_packet`: the fixed "I am a server" reply fields.
pub open spec fn spec_default_packet() -> SpecPacket {
    SpecPacket {
        leap_indicator: LeapIndicator::NoWarning,
        version: 4,
        mode: Mode::Server,
        stratum: Stratum::SecondaryServer(4),
        poll: 6,
        precision: -16i8,
        root_delay: Short(1000),
        root_dispersion: Short(1000),
        reference_id: seq![0u8, 0u8, 0u8, 0u8],
        reference_timestamp: Timestamp(0),
        origin_timestamp: Timestamp(0),
        receive_timestamp: Timestamp(0),
        transit_timestamp: Timestamp(0),
        extensions: None,
        auth: None,
    }
}

/// The reply fields every strategy starts from: a version-four server packet
/// at stratum four, with a token root delay and dispersion and all timestamps
/// zero. It is wire-valid, so the serializer always accepts it.
pub fn default_packet() -> (r: Packet)
    ensures
        r@ == spec_default_packet(),
        spec_wire_valid(r@),
{
    let r = Packet {
        leap_indicator: LeapIndicator::NoWarning,
        version: 4,
        mode: Mode::Server,
        stratum: Stratum::SecondaryServer(4),
        poll: 6,
        precision: -16,
        root_delay: Short(0).set_fraction(1000),
        root_dispersion: Short(0).set_fraction(1000),
        reference_id: [0, 0, 0, 0],
        origin_timestamp: Timestamp(0),
        reference_timestamp: Timestamp(0),
        receive_timestamp: Timestamp(0),
        transit_timestamp: Timestamp(0),
        extensions: None,
        auth: None,
    };
    proof {
        assert(((0u32 >> 16) as u16 as u32) << 16 | 1000u16 as u32 == 1000u32) by (bit_vector);
        assert(r@ =~= spec_default_packet());
    }
    r
}

/// A response policy. Every strategy echoes the request's transmit timestamp
/// as the reply's origin timestamp, and yields a wire-valid reply, so that
/// serializing a reply never fails.
pub trait ResponseStrategy {
    fn process_packet(&mut self, packet: Packet) -> (r: Packet)
        ensures
            r@.origin_timestamp == packet@.transit_timestamp,
            spec_wire_valid(r@),
    ;
}

/// The seconds value the single-offset strategy reports for one clock reading
/// and one running offset: the Unix seconds shifted to the NTP epoch plus the
/// offset, with wraparound in place of overflow so that no reading can fail.
pub open spec fn spec_chaotic_seconds(now_unix: u64, offset: i64) -> u64 {
    vstd::wrapping::u64_specs::wrapping_add_signed(
        vstd::wrapping::u64_specs::wrapping_add(now_unix, NTP_UNIX_OFFSET_SECONDS),
        offset,
    )
}

/// The pure computation behind `SingleOffset::get_time`, verified for every
/// clock reading.
pub fn chaotic_seconds(now_unix: u64, offset: i64) -> (r: u64)
    ensures
        r == spec_chaotic_seconds(now_unix, offset),
{
    now_unix.wrapping_add(NTP_UNIX_OFFSET_SECONDS).wrapping_add_signed(offset)
}

/// A reply built from the fixed server fields: the request's transmit
/// timestamp echoed as origin, and the given whole-seconds time as reference,
/// receive and transmit timestamps.
pub open spec fn spec_seconds_response(request: SpecPacket, seconds: u32) -> SpecPacket {
    SpecPacket {
        origin_timestamp: request.transit_timestamp,
        reference_timestamp: Timestamp(ts_with_seconds(0, seconds)),
        receive_timestamp: Timestamp(ts_with_seconds(0, seconds)),
        transit_timestamp: Timestamp(ts_with_seconds(0, seconds)),
        ..spec_default_packet()
    }
}

/// A strategy whose replies drift one second further from true time with
/// every request it serves: it keeps a running offset, grows it by one second
/// per call, and reports the clock plus the offset.
pub struct SingleOffset {
    time_offset: i64,
    counter: u32,
}

impl SingleOffset {
    /// The running offset, in seconds.
    pub closed spec fn spec_offset(&self) -> i64 {
        self.time_offset
    }

    /// How many requests this strategy has served.
    pub closed spec fn spec_counter(&self) -> u32 {
        self.counter
    }

    /// A fresh strategy: no offset yet, no requests served.
    pub fn new() -> (r: SingleOffset)
        ensures
            r.spec_offset() == 0,
            r.spec_counter() == 0,
    {
        SingleOffset { time_offset: 0, counter: 0 }
    }

    /// One chaotic clock reading: grows the offset by one second (holding at
    /// the maximum rather than failing), counts the call, and reports the
    /// wall clock shifted to the NTP epoch plus the new offset.
    pub fn get_time(&mut self) -> (r: u64)
        ensures
            final(self).spec_offset() == if old(self).spec_offset() < i64::MAX {
                old(self).spec_offset() + 1
            } else {
                old(self).spec_offset() as int
            },
            final(self).spec_counter() == vstd::wrapping::u32_specs::wrapping_add(
                old(self).spec_counter(),
                1,
            ),
    {
        if self.time_offset < i64::MAX {
            self.time_offset = self.time_offset + 1;
        }
        self.counter = self.counter.wrapping_add(1);
        let (now, _nanos) = now_unix_parts();
        chaotic_seconds(now, self.time_offset)
    }
}

impl ResponseStrategy for SingleOffset {
    /// The reply carries the chaotic clock reading, one second further off
    /// than the last reply, in all three server time fields.
    fn process_packet(&mut self, packet: Packet) -> (r: Packet)
        ensures
            final(self).spec_offset() == if old(self).spec_offset() < i64::MAX {
                old(self).spec_offset() + 1
            } else {
                old(self).spec_offset() as int
            },
            r@.reference_timestamp == r@.receive_timestamp,
            r@.receive_timestamp == r@.transit_timestamp,
            exists|seconds: u32| r@ == #[trigger] spec_seconds_response(packet@, seconds),
    {
        let seconds = self.get_time();
        #[verifier::truncate]
        let seconds32 = seconds as u32;
        seconds_response(&packet, seconds32)
    }
}

/// The reply a whole-seconds time gives: the fixed server fields, the
/// request's transmit timestamp as origin, and the given seconds (fraction
/// zero) as reference, receive and transmit timestamps.
pub fn seconds_response(packet: &Packet, seconds: u32) -> (r: Packet)
    ensures
        r@ == spec_seconds_response(packet@, seconds),
        r@.origin_timestamp == packet@.transit_timestamp,
        spec_wire_valid(r@),
{
    let time = Timestamp(0).set_seconds(seconds).set_fraction(0);
    let mut r = default_packet();
    r.origin_timestamp = packet.transit_timestamp;
    r.reference_timestamp = time;
    r.receive_timestamp = time;
    r.transit_timestamp = time;
    proof {
        crate::ntp::types::lemma_timestamp_halves_independent(
            ts_with_seconds(0, seconds),
            seconds,
            0,
        );
        assert(ts_with_fraction(ts_with_seconds(0, seconds), 0) == ts_with_seconds(0, seconds))
            by (bit_vector);
        assert(r@ =~= spec_seconds_response(packet@, seconds));
    }
    r
}

/// Law: two single-offset replies never carry the same transmit timestamp,
/// for any two requests, as long as the wall clock did not run backwards
/// between the calls, the running offset grew, the later sum does not
/// overflow, and the two readings together did not jump by a full 32-bit
/// seconds era.
pub proof fn lemma_single_offset_transmit_distinct(
    req1: SpecPacket,
    req2: SpecPacket,
    n1: u64,
    n2: u64,
    o1: i64,
    o2: i64,
)
    requires
        n1 <= n2,
        0 <= o1 < o2,
        n2 + NTP_UNIX_OFFSET_SECONDS + o2 <= u64::MAX,
        (n2 - n1) + (o2 - o1) < 0x1_0000_0000,
    ensures
        spec_seconds_response(req1, spec_chaotic_seconds(n1, o1) as u32).transit_timestamp
            != spec_seconds_response(req2, spec_chaotic_seconds(n2, o2) as u32).transit_timestamp,
{
    let c1 = spec_chaotic_seconds(n1, o1);
    let c2 = spec_chaotic_seconds(n2, o2);
    assert(c1 == n1 + NTP_UNIX_OFFSET_SECONDS + o1);
    assert(c2 == n2 + NTP_UNIX_OFFSET_SECONDS + o2);
    let s1 = c1 as u32;
    let s2 = c2 as u32;
    assert(s1 != s2) by (bit_vector)
        requires
            c1 <= c2,
            c2 - c1 >= 1,
            c2 - c1 < 0x1_0000_0000,
            s1 == c1 as u32,
            s2 == c2 as u32,
    ;
    crate::ntp::types::lemma_timestamp_halves_independent(0, s1, 0);
    crate::ntp::types::lemma_timestamp_halves_independent(0, s2, 0);
}

/// A strategy that reflects the client's own transmit timestamp back, shifted
/// by small fixed offsets: five seconds back for the reference timestamp, one
/// second forward for the receive and transmit timestamps.
pub struct TransitTimestamp {}

/// The reply the transit-timestamp strategy gives: a deterministic function
/// of the request's transmit timestamp, with wraparound at the ends of the
/// 32-bit seconds range.
pub open spec fn spec_transit_response(request: SpecPacket) -> SpecPacket {
    let t = request.transit_timestamp.0;
    SpecPacket {
        origin_timestamp: request.transit_timestamp,
        reference_timestamp: Timestamp(
            ts_with_seconds(
                t,
                vstd::wrapping::u32_specs::wrapping_sub(crate::ntp::types::ts_seconds(t), 5),
            ),
        ),
        receive_timestamp: Timestamp(
            ts_with_seconds(
                t,
                vstd::wrapping::u32_specs::wrapping_add(crate::ntp::types::ts_seconds(t), 1),
            ),
        ),
        transit_timestamp: Timestamp(
            ts_with_seconds(
                t,
                vstd::wrapping::u32_specs::wrapping_add(crate::ntp::types::ts_seconds(t), 1),
            ),
        ),
        ..spec_default_packet()
    }
}

impl ResponseStrategy for TransitTimestamp {
    /// The reply echoes and shifts the request's own transmit timestamp: a
    /// deterministic function of the request.
    fn process_packet(&mut self, packet: Packet) -> (r: Packet)
        ensures
            r@ == spec_transit_response(packet@),
    {
        let t = packet.transit_timestamp;
        let seconds = t.get_seconds();
        let mut r = default_packet();
        r.origin_timestamp = packet.transit_timestamp;
        r.reference_timestamp = t.set_seconds(seconds.wrapping_sub(5));
        r.receive_timestamp = t.set_seconds(seconds.wrapping_add(1));
        r.transit_timestamp = t.set_seconds(seconds.wrapping_add(1));
        proof {
            assert(r@ =~= spec_transit_response(packet@));
        }
        r
    }
}

/// A strategy that reports the real current time in all three server time
/// fields: the truthful baseline the chaotic variants are measured against.
pub struct CurrentTime {}

/// The timestamp one Unix clock reading converts to: the seconds shifted to
/// the NTP epoch and the nanoseconds as a binary fraction, or the zero
/// timestamp where the shifted seconds no longer fit 32 bits.
pub open spec fn spec_timestamp_from_unix(seconds: u64, nanoseconds: u32) -> Timestamp {
    if seconds + NTP_UNIX_OFFSET_SECONDS <= u32::MAX && nanoseconds < 1_000_000_000 {
        Timestamp(
            ts_with_fraction(
                ts_with_seconds(0, (seconds + NTP_UNIX_OFFSET_SECONDS) as u32),
                ts_nanos_frac(nanoseconds) as u32,
            ),
        )
    } else {
        Timestamp(0)
    }
}

/// Converts one Unix clock reading to an NTP timestamp, substituting the zero
/// timestamp where the time cannot be represented: a reply must always be
/// produced, and the protocol has no way to report a failed clock.
pub fn timestamp_from_unix(seconds: u64, nanoseconds: u32) -> (r: Timestamp)
    ensures
        r == spec_timestamp_from_unix(seconds, nanoseconds),
{
    if seconds <= (u32::MAX as u64) - NTP_UNIX_OFFSET_SECONDS && nanoseconds < 1_000_000_000 {
        let base = Timestamp(0).set_seconds((seconds + NTP_UNIX_OFFSET_SECONDS) as u32);
        match base.fraction_from_nanoseconds(nanoseconds) {
            Ok(t) => t,
            Err(_) => Timestamp(0),
        }
    } else {
        Timestamp(0)
    }
}

/// The reply the current-time strategy gives for one clock reading: the fixed
/// server fields, the request's transmit timestamp as origin, and the reading
/// as reference, receive and transmit timestamps alike.
pub open spec fn spec_current_time_response(
    request: SpecPacket,
    seconds: u64,
    nanoseconds: u32,
) -> SpecPacket {
    SpecPacket {
        origin_timestamp: request.transit_timestamp,
        reference_timestamp: spec_timestamp_from_unix(seconds, nanoseconds),
        receive_timestamp: spec_timestamp_from_unix(seconds, nanoseconds),
        transit_timestamp: spec_timestamp_from_unix(seconds, nanoseconds),
        ..spec_default_packet()
    }
}

/// The current-time reply for one clock reading: the pure computation behind
/// `CurrentTime::process_packet`, verified for every reading. The three
/// server time fields all carry the same reading.
pub fn current_time_response(packet: &Packet, seconds: u64, nanoseconds: u32) -> (r: Packet)
    ensures
        r@ == spec_current_time_response(packet@, seconds, nanoseconds),
        r@.origin_timestamp == packet@.transit_timestamp,
        r@.reference_timestamp == r@.receive_timestamp,
        r@.receive_timestamp == r@.transit_timestamp,
        spec_wire_valid(r@),
{
    let time = timestamp_from_unix(seconds, nanoseconds);
    let mut r = default_packet();
    r.origin_timestamp = packet.transit_timestamp;
    r.reference_timestamp = time;
    r.receive_timestamp = time;
    r.transit_timestamp = time;
    proof {
        assert(r@ =~= spec_current_time_response(packet@, seconds, nanoseconds));
    }
    r
}

impl ResponseStrategy for CurrentTime {
    /// The reply carries one wall-clock reading in all three server time
    /// fields, so the three always agree.
    fn process_packet(&mut self, packet: Packet) -> (r: Packet)
        ensures
            r@.reference_timestamp == r@.receive_timestamp,
            r@.receive_timestamp == r@.transit_timestamp,
            exists|seconds: u64, nanoseconds: u32|
                nanoseconds < 1_000_000_000 && r@ == #[trigger] spec_current_time_response(
                    packet@,
                    seconds,
                    nanoseconds,
                ),
    {
        let (seconds, nanoseconds) = now_unix_parts();
        current_time_response(&packet, seconds, nanoseconds)
    }
}

/// A strategy behind a trait object, as the registry hands them out.
pub struct BoxedStrategy {
    pub strategy: Box<dyn ResponseStrategy>,
}

impl ResponseStrategy for BoxedStrategy {
    /// The boxed strategy answers; the box only forwards.
    fn process_packet(&mut self, packet: Packet) -> (r: Packet) {
        self.strategy.process_packet(packet)
    }
}

/// A named constructor for a response strategy, so that a registry can map
/// configured names to boxed strategies.
pub trait ResponseStrategyCtor {
    fn new_boxed(&self) -> BoxedStrategy;

    fn name(&self) -> &'static str;
}

/// Builds the single-offset strategy under the name "single_offset".
pub struct SingleOffsetCtor;

impl ResponseStrategyCtor for SingleOffsetCtor {
    fn new_boxed(&self) -> BoxedStrategy {
        BoxedStrategy { strategy: Box::new(SingleOffset::new()) }
    }

    fn name(&self) -> &'static str {
        "single_offset"
    }
}

/// Builds the transit-timestamp strategy under the name "transit_timestamp".
pub struct TransitTimestampCtor;

impl ResponseStrategyCtor for TransitTimestampCtor {
    fn new_boxed(&self) -> BoxedStrategy {
        BoxedStrategy { strategy: Box::new(TransitTimestamp {}) }
    }

    fn name(&self) -> &'static str {
        "transit_timestamp"
    }
}

/// Builds the current-time strategy under the name "current_time".
pub struct CurrentTimeCtor;

impl ResponseStrategyCtor for CurrentTimeCtor {
    fn new_boxed(&self) -> BoxedStrategy {
        BoxedStrategy { strategy: Box::new(CurrentTime {}) }
    }

    fn name(&self) -> &'static str {
        "current_time"
    }
}

} // verus!
