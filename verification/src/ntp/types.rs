//! The NTP packet model: fixed-point time values, header field enumerations,
//! extension fields, the optional authenticator, and the packet aggregate.
//!
//! A `Timestamp` packs 32 bits of seconds since the NTP epoch
//! (1900-01-01T00:00:00Z) and 32 bits of binary second fraction into one
//! `u64`; a `Short` packs 16 + 16 bits into one `u32` the same way.

use vstd::prelude::*;
use vstd::arithmetic::div_mod::{lemma_div_is_ordered, lemma_fundamental_div_mod};
use vstd::arithmetic::power2::lemma2_to64;
use vstd::bits::lemma_u64_shr_is_div;

verus! {

/// The seconds between the NTP epoch (1900-01-01) and the Unix epoch
/// (1970-01-01): seventy years, seventeen of them leap years.
pub const NTP_UNIX_OFFSET_SECONDS: u64 = 2_208_988_800;

/// Error of the nanosecond and calendar conversions: the value does not fit
/// the target width.
#[derive(Debug, Clone, Copy, PartialEq, Eq, Structural)]
pub enum TimeError {
    OutOfRange,
}

/// A 64-bit NTP timestamp: high 32 bits seconds, low 32 bits fraction.
#[derive(Debug, Clone, Copy, PartialEq, Eq, PartialOrd, Ord, Hash, Structural)]
pub struct Timestamp(pub u64);

/// A 32-bit NTP short value: high 16 bits seconds, low 16 bits fraction.
#[derive(Debug, Clone, Copy, PartialEq, Eq, PartialOrd, Ord, Hash, Structural)]
pub struct Short(pub u32);

/// The seconds half of a 64-bit timestamp value.
pub open spec fn ts_seconds(v: u64) -> u32 {
    (v >> 32) as u32
}

/// The fraction half of a 64-bit timestamp value.
pub open spec fn ts_fraction(v: u64) -> u32 {
    v as u32
}

/// A 64-bit timestamp value rebuilt with the given seconds half.
pub open spec fn ts_with_seconds(v: u64, seconds: u32) -> u64 {
    ((seconds as u64) << 32) | (ts_fraction(v) as u64)
}

/// A 64-bit timestamp value rebuilt with the given fraction half.
pub open spec fn ts_with_fraction(v: u64, fraction: u32) -> u64 {
    ((ts_seconds(v) as u64) << 32) | (fraction as u64)
}

/// The seconds half of a 32-bit short value.
pub open spec fn short_seconds(v: u32) -> u16 {
    (v >> 16) as u16
}

/// The fraction half of a 32-bit short value.
pub open spec fn short_fraction(v: u32) -> u16 {
    v as u16
}

/// A 32-bit short value rebuilt with the given seconds half.
pub open spec fn short_with_seconds(v: u32, seconds: u16) -> u32 {
    ((seconds as u32) << 16) | (short_fraction(v) as u32)
}

/// A 32-bit short value rebuilt with the given fraction half.
pub open spec fn short_with_fraction(v: u32, fraction: u16) -> u32 {
    ((short_seconds(v) as u32) << 16) | (fraction as u32)
}

/// `floor(fraction * 10^9 / 2^32)`: the timestamp fraction as nanoseconds.
pub open spec fn ts_frac_nanos(fraction: u32) -> int {
    (fraction as int) * 1_000_000_000 / 0x1_0000_0000
}

/// `floor(nanoseconds * 2^32 / 10^9)`: nanoseconds as a timestamp fraction,
/// before the range check.
pub open spec fn ts_nanos_frac(nanoseconds: u32) -> int {
    (nanoseconds as int) * 0x1_0000_0000 / 1_000_000_000
}

/// `floor(fraction * 10^9 / 2^16)`: the short fraction as nanoseconds.
pub open spec fn short_frac_nanos(fraction: u16) -> int {
    (fraction as int) * 1_000_000_000 / 0x1_0000
}

/// `floor(nanoseconds * 2^16 / 10^9)`: nanoseconds as a short fraction,
/// before the range check.
pub open spec fn short_nanos_frac(nanoseconds: u32) -> int {
    (nanoseconds as int) * 0x1_0000 / 1_000_000_000
}

/// The common face of the two fixed-point time values: `T` is the value type
/// itself and `H` its half-width integer type.
pub trait TimestampTrait<T, H>: Sized {
    type HalfSize;

    /// The seconds half.
    spec fn spec_seconds(self) -> H;

    /// The fraction half.
    spec fn spec_fraction(self) -> H;

    /// The value with its seconds half replaced, fraction preserved.
    spec fn spec_set_seconds(self, seconds: H) -> T;

    /// The value with its fraction half replaced, seconds preserved.
    spec fn spec_set_fraction(self, fraction: H) -> T;

    /// `floor(fraction * 10^9 / 2^width)` where `width` is the fraction width.
    spec fn spec_fraction_nanos(self) -> u32;

    /// The result of `fraction_from_nanoseconds`: the converted fraction where
    /// it fits the half width, `OutOfRange` where it does not.
    spec fn spec_from_nanos(self, nanoseconds: u32) -> Result<T, TimeError>;

    fn get_seconds(self) -> (r: H)
        ensures
            r == self.spec_seconds(),
    ;

    fn get_fraction(self) -> (r: H)
        ensures
            r == self.spec_fraction(),
    ;

    fn fraction_as_nanoseconds(self) -> (r: u32)
        ensures
            r == self.spec_fraction_nanos(),
    ;

    fn set_seconds(self, seconds: H) -> (r: T)
        ensures
            r == self.spec_set_seconds(seconds),
    ;

    fn set_fraction(self, fraction: H) -> (r: T)
        ensures
            r == self.spec_set_fraction(fraction),
    ;

    fn fraction_from_nanoseconds(self, nanoseconds: u32) -> (r: Result<T, TimeError>)
        ensures
            r == self.spec_from_nanos(nanoseconds),
    ;
}

impl TimestampTrait<Timestamp, u32> for Timestamp {
    type HalfSize = u32;

    open spec fn spec_seconds(self) -> u32 {
        ts_seconds(self.0)
    }

    open spec fn spec_fraction(self) -> u32 {
        ts_fraction(self.0)
    }

    open spec fn spec_set_seconds(self, seconds: u32) -> Timestamp {
        Timestamp(ts_with_seconds(self.0, seconds))
    }

    open spec fn spec_set_fraction(self, fraction: u32) -> Timestamp {
        Timestamp(ts_with_fraction(self.0, fraction))
    }

    open spec fn spec_fraction_nanos(self) -> u32 {
        ts_frac_nanos(ts_fraction(self.0)) as u32
    }

    open spec fn spec_from_nanos(self, nanoseconds: u32) -> Result<Timestamp, TimeError> {
        if nanoseconds < 1_000_000_000 {
            Ok(Timestamp(ts_with_fraction(self.0, ts_nanos_frac(nanoseconds) as u32)))
        } else {
            Err(TimeError::OutOfRange)
        }
    }

    fn get_seconds(self) -> (r: u32) {
        (self.0 >> 32) as u32
    }

    fn get_fraction(self) -> (r: u32) {
        self.0 as u32
    }

    fn fraction_as_nanoseconds(self) -> (r: u32) {
        let f = self.0 as u32;
        let wide = (f as u64) * 1_000_000_000;
        let shifted = wide >> 32;
        proof {
            lemma_u64_shr_is_div(wide, 32);
            lemma2_to64();
            lemma_div_is_ordered(wide as int, 0xFFFF_FFFFu64 * 1_000_000_000, 0x1_0000_0000);
            assert(0xFFFF_FFFFu64 * 1_000_000_000 / 0x1_0000_0000 == 999_999_999);
        }
        shifted as u32
    }

    fn set_seconds(self, seconds: u32) -> (r: Timestamp) {
        Timestamp(((seconds as u64) << 32) | ((self.0 as u32) as u64))
    }

    fn set_fraction(self, fraction: u32) -> (r: Timestamp) {
        Timestamp((((self.0 >> 32) as u32 as u64) << 32) | (fraction as u64))
    }

    fn fraction_from_nanoseconds(self, nanoseconds: u32) -> (r: Result<Timestamp, TimeError>) {
        let wide = (nanoseconds as u64) << 32;
        proof {
            lemma2_to64();
            vstd::bits::lemma_u64_shl_is_mul(nanoseconds as u64, 32);
        }
        let q = wide / 1_000_000_000;
        proof {
            if nanoseconds < 1_000_000_000 {
                lemma_div_is_ordered(wide as int, 999_999_999u64 * 0x1_0000_0000, 1_000_000_000);
                assert(999_999_999u64 * 0x1_0000_0000 / 1_000_000_000 == 4_294_967_291)
                   ;
            } else {
                lemma_div_is_ordered(
                    1_000_000_000u64 * 0x1_0000_0000,
                    wide as int,
                    1_000_000_000,
                );
                assert(1_000_000_000u64 * 0x1_0000_0000 / 1_000_000_000 == 0x1_0000_0000)
                   ;
            }
        }
        if q > u32::MAX as u64 {
            Err(TimeError::OutOfRange)
        } else {
            Ok(self.set_fraction(q as u32))
        }
    }
}

impl TimestampTrait<Short, u16> for Short {
    type HalfSize = u16;

    open spec fn spec_seconds(self) -> u16 {
        short_seconds(self.0)
    }

    open spec fn spec_fraction(self) -> u16 {
        short_fraction(self.0)
    }

    open spec fn spec_set_seconds(self, seconds: u16) -> Short {
        Short(short_with_seconds(self.0, seconds))
    }

    open spec fn spec_set_fraction(self, fraction: u16) -> Short {
        Short(short_with_fraction(self.0, fraction))
    }

    open spec fn spec_fraction_nanos(self) -> u32 {
        short_frac_nanos(short_fraction(self.0)) as u32
    }

    open spec fn spec_from_nanos(self, nanoseconds: u32) -> Result<Short, TimeError> {
        if nanoseconds < 1_000_000_000 {
            Ok(Short(short_with_fraction(self.0, short_nanos_frac(nanoseconds) as u16)))
        } else {
            Err(TimeError::OutOfRange)
        }
    }

    fn get_seconds(self) -> (r: u16) {
        (self.0 >> 16) as u16
    }

    fn get_fraction(self) -> (r: u16) {
        self.0 as u16
    }

    fn fraction_as_nanoseconds(self) -> (r: u32) {
        let f = self.0 as u16;
        let wide = (f as u64) * 1_000_000_000;
        let shifted = wide >> 16;
        proof {
            lemma_u64_shr_is_div(wide, 16);
            lemma2_to64();
            lemma_div_is_ordered(wide as int, 0xFFFFu64 * 1_000_000_000, 0x1_0000);
            assert(0xFFFFu64 * 1_000_000_000 / 0x1_0000 == 999_984_741);
        }
        shifted as u32
    }

    fn set_seconds(self, seconds: u16) -> (r: Short) {
        Short(((seconds as u32) << 16) | ((self.0 as u16) as u32))
    }

    fn set_fraction(self, fraction: u16) -> (r: Short) {
        Short((((self.0 >> 16) as u16 as u32) << 16) | (fraction as u32))
    }

    fn fraction_from_nanoseconds(self, nanoseconds: u32) -> (r: Result<Short, TimeError>) {
        let wide = (nanoseconds as u64) << 16;
        proof {
            lemma2_to64();
            vstd::bits::lemma_u64_shl_is_mul(nanoseconds as u64, 16);
        }
        let q = wide / 1_000_000_000;
        proof {
            if nanoseconds < 1_000_000_000 {
                lemma_div_is_ordered(wide as int, 999_999_999u64 * 0x1_0000, 1_000_000_000);
                assert(999_999_999u64 * 0x1_0000 / 1_000_000_000 == 65_535);
            } else {
                lemma_div_is_ordered(1_000_000_000u64 * 0x1_0000, wide as int, 1_000_000_000);
                assert(1_000_000_000u64 * 0x1_0000 / 1_000_000_000 == 0x1_0000);
            }
        }
        if q > u16::MAX as u64 {
            Err(TimeError::OutOfRange)
        } else {
            Ok(self.set_fraction(q as u16))
        }
    }
}

/// Recombining a seconds half and a fraction half of a 64-bit timestamp gives
/// a value whose halves are exactly those two.
proof fn lemma_ts_halves(seconds: u32, fraction: u32)
    by (bit_vector)
    ensures
        ts_seconds(((seconds as u64) << 32) | (fraction as u64)) == seconds,
        ts_fraction(((seconds as u64) << 32) | (fraction as u64)) == fraction,
{
}

/// Recombining a seconds half and a fraction half of a 32-bit short gives a
/// value whose halves are exactly those two.
proof fn lemma_short_halves(seconds: u16, fraction: u16)
    by (bit_vector)
    ensures
        short_seconds(((seconds as u32) << 16) | (fraction as u32)) == seconds,
        short_fraction(((seconds as u32) << 16) | (fraction as u32)) == fraction,
{
}

/// Law: setting one half of a `Timestamp` fixes that half to the given value
/// and leaves the other half exactly as it was.
pub proof fn lemma_timestamp_halves_independent(v: u64, seconds: u32, fraction: u32)
    ensures
        ts_seconds(ts_with_seconds(v, seconds)) == seconds,
        ts_fraction(ts_with_seconds(v, seconds)) == ts_fraction(v),
        ts_fraction(ts_with_fraction(v, fraction)) == fraction,
        ts_seconds(ts_with_fraction(v, fraction)) == ts_seconds(v),
{
    lemma_ts_halves(seconds, ts_fraction(v));
    lemma_ts_halves(ts_seconds(v), fraction);
}

/// Law: setting one half of a `Short` fixes that half to the given value and
/// leaves the other half exactly as it was.
pub proof fn lemma_short_halves_independent(v: u32, seconds: u16, fraction: u16)
    ensures
        short_seconds(short_with_seconds(v, seconds)) == seconds,
        short_fraction(short_with_seconds(v, seconds)) == short_fraction(v),
        short_fraction(short_with_fraction(v, fraction)) == fraction,
        short_seconds(short_with_fraction(v, fraction)) == short_seconds(v),
{
    lemma_short_halves(seconds, short_fraction(v));
    lemma_short_halves(short_seconds(v), fraction);
}

/// Converting a fraction of `modulus` units per second to a whole number of
/// `grain` units and back never gains, and loses less than `modulus / grain`
/// plus one unit.
proof fn lemma_frac_unit_roundtrip(f: int, modulus: int, grain: int)
    requires
        0 <= f < modulus,
        0 < modulus,
        0 < grain,
    ensures
        0 <= f * grain / modulus < grain,
        ({
            let back = (f * grain / modulus) * modulus / grain;
            0 <= back <= f && grain * (f - back) < modulus + grain
        }),
{
    let ns = f * grain / modulus;
    lemma_fundamental_div_mod(f * grain, modulus);
    let r1 = f * grain - modulus * ns;
    assert(0 <= ns) by (nonlinear_arith)
        requires 0 <= f, 0 < grain, 0 < modulus, ns == f * grain / modulus,
    ;
    assert(f * grain < modulus * grain) by (nonlinear_arith)
        requires f < modulus, 0 < grain,
    ;
    assert(ns < grain) by (nonlinear_arith)
        requires ns * modulus <= f * grain, f * grain < modulus * grain, 0 < modulus,
             ns == f * grain / modulus, modulus * ns + r1 == f * grain, 0 <= r1,
    ;
    let back = ns * modulus / grain;
    lemma_fundamental_div_mod(ns * modulus, grain);
    let r2 = ns * modulus - grain * back;
    assert(0 <= back) by (nonlinear_arith)
        requires 0 <= ns, 0 < modulus, 0 < grain, back == ns * modulus / grain,
    ;
    assert(modulus * ns == ns * modulus) by (nonlinear_arith);
    assert(grain * (f - back) == r1 + r2) by (nonlinear_arith)
        requires
            f * grain == modulus * ns + r1,
            ns * modulus == grain * back + r2,
            modulus * ns == ns * modulus,
    ;
    assert(back <= f) by (nonlinear_arith)
        requires grain * (f - back) == r1 + r2, 0 <= r1, 0 <= r2, 0 < grain,
    ;
}

/// Law: `fraction_from_nanoseconds` after `fraction_as_nanoseconds` is a
/// bounded round trip on a `Timestamp` fraction: the nanosecond count is a
/// valid one, the fraction that comes back never exceeds the original, and it
/// falls short by at most five units of the 2^-32 fraction step.
pub proof fn lemma_timestamp_nanos_roundtrip(fraction: u32)
    ensures
        0 <= ts_frac_nanos(fraction) < 1_000_000_000,
        0 <= ts_nanos_frac(ts_frac_nanos(fraction) as u32) <= fraction,
        fraction - ts_nanos_frac(ts_frac_nanos(fraction) as u32) <= 5,
{
    lemma_frac_unit_roundtrip(fraction as int, 0x1_0000_0000, 1_000_000_000);
    let ns = ts_frac_nanos(fraction);
    let back = ts_nanos_frac(ns as u32);
    assert(1_000_000_000 * (fraction - back) < 0x1_0000_0000 + 1_000_000_000);
    assert(fraction - back <= 5) by (nonlinear_arith)
        requires 1_000_000_000 * (fraction - back) < 5_294_967_296,
    ;
}

/// Law: `fraction_from_nanoseconds` after `fraction_as_nanoseconds` is a
/// bounded round trip on a `Short` fraction: the nanosecond count is a valid
/// one, the fraction that comes back never exceeds the original, and it falls
/// short by at most one unit of the 2^-16 fraction step.
pub proof fn lemma_short_nanos_roundtrip(fraction: u16)
    ensures
        0 <= short_frac_nanos(fraction) < 1_000_000_000,
        0 <= short_nanos_frac(short_frac_nanos(fraction) as u32) <= fraction,
        fraction - short_nanos_frac(short_frac_nanos(fraction) as u32) <= 1,
{
    lemma_frac_unit_roundtrip(fraction as int, 0x1_0000, 1_000_000_000);
    let ns = short_frac_nanos(fraction);
    let back = short_nanos_frac(ns as u32);
    assert(1_000_000_000 * (fraction - back) < 0x1_0000 + 1_000_000_000);
    assert(fraction - back <= 1) by (nonlinear_arith)
        requires 1_000_000_000 * (fraction - back) < 1_000_065_536,
    ;
}

/// A kiss-of-death code: a reserved reference-id value a server can use to
/// signal a rejection reason. Modeled but not emitted by the built-in
/// strategies.
#[derive(Debug, Eq, PartialEq, Clone, Copy)]
pub enum KoD {
    ACST,
    AUTH,
    AUTO,
    BCST,
    CRYP,
    DENY,
    DROP,
    RSTR,
    INIT,
    MCST,
    NKEY,
    RATE,
    RMOT,
    STEP,
    Unknown([u8; 4]),
}

/// The four ASCII bytes of a kiss-of-death code.
pub open spec fn kod_bytes(k: KoD) -> Seq<u8> {
    match k {
        KoD::ACST => seq![65u8, 67u8, 83u8, 84u8],
        KoD::AUTH => seq![65u8, 85u8, 84u8, 72u8],
        KoD::AUTO => seq![65u8, 85u8, 84u8, 79u8],
        KoD::BCST => seq![66u8, 67u8, 83u8, 84u8],
        KoD::CRYP => seq![67u8, 82u8, 89u8, 80u8],
        KoD::DENY => seq![68u8, 69u8, 78u8, 89u8],
        KoD::DROP => seq![68u8, 82u8, 79u8, 80u8],
        KoD::RSTR => seq![82u8, 83u8, 84u8, 82u8],
        KoD::INIT => seq![73u8, 78u8, 73u8, 84u8],
        KoD::MCST => seq![77u8, 67u8, 83u8, 84u8],
        KoD::NKEY => seq![78u8, 75u8, 69u8, 89u8],
        KoD::RATE => seq![82u8, 65u8, 84u8, 69u8],
        KoD::RMOT => seq![82u8, 77u8, 79u8, 84u8],
        KoD::STEP => seq![83u8, 84u8, 69u8, 80u8],
        KoD::Unknown(data) => data@,
    }
}

impl KoD {
    /// The code as the four reference-id bytes it stands for.
    pub fn to_reference_id(self) -> (r: [u8; 4])
        ensures
            r@ == kod_bytes(self),
    {
        match self {
            KoD::ACST => [65u8, 67u8, 83u8, 84u8],
            KoD::AUTH => [65u8, 85u8, 84u8, 72u8],
            KoD::AUTO => [65u8, 85u8, 84u8, 79u8],
            KoD::BCST => [66u8, 67u8, 83u8, 84u8],
            KoD::CRYP => [67u8, 82u8, 89u8, 80u8],
            KoD::DENY => [68u8, 69u8, 78u8, 89u8],
            KoD::DROP => [68u8, 82u8, 79u8, 80u8],
            KoD::RSTR => [82u8, 83u8, 84u8, 82u8],
            KoD::INIT => [73u8, 78u8, 73u8, 84u8],
            KoD::MCST => [77u8, 67u8, 83u8, 84u8],
            KoD::NKEY => [78u8, 75u8, 69u8, 89u8],
            KoD::RATE => [82u8, 65u8, 84u8, 69u8],
            KoD::RMOT => [82u8, 77u8, 79u8, 84u8],
            KoD::STEP => [83u8, 84u8, 69u8, 80u8],
            KoD::Unknown(data) => data,
        }
    }
}

/// The leap-second warning carried in the top two bits of the first header
/// byte.
#[derive(Debug, Eq, PartialEq, Clone, Copy, Structural)]
pub enum LeapIndicator {
    NoWarning,
    LastMinute61Seconds,
    LastMinute59Seconds,
    Unknown,
}

/// The two-bit encoding of a leap indicator.
pub open spec fn li_to_u8(li: LeapIndicator) -> u8 {
    match li {
        LeapIndicator::NoWarning => 0,
        LeapIndicator::LastMinute61Seconds => 1,
        LeapIndicator::LastMinute59Seconds => 2,
        LeapIndicator::Unknown => 3,
    }
}

/// The leap indicator a two-bit value decodes to; every value below four is
/// defined.
pub open spec fn li_from_u8(v: u8) -> Option<LeapIndicator> {
    if v == 0 {
        Some(LeapIndicator::NoWarning)
    } else if v == 1 {
        Some(LeapIndicator::LastMinute61Seconds)
    } else if v == 2 {
        Some(LeapIndicator::LastMinute59Seconds)
    } else if v == 3 {
        Some(LeapIndicator::Unknown)
    } else {
        None
    }
}

impl LeapIndicator {
    /// The two-bit wire value of this indicator.
    pub fn as_u8(self) -> (r: u8)
        ensures
            r == li_to_u8(self),
    {
        match self {
            LeapIndicator::NoWarning => 0,
            LeapIndicator::LastMinute61Seconds => 1,
            LeapIndicator::LastMinute59Seconds => 2,
            LeapIndicator::Unknown => 3,
        }
    }

    /// The indicator a two-bit wire value decodes to.
    pub fn from_u8(v: u8) -> (r: Option<LeapIndicator>)
        ensures
            r == li_from_u8(v),
    {
        match v {
            0 => Some(LeapIndicator::NoWarning),
            1 => Some(LeapIndicator::LastMinute61Seconds),
            2 => Some(LeapIndicator::LastMinute59Seconds),
            3 => Some(LeapIndicator::Unknown),
            _ => None,
        }
    }
}

/// The association mode carried in the bottom three bits of the first header
/// byte.
#[derive(Debug, Eq, PartialEq, Clone, Copy, Structural)]
pub enum Mode {
    Reserved,
    SymmetricActive,
    SymmetricPassive,
    Client,
    Server,
    Broadcast,
    NTPControlMessage,
    ReservedForPrivate,
}

/// The three-bit encoding of a mode.
pub open spec fn mode_to_u8(m: Mode) -> u8 {
    match m {
        Mode::Reserved => 0,
        Mode::SymmetricActive => 1,
        Mode::SymmetricPassive => 2,
        Mode::Client => 3,
        Mode::Server => 4,
        Mode::Broadcast => 5,
        Mode::NTPControlMessage => 6,
        Mode::ReservedForPrivate => 7,
    }
}

/// The mode a three-bit value decodes to; every value below eight is defined.
pub open spec fn mode_from_u8(v: u8) -> Option<Mode> {
    if v == 0 {
        Some(Mode::Reserved)
    } else if v == 1 {
        Some(Mode::SymmetricActive)
    } else if v == 2 {
        Some(Mode::SymmetricPassive)
    } else if v == 3 {
        Some(Mode::Client)
    } else if v == 4 {
        Some(Mode::Server)
    } else if v == 5 {
        Some(Mode::Broadcast)
    } else if v == 6 {
        Some(Mode::NTPControlMessage)
    } else if v == 7 {
        Some(Mode::ReservedForPrivate)
    } else {
        None
    }
}

impl Mode {
    /// The three-bit wire value of this mode.
    pub fn as_u8(self) -> (r: u8)
        ensures
            r == mode_to_u8(self),
    {
        match self {
            Mode::Reserved => 0,
            Mode::SymmetricActive => 1,
            Mode::SymmetricPassive => 2,
            Mode::Client => 3,
            Mode::Server => 4,
            Mode::Broadcast => 5,
            Mode::NTPControlMessage => 6,
            Mode::ReservedForPrivate => 7,
        }
    }

    /// The mode a three-bit wire value decodes to.
    pub fn from_u8(v: u8) -> (r: Option<Mode>)
        ensures
            r == mode_from_u8(v),
    {
        match v {
            0 => Some(Mode::Reserved),
            1 => Some(Mode::SymmetricActive),
            2 => Some(Mode::SymmetricPassive),
            3 => Some(Mode::Client),
            4 => Some(Mode::Server),
            5 => Some(Mode::Broadcast),
            6 => Some(Mode::NTPControlMessage),
            7 => Some(Mode::ReservedForPrivate),
            _ => None,
        }
    }
}

/// The distance from the reference clock: primary servers are at stratum one,
/// secondary servers carry their hop count, and the remaining byte values are
/// unspecified, unsynchronized or reserved.
#[derive(Debug, Clone, Copy, PartialEq, Eq, Structural)]
pub enum Stratum {
    Unspecified,
    PrimaryServer,
    SecondaryServer(u8),
    Unsynchronized,
    Reserved(u8),
}

/// The stratum a byte decodes to; every byte value is defined.
pub open spec fn stratum_from_byte(value: u8) -> Stratum {
    if value == 0 {
        Stratum::Unspecified
    } else if value == 1 {
        Stratum::PrimaryServer
    } else if value <= 15 {
        Stratum::SecondaryServer(value)
    } else if value == 16 {
        Stratum::Unsynchronized
    } else {
        Stratum::Reserved(value)
    }
}

/// The byte a stratum encodes to: `None` where a secondary-server or reserved
/// variant carries a level outside its legal sub-range.
pub open spec fn stratum_to_byte(s: Stratum) -> Option<u8> {
    match s {
        Stratum::Unspecified => Some(0),
        Stratum::PrimaryServer => Some(1),
        Stratum::SecondaryServer(v) => if 2 <= v <= 15 {
            Some(v)
        } else {
            None
        },
        Stratum::Unsynchronized => Some(16),
        Stratum::Reserved(v) => if 17 <= v {
            Some(v)
        } else {
            None
        },
    }
}

impl Stratum {
    /// The stratum a wire byte decodes to; decoding never fails.
    pub fn from_byte(value: u8) -> (r: Stratum)
        ensures
            r == stratum_from_byte(value),
    {
        if value == 0 {
            Stratum::Unspecified
        } else if value == 1 {
            Stratum::PrimaryServer
        } else if value <= 15 {
            Stratum::SecondaryServer(value)
        } else if value == 16 {
            Stratum::Unsynchronized
        } else {
            Stratum::Reserved(value)
        }
    }

    /// The wire byte this stratum encodes to; `None` where the carried level
    /// is outside the variant's legal sub-range.
    pub fn to_byte(self) -> (r: Option<u8>)
        ensures
            r == stratum_to_byte(self),
    {
        match self {
            Stratum::Unspecified => Some(0),
            Stratum::PrimaryServer => Some(1),
            Stratum::SecondaryServer(v) => if 2 <= v && v <= 15 {
                Some(v)
            } else {
                None
            },
            Stratum::Unsynchronized => Some(16),
            Stratum::Reserved(v) => if 17 <= v {
                Some(v)
            } else {
                None
            },
        }
    }
}

/// The optional 20-byte authenticator trailing a packet: a key identifier and
/// a digest, carried structurally and never verified.
#[derive(Debug, Clone, Copy, PartialEq, Eq, Structural)]
pub struct Auth {
    pub key_indentifier: u32,
    pub digest: u128,
}

/// The 128-bit NTP date format: era number, offset within the era, and
/// fraction. Carried for completeness; no packet field uses it.
#[derive(Debug, Clone, Copy)]
#[allow(dead_code)]
pub struct Date {
    era_number: u32,
    era_offset: u32,
    fraction: u32,
}

/// One extension field: a type tag and an opaque payload.
#[derive(Debug, Clone, PartialEq, Eq)]
pub struct ExtensionField {
    pub field_type: u16,
    pub value: Vec<u8>,
}

/// The mathematical value of an extension field.
#[verifier::ext_equal]
pub ghost struct SpecExtensionField {
    pub field_type: u16,
    pub value: Seq<u8>,
}

impl View for ExtensionField {
    type V = SpecExtensionField;

    open spec fn view(&self) -> SpecExtensionField {
        SpecExtensionField { field_type: self.field_type, value: self.value@ }
    }
}

/// The values of a list of extension fields.
pub open spec fn exts_view(exts: Seq<ExtensionField>) -> Seq<SpecExtensionField> {
    exts.map_values(|e: ExtensionField| e@)
}

/// One in-memory NTP message.
#[derive(Debug, Clone, PartialEq)]
pub struct Packet {
    pub leap_indicator: LeapIndicator,
    pub version: u8,
    pub mode: Mode,
    pub stratum: Stratum,
    pub poll: i8,
    pub precision: i8,
    pub root_delay: Short,
    pub root_dispersion: Short,
    pub reference_id: [u8; 4],
    pub reference_timestamp: Timestamp,
    pub origin_timestamp: Timestamp,
    pub receive_timestamp: Timestamp,
    pub transit_timestamp: Timestamp,
    pub extensions: Option<Vec<ExtensionField>>,
    pub auth: Option<Auth>,
}

/// The mathematical value of a packet.
#[verifier::ext_equal]
pub ghost struct SpecPacket {
    pub leap_indicator: LeapIndicator,
    pub version: u8,
    pub mode: Mode,
    pub stratum: Stratum,
    pub poll: i8,
    pub precision: i8,
    pub root_delay: Short,
    pub root_dispersion: Short,
    pub reference_id: Seq<u8>,
    pub reference_timestamp: Timestamp,
    pub origin_timestamp: Timestamp,
    pub receive_timestamp: Timestamp,
    pub transit_timestamp: Timestamp,
    pub extensions: Option<Seq<SpecExtensionField>>,
    pub auth: Option<Auth>,
}

impl View for Packet {
    type V = SpecPacket;

    open spec fn view(&self) -> SpecPacket {
        SpecPacket {
            leap_indicator: self.leap_indicator,
            version: self.version,
            mode: self.mode,
            stratum: self.stratum,
            poll: self.poll,
            precision: self.precision,
            root_delay: self.root_delay,
            root_dispersion: self.root_dispersion,
            reference_id: self.reference_id@,
            reference_timestamp: self.reference_timestamp,
            origin_timestamp: self.origin_timestamp,
            receive_timestamp: self.receive_timestamp,
            transit_timestamp: self.transit_timestamp,
            extensions: match self.extensions {
                Some(v) => Some(exts_view(v@)),
                None => None,
            },
            auth: self.auth,
        }
    }
}

/// The wire length of a list of extension fields: four header bytes plus the
/// payload, per field.
pub open spec fn exts_wire_len(exts: Seq<SpecExtensionField>) -> int
    decreases exts.len(),
{
    if exts.len() == 0 {
        0
    } else {
        4 + exts[0].value.len() + exts_wire_len(exts.drop_first())
    }
}

/// A wire length is never negative.
pub proof fn lemma_exts_wire_len_nonneg(exts: Seq<SpecExtensionField>)
    ensures
        0 <= exts_wire_len(exts),
    decreases exts.len(),
{
    if exts.len() != 0 {
        lemma_exts_wire_len_nonneg(exts.drop_first());
    }
}

/// The on-wire size of a packet: the 48-byte base, 20 bytes where the
/// authenticator is present, and the wire length of the extension fields.
pub open spec fn spec_packet_size(p: SpecPacket) -> int {
    48 + (if p.auth is Some {
        20int
    } else {
        0int
    }) + (match p.extensions {
        Some(exts) => exts_wire_len(exts),
        None => 0,
    })
}

impl Packet {
    /// The fixed 48-byte base size of every packet.
    pub const BASE_SIZE: usize = 48;

    /// The size of the optional authenticator trailer.
    pub const AUTH_SIZE: usize = 20;

    /// The size of one extension-field header: type tag plus length.
    pub const EXT_HEAD_SIZE: usize = 4;

    /// The largest datagram the server accepts: the maximum UDP payload.
    pub const MAX_SIZE: usize = 65527;

    /// The exact number of bytes this packet serializes to.
    pub fn size(&self) -> (r: usize)
        requires
            spec_packet_size(self@) <= usize::MAX,
        ensures
            r == spec_packet_size(self@),
    {
        let mut size: usize = Self::BASE_SIZE;
        if self.auth.is_some() {
            size += Self::AUTH_SIZE;
        }
        if let Some(extensions) = &self.extensions {
            let ghost all = exts_view(extensions@);
            proof {
                assert(all.skip(0) =~= all);
            }
            let mut i: usize = 0;
            while i < extensions.len()
                invariant
                    i <= extensions.len(),
                    all == exts_view(extensions@),
                    all.len() == extensions@.len(),
                    self@.extensions == Some(all),
                    spec_packet_size(self@) <= usize::MAX,
                    size + exts_wire_len(all.skip(i as int)) == spec_packet_size(self@),
                decreases extensions.len() - i,
            {
                proof {
                    assert(all.skip(i as int).drop_first() =~= all.skip(i as int + 1));
                    assert(all.skip(i as int)[0] == all[i as int]);
                    lemma_exts_wire_len_nonneg(all.skip(i as int + 1));
                }
                size += Self::EXT_HEAD_SIZE;
                size += extensions[i].value.len();
                i += 1;
            }
            proof {
                assert(all.skip(all.len() as int) =~= Seq::<SpecExtensionField>::empty());
            }
        }
        size
    }
}

impl From<u64> for Timestamp {
    /// The timestamp with exactly this 64-bit value.
    fn from(v: u64) -> (r: Timestamp) {
        Timestamp(v)
    }
}

impl vstd::std_specs::convert::FromSpecImpl<u64> for Timestamp {
    open spec fn obeys_from_spec() -> bool {
        true
    }

    open spec fn from_spec(v: u64) -> Timestamp {
        Timestamp(v)
    }
}

impl From<Timestamp> for u64 {
    /// The 64-bit value of the timestamp.
    fn from(t: Timestamp) -> (r: u64) {
        t.0
    }
}

impl vstd::std_specs::convert::FromSpecImpl<Timestamp> for u64 {
    open spec fn obeys_from_spec() -> bool {
        true
    }

    open spec fn from_spec(t: Timestamp) -> u64 {
        t.0
    }
}

impl From<u32> for Short {
    /// The short value with exactly this 32-bit value.
    fn from(v: u32) -> (r: Short) {
        Short(v)
    }
}

impl vstd::std_specs::convert::FromSpecImpl<u32> for Short {
    open spec fn obeys_from_spec() -> bool {
        true
    }

    open spec fn from_spec(v: u32) -> Short {
        Short(v)
    }
}

impl From<Short> for u32 {
    /// The 32-bit value of the short value.
    fn from(s: Short) -> (r: u32) {
        s.0
    }
}

impl vstd::std_specs::convert::FromSpecImpl<Short> for u32 {
    open spec fn obeys_from_spec() -> bool {
        true
    }

    open spec fn from_spec(s: Short) -> u32 {
        s.0
    }
}

} // verus!
