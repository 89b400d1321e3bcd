use chaos_ntp::ntp::types::{KoD, Short, Timestamp, TimestampTrait};

#[test]
fn timestamp() {
    let timestamp = Timestamp::from(0x12345678_9abcdef0);

    assert_eq!(0x12345678, timestamp.get_seconds());
    assert_eq!(0x9abcdef0, timestamp.get_fraction());
    assert_eq!(0x731_9abcdef0 as u64, u64::from(timestamp.set_seconds(0x731)));
    assert_eq!(0x731, timestamp.set_seconds(0x731).get_seconds());

    assert_eq!(0x9abcdef0, timestamp.set_seconds(0x731).get_fraction());
    assert_eq!(0x12345678, timestamp.set_fraction(0x52141).get_seconds());
    assert_eq!(0x12345678_00052141 as u64, u64::from(timestamp.set_fraction(0x52141)));
    assert_eq!(0x52141, timestamp.set_fraction(0x52141).get_fraction());

    assert_eq!(
        Timestamp::from(0)
            .set_seconds(0xe38c4fd4)
            .set_fraction(0xd7472dcd)
            .into_utc_datetime()
            .to_rfc3339_nanos(),
        "2020-12-22T10:58:28.840929853Z"
    );
}

#[test]
fn nanoseconds_conversions_timestamp() {
    let timestamp = Timestamp::from(0);

    assert_eq!(840929853, timestamp.set_fraction(3611766221).fraction_as_nanoseconds());
    assert_eq!(912855987, timestamp.set_fraction(3920686612).fraction_as_nanoseconds());

    assert_eq!(3611766216, timestamp.fraction_from_nanoseconds(840929853).unwrap().get_fraction());
    assert_eq!(3920686610, timestamp.fraction_from_nanoseconds(912855987).unwrap().get_fraction());
}

#[test]
fn short() {
    let short = Short::from(0x1234_5678);

    assert_eq!(0x1234, short.get_seconds());
    assert_eq!(0x5678, short.get_fraction());
    assert_eq!(0x731_5678 as u32, u32::from(short.set_seconds(0x731)));
    assert_eq!(0x731, short.set_seconds(0x731).get_seconds());

    assert_eq!(0x5678, short.set_seconds(0x731).get_fraction());
    assert_eq!(0x1234, short.set_fraction(0x5214).get_seconds());
    assert_eq!(0x1234_5214 as u32, u32::from(short.set_fraction(0x5214)));
    assert_eq!(0x5214, short.set_fraction(0x5214).get_fraction());

    assert_eq!(Short::from_duration(chrono::Duration::seconds(15)).unwrap().get_seconds(), 15);
    assert_eq!(Short::from_duration(chrono::Duration::seconds(15)).unwrap().get_fraction(), 0);
    assert_eq!(Short(0).set_seconds(15).into_duration(), chrono::Duration::seconds(15));
}

#[test]
fn nanoseconds_conversions_short() {
    let short = Short::from(0);

    // Half a second is exact both ways at 16-bit width.
    assert_eq!(500_000_000, short.set_fraction(0x8000).fraction_as_nanoseconds());
    assert_eq!(0x8000, short.fraction_from_nanoseconds(500_000_000).unwrap().get_fraction());

    // The round trip never gains, and loses at most one fraction unit.
    assert_eq!(0xFFFE, short
        .fraction_from_nanoseconds(short.set_fraction(0xFFFF).fraction_as_nanoseconds())
        .unwrap()
        .get_fraction());

    // A nanosecond count of a full second or more does not fit a fraction.
    assert!(short.fraction_from_nanoseconds(1_000_000_000).is_err());
    assert!(Timestamp::from(0).fraction_from_nanoseconds(1_000_000_000).is_err());
}

#[test]
fn calendar_conversions_roundtrip() {
    // A fraction of exactly half a second converts to nanoseconds and back
    // without loss, so the calendar round trip is exact here.
    let ts = Timestamp::from(0).set_seconds(0xe38c4fd4).set_fraction(0x8000_0000);
    let roundtripped = Timestamp::from_utc_datetime(ts.into_utc_datetime()).unwrap();
    assert_eq!(roundtripped, ts);

    // An instant before the NTP epoch does not fit a timestamp.
    let early = Timestamp::from(0).set_seconds(5).set_fraction(0).into_utc_datetime();
    assert_eq!(early.unix_seconds(), 5 - 2_208_988_800);
    let duration = chrono::Duration::seconds(-1);
    assert!(Short::from_duration(duration).is_err());
}

#[test]
fn short_duration_out_of_range() {
    // 16-bit seconds hold at most 65535 whole seconds.
    assert!(Short::from_duration(chrono::Duration::seconds(65536)).is_err());
    assert_eq!(
        Short::from_duration(chrono::Duration::seconds(65535)).unwrap().get_seconds(),
        65535
    );
}

#[test]
fn kiss_of_death_codes_spell_their_names() {
    assert_eq!(KoD::DENY.to_reference_id(), *b"DENY");
    assert_eq!(KoD::RATE.to_reference_id(), *b"RATE");
    assert_eq!(KoD::Unknown([1, 2, 3, 4]).to_reference_id(), [1, 2, 3, 4]);
}

#[test]
fn epoch_parts_boundaries() {
    let top = u32::MAX as i64;
    assert_eq!(
        Timestamp::from_epoch_parts(top, 0).unwrap(),
        Timestamp(0).set_seconds(u32::MAX)
    );
    assert!(Timestamp::from_epoch_parts(top + 1, 0).is_err());
    assert!(Timestamp::from_epoch_parts(-1, 0).is_err());
    assert!(Timestamp::from_epoch_parts(0, 1_000_000_000).is_err());
    assert!(Short::from_duration_parts(0, -1).is_err());
    assert_eq!(
        Short::from_duration_parts(1, 500_000_000).unwrap(),
        Short(0).set_seconds(1).set_fraction(0x8000)
    );
}
