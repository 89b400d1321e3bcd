use chaos_ntp::ntp::parser::{parse_packet, serialize_packet, ParseError, SerializeError};
use chaos_ntp::ntp::types::{
    Auth, ExtensionField, LeapIndicator, Mode, Short, Stratum, Timestamp, TimestampTrait,
};

#[test]
fn valid_server_packet() {
    let packet: [u8; 48] = [
        0x24, //no leap warning, ntpv4, server
        0x02, //stratum 2
        0x03, //poll interval 3
        0xe8, //clock precision
        0x00, 0x00, 0x0f, 0x8e, //root delay
        0x00, 0x00, 0x05, 0x4a, //root dispersion
        0x84, 0xa3, 0x60, 0x04, //reference id time-d-b.nist.gov
        0xe3, 0x8c, 0x4e, 0xf1, 0x3f, 0x42, 0x7c, 0xcc, //reference timestamp
        0xe3, 0x8c, 0x4f, 0xd4, 0xd7, 0x47, 0x2d, 0xcd, //origin timestamp
        0xe3, 0x8c, 0x4f, 0xd4, 0xe9, 0xb0, 0xee, 0x14, //receive timestamp
        0xe3, 0x8c, 0x4f, 0xd4, 0xe9, 0xb1, 0xd8, 0x45, //transit timestamp
    ];

    let parsed = parse_packet(&packet).unwrap();

    assert_eq!(parsed.leap_indicator, LeapIndicator::NoWarning);
    assert_eq!(parsed.version, 4);
    assert_eq!(parsed.mode, Mode::Server);
    assert_eq!(parsed.stratum, Stratum::SecondaryServer(2));
    assert_eq!(parsed.poll, 3);
    assert_eq!(parsed.precision, -24);
    assert_eq!(parsed.root_delay, Short::from(0).set_seconds(0).set_fraction(0x0f8e));
    assert_eq!(parsed.root_dispersion, Short::from(0).set_seconds(0).set_fraction(0x054a));
    assert_eq!(parsed.reference_id, [0x84, 0xa3, 0x60, 0x04]);
    assert_eq!(
        parsed.reference_timestamp,
        Timestamp::from(0).set_seconds(0xe38c4ef1).set_fraction(0x3f427ccc)
    );
    assert_eq!(
        parsed.origin_timestamp,
        Timestamp::from(0).set_seconds(0xe38c4fd4).set_fraction(0xd7472dcd)
    );
    assert_eq!(
        parsed.receive_timestamp,
        Timestamp::from(0).set_seconds(0xe38c4fd4).set_fraction(0xe9b0ee14)
    );
    assert_eq!(
        parsed.transit_timestamp,
        Timestamp::from(0).set_seconds(0xe38c4fd4).set_fraction(0xe9b1d845)
    );

    assert_eq!(
        parsed.reference_timestamp.into_utc_datetime().to_rfc3339_nanos(),
        "2020-12-22T10:54:41.247108268Z"
    );
    assert_eq!(
        parsed.origin_timestamp.into_utc_datetime().to_rfc3339_nanos(),
        "2020-12-22T10:58:28.840929853Z"
    );
    assert_eq!(
        parsed.receive_timestamp.into_utc_datetime().to_rfc3339_nanos(),
        "2020-12-22T10:58:28.912855987Z"
    );
    assert_eq!(
        parsed.transit_timestamp.into_utc_datetime().to_rfc3339_nanos(),
        "2020-12-22T10:58:28.912869946Z"
    );

    assert_eq!(serialize_packet(&parsed).unwrap(), packet);
}

#[test]
fn valid_client_packet() {
    let packet: [u8; 48] = [
        0xe3, //unknown leap, ntpv4, client
        0x00, //stratum unspecified
        0x03, //poll interval 3
        0xfa, //clock precision
        0x00, 0x01, 0x00, 0x00, //root delay 1 second
        0x00, 0x01, 0x00, 0x00, //root dispersion 1 second
        0x00, 0x00, 0x00, 0x00, //reference id
        0x00, 0x00, 0x00, 0x00, 0x00, 0x00, 0x00, 0x00, //reference timestamp
        0x00, 0x00, 0x00, 0x00, 0x00, 0x00, 0x00, 0x00, //origin timestamp
        0x00, 0x00, 0x00, 0x00, 0x00, 0x00, 0x00, 0x00, //receive timestamp
        0xe3, 0x8c, 0x4f, 0xd4, 0xd7, 0x47, 0x2d, 0xcd, //transit timestamp
    ];

    let parsed = parse_packet(&packet).unwrap();

    assert_eq!(parsed.leap_indicator, LeapIndicator::Unknown);
    assert_eq!(parsed.version, 4);
    assert_eq!(parsed.mode, Mode::Client);
    assert_eq!(parsed.stratum, Stratum::Unspecified);
    assert_eq!(parsed.poll, 3);
    assert_eq!(parsed.precision, -6);
    assert_eq!(parsed.root_delay, Short::from(0).set_seconds(1).set_fraction(0));
    assert_eq!(parsed.root_dispersion, Short::from(0).set_seconds(1).set_fraction(0));
    assert_eq!(parsed.reference_id, [0x0, 0x0, 0x0, 0x0]);
    assert_eq!(parsed.reference_timestamp, Timestamp::from(0));
    assert_eq!(parsed.origin_timestamp, Timestamp::from(0));
    assert_eq!(parsed.receive_timestamp, Timestamp::from(0));
    assert_eq!(
        parsed.transit_timestamp,
        Timestamp::from(0).set_seconds(0xe38c4fd4).set_fraction(0xd7472dcd)
    );

    assert_eq!(serialize_packet(&parsed).unwrap(), packet);
}

#[test]
fn valid_client_packet_with_extensions() {
    let packet: [u8; 76] = [
        0xe3, //unknown leap, ntpv4, client
        0x00, //stratum unspecified
        0x03, //poll interval 3
        0xfa, //clock precision
        0x00, 0x01, 0x00, 0x00, //root delay 1 second
        0x00, 0x01, 0x00, 0x00, //root dispersion 1 second
        0x00, 0x00, 0x00, 0x00, //reference id
        0x00, 0x00, 0x00, 0x00, 0x00, 0x00, 0x00, 0x00, //reference timestamp
        0x00, 0x00, 0x00, 0x00, 0x00, 0x00, 0x00, 0x00, //origin timestamp
        0x00, 0x00, 0x00, 0x00, 0x00, 0x00, 0x00, 0x00, //receive timestamp
        0xe3, 0x8c, 0x4f, 0xd4, 0xd7, 0x47, 0x2d, 0xcd, //transit timestamp
        0x00, 0x20, 0x00, 0x04, 0x00, 0x00, 0x00, 0x00, //extension field
        0x00, 0x00, 0x00, 0x00, //auth key_id
        0x00, 0x00, 0x00, 0x00, 0x00, 0x00, 0x00, 0x00, 0x00, 0x00, 0x00, 0x00, 0x00, 0x00,
        0x00, 0x00, //auth digest
    ];

    let parsed = parse_packet(&packet).unwrap();

    assert_eq!(parsed.leap_indicator, LeapIndicator::Unknown);
    assert_eq!(parsed.version, 4);
    assert_eq!(parsed.mode, Mode::Client);
    assert_eq!(parsed.stratum, Stratum::Unspecified);
    assert_eq!(parsed.poll, 3);
    assert_eq!(parsed.precision, -6);
    assert_eq!(parsed.root_delay, Short::from(0).set_seconds(1).set_fraction(0));
    assert_eq!(parsed.root_dispersion, Short::from(0).set_seconds(1).set_fraction(0));
    assert_eq!(parsed.reference_id, [0x0, 0x0, 0x0, 0x0]);
    assert_eq!(parsed.reference_timestamp, Timestamp::from(0));
    assert_eq!(parsed.origin_timestamp, Timestamp::from(0));
    assert_eq!(parsed.receive_timestamp, Timestamp::from(0));
    assert_eq!(
        parsed.transit_timestamp,
        Timestamp::from(0).set_seconds(0xe38c4fd4).set_fraction(0xd7472dcd)
    );
    // The extension field's wire bytes 0x00 0x20 spell the type tag 0x20.
    assert_eq!(parsed.extensions.clone().unwrap()[0].field_type, 0x20);
    assert_eq!(parsed.auth.unwrap().key_indentifier, 0);
    assert_eq!(parsed.auth.unwrap().digest, 0);

    assert_eq!(serialize_packet(&parsed).unwrap(), packet);
}

#[test]
fn invalid_packet_ext_field_length_zero() {
    let mut packet = vec![0u8; 192];
    packet[0] = 23;
    packet[1] = 0;
    packet[2] = 3;
    packet[3] = 42;

    let parsed = parse_packet(&packet);

    assert_eq!(parsed.err().unwrap(), ParseError::MalformedExtension);
}

#[test]
fn truncated_packet_rejected() {
    let packet = [0x24u8; 47];
    assert_eq!(parse_packet(&packet).err().unwrap(), ParseError::TruncatedPacket);
    assert_eq!(parse_packet(&[]).err().unwrap(), ParseError::TruncatedPacket);
}

#[test]
fn malformed_trailer_rejected() {
    // 48 base bytes and a 10-byte tail: too short for an authenticator, too
    // long for nothing.
    let packet = [0u8; 58];
    assert_eq!(parse_packet(&packet).err().unwrap(), ParseError::MalformedTrailer);
}

#[test]
fn extension_past_end_rejected() {
    // The single extension field claims 100 payload bytes; only 22 trail it.
    let mut packet = vec![0u8; 74];
    packet[0] = 0x24;
    packet[49] = 0x07; // field type 0x0007
    packet[51] = 100; // claimed length
    assert_eq!(parse_packet(&packet).err().unwrap(), ParseError::MalformedExtension);
}

#[test]
fn stratum_out_of_range_rejected_on_serialize() {
    let mut packet = parse_packet(&[0x24u8; 48]).unwrap();
    packet.stratum = Stratum::SecondaryServer(20);
    assert_eq!(serialize_packet(&packet).err().unwrap(), SerializeError::InvalidStratumValue);
    packet.stratum = Stratum::Reserved(5);
    assert_eq!(serialize_packet(&packet).err().unwrap(), SerializeError::InvalidStratumValue);
}

#[test]
fn header_byte_0x24_decodes_to_server_fields() {
    let mut packet = [0u8; 48];
    packet[0] = 0x24;
    packet[1] = 0x02;
    let parsed = parse_packet(&packet).unwrap();
    assert_eq!(parsed.leap_indicator, LeapIndicator::NoWarning);
    assert_eq!(parsed.version, 4);
    assert_eq!(parsed.mode, Mode::Server);
    assert_eq!(parsed.stratum, Stratum::SecondaryServer(2));
}

#[test]
fn roundtrip_with_extensions_and_auth() {
    let mut packet = parse_packet(&[0x24u8; 48]).unwrap();
    packet.version = 4;
    packet.extensions = Some(vec![
        ExtensionField { field_type: 0x0104, value: vec![1, 2, 3] },
        ExtensionField { field_type: 0x0204, value: vec![9; 40] },
    ]);
    packet.auth = Some(Auth { key_indentifier: 0xdeadbeef, digest: 0x0123456789abcdef0123456789abcdefu128 });
    let wire = serialize_packet(&packet).unwrap();
    assert_eq!(wire.len(), 48 + 4 + 3 + 4 + 40 + 20);
    assert_eq!(wire.len(), packet.size());
    let reparsed = parse_packet(&wire).unwrap();
    assert_eq!(reparsed, packet);
}

#[test]
fn roundtrip_with_extensions_without_auth() {
    let mut packet = parse_packet(&[0x24u8; 48]).unwrap();
    // One extension of 21 wire bytes: more than an authenticator's 20.
    packet.extensions = Some(vec![ExtensionField { field_type: 7, value: vec![5; 17] }]);
    let wire = serialize_packet(&packet).unwrap();
    assert_eq!(wire.len(), 48 + 4 + 17);
    assert_eq!(wire.len(), packet.size());
    let reparsed = parse_packet(&wire).unwrap();
    assert_eq!(reparsed, packet);
}

#[test]
fn roundtrip_with_auth_without_extensions() {
    let mut packet = parse_packet(&[0xe3u8; 48]).unwrap();
    packet.auth = Some(Auth { key_indentifier: 42, digest: 7 });
    let wire = serialize_packet(&packet).unwrap();
    assert_eq!(wire.len(), 68);
    let reparsed = parse_packet(&wire).unwrap();
    assert_eq!(reparsed, packet);
}

#[test]
fn zero_length_later_extension_rejected() {
    // A well-formed first extension record (type 1, four payload bytes), then
    // a second record claiming length zero, then 20 trailer bytes.
    let mut packet = vec![0u8; 80];
    packet[0] = 0x24;
    packet[49] = 0x01; // first record: field type 0x0001
    packet[51] = 0x04; // first record: length 4
    assert_eq!(parse_packet(&packet).err().unwrap(), ParseError::MalformedExtension);
}
