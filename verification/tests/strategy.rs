use chaos_ntp::ntp::parser::parse_packet;
use chaos_ntp::ntp::types::{
    LeapIndicator, Mode, Stratum, Timestamp, TimestampTrait, NTP_UNIX_OFFSET_SECONDS,
};
use chaos_ntp::response_strategy::{
    default_packet, CurrentTime, CurrentTimeCtor, ResponseStrategy, ResponseStrategyCtor,
    SingleOffset, SingleOffsetCtor, TransitTimestamp, TransitTimestampCtor,
};
use chaos_ntp::server::handle_datagram;

fn sample_request() -> chaos_ntp::ntp::types::Packet {
    let mut packet = [0u8; 48];
    packet[0] = 0xe3;
    let mut request = parse_packet(&packet).unwrap();
    request.transit_timestamp = Timestamp(0).set_seconds(0xe38c4fd4).set_fraction(0xd7472dcd);
    request
}

#[test]
fn default_packet_is_a_server_packet() {
    let packet = default_packet();
    assert_eq!(packet.leap_indicator, LeapIndicator::NoWarning);
    assert_eq!(packet.version, 4);
    assert_eq!(packet.mode, Mode::Server);
    assert_eq!(packet.stratum, Stratum::SecondaryServer(4));
    assert_eq!(packet.poll, 6);
    assert_eq!(packet.precision, -16);
    assert_eq!(packet.root_delay.get_fraction(), 1000);
    assert_eq!(packet.root_dispersion.get_fraction(), 1000);
    assert!(packet.extensions.is_none());
    assert!(packet.auth.is_none());
    assert_eq!(packet.size(), 48);
}

#[test]
fn every_strategy_echoes_transit_as_origin() {
    let request = sample_request();
    for ctor in [
        &SingleOffsetCtor as &dyn ResponseStrategyCtor,
        &TransitTimestampCtor,
        &CurrentTimeCtor,
    ] {
        let mut boxed = ctor.new_boxed();
        let reply = boxed.strategy.process_packet(request.clone());
        assert_eq!(reply.origin_timestamp, request.transit_timestamp);
        assert_eq!(reply.mode, Mode::Server);
        assert_eq!(reply.version, 4);
    }
}

#[test]
fn single_offset_transmit_always_moves() {
    let mut strategy = SingleOffset::new();
    let first = strategy.process_packet(sample_request());
    let second = strategy.process_packet(sample_request());
    let third = strategy.process_packet(sample_request());
    assert_ne!(first.transit_timestamp, second.transit_timestamp);
    assert_ne!(second.transit_timestamp, third.transit_timestamp);
    assert_eq!(first.transit_timestamp, first.receive_timestamp);
    assert_eq!(first.transit_timestamp, first.reference_timestamp);
}

#[test]
fn single_offset_get_time_drifts_forward() {
    let mut strategy = SingleOffset::new();
    let first = strategy.get_time();
    let second = strategy.get_time();
    // The offset grows one second per call; the clock between two immediate
    // calls moves well under a second.
    assert!(second > first);
    assert!(second - first <= 2);
}

#[test]
fn current_time_tracks_the_wall_clock() {
    let request = sample_request();
    let mut strategy = CurrentTime {};
    let reply = strategy.process_packet(request);
    let now_unix = std::time::SystemTime::now()
        .duration_since(std::time::SystemTime::UNIX_EPOCH)
        .unwrap()
        .as_secs();
    let reported = reply.transit_timestamp.get_seconds() as u64;
    let expected = now_unix + NTP_UNIX_OFFSET_SECONDS;
    assert!(expected - reported <= 1, "reply lags the clock: {reported} vs {expected}");
    assert_eq!(reply.transit_timestamp, reply.receive_timestamp);
    assert_eq!(reply.transit_timestamp, reply.reference_timestamp);
}

#[test]
fn transit_timestamp_shifts_the_clients_clock() {
    let request = sample_request();
    let mut strategy = TransitTimestamp {};
    let reply = strategy.process_packet(request.clone());
    let seconds = request.transit_timestamp.get_seconds();
    let fraction = request.transit_timestamp.get_fraction();
    assert_eq!(reply.reference_timestamp.get_seconds(), seconds - 5);
    assert_eq!(reply.receive_timestamp.get_seconds(), seconds + 1);
    assert_eq!(reply.transit_timestamp.get_seconds(), seconds + 1);
    assert_eq!(reply.transit_timestamp.get_fraction(), fraction);
}

#[test]
fn short_datagram_is_padded_and_answered() {
    let mut strategy = TransitTimestamp {};
    // Ten bytes only: the header byte asks for a version-four client packet.
    let (reply, wire) = handle_datagram(&mut strategy, vec![0xe3, 0, 3, 0xfa, 0, 0, 0, 0, 0, 0])
        .unwrap();
    let parsed = parse_packet(&wire).unwrap();
    assert_eq!(parsed, reply);
    assert_eq!(parsed.mode, Mode::Server);
    // The padded region parses as all-zero trailing fields, so the echoed
    // origin timestamp is the zero timestamp.
    assert_eq!(parsed.origin_timestamp, Timestamp(0));
}

#[test]
fn rejected_datagram_gets_no_reply() {
    let mut strategy = CurrentTime {};
    // 58 bytes: a malformed ten-byte trailer after the 48-byte base.
    assert!(handle_datagram(&mut strategy, vec![0u8; 58]).is_none());
}

#[test]
fn strategy_names_are_stable() {
    assert_eq!(SingleOffsetCtor.name(), "single_offset");
    assert_eq!(TransitTimestampCtor.name(), "transit_timestamp");
    assert_eq!(CurrentTimeCtor.name(), "current_time");
}
