use event_projection::craft_projector::CraftProjector;
use event_projection::file_injector::should_inject;
use event_projection::flight_notifier::FlightNotifier;
use event_projection::leaderboard::{EventType as LeaderboardEvent, Projector};
use event_projection::message_broadcaster::{MessageBroadcaster, RecvOutcome};
use event_projection::models::{CloudEvent, EventType, FlightData};

fn blank_data() -> FlightData {
    FlightData {
        icao_address: None,
        callsign: None,
        latitude_bits: None,
        longitude_bits: None,
        altitude: None,
        heading_bits: None,
        ground_speed_bits: None,
        vertical_rate: None,
    }
}

fn kill(attacker: &str) -> LeaderboardEvent {
    LeaderboardEvent::ZombieKilled {
        attacker: attacker.to_string(),
    }
}

#[test]
fn leaderboard_test_projector() {
    let mut projector = Projector::start_link();

    projector.apply_event(kill("player1"));
    projector.apply_event(kill("player1"));
    projector.apply_event(kill("player2"));

    let score = projector.get_score("player1".to_string());
    assert_eq!(score, 2);

    let top10 = projector.get_top10();
    assert_eq!(top10.len(), 2);
    assert_eq!(top10[0], ("player1".to_string(), 2));
}

#[test]
fn week_completed_clears_scores() {
    let mut projector = Projector::start_link();
    projector.apply_event(kill("player1"));
    projector.week_completed();
    assert_eq!(projector.get_score("player1".to_string()), 0);
    assert!(projector.get_top10().is_empty());
}

#[test]
fn event_type_parses_namespaced_kinds() {
    assert!(matches!(
        EventType::from_str("org.book.flighttracker.aircraft_identified"),
        Some(EventType::AircraftIdentified)
    ));
    assert!(matches!(
        EventType::from_str("org.book.flighttracker.position_reported"),
        Some(EventType::PositionReported)
    ));
    assert!(matches!(
        EventType::from_str("org.book.flighttracker.velocity_reported"),
        Some(EventType::VelocityReported)
    ));
    assert!(matches!(
        EventType::from_str("org.book.flighttracker.squawk_received"),
        Some(EventType::SquawkReceived)
    ));
    assert!(EventType::from_str("org.book.flighttracker.unknown_kind").is_none());
    assert!(EventType::from_str("aircraft_identified").is_none());
}

#[test]
fn cloud_event_wraps_payload() {
    let event = CloudEvent::new("position_reported", blank_data());
    assert_eq!(event.event_type, "org.book.flighttracker.position_reported");
    assert_eq!(event.specversion, "1.0");
    assert_eq!(event.source, "radio_aggregator");
    assert_eq!(event.datacontenttype.as_deref(), Some("application/json"));
    assert!(event.contenttype.is_none());
}

#[test]
fn craft_projector_folds_reports_per_aircraft() {
    let mut craft = CraftProjector::new();

    let mut identified = blank_data();
    identified.icao_address = Some("A1B2C3".to_string());
    identified.callsign = Some("JBU1554".to_string());
    craft.handle_event(CloudEvent::new("aircraft_identified", identified));

    let mut velocity = blank_data();
    velocity.icao_address = Some("A1B2C3".to_string());
    velocity.heading_bits = Some(271.5f64.to_bits());
    velocity.ground_speed_bits = Some(410.0f64.to_bits());
    velocity.vertical_rate = Some(-640);
    craft.handle_event(CloudEvent::new("velocity_reported", velocity));

    let mut position = blank_data();
    position.icao_address = Some("A1B2C3".to_string());
    position.latitude_bits = Some(40.64f64.to_bits());
    position.longitude_bits = Some((-73.78f64).to_bits());
    position.altitude = Some(11000);
    craft.handle_event(CloudEvent::new("position_reported", position));

    let state = craft.get_state_by_icao("A1B2C3").unwrap();
    assert_eq!(state.icao_address, "A1B2C3");
    assert_eq!(state.callsign.as_deref(), Some("JBU1554"));
    assert_eq!(state.heading_bits.map(f64::from_bits), Some(271.5));
    assert_eq!(state.ground_speed_bits.map(f64::from_bits), Some(410.0));
    assert_eq!(state.vertical_rate, Some(-640));
    assert_eq!(state.latitude_bits.map(f64::from_bits), Some(40.64));
    assert_eq!(state.longitude_bits.map(f64::from_bits), Some(-73.78));
    assert_eq!(state.altitude, Some(11000));

    assert!(craft.get_state_by_icao("FFFFFF").is_none());

    let by_callsign = craft.aircraft_by_callsign("JBU1554").unwrap();
    assert_eq!(by_callsign.icao_address, "A1B2C3");
    assert!(craft.aircraft_by_callsign("DAL42").is_none());
}

#[test]
fn unrecognized_kinds_are_ignored() {
    let mut craft = CraftProjector::new();
    let mut squawk = blank_data();
    squawk.icao_address = Some("A1B2C3".to_string());
    craft.handle_event(CloudEvent::new("squawk_received", squawk));
    assert!(craft.get_state_by_icao("A1B2C3").is_none());
}

#[test]
fn notifier_matches_trimmed_callsign() {
    let mut craft = CraftProjector::new();
    let mut identified = blank_data();
    identified.icao_address = Some("A1B2C3".to_string());
    identified.callsign = Some(" JBU1554 ".to_string());
    craft.handle_event(CloudEvent::new("aircraft_identified", identified));

    let notifier = FlightNotifier::new("JBU1554".to_string());

    let mut position = blank_data();
    position.icao_address = Some("A1B2C3".to_string());
    position.latitude_bits = Some(40.64f64.to_bits());
    position.longitude_bits = Some((-73.78f64).to_bits());
    let event = CloudEvent::new("position_reported", position);

    let report = notifier.handle_event(&event, &craft).unwrap();
    assert_eq!(report.callsign, " JBU1554 ");
    assert_eq!(f64::from_bits(report.latitude_bits), 40.64);
    assert_eq!(f64::from_bits(report.longitude_bits), -73.78);

    let other = FlightNotifier::new("DAL42".to_string());
    assert!(other.handle_event(&event, &craft).is_none());
}

#[test]
fn broadcaster_fans_out_to_every_subscriber() {
    let mut bus = MessageBroadcaster::new(16);
    assert!(bus.broadcast_event("dropped on the floor".to_string()).is_ok());

    let a = bus.subscribe();
    let b = bus.subscribe();
    assert!(bus.broadcast_event("one".to_string()).is_ok());
    assert!(bus.broadcast_event("two".to_string()).is_ok());

    for id in [a, b] {
        match bus.recv(id) {
            RecvOutcome::Message(m) => assert_eq!(m, "one"),
            other => panic!("expected a message, got {:?}", other),
        }
        match bus.recv(id) {
            RecvOutcome::Message(m) => assert_eq!(m, "two"),
            other => panic!("expected a message, got {:?}", other),
        }
        assert!(matches!(bus.recv(id), RecvOutcome::Empty));
    }
}

#[test]
fn slow_subscriber_lags_and_recovers() {
    let mut bus = MessageBroadcaster::new(2);
    let id = bus.subscribe();
    assert!(bus.broadcast_event("one".to_string()).is_ok());
    assert!(bus.broadcast_event("two".to_string()).is_ok());
    assert!(bus.broadcast_event("three".to_string()).is_ok());

    match bus.recv(id) {
        RecvOutcome::Lagged(n) => assert_eq!(n, 1),
        other => panic!("expected a lag signal, got {:?}", other),
    }
    match bus.recv(id) {
        RecvOutcome::Message(m) => assert_eq!(m, "two"),
        other => panic!("expected a message, got {:?}", other),
    }
    match bus.recv(id) {
        RecvOutcome::Message(m) => assert_eq!(m, "three"),
        other => panic!("expected a message, got {:?}", other),
    }
    assert!(matches!(bus.recv(id), RecvOutcome::Empty));
}

#[test]
fn blank_lines_are_not_injected() {
    assert!(!should_inject(""));
    assert!(!should_inject("   \t  "));
    assert!(should_inject(" {\"type\":\"x\"} "));
}
