//! The event envelope and data model of the flight-tracker projection.
//!
//! An envelope carries a namespaced event-kind string and a payload of
//! plain values. Fractional measurements (positions, headings, speeds) are
//! carried as IEEE-754 bit patterns: the projection stores and returns them
//! opaquely and never computes with them; the edge that decodes raw wire
//! events converts to and from floating point outside the library.

use vstd::prelude::*;

verus! {

/// The event-kind-specific payload, as plain optional fields.
#[derive(Debug, Clone)]
pub struct FlightData {
    pub icao_address: Option<String>,
    pub callsign: Option<String>,
    pub latitude_bits: Option<u64>,
    pub longitude_bits: Option<u64>,
    pub altitude: Option<i32>,
    pub heading_bits: Option<u64>,
    pub ground_speed_bits: Option<u64>,
    pub vertical_rate: Option<i32>,
}

/// The envelope: a namespaced kind, tracing fields, and the payload.
#[derive(Debug, Clone)]
pub struct CloudEvent {
    pub event_type: String,
    pub specversion: String,
    pub source: String,
    pub id: String,
    pub time: String,
    pub contenttype: Option<String>,
    pub datacontenttype: Option<String>,
    pub data: FlightData,
}

/// The derived state for one aircraft, keyed by its ICAO address.
#[derive(Debug)]
pub struct AircraftState {
    pub icao_address: String,
    pub callsign: Option<String>,
    pub latitude_bits: Option<u64>,
    pub longitude_bits: Option<u64>,
    pub altitude: Option<i32>,
    pub heading_bits: Option<u64>,
    pub ground_speed_bits: Option<u64>,
    pub vertical_rate: Option<i32>,
}

/// Relies on uuid::Uuid::new_v4 and its Display rendering: a freshly drawn
/// random identifier; nothing is promised of its value.
#[verifier::external_body]
fn new_event_id() -> (r: String) {
    uuid::Uuid::new_v4().to_string()
}

/// Relies on chrono::Utc::now and DateTime::to_rfc3339: the current wall
/// clock rendered as text; nothing is promised of its value.
#[verifier::external_body]
fn now_rfc3339() -> (r: String) {
    chrono::Utc::now().to_rfc3339()
}

/// Relies on the format macro: the namespace prefix followed by the kind.
#[verifier::external_body]
fn namespaced(event_type: &str) -> (r: String)
    ensures
        r@ == "org.book.flighttracker."@ + event_type@,
{
    format!("org.book.flighttracker.{}", event_type)
}

impl CloudEvent {
    /// Wraps a payload in a fresh envelope: the kind is namespaced, the
    /// identifier is random and the timestamp is the wall clock, so nothing
    /// is promised of those two.
    pub fn new(event_type: &str, data: FlightData) -> (r: Self)
        ensures
            r.event_type@ == "org.book.flighttracker."@ + event_type@,
            r.specversion@ == "1.0"@,
            r.source@ == "radio_aggregator"@,
            r.contenttype is None,
            (r.datacontenttype matches Some(c) && c@ == "application/json"@),
            r.data == data,
    {
        CloudEvent {
            event_type: namespaced(event_type),
            specversion: "1.0".to_owned(),
            source: "radio_aggregator".to_owned(),
            id: new_event_id(),
            time: now_rfc3339(),
            contenttype: None,
            datacontenttype: Some("application/json".to_owned()),
            data,
        }
    }

    /// The address of the aircraft the payload speaks about, when present.
    pub fn get_icao_address(&self) -> (r: Option<String>)
        ensures
            r == self.data.icao_address,
    {
        match &self.data.icao_address {
            Some(s) => Some(s.clone()),
            None => None,
        }
    }
}

#[derive(Debug, Clone, PartialEq, Eq, Structural)]
pub enum EventType {
    AircraftIdentified,
    PositionReported,
    VelocityReported,
    SquawkReceived,
}

/// The event kind a namespaced string denotes; unknown strings denote no
/// kind and are ignored by every consumer.
pub open spec fn spec_event_type(s: Seq<char>) -> Option<EventType> {
    if s == "org.book.flighttracker.aircraft_identified"@ {
        Some(EventType::AircraftIdentified)
    } else if s == "org.book.flighttracker.position_reported"@ {
        Some(EventType::PositionReported)
    } else if s == "org.book.flighttracker.velocity_reported"@ {
        Some(EventType::VelocityReported)
    } else if s == "org.book.flighttracker.squawk_received"@ {
        Some(EventType::SquawkReceived)
    } else {
        None
    }
}

impl EventType {
    /// Parses a namespaced event-kind string.
    pub fn from_str(s: &str) -> (r: Option<Self>)
        ensures
            r == spec_event_type(s@),
    {
        if crate::keyed::str_eq(s, "org.book.flighttracker.aircraft_identified") {
            Some(Self::AircraftIdentified)
        } else if crate::keyed::str_eq(s, "org.book.flighttracker.position_reported") {
            Some(Self::PositionReported)
        } else if crate::keyed::str_eq(s, "org.book.flighttracker.velocity_reported") {
            Some(Self::VelocityReported)
        } else if crate::keyed::str_eq(s, "org.book.flighttracker.squawk_received") {
            Some(Self::SquawkReceived)
        } else {
            None
        }
    }
}

} // verus!
