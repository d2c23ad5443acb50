//! A non-projector observer: watches position events for one callsign and
//! cross-references the already-built aircraft projection to decide when a
//! position report should be surfaced.
//!
//! The decision is pure; the loop that receives raw events and prints the
//! report lives with the process around the library.

use vstd::prelude::*;
use crate::craft_projector::CraftProjector;
use crate::keyed::str_trim;
use crate::keyed::trimmed;
use crate::models::AircraftState;
use crate::models::CloudEvent;
use crate::models::EventType;
use crate::models::spec_event_type;

verus! {

/// A position report worth surfacing: the watched aircraft's callsign and
/// its reported coordinates as IEEE-754 bit patterns (zero bits, the
/// encoding of zero, when a coordinate is missing).
#[derive(Debug, Clone)]
pub struct PositionReport {
    pub callsign: String,
    pub latitude_bits: u64,
    pub longitude_bits: u64,
}

pub open spec fn bits_or_zero(o: Option<u64>) -> u64 {
    match o {
        Some(b) => b,
        None => 0,
    }
}

/// The report a position event yields for a watcher of `target`: one is
/// surfaced exactly when the event is a position report whose aircraft is
/// recorded with a callsign that, trimmed, equals the watched one.
pub open spec fn spec_notification(
    target: Seq<char>,
    m: Map<Seq<char>, AircraftState>,
    event: CloudEvent,
) -> Option<PositionReport> {
    if spec_event_type(event.event_type@) == Some(EventType::PositionReported) {
        match event.data.icao_address {
            Some(icao) => {
                if m.contains_key(icao@) {
                    match m[icao@].callsign {
                        Some(c) => {
                            if trimmed(c@) == target {
                                Some(
                                    PositionReport {
                                        callsign: c,
                                        latitude_bits: bits_or_zero(event.data.latitude_bits),
                                        longitude_bits: bits_or_zero(event.data.longitude_bits),
                                    },
                                )
                            } else {
                                None
                            }
                        },
                        None => None,
                    }
                } else {
                    None
                }
            },
            None => None,
        }
    } else {
        None
    }
}

/// Watches one flight's callsign over the stream of raw events.
pub struct FlightNotifier {
    flight_callsign: String,
}

impl FlightNotifier {
    pub closed spec fn watched(self) -> Seq<char> {
        self.flight_callsign@
    }

    pub fn new(flight_callsign: String) -> (s: Self)
        ensures
            s.watched() == flight_callsign@,
    {
        FlightNotifier { flight_callsign }
    }

    /// Decides whether this event should surface a position report for the
    /// watched flight, against the current aircraft projection.
    pub fn handle_event(&self, event: &CloudEvent, craft: &CraftProjector) -> (r: Option<
        PositionReport,
    >)
        ensures
            r == spec_notification(self.watched(), craft@, *event),
    {
        if let Some(EventType::PositionReported) = EventType::from_str(event.event_type.as_str()) {
            if let Some(icao) = event.get_icao_address() {
                if let Some(aircraft) = craft.get_state_by_icao(icao.as_str()) {
                    if let Some(callsign) = aircraft.callsign {
                        if crate::keyed::str_eq(
                            str_trim(callsign.as_str()),
                            self.flight_callsign.as_str(),
                        ) {
                            let latitude_bits = match event.data.latitude_bits {
                                Some(b) => b,
                                None => 0,
                            };
                            let longitude_bits = match event.data.longitude_bits {
                                Some(b) => b,
                                None => 0,
                            };
                            return Some(
                                PositionReport { callsign, latitude_bits, longitude_bits },
                            );
                        }
                    }
                }
            }
        }
        None
    }
}

} // verus!
