//! The flight-tracker projection: one table of per-aircraft state, keyed by
//! ICAO address, folded from identification, velocity and position events.
//!
//! Each handler upserts exactly the fields its event kind reports and leaves
//! every other aircraft untouched; unrecognized event kinds change nothing.

use vstd::prelude::*;
use crate::keyed::KeyTable;
use crate::keyed::keys_unique;
use crate::keyed::lemma_map_of_contains;
use crate::keyed::lemma_map_of_index;
use crate::keyed::map_of;
use crate::models::AircraftState;
use crate::models::CloudEvent;
use crate::models::EventType;
use crate::models::spec_event_type;

verus! {

/// A state with no reports yet for the given aircraft.
pub open spec fn blank_state(icao: String) -> AircraftState {
    AircraftState {
        icao_address: icao,
        callsign: None,
        latitude_bits: None,
        longitude_bits: None,
        altitude: None,
        heading_bits: None,
        ground_speed_bits: None,
        vertical_rate: None,
    }
}

/// The aircraft's previous state, or a blank one on first sight.
pub open spec fn base_state(m: Map<Seq<char>, AircraftState>, icao: String) -> AircraftState {
    if m.contains_key(icao@) {
        m[icao@]
    } else {
        blank_state(icao)
    }
}

/// What one event does to the table: the addressed aircraft's entry is
/// replaced with its previous fields overlaid by exactly the fields this
/// event kind reports; an event without an address, or of an unrecognized
/// kind, changes nothing.
pub open spec fn craft_after(
    m: Map<Seq<char>, AircraftState>,
    event: CloudEvent,
) -> Map<Seq<char>, AircraftState> {
    match event.data.icao_address {
        Some(icao) => match spec_event_type(event.event_type@) {
            Some(EventType::AircraftIdentified) => m.insert(
                icao@,
                AircraftState { callsign: event.data.callsign, ..base_state(m, icao) },
            ),
            Some(EventType::VelocityReported) => m.insert(
                icao@,
                AircraftState {
                    heading_bits: event.data.heading_bits,
                    ground_speed_bits: event.data.ground_speed_bits,
                    vertical_rate: event.data.vertical_rate,
                    ..base_state(m, icao)
                },
            ),
            Some(EventType::PositionReported) => m.insert(
                icao@,
                AircraftState {
                    latitude_bits: event.data.latitude_bits,
                    longitude_bits: event.data.longitude_bits,
                    altitude: event.data.altitude,
                    ..base_state(m, icao)
                },
            ),
            _ => m,
        },
        None => m,
    }
}

/// An aircraft state whose callsign matches the queried one.
pub open spec fn callsign_matches(st: AircraftState, cs: Seq<char>) -> bool {
    st.callsign matches Some(c) && c@ == cs
}

/// Owns the per-aircraft derived state for every aircraft seen so far.
pub struct CraftProjector {
    aircraft_table: KeyTable<AircraftState>,
}

impl View for CraftProjector {
    type V = Map<Seq<char>, AircraftState>;

    closed spec fn view(&self) -> Map<Seq<char>, AircraftState> {
        self.aircraft_table@
    }
}

impl CraftProjector {
    pub fn new() -> (s: Self)
        ensures
            s@ == Map::<Seq<char>, AircraftState>::empty(),
    {
        CraftProjector { aircraft_table: KeyTable::new() }
    }

    /// Routes one envelope to the handler for its event kind; events of
    /// unrecognized kinds are ignored, not errors.
    pub fn handle_event(&mut self, event: CloudEvent)
        ensures
            final(self)@ == craft_after(old(self)@, event),
    {
        match EventType::from_str(event.event_type.as_str()) {
            Some(EventType::AircraftIdentified) => {
                self.handle_aircraft_identified(event);
            },
            Some(EventType::VelocityReported) => {
                self.handle_velocity_reported(event);
            },
            Some(EventType::PositionReported) => {
                self.handle_position_reported(event);
            },
            _ => {},
        }
    }

    /// Folds an identification event: the callsign is replaced, every other
    /// field survives.
    fn handle_aircraft_identified(&mut self, event: CloudEvent)
        requires
            spec_event_type(event.event_type@) == Some(EventType::AircraftIdentified),
        ensures
            final(self)@ == craft_after(old(self)@, event),
    {
        if let Some(icao) = event.get_icao_address() {
            let base = self.base_of(icao.as_str(), icao.clone());
            let next = AircraftState { callsign: event.data.callsign, ..base };
            self.aircraft_table.set(icao, next);
        }
    }

    /// Folds a velocity event: heading, ground speed and vertical rate are
    /// replaced, every other field survives.
    fn handle_velocity_reported(&mut self, event: CloudEvent)
        requires
            spec_event_type(event.event_type@) == Some(EventType::VelocityReported),
        ensures
            final(self)@ == craft_after(old(self)@, event),
    {
        if let Some(icao) = event.get_icao_address() {
            let base = self.base_of(icao.as_str(), icao.clone());
            let next = AircraftState {
                heading_bits: event.data.heading_bits,
                ground_speed_bits: event.data.ground_speed_bits,
                vertical_rate: event.data.vertical_rate,
                ..base
            };
            self.aircraft_table.set(icao, next);
        }
    }

    /// Folds a position event: latitude, longitude and altitude are
    /// replaced, every other field survives.
    fn handle_position_reported(&mut self, event: CloudEvent)
        requires
            spec_event_type(event.event_type@) == Some(EventType::PositionReported),
        ensures
            final(self)@ == craft_after(old(self)@, event),
    {
        if let Some(icao) = event.get_icao_address() {
            let base = self.base_of(icao.as_str(), icao.clone());
            let next = AircraftState {
                latitude_bits: event.data.latitude_bits,
                longitude_bits: event.data.longitude_bits,
                altitude: event.data.altitude,
                ..base
            };
            self.aircraft_table.set(icao, next);
        }
    }

    /// The stored state for this address, or a blank one; `owned` must be
    /// the same address as an owned string.
    fn base_of(&self, icao: &str, owned: String) -> (r: AircraftState)
        requires
            icao@ == owned@,
        ensures
            r == base_state(self@, owned),
    {
        match self.aircraft_table.get(icao) {
            Some(st) => duplicate_state(st),
            None => AircraftState {
                icao_address: owned,
                callsign: None,
                latitude_bits: None,
                longitude_bits: None,
                altitude: None,
                heading_bits: None,
                ground_speed_bits: None,
                vertical_rate: None,
            },
        }
    }

    /// The state recorded under an ICAO address, when the aircraft is known.
    pub fn get_state_by_icao(&self, icao: &str) -> (r: Option<AircraftState>)
        ensures
            self@.contains_key(icao@) ==> (r matches Some(st) && st == self@[icao@]),
            !self@.contains_key(icao@) ==> r is None,
    {
        match self.aircraft_table.get(icao) {
            Some(st) => Some(duplicate_state(st)),
            None => None,
        }
    }

    /// The first recorded aircraft whose callsign equals the queried one;
    /// `None` exactly when no recorded aircraft carries it.
    pub fn aircraft_by_callsign(&self, callsign: &str) -> (r: Option<AircraftState>)
        ensures
            match r {
                Some(st) => exists|k: Seq<char>|
                    self@.contains_key(k) && self@[k] == st && callsign_matches(st, callsign@),
                None => forall|k: Seq<char>|
                    self@.contains_key(k) ==> !callsign_matches(#[trigger] self@[k], callsign@),
            },
    {
        let pairs = self.aircraft_table.pairs();
        let n = pairs.len();
        let mut i: usize = 0;
        while i < n
            invariant
                n == pairs@.len(),
                map_of(pairs@) == self@,
                keys_unique(pairs@),
                0 <= i <= n,
                forall|j: int|
                    0 <= j < i ==> !callsign_matches((#[trigger] pairs@[j]).1, callsign@),
            decreases n - i,
        {
            let matched: bool = match &pairs[i].1.callsign {
                Some(c) => crate::keyed::str_eq(c.as_str(), callsign),
                None => false,
            };
            if matched {
                proof {
                    lemma_map_of_index(pairs@, i as int);
                }
                return Some(duplicate_state(&pairs[i].1));
            }
            i = i + 1;
        }
        proof {
            assert forall|k: Seq<char>|
                self@.contains_key(k) implies !callsign_matches(#[trigger] self@[k], callsign@) by {
                lemma_map_of_contains(pairs@, k);
                let j = choose|j: int| 0 <= j < pairs@.len() && pairs@[j].0@ == k;
                lemma_map_of_index(pairs@, j);
            }
        }
        None
    }
}

/// A field-for-field copy of an aircraft state.
fn duplicate_state(st: &AircraftState) -> (r: AircraftState)
    ensures
        r == *st,
{
    AircraftState {
        icao_address: st.icao_address.clone(),
        callsign: match &st.callsign {
            Some(c) => Some(c.clone()),
            None => None,
        },
        latitude_bits: st.latitude_bits,
        longitude_bits: st.longitude_bits,
        altitude: st.altitude,
        heading_bits: st.heading_bits,
        ground_speed_bits: st.ground_speed_bits,
        vertical_rate: st.vertical_rate,
    }
}

} // verus!
