//! A per-key, single-writer event-projection engine.
//!
//! State changes only by folding immutable events into a per-key projector
//! state; commands are validated by a pure decision function before any fold;
//! a registry creates exactly one projector per key and routes traffic to it;
//! a fan-out bus hands every published message to every subscriber.

pub mod decision;
pub mod keyed;
pub mod account;
pub mod leaderboard;
pub mod models;
pub mod craft_projector;
pub mod flight_notifier;
pub mod message_broadcaster;
pub mod file_injector;
