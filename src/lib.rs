//! Admission control for booking time slots on shared seats: half-open
//! interval arithmetic, a blackout store, a reservation ledger that never
//! holds two overlapping reservations on one seat, and the services that
//! decide whether a request is admitted.

pub mod timeslot;
pub mod error;
pub mod model;
pub mod repository;
pub mod memory;
pub mod validate;
pub mod service;
pub mod init;
pub mod laws;
pub mod context;
pub mod diagnostics;
