//! An in-memory flight-reservation engine.
//!
//! A catalog of flights is loaded once; after that the engine answers
//! reserve, cancel, seat-search, reservation-listing and flight-search
//! commands, enforcing the two-hour deadline, seat availability and
//! reservation ownership.

pub mod command;
pub mod flight;
pub mod flight_search;
pub mod laws;
pub mod model;
pub mod outcome;
pub mod ranking;
pub mod reservation;
pub mod reservation_listing;
pub mod seat;
pub mod seat_map;
pub mod system;
pub mod text;
pub mod time_policy;
