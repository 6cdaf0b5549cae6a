//! The reasons for which a command is refused.

use vstd::prelude::*;

verus! {

/// Why a seat could not be reserved.
#[derive(Clone, Copy, Debug, PartialEq, Eq, Structural)]
pub enum ReserveError {
    /// The catalog holds no flight with the given id.
    FlightNotFound,
    /// The time of the command is not a timestamp.
    InvalidDatetime,
    /// The date does not make a timestamp with the flight's departure time.
    InvalidFlightDatetime,
    /// The command comes two hours before departure or later.
    TooLate,
    /// The seat is held on that date and flight.
    AlreadyReserved,
    /// The seat identifier names no seat of a class of the flight.
    InvalidSeatId,
}

/// Why a reservation could not be cancelled.
#[derive(Clone, Copy, Debug, PartialEq, Eq, Structural)]
pub enum CancelError {
    /// No reservation has the given id, or it is cancelled already.
    ReservationNotFound,
    /// The reservation belongs to another user.
    Unauthorized,
    /// The time of the command is not a timestamp.
    InvalidDatetime,
    /// The reservation's date does not make a timestamp with the flight's
    /// departure time.
    InvalidFlightDatetime,
    /// The command comes two hours before departure or later.
    TooLate,
}

/// Why a seat map could not be drawn.
#[derive(Clone, Copy, Debug, PartialEq, Eq, Structural)]
pub enum SeatSearchError {
    /// The catalog holds no flight with the given id.
    FlightNotFound,
}

impl ReserveError {
    /// The reason in words.
    pub fn reason(&self) -> (r: &'static str)
        ensures
            r@ == match *self {
                ReserveError::FlightNotFound => "flight not found"@,
                ReserveError::InvalidDatetime => "invalid datetime"@,
                ReserveError::InvalidFlightDatetime => "invalid flight datetime"@,
                ReserveError::TooLate => "too late"@,
                ReserveError::AlreadyReserved => "already reserved"@,
                ReserveError::InvalidSeatId => "invalid seat_id"@,
            },
    {
        match self {
            ReserveError::FlightNotFound => "flight not found",
            ReserveError::InvalidDatetime => "invalid datetime",
            ReserveError::InvalidFlightDatetime => "invalid flight datetime",
            ReserveError::TooLate => "too late",
            ReserveError::AlreadyReserved => "already reserved",
            ReserveError::InvalidSeatId => "invalid seat_id",
        }
    }
}

impl CancelError {
    /// The reason in words.
    pub fn reason(&self) -> (r: &'static str)
        ensures
            r@ == match *self {
                CancelError::ReservationNotFound => "reservation not found"@,
                CancelError::Unauthorized => "unauthorized operation"@,
                CancelError::InvalidDatetime => "invalid datetime"@,
                CancelError::InvalidFlightDatetime => "invalid flight datetime"@,
                CancelError::TooLate => "too late"@,
            },
    {
        match self {
            CancelError::ReservationNotFound => "reservation not found",
            CancelError::Unauthorized => "unauthorized operation",
            CancelError::InvalidDatetime => "invalid datetime",
            CancelError::InvalidFlightDatetime => "invalid flight datetime",
            CancelError::TooLate => "too late",
        }
    }
}

impl SeatSearchError {
    /// The reason in words.
    pub fn reason(&self) -> (r: &'static str)
        ensures
            r@ == "flight not found"@,
    {
        "flight not found"
    }
}

} // verus!
