//! The state of the engine as the contracts see it, and what each command
//! does to it.

use vstd::prelude::*;
use crate::flight::FlightView;
use crate::outcome::CancelError;
use crate::outcome::ReserveError;
use crate::reservation::ReservationView;
use crate::reservation::SeatKey;
use crate::seat::classify;
use crate::time_policy::departure_instant;
use crate::time_policy::timestamp_instant;
use crate::time_policy::too_late;
use crate::time_policy::Instant;

verus! {

/// The catalog, the ledger of reservations, the seats that are held, and
/// the id that the next reservation gets.
pub struct SystemView {
    pub flights: Map<u32, FlightView>,
    pub reservations: Map<u32, ReservationView>,
    pub held: Set<SeatKey>,
    pub next_reservation_id: u32,
}

impl SystemView {
    /// The state of an engine that has loaded no flight yet.
    pub open spec fn empty() -> SystemView {
        SystemView {
            flights: Map::empty(),
            reservations: Map::empty(),
            held: Set::empty(),
            next_reservation_id: 1,
        }
    }

    /// Ids are given out in order from 1, every reservation is filed under
    /// its own id and is for a flight of the catalog, and every flight is
    /// filed under its own id.
    pub open spec fn well_formed(self) -> bool {
        &&& self.next_reservation_id >= 1
        &&& forall|id: u32|
            self.reservations.contains_key(id) <==> 1 <= id < self.next_reservation_id
        &&& forall|id: u32| #[trigger]
            self.reservations.contains_key(id) ==> self.reservations[id].reservation_id == id
                && self.flights.contains_key(self.reservations[id].flight_id)
        &&& forall|id: u32| #[trigger]
            self.flights.contains_key(id) ==> self.flights[id].flight_id == id
    }

    /// The reservation `id` exists and is not cancelled.
    pub open spec fn is_active(self, id: u32) -> bool {
        self.reservations.contains_key(id) && !self.reservations[id].is_cancelled
    }

    /// The held seats are the seats of the active reservations, and no two
    /// active reservations are for the same seat.
    pub open spec fn bookings_consistent(self) -> bool {
        &&& forall|id: u32| #[trigger] self.is_active(id) ==> self.held.contains(self.reservations[id].key())
        &&& forall|a: u32, b: u32|
            #[trigger] self.is_active(a) && #[trigger] self.is_active(b)
                && self.reservations[a].key() == self.reservations[b].key() ==> a == b
        &&& forall|key: SeatKey| #[trigger]
            self.held.contains(key) ==> exists|id: u32| #[trigger]
                self.is_active(id) && self.reservations[id].key() == key
    }

    /// One more reservation can be filed.
    pub open spec fn has_room(self) -> bool {
        self.next_reservation_id < u32::MAX
    }

    /// The state once `flight` is loaded; a flight loaded before under the
    /// same id gives way to it.
    pub open spec fn with_flight(self, flight: FlightView) -> SystemView {
        SystemView { flights: self.flights.insert(flight.flight_id, flight), ..self }
    }

    /// The state once `key` is marked held.
    pub open spec fn with_seat_held(self, key: SeatKey) -> SystemView {
        SystemView { held: self.held.insert(key), ..self }
    }

    /// The state once `key` is marked free.
    pub open spec fn with_seat_free(self, key: SeatKey) -> SystemView {
        SystemView { held: self.held.remove(key), ..self }
    }

    /// The instant at which the flight of reservation `id` leaves on the
    /// reservation's date.
    pub open spec fn departure_of(self, id: u32) -> Option<Instant> {
        departure_instant(
            self.reservations[id].date,
            self.flights[self.reservations[id].flight_id].departure_time,
        )
    }

    /// The answer to a reserve command whose time is read as `current` and
    /// whose flight is found to leave at `departure` (`None` where the text is
    /// no timestamp): the id and price of the new reservation, or the first
    /// check that fails, in this order: the flight exists, the time of the
    /// command is a timestamp, the date and the flight's departure time make
    /// a timestamp, the command is in time, the seat is free, the seat
    /// identifier names a seat of a class.
    pub open spec fn reserve_decision(
        self,
        current: Option<Instant>,
        departure: Option<Instant>,
        date: Seq<char>,
        flight_id: u32,
        seat_id: Seq<char>,
    ) -> Result<(u32, u32), ReserveError> {
        if !self.flights.contains_key(flight_id) {
            Err(ReserveError::FlightNotFound)
        } else if current is None {
            Err(ReserveError::InvalidDatetime)
        } else if departure is None {
            Err(ReserveError::InvalidFlightDatetime)
        } else if too_late(current->0, departure->0) {
            Err(ReserveError::TooLate)
        } else if self.held.contains((date, flight_id, seat_id)) {
            Err(ReserveError::AlreadyReserved)
        } else {
            match classify(self.flights[flight_id].seat_classes, seat_id) {
                Some((_, price)) => Ok((self.next_reservation_id, price)),
                None => Err(ReserveError::InvalidSeatId),
            }
        }
    }

    /// The state after a reserve command that was answered with `decision`:
    /// where it succeeded, the new reservation is filed, its seat is held and
    /// the next id is one more; where it failed, nothing has changed.
    pub open spec fn reserve_applied(
        self,
        decision: Result<(u32, u32), ReserveError>,
        user_id: Seq<char>,
        date: Seq<char>,
        flight_id: u32,
        seat_id: Seq<char>,
    ) -> SystemView {
        match decision {
            Ok((id, price)) => SystemView {
                flights: self.flights,
                reservations: self.reservations.insert(
                    id,
                    ReservationView {
                        reservation_id: id,
                        user_id,
                        date,
                        flight_id,
                        seat_id,
                        price,
                        is_cancelled: false,
                    },
                ),
                held: self.held.insert((date, flight_id, seat_id)),
                next_reservation_id: (id + 1) as u32,
            },
            Err(_) => self,
        }
    }

    /// The answer to a reserve command made at the time written `now`.
    pub open spec fn reserve_result(
        self,
        now: Seq<char>,
        date: Seq<char>,
        flight_id: u32,
        seat_id: Seq<char>,
    ) -> Result<(u32, u32), ReserveError> {
        self.reserve_decision(
            timestamp_instant(now),
            departure_instant(date, self.flights[flight_id].departure_time),
            date,
            flight_id,
            seat_id,
        )
    }

    /// The state after a reserve command made at the time written `now`.
    pub open spec fn reserve(
        self,
        now: Seq<char>,
        user_id: Seq<char>,
        date: Seq<char>,
        flight_id: u32,
        seat_id: Seq<char>,
    ) -> SystemView {
        self.reserve_applied(
            self.reserve_result(now, date, flight_id, seat_id),
            user_id,
            date,
            flight_id,
            seat_id,
        )
    }

    /// The answer to a cancel command whose time is read as `current` and
    /// whose reservation is found to leave at `departure` (`None` where the
    /// text is no timestamp): nothing, or the first check that fails, in this
    /// order: the reservation exists and is not cancelled, it belongs to the
    /// user, the time of the command is a timestamp, the reservation's date
    /// and its flight's departure time make a timestamp, the command is in
    /// time.
    pub open spec fn cancel_decision(
        self,
        current: Option<Instant>,
        departure: Option<Instant>,
        user_id: Seq<char>,
        id: u32,
    ) -> Result<(), CancelError> {
        if !self.is_active(id) {
            Err(CancelError::ReservationNotFound)
        } else if self.reservations[id].user_id != user_id {
            Err(CancelError::Unauthorized)
        } else if current is None {
            Err(CancelError::InvalidDatetime)
        } else if departure is None {
            Err(CancelError::InvalidFlightDatetime)
        } else if too_late(current->0, departure->0) {
            Err(CancelError::TooLate)
        } else {
            Ok(())
        }
    }

    /// The state after a cancel command that was answered with `decision`:
    /// where it succeeded, the reservation is marked cancelled and its seat
    /// is free; where it failed, nothing has changed.
    pub open spec fn cancel_applied(self, decision: Result<(), CancelError>, id: u32) -> SystemView {
        match decision {
            Ok(_) => SystemView {
                flights: self.flights,
                reservations: self.reservations.insert(id, self.reservations[id].cancelled()),
                held: self.held.remove(self.reservations[id].key()),
                next_reservation_id: self.next_reservation_id,
            },
            Err(_) => self,
        }
    }

    /// The answer to a cancel command made at the time written `now`.
    pub open spec fn cancel_result(self, now: Seq<char>, user_id: Seq<char>, id: u32) -> Result<
        (),
        CancelError,
    > {
        self.cancel_decision(timestamp_instant(now), self.departure_of(id), user_id, id)
    }

    /// The state after a cancel command made at the time written `now`.
    pub open spec fn cancel(self, now: Seq<char>, user_id: Seq<char>, id: u32) -> SystemView {
        self.cancel_applied(self.cancel_result(now, user_id, id), id)
    }
}

} // verus!
