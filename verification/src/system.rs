//! The reservation engine: the catalog, the ledger and the seat table, and
//! the commands that read and change them.

use vstd::prelude::*;
use vstd::std_specs::iter::IteratorSpec;
use std::collections::HashMap;
use crate::flight::Flight;
use crate::flight::FlightView;
use crate::laws::law_cancel_keeps_one_holder;
use crate::laws::law_loading_keeps_one_holder;
use crate::laws::law_reserve_keeps_one_holder;
use crate::laws::ReserveCall;
use crate::model::SystemView;
use crate::outcome::CancelError;
use crate::outcome::ReserveError;
use crate::reservation::Reservation;
use crate::reservation::SeatKey;
use crate::seat::SeatClass;
use crate::time_policy::departure_instant;
use crate::time_policy::parse_timestamp;
use crate::time_policy::too_late;
use crate::time_policy::Instant;
use crate::time_policy::DEADLINE_SECONDS;
use crate::time_policy::LEAP_NANOS;

verus! {

broadcast use vstd::std_specs::hash::group_hash_axioms;

/// One line of the seat table: whether a seat is held on one date and
/// flight.
struct SeatHold {
    date: String,
    flight_id: u32,
    seat_id: String,
    held: bool,
}

impl SeatHold {
    spec fn key(self) -> SeatKey {
        (self.date@, self.flight_id, self.seat_id@)
    }
}

/// Some line of the table marks `key` as held.
spec fn marks_held(table: Seq<SeatHold>, key: SeatKey) -> bool {
    exists|i: int| 0 <= i < table.len() && (#[trigger] table[i]).held && table[i].key() == key
}

/// The engine. All of its state is here; nothing is shared.
pub struct ReservationSystem {
    flights: HashMap<u32, Flight>,
    reservations: HashMap<u32, Reservation>,
    seat_reservations: Vec<SeatHold>,
    next_reservation_id: u32,
}

impl View for ReservationSystem {
    type V = SystemView;

    closed spec fn view(&self) -> SystemView {
        SystemView {
            flights: self.flights@.map_values(|f: Flight| f@),
            reservations: self.reservations@.map_values(|r: Reservation| r@),
            held: Set::new(|key: SeatKey| marks_held(self.seat_reservations@, key)),
            next_reservation_id: self.next_reservation_id,
        }
    }
}

impl ReservationSystem {
    /// The state is well formed; every function of the engine keeps it so.
    pub open spec fn wf(&self) -> bool {
        self@.well_formed()
    }

    /// An engine with an empty catalog and no reservation.
    pub fn new() -> (system: ReservationSystem)
        ensures
            system@ == SystemView::empty(),
            system.wf(),
            system@.bookings_consistent(),
    {
        let system = ReservationSystem {
            flights: HashMap::new(),
            reservations: HashMap::new(),
            seat_reservations: Vec::new(),
            next_reservation_id: 1,
        };
        assert(system@.flights =~= Map::empty());
        assert(system@.reservations =~= Map::empty());
        assert(system@.held =~= Set::empty());
        system
    }

    /// Loads a flight into the catalog, in place of any flight loaded
    /// before under the same id.
    pub fn add_flight(
        &mut self,
        flight_id: u32,
        departure_airport: u32,
        arrival_airport: u32,
        departure_time: String,
        arrival_time: String,
        seat_classes: Vec<SeatClass>,
    )
        requires
            old(self).wf(),
        ensures
            final(self).wf(),
            final(self)@ == old(self)@.with_flight(
                FlightView {
                    flight_id,
                    departure_airport,
                    arrival_airport,
                    departure_time: departure_time@,
                    arrival_time: arrival_time@,
                    seat_classes: seat_classes@,
                },
            ),
            old(self)@.bookings_consistent() ==> final(self)@.bookings_consistent(),
    {
        let flight = Flight::new(
            flight_id,
            departure_airport,
            arrival_airport,
            departure_time,
            arrival_time,
            seat_classes,
        );
        self.flights.insert(flight_id, flight);
        proof {
            assert(self@.flights =~= old(self)@.flights.insert(flight_id, flight@));
            assert(self@ == old(self)@.with_flight(flight@));
            if old(self)@.bookings_consistent() {
                law_loading_keeps_one_holder(old(self)@, flight@);
            }
            assert forall|id: u32| #[trigger] self@.reservations.contains_key(id) implies self@.flights.contains_key(
                self@.reservations[id].flight_id,
            ) by {
                assert(old(self)@.reservations.contains_key(id));
            }
        }
    }

    /// Reads the timestamp made of a date, a hyphen and a time of day.
    pub fn parse_datetime(&self, date: &str, time: &str) -> (r: Option<Instant>)
        ensures
            r == departure_instant(date@, time@),
    {
        let mut text: String = String::from_str(date);
        text.append("-");
        text.append(time);
        proof {
            reveal_strlit("-");
            assert(text@ =~= date@ + seq!['-'] + time@);
        }
        parse_timestamp(text.as_str())
    }

    /// The deadline rule: whether `current_datetime` is at or after the
    /// instant two hours before `flight_datetime`.
    pub fn is_too_late(&self, current_datetime: Instant, flight_datetime: Instant) -> (r: bool)
        ensures
            r == too_late(current_datetime, flight_datetime),
    {
        let leap: bool = flight_datetime.nanos >= LEAP_NANOS;
        let deadline_secs: i128 = if leap {
            flight_datetime.secs as i128 + 1 - DEADLINE_SECONDS as i128
        } else {
            flight_datetime.secs as i128 - DEADLINE_SECONDS as i128
        };
        let deadline_nanos: u32 = if leap {
            flight_datetime.nanos - LEAP_NANOS
        } else {
            flight_datetime.nanos
        };
        let now_secs: i128 = current_datetime.secs as i128;
        now_secs > deadline_secs || (now_secs == deadline_secs && current_datetime.nanos
            >= deadline_nanos)
    }

    /// The instant at which `flight` leaves on `date`.
    pub fn get_flight_datetime(&self, date: &str, flight: &Flight) -> (r: Option<Instant>)
        ensures
            r == departure_instant(date@, flight@.departure_time),
    {
        self.parse_datetime(date, flight.departure_time.as_str())
    }

    /// Whether the seat is held on that date and flight.
    pub fn is_seat_reserved(&self, date: &str, flight_id: u32, seat_id: &str) -> (r: bool)
        ensures
            r == self@.held.contains((date@, flight_id, seat_id@)),
    {
        let date_text: String = String::from_str(date);
        let seat_text: String = String::from_str(seat_id);
        let count: usize = self.seat_reservations.len();
        let mut i: usize = 0;
        while i < count
            invariant
                count == self.seat_reservations@.len(),
                i <= count,
                date_text@ == date@,
                seat_text@ == seat_id@,
                forall|j: int|
                    0 <= j < i ==> !((#[trigger] self.seat_reservations@[j]).held
                        && self.seat_reservations@[j].key() == (date@, flight_id, seat_id@)),
            decreases count - i,
        {
            let entry = &self.seat_reservations[i];
            if entry.held && entry.flight_id == flight_id && entry.date == date_text
                && entry.seat_id == seat_text {
                assert(self.seat_reservations@[i as int].key() == (date@, flight_id, seat_id@));
                return true;
            }
            i += 1;
        }
        false
    }

    /// Marks the seat as held on that date and flight.
    pub fn reserve_seat(&mut self, date: &str, flight_id: u32, seat_id: &str)
        ensures
            final(self)@ == old(self)@.with_seat_held((date@, flight_id, seat_id@)),
    {
        let date_text: String = String::from_str(date);
        let seat_text: String = String::from_str(seat_id);
        let ghost key: SeatKey = (date@, flight_id, seat_id@);
        let ghost before: Seq<SeatHold> = self.seat_reservations@;
        let count: usize = self.seat_reservations.len();
        let mut i: usize = 0;
        while i < count
            invariant
                count == self.seat_reservations@.len(),
                i <= count,
                date_text@ == date@,
                seat_text@ == seat_id@,
                key == (date@, flight_id, seat_id@),
                *self == *old(self),
                before == self.seat_reservations@,
            decreases count - i,
        {
            let found: bool = {
                let entry = &self.seat_reservations[i];
                entry.flight_id == flight_id && entry.date == date_text && entry.seat_id
                    == seat_text
            };
            if found {
                self.seat_reservations[i].held = true;
                proof {
                    let after = self.seat_reservations@;
                    assert(after[i as int].held && after[i as int].key() == key);
                    assert forall|k: SeatKey| marks_held(after, k) <==> (k == key || marks_held(
                        before,
                        k,
                    )) by {
                        if marks_held(before, k) {
                            let j = choose|j: int|
                                0 <= j < before.len() && (#[trigger] before[j]).held
                                    && before[j].key() == k;
                            assert(after[j].held && after[j].key() == k);
                        }
                        if marks_held(after, k) && k != key {
                            let j = choose|j: int|
                                0 <= j < after.len() && (#[trigger] after[j]).held
                                    && after[j].key() == k;
                            assert(before[j].held && before[j].key() == k);
                        }
                    }
                    assert(self@.held =~= old(self)@.held.insert(key));
                }
                return ;
            }
            i += 1;
        }
        let entry = SeatHold { date: date_text, flight_id, seat_id: seat_text, held: true };
        self.seat_reservations.push(entry);
        proof {
            let after = self.seat_reservations@;
            assert(after[before.len() as int] == entry);
            assert forall|k: SeatKey| marks_held(after, k) <==> (k == key || marks_held(before, k)) by {
                if marks_held(before, k) {
                    let j = choose|j: int|
                        0 <= j < before.len() && (#[trigger] before[j]).held && before[j].key() == k;
                    assert(after[j] == before[j]);
                }
                if marks_held(after, k) && k != key {
                    let j = choose|j: int|
                        0 <= j < after.len() && (#[trigger] after[j]).held && after[j].key() == k;
                    assert(j < before.len());
                    assert(before[j] == after[j]);
                }
            }
            assert(self@.held =~= old(self)@.held.insert(key));
        }
    }

    /// Marks the seat as free on that date and flight.
    pub fn unreserve_seat(&mut self, date: &str, flight_id: u32, seat_id: &str)
        ensures
            final(self)@ == old(self)@.with_seat_free((date@, flight_id, seat_id@)),
    {
        let date_text: String = String::from_str(date);
        let seat_text: String = String::from_str(seat_id);
        let ghost key: SeatKey = (date@, flight_id, seat_id@);
        let ghost before: Seq<SeatHold> = self.seat_reservations@;
        let count: usize = self.seat_reservations.len();
        let mut i: usize = 0;
        while i < count
            invariant
                count == self.seat_reservations@.len(),
                count == before.len(),
                i <= count,
                date_text@ == date@,
                seat_text@ == seat_id@,
                key == (date@, flight_id, seat_id@),
                self.flights == old(self).flights,
                self.reservations == old(self).reservations,
                self.next_reservation_id == old(self).next_reservation_id,
                forall|j: int|
                    0 <= j < count ==> (#[trigger] self.seat_reservations@[j]).key() == before[j].key(),
                forall|j: int|
                    0 <= j < i ==> (#[trigger] self.seat_reservations@[j]).held == (before[j].held
                        && before[j].key() != key),
                forall|j: int| i <= j < count ==> #[trigger] self.seat_reservations@[j] == before[j],
            decreases count - i,
        {
            let matches: bool = {
                let entry = &self.seat_reservations[i];
                entry.flight_id == flight_id && entry.date == date_text && entry.seat_id
                    == seat_text
            };
            if matches {
                self.seat_reservations[i].held = false;
            }
            i += 1;
        }
        proof {
            let after = self.seat_reservations@;
            assert forall|k: SeatKey| marks_held(after, k) <==> (k != key && marks_held(before, k)) by {
                if marks_held(before, k) && k != key {
                    let j = choose|j: int|
                        0 <= j < before.len() && (#[trigger] before[j]).held && before[j].key() == k;
                    assert(after[j].held && after[j].key() == k);
                }
                if marks_held(after, k) {
                    let j = choose|j: int|
                        0 <= j < after.len() && (#[trigger] after[j]).held && after[j].key() == k;
                    assert(before[j].held && before[j].key() == k);
                }
            }
            assert(self@.held =~= old(self)@.held.remove(key));
        }
    }
}

impl ReservationSystem {
    /// Whether one more reservation can be filed: ids are 32-bit numbers.
    pub fn has_room(&self) -> (r: bool)
        ensures
            r == self@.has_room(),
    {
        self.next_reservation_id < u32::MAX
    }

    /// Reserves a seat, for a command whose time was read as `current` and
    /// whose flight was found to leave at `departure`. The checks are made in
    /// the order given at [`SystemView::reserve_decision`]; where one fails
    /// nothing changes.
    pub fn reserve_at(
        &mut self,
        current: Option<Instant>,
        departure: Option<Instant>,
        user_id: &str,
        date: &str,
        flight_id: u32,
        seat_id: &str,
    ) -> (r: Result<(u32, u32), ReserveError>)
        requires
            old(self).wf(),
            old(self)@.has_room(),
        ensures
            final(self).wf(),
            r == old(self)@.reserve_decision(current, departure, date@, flight_id, seat_id@),
            final(self)@ == old(self)@.reserve_applied(r, user_id@, date@, flight_id, seat_id@),
            old(self)@.bookings_consistent() ==> final(self)@.bookings_consistent(),
    {
        proof {
            if old(self)@.bookings_consistent() {
                law_reserve_keeps_one_holder(
                    old(self)@,
                    ReserveCall {
                        current,
                        departure,
                        user_id: user_id@,
                        date: date@,
                        flight_id,
                        seat_id: seat_id@,
                    },
                );
            }
        }
        let flight = match self.flights.get(&flight_id) {
            Some(flight) => flight,
            None => {
                return Err(ReserveError::FlightNotFound);
            },
        };
        let current_instant = match current {
            Some(instant) => instant,
            None => {
                return Err(ReserveError::InvalidDatetime);
            },
        };
        let departure_instant = match departure {
            Some(instant) => instant,
            None => {
                return Err(ReserveError::InvalidFlightDatetime);
            },
        };
        if self.is_too_late(current_instant, departure_instant) {
            return Err(ReserveError::TooLate);
        }
        if self.is_seat_reserved(date, flight_id, seat_id) {
            return Err(ReserveError::AlreadyReserved);
        }
        let price: u32 = match flight.get_seat_class(seat_id) {
            Some((_, price)) => price,
            None => {
                return Err(ReserveError::InvalidSeatId);
            },
        };
        let id: u32 = self.next_reservation_id;
        let reservation = Reservation::new(
            id,
            String::from_str(user_id),
            String::from_str(date),
            flight_id,
            String::from_str(seat_id),
            price,
        );
        self.reservations.insert(id, reservation);
        self.next_reservation_id = id + 1;
        proof {
            assert(self@.reservations =~= old(self)@.reservations.insert(id, reservation@));
        }
        self.reserve_seat(date, flight_id, seat_id);
        proof {
            let after = old(self)@.reserve_applied(
                Ok((id, price)),
                user_id@,
                date@,
                flight_id,
                seat_id@,
            );
            assert(self@.reservations == after.reservations);
            assert(self@ == after);
            assert forall|other: u32| #[trigger] self@.reservations.contains_key(other) implies self@.reservations[other].reservation_id
                == other && self@.flights.contains_key(self@.reservations[other].flight_id) by {
                if other != id {
                    assert(old(self)@.reservations.contains_key(other));
                }
            }
        }
        Ok((id, price))
    }

    /// Reserves a seat for a user on a flight of a date, at the time written
    /// `current_datetime`.
    pub fn process_reserve(
        &mut self,
        current_datetime: &str,
        user_id: &str,
        date: &str,
        flight_id: u32,
        seat_id: &str,
    ) -> (r: Result<(u32, u32), ReserveError>)
        requires
            old(self).wf(),
            old(self)@.has_room(),
        ensures
            final(self).wf(),
            r == old(self)@.reserve_result(current_datetime@, date@, flight_id, seat_id@),
            final(self)@ == old(self)@.reserve(
                current_datetime@,
                user_id@,
                date@,
                flight_id,
                seat_id@,
            ),
            old(self)@.bookings_consistent() ==> final(self)@.bookings_consistent(),
    {
        let departure: Option<Instant> = match self.flights.get(&flight_id) {
            Some(flight) => self.get_flight_datetime(date, flight),
            None => None,
        };
        let current: Option<Instant> = parse_timestamp(current_datetime);
        self.reserve_at(current, departure, user_id, date, flight_id, seat_id)
    }

    /// Cancels a reservation, for a command whose time was read as `current`
    /// and whose reservation was found to leave at `departure`. The checks
    /// are made in the order given at [`SystemView::cancel_decision`]: whose
    /// reservation it is comes before the deadline. Where one fails nothing
    /// changes.
    pub fn cancel_at(
        &mut self,
        current: Option<Instant>,
        departure: Option<Instant>,
        user_id: &str,
        reservation_id: u32,
    ) -> (r: Result<(), CancelError>)
        requires
            old(self).wf(),
        ensures
            final(self).wf(),
            r == old(self)@.cancel_decision(current, departure, user_id@, reservation_id),
            final(self)@ == old(self)@.cancel_applied(r, reservation_id),
            old(self)@.bookings_consistent() ==> final(self)@.bookings_consistent(),
    {
        proof {
            if old(self)@.bookings_consistent() {
                law_cancel_keeps_one_holder(
                    old(self)@,
                    current,
                    departure,
                    user_id@,
                    reservation_id,
                );
            }
        }
        let user_text: String = String::from_str(user_id);
        let reservation = match self.reservations.get(&reservation_id) {
            Some(reservation) => reservation,
            None => {
                return Err(CancelError::ReservationNotFound);
            },
        };
        assert(reservation@ == self@.reservations[reservation_id]);
        if reservation.is_cancelled {
            return Err(CancelError::ReservationNotFound);
        }
        if !(reservation.user_id == user_text) {
            return Err(CancelError::Unauthorized);
        }
        let current_instant = match current {
            Some(instant) => instant,
            None => {
                return Err(CancelError::InvalidDatetime);
            },
        };
        let departure_instant = match departure {
            Some(instant) => instant,
            None => {
                return Err(CancelError::InvalidFlightDatetime);
            },
        };
        if self.is_too_late(current_instant, departure_instant) {
            return Err(CancelError::TooLate);
        }
        let date: String = reservation.date.clone();
        let flight_id: u32 = reservation.flight_id;
        let seat_id: String = reservation.seat_id.clone();
        let cancelled = Reservation {
            reservation_id: reservation.reservation_id,
            user_id: reservation.user_id.clone(),
            date: reservation.date.clone(),
            flight_id,
            seat_id: reservation.seat_id.clone(),
            price: reservation.price,
            is_cancelled: true,
        };
        assert(cancelled@ == old(self)@.reservations[reservation_id].cancelled());
        self.reservations.insert(reservation_id, cancelled);
        proof {
            assert(self@.reservations =~= old(self)@.reservations.insert(
                reservation_id,
                cancelled@,
            ));
        }
        self.unreserve_seat(date.as_str(), flight_id, seat_id.as_str());
        proof {
            let after = old(self)@.cancel_applied(Ok(()), reservation_id);
            assert(self@ == after);
            assert forall|other: u32| #[trigger] self@.reservations.contains_key(other) implies self@.reservations[other].reservation_id
                == other && self@.flights.contains_key(self@.reservations[other].flight_id) by {
                assert(old(self)@.reservations.contains_key(other));
            }
            assert forall|other: u32|
                self@.reservations.contains_key(other) <==> 1 <= other
                    < self@.next_reservation_id by {
                assert(old(self)@.reservations.contains_key(other) <==> 1 <= other
                    < old(self)@.next_reservation_id);
            }
        }
        Ok(())
    }

    /// The instant at which the flight of a reservation leaves on the
    /// reservation's date; `None` where the ledger has no such reservation
    /// or the date and the departure time make no timestamp.
    pub fn reservation_departure(&self, reservation_id: u32) -> (r: Option<Instant>)
        requires
            self.wf(),
        ensures
            r == if self@.reservations.contains_key(reservation_id) {
                self@.departure_of(reservation_id)
            } else {
                None
            },
    {
        match self.reservations.get(&reservation_id) {
            Some(reservation) => {
                assert(self@.reservations.contains_key(reservation_id));
                assert(reservation@ == self@.reservations[reservation_id]);
                assert(self@.flights.contains_key(reservation.flight_id));
                match self.flights.get(&reservation.flight_id) {
                    Some(flight) => self.get_flight_datetime(reservation.date.as_str(), flight),
                    None => vstd::pervasive::unreached(),
                }
            },
            None => None,
        }
    }

    /// Cancels a reservation of a user, at the time written
    /// `current_datetime`.
    pub fn process_cancel(&mut self, current_datetime: &str, user_id: &str, reservation_id: u32) -> (r:
        Result<(), CancelError>)
        requires
            old(self).wf(),
        ensures
            final(self).wf(),
            r == old(self)@.cancel_result(current_datetime@, user_id@, reservation_id),
            final(self)@ == old(self)@.cancel(current_datetime@, user_id@, reservation_id),
            old(self)@.bookings_consistent() ==> final(self)@.bookings_consistent(),
    {
        let departure: Option<Instant> = self.reservation_departure(reservation_id);
        let current: Option<Instant> = parse_timestamp(current_datetime);
        self.cancel_at(current, departure, user_id, reservation_id)
    }
}

impl ReservationSystem {
    /// The flight filed under `flight_id`, if the catalog has one.
    pub fn flight(&self, flight_id: u32) -> (r: Option<&Flight>)
        ensures
            match r {
                Some(flight) => self@.flights.contains_key(flight_id) && flight@
                    == self@.flights[flight_id],
                None => !self@.flights.contains_key(flight_id),
            },
    {
        self.flights.get(&flight_id)
    }

    /// The reservation filed under `reservation_id`, cancelled or not, if
    /// the ledger has one.
    pub fn reservation(&self, reservation_id: u32) -> (r: Option<&Reservation>)
        ensures
            match r {
                Some(reservation) => self@.reservations.contains_key(reservation_id)
                    && reservation@ == self@.reservations[reservation_id],
                None => !self@.reservations.contains_key(reservation_id),
            },
    {
        self.reservations.get(&reservation_id)
    }

    /// The id that the next reservation gets.
    pub fn next_reservation_id(&self) -> (id: u32)
        ensures
            id == self@.next_reservation_id,
    {
        self.next_reservation_id
    }

    /// The ids of the flights of the catalog, each once, in no particular
    /// order.
    pub fn flight_ids(&self) -> (ids: Vec<u32>)
        ensures
            ids@.no_duplicates(),
            forall|id: u32| ids@.contains(id) <==> self@.flights.contains_key(id),
    {
        let mut ids: Vec<u32> = Vec::new();
        let ghost keys: Seq<u32> = vstd::std_specs::hash::spec_keys_iter(
            &self.flights,
        ).remaining().unref();
        assert(keys.to_set() == self.flights@.dom());
        for key in it: self.flights.keys()
            invariant
                it.seq().unref() == keys,
                it.seq().no_duplicates(),
                ids@.len() == it.index(),
                forall|j: int| 0 <= j < ids@.len() ==> ids@[j] == *it.seq()[j],
        {
            ids.push(*key);
        }
        proof {
            assert(ids@ =~= keys);
            assert forall|id: u32| ids@.contains(id) <==> self@.flights.contains_key(id) by {
                assert(keys.to_set().contains(id) <==> self.flights@.dom().contains(id));
            }
        }
        ids
    }
}

} // verus!
