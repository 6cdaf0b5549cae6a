//! Reservations and the seats they hold.

use vstd::prelude::*;

verus! {

/// What identifies a seat on one day: the date, the flight and the seat
/// identifier as it was written in the command.
pub type SeatKey = (Seq<char>, u32, Seq<char>);

/// A seat booked by a user on one flight of one day. A reservation is
/// never deleted; cancelling it sets `is_cancelled`.
#[derive(Debug)]
pub struct Reservation {
    pub reservation_id: u32,
    pub user_id: String,
    pub date: String,
    pub flight_id: u32,
    pub seat_id: String,
    pub price: u32,
    pub is_cancelled: bool,
}

/// A reservation as the contracts see it.
pub struct ReservationView {
    pub reservation_id: u32,
    pub user_id: Seq<char>,
    pub date: Seq<char>,
    pub flight_id: u32,
    pub seat_id: Seq<char>,
    pub price: u32,
    pub is_cancelled: bool,
}

impl View for Reservation {
    type V = ReservationView;

    open spec fn view(&self) -> ReservationView {
        ReservationView {
            reservation_id: self.reservation_id,
            user_id: self.user_id@,
            date: self.date@,
            flight_id: self.flight_id,
            seat_id: self.seat_id@,
            price: self.price,
            is_cancelled: self.is_cancelled,
        }
    }
}

impl ReservationView {
    /// The seat that this reservation is for.
    pub open spec fn key(self) -> SeatKey {
        (self.date, self.flight_id, self.seat_id)
    }

    /// The reservation has not been cancelled.
    pub open spec fn is_active(self) -> bool {
        !self.is_cancelled
    }

    /// This reservation after its cancellation.
    pub open spec fn cancelled(self) -> ReservationView {
        ReservationView { is_cancelled: true, ..self }
    }
}

impl Reservation {
    /// A new reservation, not cancelled.
    pub fn new(
        reservation_id: u32,
        user_id: String,
        date: String,
        flight_id: u32,
        seat_id: String,
        price: u32,
    ) -> (reservation: Reservation)
        ensures
            reservation@ == (ReservationView {
                reservation_id,
                user_id: user_id@,
                date: date@,
                flight_id,
                seat_id: seat_id@,
                price,
                is_cancelled: false,
            }),
    {
        Reservation { reservation_id, user_id, date, flight_id, seat_id, price, is_cancelled: false }
    }
}

} // verus!
