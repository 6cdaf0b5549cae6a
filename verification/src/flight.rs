//! Flights of the catalog.

use vstd::prelude::*;
use crate::seat::classify;
use crate::seat::first_covering;
use crate::seat::parse_seat_id;
use crate::seat::read_seat_id;
use crate::seat::SeatClass;

verus! {

/// One flight of the catalog. It leaves every day at `departure_time`, a
/// time of day written `HH:MM:SS`.
#[derive(Clone, Debug)]
pub struct Flight {
    pub flight_id: u32,
    pub departure_airport: u32,
    pub arrival_airport: u32,
    pub departure_time: String,
    pub arrival_time: String,
    pub seat_classes: Vec<SeatClass>,
}

/// A flight as the contracts see it.
pub struct FlightView {
    pub flight_id: u32,
    pub departure_airport: u32,
    pub arrival_airport: u32,
    pub departure_time: Seq<char>,
    pub arrival_time: Seq<char>,
    pub seat_classes: Seq<SeatClass>,
}

impl View for Flight {
    type V = FlightView;

    open spec fn view(&self) -> FlightView {
        FlightView {
            flight_id: self.flight_id,
            departure_airport: self.departure_airport,
            arrival_airport: self.arrival_airport,
            departure_time: self.departure_time@,
            arrival_time: self.arrival_time@,
            seat_classes: self.seat_classes@,
        }
    }
}

impl FlightView {
    /// The flight goes from `departure_airport` to `arrival_airport`.
    pub open spec fn serves(self, departure_airport: u32, arrival_airport: u32) -> bool {
        self.departure_airport == departure_airport && self.arrival_airport == arrival_airport
    }
}

impl Flight {
    /// A flight made of its parts, unchanged.
    pub fn new(
        flight_id: u32,
        departure_airport: u32,
        arrival_airport: u32,
        departure_time: String,
        arrival_time: String,
        seat_classes: Vec<SeatClass>,
    ) -> (flight: Flight)
        ensures
            flight@ == (FlightView {
                flight_id,
                departure_airport,
                arrival_airport,
                departure_time: departure_time@,
                arrival_time: arrival_time@,
                seat_classes: seat_classes@,
            }),
    {
        Flight {
            flight_id,
            departure_airport,
            arrival_airport,
            departure_time,
            arrival_time,
            seat_classes,
        }
    }

    /// The class, counted from 1, and the price of the seat named by
    /// `seat_id`: the first class of the flight that ends at the seat's row
    /// or later. `None` where the identifier breaks the grammar, names row
    /// 0, or names a row after the last class.
    pub fn get_seat_class(&self, seat_id: &str) -> (r: Option<(usize, u32)>)
        ensures
            match r {
                Some((index, price)) => classify(self@.seat_classes, seat_id@) == Some(
                    (index as nat, price),
                ),
                None => classify(self@.seat_classes, seat_id@) is None,
            },
    {
        let row: u32 = match read_seat_id(seat_id) {
            Some((row, _)) => row,
            None => {
                proof {
                    if let Some((big, _)) = parse_seat_id(seat_id@) {
                        crate::seat::lemma_first_covering(self@.seat_classes, big, 0);
                    }
                }
                return None;
            },
        };
        if row == 0 {
            return None;
        }
        let count: usize = self.seat_classes.len();
        let mut i: usize = 0;
        while i < count
            invariant
                count == self.seat_classes@.len(),
                i <= count,
                row >= 1,
                parse_seat_id(seat_id@) matches Some((parsed_row, _)) && parsed_row == row,
                first_covering(self@.seat_classes, row as nat, 0) == first_covering(
                    self@.seat_classes,
                    row as nat,
                    i as int,
                ),
            decreases count - i,
        {
            if row <= self.seat_classes[i].column {
                assert(first_covering(self@.seat_classes, row as nat, i as int) == Some(i as int));
                return Some((i + 1, self.seat_classes[i].price));
            }
            i += 1;
        }
        None
    }
}

} // verus!
