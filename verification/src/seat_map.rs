//! The seat map of a flight on a date.

use vstd::prelude::*;
use crate::flight::Flight;
use crate::model::SystemView;
use crate::outcome::SeatSearchError;
use crate::seat::ROWS;
use crate::seat::SeatType;
use crate::seat::first_covering;
use crate::seat::lemma_first_covering;
use crate::seat::lemma_seat_label_parses;
use crate::seat::make_seat_label;
use crate::seat::seat_label;
use crate::system::ReservationSystem;

verus! {

/// One seat of a seat map.
#[derive(Clone, Copy, Debug, PartialEq, Eq, Structural)]
pub enum SeatCell {
    /// The seat is held.
    Held,
    /// The seat is free and belongs to the class with this number, counted
    /// from 1.
    Class(usize),
    /// The seat is free, but its row comes after the last class of the
    /// flight: it cannot be reserved.
    Unclassified,
}

impl SystemView {
    /// What the seat map of `flight_id` on `date` shows for the seat in `row`
    /// of type `seat_type`.
    pub open spec fn seat_cell(
        self,
        date: Seq<char>,
        flight_id: u32,
        row: nat,
        seat_type: SeatType,
    ) -> SeatCell {
        if self.held.contains((date, flight_id, seat_label(row, seat_type))) {
            SeatCell::Held
        } else {
            match first_covering(self.flights[flight_id].seat_classes, row, 0) {
                Some(i) => SeatCell::Class((i + 1) as usize),
                None => SeatCell::Unclassified,
            }
        }
    }

    /// The line of the seat map for one seat type: rows 1 to 20 in order.
    pub open spec fn seat_line(self, date: Seq<char>, flight_id: u32, seat_type: SeatType) -> Seq<
        SeatCell,
    > {
        Seq::new(ROWS as nat, |r: int| self.seat_cell(date, flight_id, (r + 1) as nat, seat_type))
    }
}

impl ReservationSystem {
    /// The seat map of a flight on a date: one line for each seat type, in
    /// the order A, B, C, D, each with rows 1 to 20. The first argument, the
    /// time of the command, plays no part.
    pub fn process_seat_search(&self, _current_datetime: &str, date: &str, flight_id: u32) -> (r:
        Result<Vec<Vec<SeatCell>>, SeatSearchError>)
        ensures
            match r {
                Ok(lines) => {
                    &&& self@.flights.contains_key(flight_id)
                    &&& lines@.len() == 4
                    &&& forall|t: int|
                        0 <= t < 4 ==> (#[trigger] lines@[t])@ == self@.seat_line(
                            date@,
                            flight_id,
                            SeatType::all()[t],
                        )
                },
                Err(e) => !self@.flights.contains_key(flight_id) && e
                    == SeatSearchError::FlightNotFound,
            },
    {
        let flight: &Flight = match self.flight(flight_id) {
            Some(flight) => flight,
            None => {
                return Err(SeatSearchError::FlightNotFound);
            },
        };
        let seat_types: [SeatType; 4] = SeatType::variants();
        let mut lines: Vec<Vec<SeatCell>> = Vec::new();
        let mut t: usize = 0;
        while t < 4
            invariant
                t <= 4,
                seat_types@ == SeatType::all(),
                self@.flights.contains_key(flight_id),
                flight@ == self@.flights[flight_id],
                lines@.len() == t,
                forall|k: int|
                    0 <= k < t ==> (#[trigger] lines@[k])@ == self@.seat_line(
                        date@,
                        flight_id,
                        SeatType::all()[k],
                    ),
            decreases 4 - t,
        {
            let seat_type: SeatType = seat_types[t];
            let mut line: Vec<SeatCell> = Vec::new();
            let mut row: u32 = 1;
            while row <= ROWS
                invariant
                    1 <= row <= ROWS + 1,
                    self@.flights.contains_key(flight_id),
                    flight@ == self@.flights[flight_id],
                    line@.len() == row - 1,
                    forall|r: int|
                        0 <= r < row - 1 ==> #[trigger] line@[r] == self@.seat_cell(
                            date@,
                            flight_id,
                            (r + 1) as nat,
                            seat_type,
                        ),
                decreases ROWS + 1 - row,
            {
                let label: String = make_seat_label(row, seat_type);
                let cell: SeatCell = if self.is_seat_reserved(date, flight_id, label.as_str()) {
                    SeatCell::Held
                } else {
                    match flight.get_seat_class(label.as_str()) {
                        Some((index, _)) => SeatCell::Class(index),
                        None => SeatCell::Unclassified,
                    }
                };
                proof {
                    lemma_seat_label_parses(row as nat, seat_type);
                    lemma_first_covering(flight@.seat_classes, row as nat, 0);
                    assert(label@ == seat_label(row as nat, seat_type));
                    assert(cell == self@.seat_cell(date@, flight_id, row as nat, seat_type));
                }
                line.push(cell);
                row += 1;
            }
            assert(line@ =~= self@.seat_line(date@, flight_id, seat_type));
            lines.push(line);
            t += 1;
        }
        Ok(lines)
    }
}

} // verus!
