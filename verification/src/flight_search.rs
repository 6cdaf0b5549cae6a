//! The flights of a route, with their free seats on a date.

use vstd::prelude::*;
use crate::flight::Flight;
use crate::model::SystemView;
use crate::ranking::Ranked;
use crate::ranking::in_order;
use crate::ranking::insert_in_order;
use crate::seat::SeatClass;
use crate::seat::SeatType;
use crate::seat::make_seat_label;
use crate::seat::seat_label;
use crate::system::ReservationSystem;
use crate::text::lemma_lex_transitive;
use crate::text::lemma_lex_trichotomy;
use crate::text::lex_less;
use crate::text::text_less;

verus! {

/// The free seats of one class of a flight on a date.
#[derive(Clone, Copy, Debug, PartialEq, Eq, Structural)]
pub struct ClassAvailability {
    /// Number of the class, counted from 1.
    pub class_index: usize,
    /// Number of seats of the class that are not held.
    pub available: u64,
    pub price: u32,
}

/// One flight of a flight listing, with the free seats of each class.
#[derive(Debug)]
pub struct FlightAvailability {
    pub flight_id: u32,
    pub departure_time: String,
    pub arrival_time: String,
    pub classes: Vec<ClassAvailability>,
}

/// An entry of a flight listing as the contracts see it.
pub struct FlightAvailabilityView {
    pub flight_id: u32,
    pub departure_time: Seq<char>,
    pub arrival_time: Seq<char>,
    pub classes: Seq<ClassAvailability>,
}

impl View for FlightAvailability {
    type V = FlightAvailabilityView;

    open spec fn view(&self) -> FlightAvailabilityView {
        FlightAvailabilityView {
            flight_id: self.flight_id,
            departure_time: self.departure_time@,
            arrival_time: self.arrival_time@,
            classes: self.classes@,
        }
    }
}

/// The first row of class `i`, counted from 0: row 1, or the row after the
/// last row of the class before.
pub open spec fn class_first_row(classes: Seq<SeatClass>, i: int) -> int {
    if i == 0 {
        1
    } else {
        classes[i - 1].column + 1
    }
}

impl SystemView {
    /// The flight with id `a` is listed before the flight with id `b`: by
    /// departure time as text, then by id.
    pub open spec fn flight_listed_before(self, a: u32, b: u32) -> bool {
        lex_less(self.flights[a].departure_time, self.flights[b].departure_time) || (
        self.flights[a].departure_time == self.flights[b].departure_time && a < b)
    }

    /// 1 where the seat in `row` of type `seat_type` is free, else 0.
    pub open spec fn free_seat(
        self,
        date: Seq<char>,
        flight_id: u32,
        row: nat,
        seat_type: SeatType,
    ) -> nat {
        if self.held.contains((date, flight_id, seat_label(row, seat_type))) {
            0
        } else {
            1
        }
    }

    /// Number of the four seats of `row` that are free.
    pub open spec fn free_seats_in_row(self, date: Seq<char>, flight_id: u32, row: nat) -> nat {
        self.free_seat(date, flight_id, row, SeatType::A) + self.free_seat(
            date,
            flight_id,
            row,
            SeatType::B,
        ) + self.free_seat(date, flight_id, row, SeatType::C) + self.free_seat(
            date,
            flight_id,
            row,
            SeatType::D,
        )
    }

    /// Number of free seats in the rows from `first` to `last`, both
    /// included; 0 where `last` is before `first`.
    pub open spec fn free_seats(
        self,
        date: Seq<char>,
        flight_id: u32,
        first: int,
        last: int,
    ) -> nat
        decreases last - first + 1,
    {
        if last < first || first < 0 {
            0
        } else {
            self.free_seats(date, flight_id, first, last - 1) + self.free_seats_in_row(
                date,
                flight_id,
                last as nat,
            )
        }
    }

    /// The free seats of class `i`, counted from 0, of a flight on a date.
    pub open spec fn class_availability(self, date: Seq<char>, flight_id: u32, i: int) -> ClassAvailability {
        let classes = self.flights[flight_id].seat_classes;
        ClassAvailability {
            class_index: (i + 1) as usize,
            available: self.free_seats(
                date,
                flight_id,
                class_first_row(classes, i),
                classes[i].column as int,
            ) as u64,
            price: classes[i].price,
        }
    }

    /// The entry of a flight in a flight listing for a date.
    pub open spec fn flight_availability(self, date: Seq<char>, flight_id: u32) -> FlightAvailabilityView {
        let flight = self.flights[flight_id];
        FlightAvailabilityView {
            flight_id,
            departure_time: flight.departure_time,
            arrival_time: flight.arrival_time,
            classes: Seq::new(
                flight.seat_classes.len(),
                |i: int| self.class_availability(date, flight_id, i),
            ),
        }
    }

    /// `listing` is the flight listing of a route for a date: it holds the
    /// flights of the catalog that serve the route, each once, ordered by
    /// departure time and then by id, each with its free seats on the date.
    pub open spec fn is_flight_listing(
        self,
        date: Seq<char>,
        departure_airport: u32,
        arrival_airport: u32,
        listing: Seq<FlightAvailabilityView>,
    ) -> bool {
        &&& forall|i: int|
            0 <= i < listing.len() ==> {
                &&& self.flights.contains_key((#[trigger] listing[i]).flight_id)
                &&& self.flights[listing[i].flight_id].serves(departure_airport, arrival_airport)
                &&& listing[i] == self.flight_availability(date, listing[i].flight_id)
            }
        &&& forall|id: u32|
            self.flights.contains_key(id) && (#[trigger] self.flights[id]).serves(
                departure_airport,
                arrival_airport,
            ) ==> exists|i: int| 0 <= i < listing.len() && (#[trigger] listing[i]).flight_id == id
        &&& forall|i: int, j: int|
            0 <= i < j < listing.len() ==> self.flight_listed_before(
                (#[trigger] listing[i]).flight_id,
                (#[trigger] listing[j]).flight_id,
            )
    }
}

/// The key by which flights are listed: the departure time as text, then
/// the id.
#[derive(Debug)]
pub struct FlightRank {
    pub departure_time: String,
    pub flight_id: u32,
}

impl Ranked for FlightRank {
    open spec fn precedes(&self, other: &Self) -> bool {
        lex_less(self.departure_time@, other.departure_time@) || (self.departure_time@
            == other.departure_time@ && self.flight_id < other.flight_id)
    }

    open spec fn same_rank(&self, other: &Self) -> bool {
        self.departure_time@ == other.departure_time@ && self.flight_id == other.flight_id
    }

    fn is_before(&self, other: &Self) -> (r: bool) {
        text_less(self.departure_time.as_str(), other.departure_time.as_str()) || (
        self.departure_time == other.departure_time && self.flight_id < other.flight_id)
    }

    proof fn lemma_transitive(a: &Self, b: &Self, c: &Self) {
        lemma_lex_trichotomy(a.departure_time@, b.departure_time@);
        lemma_lex_trichotomy(b.departure_time@, c.departure_time@);
        if lex_less(a.departure_time@, b.departure_time@) && lex_less(
            b.departure_time@,
            c.departure_time@,
        ) {
            lemma_lex_transitive(a.departure_time@, b.departure_time@, c.departure_time@, 0);
        }
    }

    proof fn lemma_trichotomy(a: &Self, b: &Self) {
        lemma_lex_trichotomy(a.departure_time@, b.departure_time@);
    }
}

impl ReservationSystem {
    /// Counts the free seats of the rows from `first` to `last`.
    fn count_free_seats(&self, date: &str, flight_id: u32, first: u64, last: u32) -> (count: u64)
        requires
            1 <= first <= u32::MAX + 1,
        ensures
            count == self@.free_seats(date@, flight_id, first as int, last as int),
    {
        let seat_types: [SeatType; 4] = SeatType::variants();
        if last as u64 + 1 <= first {
            return 0;
        }
        let mut count: u64 = 0;
        let mut row: u64 = first;
        while row <= last as u64
            invariant
                1 <= first <= row <= last + 1,
                seat_types@ == SeatType::all(),
                count == self@.free_seats(date@, flight_id, first as int, row - 1),
                count <= 4 * (row - first),
            decreases last + 1 - row,
        {
            let mut t: usize = 0;
            let mut in_row: u64 = 0;
            while t < 4
                invariant
                    t <= 4,
                    1 <= row <= u32::MAX,
                    seat_types@ == SeatType::all(),
                    in_row <= t,
                    in_row == (if t > 0 {
                        self@.free_seat(date@, flight_id, row as nat, SeatType::A)
                    } else {
                        0
                    }) + (if t > 1 {
                        self@.free_seat(date@, flight_id, row as nat, SeatType::B)
                    } else {
                        0
                    }) + (if t > 2 {
                        self@.free_seat(date@, flight_id, row as nat, SeatType::C)
                    } else {
                        0
                    }) + (if t > 3 {
                        self@.free_seat(date@, flight_id, row as nat, SeatType::D)
                    } else {
                        0
                    }),
                decreases 4 - t,
            {
                let label: String = make_seat_label(row as u32, seat_types[t]);
                if !self.is_seat_reserved(date, flight_id, label.as_str()) {
                    in_row += 1;
                }
                t += 1;
            }
            assert(in_row == self@.free_seats_in_row(date@, flight_id, row as nat));
            count += in_row;
            row += 1;
        }
        count
    }

    /// The free seats of each class of `flight` on `date`.
    fn class_availabilities(&self, date: &str, flight_id: u32, flight: &Flight) -> (classes: Vec<
        ClassAvailability,
    >)
        requires
            self@.flights.contains_key(flight_id),
            flight@ == self@.flights[flight_id],
        ensures
            classes@ == self@.flight_availability(date@, flight_id).classes,
    {
        let count: usize = flight.seat_classes.len();
        let mut classes: Vec<ClassAvailability> = Vec::new();
        let mut i: usize = 0;
        while i < count
            invariant
                i <= count,
                count == flight@.seat_classes.len(),
                self@.flights.contains_key(flight_id),
                flight@ == self@.flights[flight_id],
                classes@.len() == i,
                forall|k: int|
                    0 <= k < i ==> #[trigger] classes@[k] == self@.class_availability(
                        date@,
                        flight_id,
                        k,
                    ),
            decreases count - i,
        {
            let first: u64 = if i == 0 {
                1
            } else {
                flight.seat_classes[i - 1].column as u64 + 1
            };
            let last: u32 = flight.seat_classes[i].column;
            let available: u64 = self.count_free_seats(date, flight_id, first, last);
            classes.push(
                ClassAvailability { class_index: i + 1, available, price: flight.seat_classes[i].price },
            );
            i += 1;
        }
        assert(classes@ =~= self@.flight_availability(date@, flight_id).classes);
        classes
    }
}

/// `rank` is the key of a flight of the catalog that serves the route.
spec fn ranks_flight(
    rank: FlightRank,
    state: SystemView,
    departure_airport: u32,
    arrival_airport: u32,
) -> bool {
    &&& state.flights.contains_key(rank.flight_id)
    &&& state.flights[rank.flight_id].serves(departure_airport, arrival_airport)
    &&& rank.departure_time@ == state.flights[rank.flight_id].departure_time
}

impl ReservationSystem {
    /// The keys, in listing order, of the flights that serve a route.
    fn rank_flights(&self, departure_airport: u32, arrival_airport: u32) -> (ranks: Vec<FlightRank>)
        ensures
            in_order(ranks@),
            forall|i: int|
                0 <= i < ranks@.len() ==> ranks_flight(
                    #[trigger] ranks@[i],
                    self@,
                    departure_airport,
                    arrival_airport,
                ),
            forall|id: u32|
                self@.flights.contains_key(id) && (#[trigger] self@.flights[id]).serves(
                    departure_airport,
                    arrival_airport,
                ) ==> exists|i: int| 0 <= i < ranks@.len() && (#[trigger] ranks@[i]).flight_id == id,
    {
        let ids: Vec<u32> = self.flight_ids();
        let count: usize = ids.len();
        let mut ranks: Vec<FlightRank> = Vec::new();
        let mut k: usize = 0;
        while k < count
            invariant
                k <= count,
                count == ids@.len(),
                ids@.no_duplicates(),
                forall|id: u32| ids@.contains(id) <==> self@.flights.contains_key(id),
                in_order(ranks@),
                forall|i: int|
                    0 <= i < ranks@.len() ==> ranks_flight(
                        #[trigger] ranks@[i],
                        self@,
                        departure_airport,
                        arrival_airport,
                    ),
                forall|i: int|
                    0 <= i < ranks@.len() ==> exists|j: int|
                        0 <= j < k && #[trigger] ids@[j] == (#[trigger] ranks@[i]).flight_id,
                forall|j: int|
                    0 <= j < k && self@.flights[#[trigger] ids@[j]].serves(
                        departure_airport,
                        arrival_airport,
                    ) ==> exists|i: int|
                        0 <= i < ranks@.len() && (#[trigger] ranks@[i]).flight_id == ids@[j],
            decreases count - k,
        {
            let id: u32 = ids[k];
            assert(ids@.contains(id));
            let flight: &Flight = match self.flight(id) {
                Some(flight) => flight,
                None => vstd::pervasive::unreached(),
            };
            if flight.departure_airport == departure_airport && flight.arrival_airport
                == arrival_airport {
                let entry = FlightRank { departure_time: flight.departure_time.clone(), flight_id: id };
                let ghost before = ranks@;
                assert forall|i: int| 0 <= i < before.len() implies !(#[trigger] before[i]).same_rank(
                    &entry,
                ) by {
                    let j = choose|j: int| 0 <= j < k && #[trigger] ids@[j] == before[i].flight_id;
                    assert(ids@[j] != ids@[k as int]);
                }
                let place: usize = insert_in_order(&mut ranks, entry);
                proof {
                    let after = ranks@;
                    assert(after[place as int] == entry);
                    assert forall|i: int| 0 <= i < after.len() implies ranks_flight(
                        #[trigger] after[i],
                        self@,
                        departure_airport,
                        arrival_airport,
                    ) && (exists|j: int|
                        0 <= j < k + 1 && #[trigger] ids@[j] == after[i].flight_id) by {
                        if i < place {
                            assert(after[i] == before[i]);
                            let j = choose|j: int|
                                0 <= j < k && #[trigger] ids@[j] == before[i].flight_id;
                            assert(ids@[j] == after[i].flight_id);
                        } else if i > place {
                            assert(after[i] == before[i - 1]);
                            let j = choose|j: int|
                                0 <= j < k && #[trigger] ids@[j] == before[i - 1].flight_id;
                            assert(ids@[j] == after[i].flight_id);
                        } else {
                            assert(ids@[k as int] == after[i].flight_id);
                        }
                    }
                    assert forall|j: int|
                        0 <= j < k + 1 && self@.flights[#[trigger] ids@[j]].serves(
                            departure_airport,
                            arrival_airport,
                        ) implies exists|i: int|
                        0 <= i < after.len() && (#[trigger] after[i]).flight_id == ids@[j] by {
                        if j == k {
                            assert(after[place as int].flight_id == ids@[j]);
                        } else {
                            let i = choose|i: int|
                                0 <= i < before.len() && (#[trigger] before[i]).flight_id == ids@[j];
                            if i < place {
                                assert(after[i] == before[i]);
                            } else {
                                assert(after[i + 1] == before[i]);
                            }
                        }
                    }
                }
            }
            k += 1;
        }
        proof {
            assert forall|id: u32|
                self@.flights.contains_key(id) && (#[trigger] self@.flights[id]).serves(
                    departure_airport,
                    arrival_airport,
                ) implies exists|i: int|
                0 <= i < ranks@.len() && (#[trigger] ranks@[i]).flight_id == id by {
                assert(ids@.contains(id));
                let j = choose|j: int| 0 <= j < ids@.len() && ids@[j] == id;
                assert(self@.flights[ids@[j]].serves(departure_airport, arrival_airport));
            }
        }
        ranks
    }

    /// The flights that go from one airport to another, ordered by
    /// departure time and then by id, each with the number of free seats of
    /// each of its classes on `date`. The first argument, the time of the
    /// command, plays no part.
    pub fn process_flight_search(
        &self,
        _current_datetime: &str,
        date: &str,
        departure_airport: u32,
        arrival_airport: u32,
    ) -> (listing: Vec<FlightAvailability>)
        ensures
            self@.is_flight_listing(
                date@,
                departure_airport,
                arrival_airport,
                listing@.map_values(|f: FlightAvailability| f@),
            ),
    {
        let ranks: Vec<FlightRank> = self.rank_flights(departure_airport, arrival_airport);
        let count: usize = ranks.len();
        let mut listing: Vec<FlightAvailability> = Vec::new();
        let mut i: usize = 0;
        while i < count
            invariant
                i <= count,
                count == ranks@.len(),
                forall|m: int|
                    0 <= m < ranks@.len() ==> ranks_flight(
                        #[trigger] ranks@[m],
                        self@,
                        departure_airport,
                        arrival_airport,
                    ),
                listing@.len() == i,
                forall|m: int|
                    0 <= m < i ==> (#[trigger] listing@[m])@ == self@.flight_availability(
                        date@,
                        ranks@[m].flight_id,
                    ),
            decreases count - i,
        {
            let id: u32 = ranks[i].flight_id;
            assert(ranks_flight(ranks@[i as int], self@, departure_airport, arrival_airport));
            let flight: &Flight = match self.flight(id) {
                Some(flight) => flight,
                None => vstd::pervasive::unreached(),
            };
            let classes: Vec<ClassAvailability> = self.class_availabilities(date, id, flight);
            listing.push(
                FlightAvailability {
                    flight_id: id,
                    departure_time: flight.departure_time.clone(),
                    arrival_time: flight.arrival_time.clone(),
                    classes,
                },
            );
            i += 1;
        }
        proof {
            let views = listing@.map_values(|f: FlightAvailability| f@);
            assert forall|m: int| 0 <= m < views.len() implies #[trigger] views[m]
                == self@.flight_availability(date@, ranks@[m].flight_id) && views[m].flight_id
                == ranks@[m].flight_id by {
                assert(views[m] == listing@[m]@);
            }
            assert forall|a: int, b: int| 0 <= a < b < views.len() implies self@.flight_listed_before(
                (#[trigger] views[a]).flight_id,
                (#[trigger] views[b]).flight_id,
            ) by {
                assert(ranks@[a].precedes(&ranks@[b]));
                assert(ranks_flight(ranks@[a], self@, departure_airport, arrival_airport));
                assert(ranks_flight(ranks@[b], self@, departure_airport, arrival_airport));
            }
            assert forall|id: u32|
                self@.flights.contains_key(id) && (#[trigger] self@.flights[id]).serves(
                    departure_airport,
                    arrival_airport,
                ) implies exists|m: int| 0 <= m < views.len() && (#[trigger] views[m]).flight_id == id by {
                let m = choose|m: int| 0 <= m < ranks@.len() && (#[trigger] ranks@[m]).flight_id == id;
                assert(views[m].flight_id == id);
            }
            assert forall|m: int| 0 <= m < views.len() implies {
                &&& self@.flights.contains_key((#[trigger] views[m]).flight_id)
                &&& self@.flights[views[m].flight_id].serves(departure_airport, arrival_airport)
                &&& views[m] == self@.flight_availability(date@, views[m].flight_id)
            } by {
                assert(ranks_flight(ranks@[m], self@, departure_airport, arrival_airport));
            }
        }
        listing
    }
}

} // verus!
