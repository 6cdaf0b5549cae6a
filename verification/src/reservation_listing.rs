//! The reservations of a user.

use vstd::prelude::*;
use crate::flight::Flight;
use crate::model::SystemView;
use crate::ranking::Ranked;
use crate::ranking::in_order;
use crate::ranking::insert_in_order;
use crate::system::ReservationSystem;
use crate::time_policy::Instant;
use crate::time_policy::departs_before;
use crate::time_policy::is_departure_before;

verus! {

/// One reservation of a reservation listing, with the route of its flight.
#[derive(Debug)]
pub struct ReservationListing {
    pub reservation_id: u32,
    pub price: u32,
    pub date: String,
    pub flight_id: u32,
    pub seat_id: String,
    pub departure_airport: u32,
    pub departure_time: String,
    pub arrival_airport: u32,
    pub arrival_time: String,
}

/// An entry of a reservation listing as the contracts see it.
pub struct ReservationListingView {
    pub reservation_id: u32,
    pub price: u32,
    pub date: Seq<char>,
    pub flight_id: u32,
    pub seat_id: Seq<char>,
    pub departure_airport: u32,
    pub departure_time: Seq<char>,
    pub arrival_airport: u32,
    pub arrival_time: Seq<char>,
}

impl View for ReservationListing {
    type V = ReservationListingView;

    open spec fn view(&self) -> ReservationListingView {
        ReservationListingView {
            reservation_id: self.reservation_id,
            price: self.price,
            date: self.date@,
            flight_id: self.flight_id,
            seat_id: self.seat_id@,
            departure_airport: self.departure_airport,
            departure_time: self.departure_time@,
            arrival_airport: self.arrival_airport,
            arrival_time: self.arrival_time@,
        }
    }
}

impl SystemView {
    /// Reservation `id` is active and belongs to `user_id`.
    pub open spec fn listed_for(self, user_id: Seq<char>, id: u32) -> bool {
        self.is_active(id) && self.reservations[id].user_id == user_id
    }

    /// The entry of reservation `id` in a reservation listing.
    pub open spec fn reservation_line(self, id: u32) -> ReservationListingView {
        let reservation = self.reservations[id];
        let flight = self.flights[reservation.flight_id];
        ReservationListingView {
            reservation_id: id,
            price: reservation.price,
            date: reservation.date,
            flight_id: reservation.flight_id,
            seat_id: reservation.seat_id,
            departure_airport: flight.departure_airport,
            departure_time: flight.departure_time,
            arrival_airport: flight.arrival_airport,
            arrival_time: flight.arrival_time,
        }
    }

    /// Reservation `a` is listed before reservation `b`: by the instant at
    /// which its flight leaves, then by id.
    pub open spec fn reservation_listed_before(self, a: u32, b: u32) -> bool {
        departs_before(self.departure_of(a), self.departure_of(b)) || (self.departure_of(a)
            == self.departure_of(b) && a < b)
    }

    /// `listing` is the reservation listing of a user: it holds the user's
    /// active reservations, each once, ordered by departure and then by id.
    pub open spec fn is_reservation_listing(
        self,
        user_id: Seq<char>,
        listing: Seq<ReservationListingView>,
    ) -> bool {
        &&& forall|i: int|
            0 <= i < listing.len() ==> {
                &&& self.listed_for(user_id, (#[trigger] listing[i]).reservation_id)
                &&& listing[i] == self.reservation_line(listing[i].reservation_id)
            }
        &&& forall|id: u32| #[trigger]
            self.listed_for(user_id, id) ==> exists|i: int|
                0 <= i < listing.len() && (#[trigger] listing[i]).reservation_id == id
        &&& forall|i: int, j: int|
            0 <= i < j < listing.len() ==> self.reservation_listed_before(
                (#[trigger] listing[i]).reservation_id,
                (#[trigger] listing[j]).reservation_id,
            )
    }
}

/// The key by which reservations are listed: the instant at which the
/// flight leaves, then the id. A departure that cannot be read comes first.
#[derive(Clone, Copy, Debug)]
pub struct DepartureRank {
    pub departure: Option<Instant>,
    pub reservation_id: u32,
}

impl Ranked for DepartureRank {
    open spec fn precedes(&self, other: &Self) -> bool {
        departs_before(self.departure, other.departure) || (self.departure == other.departure
            && self.reservation_id < other.reservation_id)
    }

    open spec fn same_rank(&self, other: &Self) -> bool {
        self.departure == other.departure && self.reservation_id == other.reservation_id
    }

    fn is_before(&self, other: &Self) -> (r: bool) {
        if is_departure_before(&self.departure, &other.departure) {
            true
        } else if is_departure_before(&other.departure, &self.departure) {
            false
        } else {
            self.reservation_id < other.reservation_id
        }
    }

    proof fn lemma_transitive(a: &Self, b: &Self, c: &Self) {
    }

    proof fn lemma_trichotomy(a: &Self, b: &Self) {
    }
}

/// `rank` is the key of an active reservation of the user.
spec fn ranks_reservation(rank: DepartureRank, state: SystemView, user_id: Seq<char>) -> bool {
    &&& state.listed_for(user_id, rank.reservation_id)
    &&& rank.departure == state.departure_of(rank.reservation_id)
}

impl ReservationSystem {
    /// The keys, in listing order, of the active reservations of a user.
    fn rank_reservations(&self, user_id: &str) -> (ranks: Vec<DepartureRank>)
        requires
            self.wf(),
        ensures
            in_order(ranks@),
            forall|i: int|
                0 <= i < ranks@.len() ==> ranks_reservation(#[trigger] ranks@[i], self@, user_id@),
            forall|id: u32| #[trigger]
                self@.listed_for(user_id@, id) ==> exists|i: int|
                    0 <= i < ranks@.len() && (#[trigger] ranks@[i]).reservation_id == id,
    {
        let user_text: String = String::from_str(user_id);
        let next: u32 = self.next_reservation_id();
        let mut ranks: Vec<DepartureRank> = Vec::new();
        let mut id: u32 = 1;
        while id < next
            invariant
                self.wf(),
                user_text@ == user_id@,
                next == self@.next_reservation_id,
                1 <= id <= next,
                in_order(ranks@),
                forall|i: int|
                    0 <= i < ranks@.len() ==> ranks_reservation(
                        #[trigger] ranks@[i],
                        self@,
                        user_id@,
                    ) && ranks@[i].reservation_id < id,
                forall|other: u32|
                    other < id && #[trigger] self@.listed_for(user_id@, other) ==> exists|i: int|
                        0 <= i < ranks@.len() && (#[trigger] ranks@[i]).reservation_id == other,
            decreases next - id,
        {
            assert(self@.reservations.contains_key(id));
            let reservation = match self.reservation(id) {
                Some(reservation) => reservation,
                None => vstd::pervasive::unreached(),
            };
            if reservation.user_id == user_text && !reservation.is_cancelled {
                let flight: &Flight = match self.flight(reservation.flight_id) {
                    Some(flight) => flight,
                    None => vstd::pervasive::unreached(),
                };
                let departure: Option<Instant> = self.get_flight_datetime(
                    reservation.date.as_str(),
                    flight,
                );
                let entry = DepartureRank { departure, reservation_id: id };
                let ghost before = ranks@;
                let place: usize = insert_in_order(&mut ranks, entry);
                proof {
                    let after = ranks@;
                    assert(after[place as int] == entry);
                    assert forall|i: int| 0 <= i < after.len() implies ranks_reservation(
                        #[trigger] after[i],
                        self@,
                        user_id@,
                    ) && after[i].reservation_id < id + 1 by {
                        if i < place {
                            assert(after[i] == before[i]);
                        } else if i > place {
                            assert(after[i] == before[i - 1]);
                        }
                    }
                    assert forall|other: u32|
                        other < id + 1 && #[trigger] self@.listed_for(
                            user_id@,
                            other,
                        ) implies exists|i: int|
                        0 <= i < after.len() && (#[trigger] after[i]).reservation_id == other by {
                        if other == id {
                            assert(after[place as int].reservation_id == other);
                        } else {
                            let i = choose|i: int|
                                0 <= i < before.len() && (#[trigger] before[i]).reservation_id
                                    == other;
                            if i < place {
                                assert(after[i] == before[i]);
                            } else {
                                assert(after[i + 1] == before[i]);
                            }
                        }
                    }
                }
            }
            id += 1;
        }
        ranks
    }

    /// The active reservations of a user, ordered by the instant at which
    /// the flight leaves and then by id, each with the route of its flight.
    /// A reservation whose departure can no longer be read, because its
    /// flight was loaded again with another departure time, comes first. The
    /// first argument, the time of the command, plays no part.
    pub fn process_get_reservations(&self, _current_datetime: &str, user_id: &str) -> (listing: Vec<
        ReservationListing,
    >)
        requires
            self.wf(),
        ensures
            self@.is_reservation_listing(
                user_id@,
                listing@.map_values(|r: ReservationListing| r@),
            ),
    {
        let ranks: Vec<DepartureRank> = self.rank_reservations(user_id);
        let count: usize = ranks.len();
        let mut listing: Vec<ReservationListing> = Vec::new();
        let mut i: usize = 0;
        while i < count
            invariant
                self.wf(),
                i <= count,
                count == ranks@.len(),
                forall|m: int|
                    0 <= m < ranks@.len() ==> ranks_reservation(
                        #[trigger] ranks@[m],
                        self@,
                        user_id@,
                    ),
                listing@.len() == i,
                forall|m: int|
                    0 <= m < i ==> (#[trigger] listing@[m])@ == self@.reservation_line(
                        ranks@[m].reservation_id,
                    ),
            decreases count - i,
        {
            let id: u32 = ranks[i].reservation_id;
            assert(ranks_reservation(ranks@[i as int], self@, user_id@));
            let reservation = match self.reservation(id) {
                Some(reservation) => reservation,
                None => vstd::pervasive::unreached(),
            };
            let flight: &Flight = match self.flight(reservation.flight_id) {
                Some(flight) => flight,
                None => vstd::pervasive::unreached(),
            };
            listing.push(
                ReservationListing {
                    reservation_id: id,
                    price: reservation.price,
                    date: reservation.date.clone(),
                    flight_id: reservation.flight_id,
                    seat_id: reservation.seat_id.clone(),
                    departure_airport: flight.departure_airport,
                    departure_time: flight.departure_time.clone(),
                    arrival_airport: flight.arrival_airport,
                    arrival_time: flight.arrival_time.clone(),
                },
            );
            i += 1;
        }
        proof {
            let views = listing@.map_values(|r: ReservationListing| r@);
            assert forall|m: int| 0 <= m < views.len() implies #[trigger] views[m]
                == self@.reservation_line(ranks@[m].reservation_id) && views[m].reservation_id
                == ranks@[m].reservation_id by {
                assert(views[m] == listing@[m]@);
            }
            assert forall|a: int, b: int|
                0 <= a < b < views.len() implies self@.reservation_listed_before(
                (#[trigger] views[a]).reservation_id,
                (#[trigger] views[b]).reservation_id,
            ) by {
                assert(ranks@[a].precedes(&ranks@[b]));
                assert(ranks_reservation(ranks@[a], self@, user_id@));
                assert(ranks_reservation(ranks@[b], self@, user_id@));
            }
            assert forall|id: u32| #[trigger] self@.listed_for(user_id@, id) implies exists|m: int|
                0 <= m < views.len() && (#[trigger] views[m]).reservation_id == id by {
                let m = choose|m: int|
                    0 <= m < ranks@.len() && (#[trigger] ranks@[m]).reservation_id == id;
                assert(views[m].reservation_id == id);
            }
            assert forall|m: int| 0 <= m < views.len() implies {
                &&& self@.listed_for(user_id@, (#[trigger] views[m]).reservation_id)
                &&& views[m] == self@.reservation_line(views[m].reservation_id)
            } by {
                assert(ranks_reservation(ranks@[m], self@, user_id@));
            }
        }
        listing
    }
}

} // verus!
