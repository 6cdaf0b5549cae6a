//! What holds of the engine whatever the commands: the laws that follow
//! from the contracts of the commands, each proved here.

use vstd::prelude::*;
use crate::model::SystemView;
use crate::outcome::CancelError;
use crate::outcome::ReserveError;
use crate::ranking::lemma_one_order;
use crate::reservation::SeatKey;
use crate::flight_search::FlightAvailabilityView;
use crate::reservation_listing::ReservationListingView;
use crate::seat::classify;
use crate::text::lemma_lex_transitive;
use crate::text::lemma_lex_trichotomy;
use crate::time_policy::too_late;
use crate::time_policy::Instant;

verus! {

/// One reserve command: its arguments, with the time of the command and
/// the departure of its flight as they were read (`None` where the text is
/// no timestamp).
pub struct ReserveCall {
    pub current: Option<Instant>,
    pub departure: Option<Instant>,
    pub user_id: Seq<char>,
    pub date: Seq<char>,
    pub flight_id: u32,
    pub seat_id: Seq<char>,
}

impl ReserveCall {
    /// The seat that the command asks for.
    pub open spec fn key(self) -> SeatKey {
        (self.date, self.flight_id, self.seat_id)
    }
}

impl SystemView {
    /// The answer to the reserve command `call`.
    pub open spec fn answer(self, call: ReserveCall) -> Result<(u32, u32), ReserveError> {
        self.reserve_decision(
            call.current,
            call.departure,
            call.date,
            call.flight_id,
            call.seat_id,
        )
    }

    /// The state after the reserve command `call`.
    pub open spec fn after_reserve(self, call: ReserveCall) -> SystemView {
        self.reserve_applied(
            self.answer(call),
            call.user_id,
            call.date,
            call.flight_id,
            call.seat_id,
        )
    }

    /// The state after the reserve commands `calls`, made in order.
    pub open spec fn after_reserves(self, calls: Seq<ReserveCall>) -> SystemView
        decreases calls.len(),
    {
        if calls.len() == 0 {
            self
        } else {
            self.after_reserves(calls.drop_last()).after_reserve(calls.last())
        }
    }
}

/// A reserve command frees no seat: a seat held before a run of reserve
/// commands is held after it.
pub proof fn law_reserves_keep_seats_held(state: SystemView, calls: Seq<ReserveCall>, key: SeatKey)
    requires
        state.held.contains(key),
    ensures
        state.after_reserves(calls).held.contains(key),
    decreases calls.len(),
{
    if calls.len() > 0 {
        law_reserves_keep_seats_held(state, calls.drop_last(), key);
    }
}

/// Commands made one run after another are one run.
pub proof fn lemma_after_reserves_append(
    state: SystemView,
    first: Seq<ReserveCall>,
    second: Seq<ReserveCall>,
)
    ensures
        state.after_reserves(first + second) == state.after_reserves(first).after_reserves(
            second,
        ),
    decreases second.len(),
{
    if second.len() == 0 {
        assert(first + second =~= first);
    } else {
        lemma_after_reserves_append(state, first, second.drop_last());
        assert((first + second).drop_last() =~= first + second.drop_last());
        assert((first + second).last() == second.last());
    }
}

/// No double booking: in any run of reserve commands, from any state, at
/// most one of the commands for a given date, flight and seat succeeds.
pub proof fn law_no_double_booking(state: SystemView, calls: Seq<ReserveCall>, i: int, j: int)
    requires
        0 <= i < j < calls.len(),
        calls[i].key() == calls[j].key(),
    ensures
        !(state.after_reserves(calls.take(i)).answer(calls[i]) is Ok && state.after_reserves(
            calls.take(j),
        ).answer(calls[j]) is Ok),
{
    let at_i = state.after_reserves(calls.take(i));
    let at_j = state.after_reserves(calls.take(j));
    if at_i.answer(calls[i]) is Ok {
        // the seat is held once command i is done, and stays held up to command j
        let done = calls.take(i + 1);
        assert(done.drop_last() =~= calls.take(i));
        assert(done.last() == calls[i]);
        let after_i = state.after_reserves(done);
        assert(after_i.held.contains(calls[i].key()));
        let between = calls.subrange(i + 1, j);
        lemma_after_reserves_append(state, done, between);
        assert(done + between =~= calls.take(j));
        law_reserves_keep_seats_held(after_i, between, calls[i].key());
        assert(at_j.held.contains(calls[j].key()));
    }
}

/// Ids rise: a reserve command that succeeds gets the next id, and the id
/// after it is the next one then.
pub proof fn law_ids_rise(state: SystemView, call: ReserveCall)
    requires
        state.has_room(),
        state.answer(call) is Ok,
    ensures
        state.answer(call)->Ok_0.0 == state.next_reservation_id,
        state.after_reserve(call).next_reservation_id == state.next_reservation_id + 1,
{
}

/// While there is room, a run of reserve commands moves the next id up by
/// the number of commands that succeed: by no more than the length of the
/// run, and never down.
pub proof fn lemma_next_id_rises(state: SystemView, calls: Seq<ReserveCall>)
    requires
        state.next_reservation_id + calls.len() <= u32::MAX,
    ensures
        state.next_reservation_id <= state.after_reserves(calls).next_reservation_id
            <= state.next_reservation_id + calls.len(),
    decreases calls.len(),
{
    if calls.len() > 0 {
        lemma_next_id_rises(state, calls.drop_last());
    }
}

/// Ids rise along a run: of two reserve commands of a run that succeed,
/// the later one gets the larger id, as long as there is room for the whole
/// run.
pub proof fn law_ids_rise_along_a_run(state: SystemView, calls: Seq<ReserveCall>, i: int, j: int)
    requires
        state.next_reservation_id + calls.len() <= u32::MAX,
        0 <= i < j < calls.len(),
        state.after_reserves(calls.take(i)).answer(calls[i]) is Ok,
        state.after_reserves(calls.take(j)).answer(calls[j]) is Ok,
    ensures
        state.after_reserves(calls.take(i)).answer(calls[i])->Ok_0.0 < state.after_reserves(
            calls.take(j),
        ).answer(calls[j])->Ok_0.0,
{
    let done = calls.take(i + 1);
    assert(done.drop_last() =~= calls.take(i));
    assert(done.last() == calls[i]);
    let between = calls.subrange(i + 1, j);
    lemma_after_reserves_append(state, done, between);
    assert(done + between =~= calls.take(j));
    lemma_next_id_rises(state, calls.take(i));
    lemma_next_id_rises(state.after_reserves(done), between);
}

/// A reserve command keeps a well-formed state well formed, as long as
/// there is room for one more reservation.
pub proof fn law_reserve_keeps_well_formed(state: SystemView, call: ReserveCall)
    requires
        state.well_formed(),
        state.has_room(),
    ensures
        state.after_reserve(call).well_formed(),
{
    let after = state.after_reserve(call);
    if state.answer(call) is Ok {
        let id = state.next_reservation_id;
        assert forall|other: u32| #[trigger] after.reservations.contains_key(other) implies after.reservations[other].reservation_id
            == other && after.flights.contains_key(after.reservations[other].flight_id) by {
            if other != id {
                assert(state.reservations.contains_key(other));
            }
        }
    }
}

/// A cancel command keeps a well-formed state well formed.
pub proof fn law_cancel_keeps_well_formed(
    state: SystemView,
    current: Option<Instant>,
    departure: Option<Instant>,
    user_id: Seq<char>,
    id: u32,
)
    requires
        state.well_formed(),
    ensures
        state.cancel_applied(
            state.cancel_decision(current, departure, user_id, id),
            id,
        ).well_formed(),
{
    let decision = state.cancel_decision(current, departure, user_id, id);
    let after = state.cancel_applied(decision, id);
    if decision is Ok {
        assert forall|other: u32| #[trigger] after.reservations.contains_key(other) implies after.reservations[other].reservation_id
            == other && after.flights.contains_key(after.reservations[other].flight_id) by {
            assert(state.reservations.contains_key(other));
        }
        assert forall|other: u32|
            after.reservations.contains_key(other) <==> 1 <= other
                < after.next_reservation_id by {
            assert(state.reservations.contains_key(other) <==> 1 <= other
                < state.next_reservation_id);
        }
    }
}

/// One holder for each seat: where the held seats are the seats of the
/// active reservations and no two active reservations share a seat, the
/// same is true after a reserve command.
pub proof fn law_reserve_keeps_one_holder(state: SystemView, call: ReserveCall)
    requires
        state.well_formed(),
        state.has_room(),
        state.bookings_consistent(),
    ensures
        state.after_reserve(call).bookings_consistent(),
{
    let after = state.after_reserve(call);
    if state.answer(call) is Ok {
        let id = state.next_reservation_id;
        let key = call.key();
        assert(!state.reservations.contains_key(id));
        assert(after.is_active(id) && after.reservations[id].key() == key);
        assert forall|other: u32| other != id implies after.is_active(other) == state.is_active(
            other,
        ) && (state.is_active(other) ==> after.reservations[other] == state.reservations[other]) by {}
        assert forall|other: u32| #[trigger] after.is_active(other) implies after.held.contains(
            after.reservations[other].key(),
        ) by {
            if other != id {
                assert(state.is_active(other));
            }
        }
        assert forall|a: u32, b: u32|
            #[trigger] after.is_active(a) && #[trigger] after.is_active(b)
                && after.reservations[a].key() == after.reservations[b].key() implies a == b by {
            if a != id && b != id {
                assert(state.is_active(a) && state.is_active(b));
            } else if a != id {
                assert(state.is_active(a));
                assert(state.held.contains(state.reservations[a].key()));
            } else if b != id {
                assert(state.is_active(b));
                assert(state.held.contains(state.reservations[b].key()));
            }
        }
        assert forall|k: SeatKey| #[trigger] after.held.contains(k) implies exists|other: u32| #[trigger]
            after.is_active(other) && after.reservations[other].key() == k by {
            if k == key {
                assert(after.is_active(id) && after.reservations[id].key() == k);
            } else {
                assert(state.held.contains(k));
                let other = choose|other: u32| #[trigger]
                    state.is_active(other) && state.reservations[other].key() == k;
                assert(after.is_active(other) && after.reservations[other].key() == k);
            }
        }
    }
}

/// One holder for each seat, kept by a cancel command.
pub proof fn law_cancel_keeps_one_holder(
    state: SystemView,
    current: Option<Instant>,
    departure: Option<Instant>,
    user_id: Seq<char>,
    id: u32,
)
    requires
        state.well_formed(),
        state.bookings_consistent(),
    ensures
        state.cancel_applied(
            state.cancel_decision(current, departure, user_id, id),
            id,
        ).bookings_consistent(),
{
    let decision = state.cancel_decision(current, departure, user_id, id);
    let after = state.cancel_applied(decision, id);
    if decision is Ok {
        let key = state.reservations[id].key();
        assert(state.is_active(id));
        assert(!after.is_active(id));
        assert forall|other: u32| other != id implies after.is_active(other) == state.is_active(
            other,
        ) && (state.is_active(other) ==> after.reservations[other] == state.reservations[other]) by {}
        assert forall|other: u32| #[trigger] after.is_active(other) implies after.held.contains(
            after.reservations[other].key(),
        ) by {
            assert(state.is_active(other));
            assert(state.held.contains(state.reservations[other].key()));
        }
        assert forall|a: u32, b: u32|
            #[trigger] after.is_active(a) && #[trigger] after.is_active(b)
                && after.reservations[a].key() == after.reservations[b].key() implies a == b by {
            assert(state.is_active(a) && state.is_active(b));
        }
        assert forall|k: SeatKey| #[trigger] after.held.contains(k) implies exists|other: u32| #[trigger]
            after.is_active(other) && after.reservations[other].key() == k by {
            assert(state.held.contains(k));
            let other = choose|other: u32| #[trigger]
                state.is_active(other) && state.reservations[other].key() == k;
            assert(other != id);
            assert(after.is_active(other) && after.reservations[other].key() == k);
        }
    }
}

/// Loading a flight changes neither the reservations nor the held seats,
/// so it keeps one holder for each seat.
pub proof fn law_loading_keeps_one_holder(state: SystemView, flight: crate::flight::FlightView)
    requires
        state.bookings_consistent(),
    ensures
        state.with_flight(flight).bookings_consistent(),
{
    let after = state.with_flight(flight);
    assert forall|id: u32| after.is_active(id) == state.is_active(id) by {}
    assert forall|k: SeatKey| #[trigger] after.held.contains(k) implies exists|other: u32| #[trigger]
        after.is_active(other) && after.reservations[other].key() == k by {
        let other = choose|other: u32| #[trigger]
            state.is_active(other) && state.reservations[other].key() == k;
        assert(after.is_active(other));
    }
}

/// Cancel reversibility: after a reservation is made and then cancelled,
/// the seat is free again, and a reserve command of any user for the same
/// date, flight and seat, made in time, succeeds at the same price.
pub proof fn law_cancel_frees_seat(
    state: SystemView,
    call: ReserveCall,
    cancel_current: Option<Instant>,
    cancel_departure: Option<Instant>,
    again: ReserveCall,
)
    requires
        state.answer(call) is Ok,
        state.after_reserve(call).cancel_decision(
            cancel_current,
            cancel_departure,
            call.user_id,
            state.answer(call)->Ok_0.0,
        ) is Ok,
        again.key() == call.key(),
        again.current is Some,
        again.departure is Some,
        !too_late(again.current->0, again.departure->0),
    ensures
        ({
            let id = state.answer(call)->Ok_0.0;
            let price = state.answer(call)->Ok_0.1;
            let reserved = state.after_reserve(call);
            let cancelled = reserved.cancel_applied(Ok(()), id);
            &&& reserved.held.contains(call.key())
            &&& !cancelled.held.contains(call.key())
            &&& cancelled.answer(again) == Ok::<(u32, u32), ReserveError>(
                (cancelled.next_reservation_id, price),
            )
        }),
{
}

/// The deadline does not reopen: once a time is too late for a departure,
/// every later time is too late for it.
pub proof fn law_deadline_monotone(earlier: Instant, later: Instant, departure: Instant)
    requires
        later.at_or_after(earlier),
        too_late(earlier, departure),
    ensures
        too_late(later, departure),
{
}

/// The deadline is two hours: between instants on whole seconds, a time is
/// too late for a departure from exactly 7200 seconds before it.
pub proof fn law_deadline_is_two_hours(now: Instant, departure: Instant)
    requires
        now.nanos == 0,
        departure.nanos == 0,
    ensures
        too_late(now, departure) <==> now.secs >= departure.secs - 7200,
{
}

/// Deadline for reserving: for a flight of the catalog, a reserve command
/// made two hours before departure or later fails with `TooLate`, whatever
/// the seat; made before that, it succeeds if and only if the seat is free
/// and is a seat of a class of the flight.
pub proof fn law_reserve_deadline(
    state: SystemView,
    now: Instant,
    departure: Instant,
    date: Seq<char>,
    flight_id: u32,
    seat_id: Seq<char>,
)
    requires
        state.flights.contains_key(flight_id),
    ensures
        ({
            let answer = state.reserve_decision(
                Some(now),
                Some(departure),
                date,
                flight_id,
                seat_id,
            );
            &&& too_late(now, departure) ==> answer == Err::<(u32, u32), ReserveError>(
                ReserveError::TooLate,
            )
            &&& !too_late(now, departure) ==> (answer is Ok <==> !state.held.contains(
                (date, flight_id, seat_id),
            ) && classify(state.flights[flight_id].seat_classes, seat_id) is Some)
        }),
{
}

/// Deadline for cancelling: the owner of an active reservation cancels it
/// with success before two hours before departure, and fails with `TooLate`
/// then or later.
pub proof fn law_cancel_deadline(state: SystemView, now: Instant, departure: Instant, id: u32)
    requires
        state.is_active(id),
    ensures
        ({
            let answer = state.cancel_decision(
                Some(now),
                Some(departure),
                state.reservations[id].user_id,
                id,
            );
            &&& too_late(now, departure) ==> answer == Err::<(), CancelError>(CancelError::TooLate)
            &&& !too_late(now, departure) ==> answer == Ok::<(), CancelError>(())
        }),
{
}

/// Ownership: a cancel command for an active reservation by anyone but its
/// owner fails with `Unauthorized` and changes nothing, whatever the time of
/// the command and the departure.
pub proof fn law_only_owner_cancels(
    state: SystemView,
    current: Option<Instant>,
    departure: Option<Instant>,
    user_id: Seq<char>,
    id: u32,
)
    requires
        state.is_active(id),
        state.reservations[id].user_id != user_id,
    ensures
        state.cancel_decision(current, departure, user_id, id) == Err::<(), CancelError>(
            CancelError::Unauthorized,
        ),
        state.cancel_applied(state.cancel_decision(current, departure, user_id, id), id)
            == state,
{
}

/// A reservation is cancelled once: after a cancel command has succeeded,
/// every cancel command for the same reservation fails with
/// `ReservationNotFound`, whoever makes it and whenever.
pub proof fn law_cancel_once(
    state: SystemView,
    current: Option<Instant>,
    departure: Option<Instant>,
    user_id: Seq<char>,
    id: u32,
    later_current: Option<Instant>,
    later_departure: Option<Instant>,
    later_user: Seq<char>,
)
    requires
        state.cancel_decision(current, departure, user_id, id) is Ok,
    ensures
        state.cancel_applied(
            state.cancel_decision(current, departure, user_id, id),
            id,
        ).cancel_decision(later_current, later_departure, later_user, id) == Err::<
            (),
            CancelError,
        >(CancelError::ReservationNotFound),
{
}

/// A reservation that does not exist cannot be cancelled.
pub proof fn law_cancel_unknown(
    state: SystemView,
    current: Option<Instant>,
    departure: Option<Instant>,
    user_id: Seq<char>,
    id: u32,
)
    requires
        !state.reservations.contains_key(id),
    ensures
        state.cancel_decision(current, departure, user_id, id) == Err::<(), CancelError>(
            CancelError::ReservationNotFound,
        ),
{
}

/// One flight listing: the flight listing of a route for a date is decided
/// by the catalog and the held seats alone. Whatever the order in which the
/// flights were loaded, two listings of the same state are the same.
pub proof fn law_one_flight_listing(
    state: SystemView,
    date: Seq<char>,
    departure_airport: u32,
    arrival_airport: u32,
    a: Seq<FlightAvailabilityView>,
    b: Seq<FlightAvailabilityView>,
)
    requires
        state.is_flight_listing(date, departure_airport, arrival_airport, a),
        state.is_flight_listing(date, departure_airport, arrival_airport, b),
    ensures
        a == b,
{
    let a_ids = a.map_values(|e: FlightAvailabilityView| e.flight_id);
    let b_ids = b.map_values(|e: FlightAvailabilityView| e.flight_id);
    let before = |x: u32, y: u32| state.flight_listed_before(x, y);
    assert forall|x: u32, y: u32, z: u32| #[trigger]
        before(x, y) && #[trigger] before(y, z) implies before(x, z) by {
        let tx = state.flights[x].departure_time;
        let ty = state.flights[y].departure_time;
        let tz = state.flights[z].departure_time;
        lemma_lex_trichotomy(tx, ty);
        lemma_lex_trichotomy(ty, tz);
        if crate::text::lex_less(tx, ty) && crate::text::lex_less(ty, tz) {
            lemma_lex_transitive(tx, ty, tz, 0);
        }
    }
    assert forall|x: u32| !#[trigger] before(x, x) by {
        lemma_lex_trichotomy(state.flights[x].departure_time, state.flights[x].departure_time);
    }
    assert forall|i: int, j: int| 0 <= i < j < a_ids.len() implies before(
        #[trigger] a_ids[i],
        #[trigger] a_ids[j],
    ) by {
        assert(state.flight_listed_before(a[i].flight_id, a[j].flight_id));
    }
    assert forall|i: int, j: int| 0 <= i < j < b_ids.len() implies before(
        #[trigger] b_ids[i],
        #[trigger] b_ids[j],
    ) by {
        assert(state.flight_listed_before(b[i].flight_id, b[j].flight_id));
    }
    assert forall|x: u32| a_ids.contains(x) <==> b_ids.contains(x) by {
        if a_ids.contains(x) {
            let i = choose|i: int| 0 <= i < a_ids.len() && a_ids[i] == x;
            assert(a[i].flight_id == x);
            assert(state.flights[x].serves(departure_airport, arrival_airport));
            let j = choose|j: int| 0 <= j < b.len() && (#[trigger] b[j]).flight_id == x;
            assert(b_ids[j] == x);
        }
        if b_ids.contains(x) {
            let i = choose|i: int| 0 <= i < b_ids.len() && b_ids[i] == x;
            assert(b[i].flight_id == x);
            assert(state.flights[x].serves(departure_airport, arrival_airport));
            let j = choose|j: int| 0 <= j < a.len() && (#[trigger] a[j]).flight_id == x;
            assert(a_ids[j] == x);
        }
    }
    lemma_one_order(a_ids, b_ids, before);
    assert(a_ids.len() == a.len() && b_ids.len() == b.len());
    assert forall|i: int| 0 <= i < a.len() implies a[i] == b[i] by {
        assert(a_ids[i] == a[i].flight_id && b_ids[i] == b[i].flight_id);
        assert(a[i] == state.flight_availability(date, a[i].flight_id));
        assert(b[i] == state.flight_availability(date, b[i].flight_id));
    }
    assert(a =~= b);
}

/// One reservation listing: the reservation listing of a user is decided
/// by the catalog and the ledger alone; two listings of the same state are
/// the same.
pub proof fn law_one_reservation_listing(
    state: SystemView,
    user_id: Seq<char>,
    a: Seq<ReservationListingView>,
    b: Seq<ReservationListingView>,
)
    requires
        state.is_reservation_listing(user_id, a),
        state.is_reservation_listing(user_id, b),
    ensures
        a == b,
{
    let a_ids = a.map_values(|e: ReservationListingView| e.reservation_id);
    let b_ids = b.map_values(|e: ReservationListingView| e.reservation_id);
    let before = |x: u32, y: u32| state.reservation_listed_before(x, y);
    assert forall|i: int, j: int| 0 <= i < j < a_ids.len() implies before(
        #[trigger] a_ids[i],
        #[trigger] a_ids[j],
    ) by {
        assert(state.reservation_listed_before(a[i].reservation_id, a[j].reservation_id));
    }
    assert forall|i: int, j: int| 0 <= i < j < b_ids.len() implies before(
        #[trigger] b_ids[i],
        #[trigger] b_ids[j],
    ) by {
        assert(state.reservation_listed_before(b[i].reservation_id, b[j].reservation_id));
    }
    assert forall|x: u32| a_ids.contains(x) <==> b_ids.contains(x) by {
        if a_ids.contains(x) {
            let i = choose|i: int| 0 <= i < a_ids.len() && a_ids[i] == x;
            assert(a[i].reservation_id == x);
            assert(state.listed_for(user_id, x));
            let j = choose|j: int| 0 <= j < b.len() && (#[trigger] b[j]).reservation_id == x;
            assert(b_ids[j] == x);
        }
        if b_ids.contains(x) {
            let i = choose|i: int| 0 <= i < b_ids.len() && b_ids[i] == x;
            assert(b[i].reservation_id == x);
            assert(state.listed_for(user_id, x));
            let j = choose|j: int| 0 <= j < a.len() && (#[trigger] a[j]).reservation_id == x;
            assert(a_ids[j] == x);
        }
    }
    lemma_one_order(a_ids, b_ids, before);
    assert(a_ids.len() == a.len() && b_ids.len() == b.len());
    assert forall|i: int| 0 <= i < a.len() implies a[i] == b[i] by {
        assert(a_ids[i] == a[i].reservation_id && b_ids[i] == b[i].reservation_id);
        assert(a[i] == state.reservation_line(a[i].reservation_id));
        assert(b[i] == state.reservation_line(b[i].reservation_id));
    }
    assert(a =~= b);
}

} // verus!
