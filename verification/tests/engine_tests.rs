use flight_reservation::outcome::CancelError;
use flight_reservation::outcome::ReserveError;
use flight_reservation::outcome::SeatSearchError;
use flight_reservation::reservation::Reservation;
use flight_reservation::seat::SeatClass;
use flight_reservation::system::ReservationSystem;
use flight_reservation::time_policy::Instant;

const DAY: &str = "2024/03/15";
const EARLY: &str = "2024/03/15-07:00:00";

fn catalog() -> ReservationSystem {
    let mut system = ReservationSystem::new();
    system.add_flight(
        1,
        100,
        200,
        "10:00:00".to_string(),
        "18:30:00".to_string(),
        vec![SeatClass { column: 20, price: 100 }],
    );
    system.add_flight(
        2,
        100,
        300,
        "23:30:00".to_string(),
        "05:00:00".to_string(),
        vec![SeatClass { column: 5, price: 900 }, SeatClass { column: 12, price: 400 }],
    );
    system
}

#[test]
fn new_system_is_empty() {
    let system = ReservationSystem::new();
    assert!(system.flight(1).is_none());
    assert!(system.reservation(1).is_none());
    assert_eq!(system.next_reservation_id(), 1);
    assert!(system.has_room());
    assert!(system.flight_ids().is_empty());
    assert!(!system.is_seat_reserved(DAY, 1, "1A"));
}

#[test]
fn add_flight_files_the_flight_under_its_id() {
    let system = catalog();
    let flight = system.flight(2).unwrap();
    assert_eq!(flight.flight_id, 2);
    assert_eq!(flight.departure_airport, 100);
    assert_eq!(flight.arrival_airport, 300);
    assert_eq!(flight.departure_time, "23:30:00");
    assert_eq!(flight.arrival_time, "05:00:00");
    assert_eq!(
        flight.seat_classes,
        vec![SeatClass { column: 5, price: 900 }, SeatClass { column: 12, price: 400 }]
    );
    assert!(system.flight(3).is_none());
    let mut ids = system.flight_ids();
    ids.sort();
    assert_eq!(ids, vec![1, 2]);
}

#[test]
fn add_flight_again_replaces_the_flight() {
    let mut system = catalog();
    system.add_flight(
        1,
        7,
        8,
        "06:00:00".to_string(),
        "07:00:00".to_string(),
        vec![SeatClass { column: 3, price: 1 }],
    );
    let flight = system.flight(1).unwrap();
    assert_eq!(flight.departure_airport, 7);
    assert_eq!(flight.departure_time, "06:00:00");
    assert_eq!(flight.seat_classes, vec![SeatClass { column: 3, price: 1 }]);
    assert_eq!(system.flight_ids().len(), 2);
}

#[test]
fn reservation_new_is_not_cancelled() {
    let reservation =
        Reservation::new(4, "dave".to_string(), DAY.to_string(), 9, "3C".to_string(), 250);
    assert_eq!(reservation.reservation_id, 4);
    assert_eq!(reservation.user_id, "dave");
    assert_eq!(reservation.date, DAY);
    assert_eq!(reservation.flight_id, 9);
    assert_eq!(reservation.seat_id, "3C");
    assert_eq!(reservation.price, 250);
    assert!(!reservation.is_cancelled);
}

#[test]
fn seat_table_marks_and_clears() {
    let mut system = ReservationSystem::new();
    assert!(!system.is_seat_reserved(DAY, 1, "1A"));
    system.reserve_seat(DAY, 1, "1A");
    assert!(system.is_seat_reserved(DAY, 1, "1A"));
    assert!(!system.is_seat_reserved(DAY, 1, "1B"));
    assert!(!system.is_seat_reserved(DAY, 2, "1A"));
    assert!(!system.is_seat_reserved("2024/03/16", 1, "1A"));
    system.reserve_seat(DAY, 1, "1A");
    assert!(system.is_seat_reserved(DAY, 1, "1A"));
    system.unreserve_seat(DAY, 1, "1A");
    assert!(!system.is_seat_reserved(DAY, 1, "1A"));
    system.unreserve_seat(DAY, 1, "1A");
    assert!(!system.is_seat_reserved(DAY, 1, "1A"));
    system.reserve_seat(DAY, 1, "1A");
    assert!(system.is_seat_reserved(DAY, 1, "1A"));
}

#[test]
fn seat_table_keys_are_the_texts_as_written() {
    let mut system = ReservationSystem::new();
    system.reserve_seat(DAY, 1, "01A");
    assert!(system.is_seat_reserved(DAY, 1, "01A"));
    assert!(!system.is_seat_reserved(DAY, 1, "1A"));
    system.unreserve_seat(DAY, 1, "1A");
    assert!(system.is_seat_reserved(DAY, 1, "01A"));
}

#[test]
fn unreserve_of_a_seat_never_held_changes_nothing() {
    let mut system = ReservationSystem::new();
    system.reserve_seat(DAY, 1, "2B");
    system.unreserve_seat(DAY, 1, "3B");
    assert!(system.is_seat_reserved(DAY, 1, "2B"));
    assert!(!system.is_seat_reserved(DAY, 1, "3B"));
}

#[test]
fn reserve_files_the_reservation() {
    let mut system = catalog();
    assert_eq!(system.process_reserve(EARLY, "alice", DAY, 2, "6C"), Ok((1, 400)));
    let reservation = system.reservation(1).unwrap();
    assert_eq!(reservation.reservation_id, 1);
    assert_eq!(reservation.user_id, "alice");
    assert_eq!(reservation.date, DAY);
    assert_eq!(reservation.flight_id, 2);
    assert_eq!(reservation.seat_id, "6C");
    assert_eq!(reservation.price, 400);
    assert!(!reservation.is_cancelled);
    assert!(system.is_seat_reserved(DAY, 2, "6C"));
    assert_eq!(system.next_reservation_id(), 2);
}

#[test]
fn reserve_gives_ids_in_order_from_one() {
    let mut system = catalog();
    assert_eq!(system.process_reserve(EARLY, "alice", DAY, 1, "1A"), Ok((1, 100)));
    assert_eq!(system.process_reserve(EARLY, "alice", DAY, 2, "1A"), Ok((2, 900)));
    assert_eq!(system.process_reserve(EARLY, "bob", DAY, 1, "1B"), Ok((3, 100)));
    assert_eq!(system.process_reserve(EARLY, "bob", "2024/03/16", 1, "1A"), Ok((4, 100)));
    assert_eq!(system.next_reservation_id(), 5);
}

#[test]
fn reserve_unknown_flight() {
    let mut system = catalog();
    assert_eq!(
        system.process_reserve(EARLY, "alice", DAY, 3, "1A"),
        Err(ReserveError::FlightNotFound)
    );
    // the flight is looked up before anything else
    assert_eq!(
        system.process_reserve("bad", "alice", "bad", 3, "bad"),
        Err(ReserveError::FlightNotFound)
    );
}

#[test]
fn reserve_invalid_datetime() {
    let mut system = catalog();
    assert_eq!(
        system.process_reserve("2024-03-15 07:00:00", "alice", DAY, 1, "1A"),
        Err(ReserveError::InvalidDatetime)
    );
    // the time of the command is read before the date
    assert_eq!(
        system.process_reserve("", "alice", "bad", 1, "bad"),
        Err(ReserveError::InvalidDatetime)
    );
}

#[test]
fn reserve_invalid_flight_datetime() {
    let mut system = catalog();
    assert_eq!(
        system.process_reserve(EARLY, "alice", "2024/02/30", 1, "1A"),
        Err(ReserveError::InvalidFlightDatetime)
    );
    assert_eq!(
        system.process_reserve(EARLY, "alice", "tomorrow", 1, "bad"),
        Err(ReserveError::InvalidFlightDatetime)
    );
    assert_eq!(
        system.process_reserve(EARLY, "alice", "2024/3/15", 1, "1A"),
        Err(ReserveError::InvalidFlightDatetime)
    );
    system.add_flight(9, 1, 2, "late".to_string(), "later".to_string(), vec![]);
    assert_eq!(
        system.process_reserve(EARLY, "alice", DAY, 9, "1A"),
        Err(ReserveError::InvalidFlightDatetime)
    );
}

#[test]
fn reserve_too_late() {
    let mut system = catalog();
    assert_eq!(
        system.process_reserve("2024/03/15-08:00:00", "alice", DAY, 1, "1A"),
        Err(ReserveError::TooLate)
    );
    assert_eq!(
        system.process_reserve("2024/03/15-12:00:00", "alice", DAY, 1, "1A"),
        Err(ReserveError::TooLate)
    );
    // the deadline comes before the seat
    assert_eq!(
        system.process_reserve("2024/03/15-09:00:00", "alice", DAY, 1, "bad"),
        Err(ReserveError::TooLate)
    );
}

#[test]
fn reserve_already_reserved() {
    let mut system = catalog();
    assert_eq!(system.process_reserve(EARLY, "alice", DAY, 1, "1A"), Ok((1, 100)));
    assert_eq!(
        system.process_reserve(EARLY, "alice", DAY, 1, "1A"),
        Err(ReserveError::AlreadyReserved)
    );
    assert_eq!(
        system.process_reserve("2024/03/14-00:00:00", "bob", DAY, 1, "1A"),
        Err(ReserveError::AlreadyReserved)
    );
}

#[test]
fn reserve_held_seat_is_checked_before_its_identifier() {
    let mut system = catalog();
    system.reserve_seat(DAY, 1, "99Z");
    assert_eq!(
        system.process_reserve(EARLY, "alice", DAY, 1, "99Z"),
        Err(ReserveError::AlreadyReserved)
    );
}

#[test]
fn reserve_invalid_seat_id() {
    let mut system = catalog();
    for seat in ["", "A", "1E", "21A", "0A", "1", "A1", "+1A", "13A "] {
        assert_eq!(
            system.process_reserve(EARLY, "alice", DAY, 1, seat),
            Err(ReserveError::InvalidSeatId)
        );
    }
    assert_eq!(
        system.process_reserve(EARLY, "alice", DAY, 2, "13A"),
        Err(ReserveError::InvalidSeatId)
    );
}

#[test]
fn reserve_failure_changes_nothing() {
    let mut system = catalog();
    assert_eq!(
        system.process_reserve(EARLY, "alice", DAY, 1, "21A"),
        Err(ReserveError::InvalidSeatId)
    );
    assert_eq!(
        system.process_reserve("2024/03/15-09:00:00", "alice", DAY, 1, "1A"),
        Err(ReserveError::TooLate)
    );
    assert_eq!(system.next_reservation_id(), 1);
    assert!(system.reservation(1).is_none());
    assert!(!system.is_seat_reserved(DAY, 1, "21A"));
    assert!(!system.is_seat_reserved(DAY, 1, "1A"));
    assert_eq!(system.process_reserve(EARLY, "alice", DAY, 1, "1A"), Ok((1, 100)));
}

#[test]
fn reserve_same_seat_on_other_day_or_flight() {
    let mut system = catalog();
    assert_eq!(system.process_reserve(EARLY, "alice", DAY, 1, "1A"), Ok((1, 100)));
    assert_eq!(system.process_reserve(EARLY, "bob", "2024/03/16", 1, "1A"), Ok((2, 100)));
    assert_eq!(system.process_reserve(EARLY, "bob", DAY, 2, "1A"), Ok((3, 900)));
}

#[test]
fn reserve_seat_written_in_two_ways_is_two_seats() {
    let mut system = catalog();
    assert_eq!(system.process_reserve(EARLY, "alice", DAY, 1, "1A"), Ok((1, 100)));
    assert_eq!(system.process_reserve(EARLY, "bob", DAY, 1, "01A"), Ok((2, 100)));
}

#[test]
fn no_double_booking_in_any_order() {
    let seats = ["1A", "1B", "1A", "2C", "1B", "1A", "2C"];
    let users = ["u1", "u2", "u3", "u4", "u5", "u6", "u7"];
    let orders: [[usize; 7]; 3] =
        [[0, 1, 2, 3, 4, 5, 6], [6, 5, 4, 3, 2, 1, 0], [2, 4, 6, 0, 1, 3, 5]];
    for order in orders {
        let mut system = catalog();
        let mut won: Vec<&str> = Vec::new();
        for k in order {
            if system.process_reserve(EARLY, users[k], DAY, 1, seats[k]).is_ok() {
                assert!(!won.contains(&seats[k]));
                won.push(seats[k]);
            }
        }
        won.sort();
        assert_eq!(won, vec!["1A", "1B", "2C"]);
    }
}

#[test]
fn cancel_then_another_user_reserves() {
    let mut system = catalog();
    assert_eq!(system.process_reserve(EARLY, "alice", DAY, 2, "3D"), Ok((1, 900)));
    assert!(system.is_seat_reserved(DAY, 2, "3D"));
    assert_eq!(system.process_cancel(EARLY, "alice", 1), Ok(()));
    assert!(!system.is_seat_reserved(DAY, 2, "3D"));
    assert!(system.reservation(1).unwrap().is_cancelled);
    assert_eq!(system.process_reserve(EARLY, "bob", DAY, 2, "3D"), Ok((2, 900)));
    assert!(system.is_seat_reserved(DAY, 2, "3D"));
    assert!(system.reservation(1).unwrap().is_cancelled);
    assert!(!system.reservation(2).unwrap().is_cancelled);
}

#[test]
fn cancel_unknown_reservation() {
    let mut system = catalog();
    assert_eq!(system.process_cancel(EARLY, "alice", 1), Err(CancelError::ReservationNotFound));
    assert_eq!(system.process_cancel(EARLY, "alice", 0), Err(CancelError::ReservationNotFound));
    assert_eq!(system.process_reserve(EARLY, "alice", DAY, 1, "1A"), Ok((1, 100)));
    assert_eq!(system.process_cancel(EARLY, "alice", 2), Err(CancelError::ReservationNotFound));
    assert_eq!(system.process_cancel("bad", "bob", 2), Err(CancelError::ReservationNotFound));
}

#[test]
fn cancel_twice_is_not_found() {
    let mut system = catalog();
    assert_eq!(system.process_reserve(EARLY, "alice", DAY, 1, "1A"), Ok((1, 100)));
    assert_eq!(system.process_cancel(EARLY, "alice", 1), Ok(()));
    assert_eq!(system.process_cancel(EARLY, "alice", 1), Err(CancelError::ReservationNotFound));
    assert_eq!(system.process_cancel(EARLY, "bob", 1), Err(CancelError::ReservationNotFound));
    assert_eq!(
        system.process_cancel("2024/03/15-11:00:00", "alice", 1),
        Err(CancelError::ReservationNotFound)
    );
}

#[test]
fn cancel_by_another_user_is_unauthorized() {
    let mut system = catalog();
    assert_eq!(system.process_reserve(EARLY, "alice", DAY, 1, "1A"), Ok((1, 100)));
    assert_eq!(system.process_cancel(EARLY, "bob", 1), Err(CancelError::Unauthorized));
    // whose reservation it is comes before the time of the command
    assert_eq!(
        system.process_cancel("2024/03/15-09:30:00", "bob", 1),
        Err(CancelError::Unauthorized)
    );
    assert_eq!(system.process_cancel("never", "bob", 1), Err(CancelError::Unauthorized));
    assert_eq!(system.process_cancel(EARLY, "", 1), Err(CancelError::Unauthorized));
    assert_eq!(system.process_cancel(EARLY, "Alice", 1), Err(CancelError::Unauthorized));
    assert!(system.is_seat_reserved(DAY, 1, "1A"));
    assert!(!system.reservation(1).unwrap().is_cancelled);
    assert_eq!(system.process_cancel(EARLY, "alice", 1), Ok(()));
}

#[test]
fn cancel_invalid_datetime() {
    let mut system = catalog();
    assert_eq!(system.process_reserve(EARLY, "alice", DAY, 1, "1A"), Ok((1, 100)));
    assert_eq!(system.process_cancel("07:00:00", "alice", 1), Err(CancelError::InvalidDatetime));
    assert!(system.is_seat_reserved(DAY, 1, "1A"));
}

#[test]
fn cancel_invalid_flight_datetime() {
    let mut system = catalog();
    assert_eq!(system.process_reserve(EARLY, "alice", DAY, 1, "1A"), Ok((1, 100)));
    system.add_flight(
        1,
        100,
        200,
        "noon".to_string(),
        "18:30:00".to_string(),
        vec![SeatClass { column: 20, price: 100 }],
    );
    assert_eq!(system.process_cancel(EARLY, "alice", 1), Err(CancelError::InvalidFlightDatetime));
    // the time of the command is read first
    assert_eq!(system.process_cancel("bad", "alice", 1), Err(CancelError::InvalidDatetime));
    assert!(system.is_seat_reserved(DAY, 1, "1A"));
}

#[test]
fn cancel_too_late() {
    let mut system = catalog();
    assert_eq!(system.process_reserve(EARLY, "alice", DAY, 1, "1A"), Ok((1, 100)));
    assert_eq!(
        system.process_cancel("2024/03/15-08:00:00", "alice", 1),
        Err(CancelError::TooLate)
    );
    assert_eq!(
        system.process_cancel("2025/01/01-00:00:00", "alice", 1),
        Err(CancelError::TooLate)
    );
    assert!(system.is_seat_reserved(DAY, 1, "1A"));
    assert!(!system.reservation(1).unwrap().is_cancelled);
    assert_eq!(system.process_cancel("2024/03/15-07:59:59", "alice", 1), Ok(()));
}

#[test]
fn deadline_for_reserving_is_two_hours_before_departure() {
    let mut system = catalog();
    assert_eq!(
        system.process_reserve("2024/03/15-07:59:59", "alice", DAY, 1, "1A"),
        Ok((1, 100))
    );
    assert_eq!(
        system.process_reserve("2024/03/15-08:00:00", "alice", DAY, 1, "1B"),
        Err(ReserveError::TooLate)
    );
    assert_eq!(
        system.process_reserve("2024/03/15-08:00:01", "alice", DAY, 1, "1B"),
        Err(ReserveError::TooLate)
    );
    assert_eq!(
        system.process_reserve("2024/03/15-10:00:00", "alice", DAY, 1, "1B"),
        Err(ReserveError::TooLate)
    );
    assert_eq!(
        system.process_reserve("2024/03/16-00:00:00", "alice", DAY, 1, "1B"),
        Err(ReserveError::TooLate)
    );
    assert_eq!(
        system.process_reserve("2023/01/01-00:00:00", "alice", DAY, 1, "1B"),
        Ok((2, 100))
    );
    // flight 2 leaves at 23:30:00
    assert_eq!(
        system.process_reserve("2024/03/15-21:29:59", "alice", DAY, 2, "1B"),
        Ok((3, 900))
    );
    assert_eq!(
        system.process_reserve("2024/03/15-21:30:00", "alice", DAY, 2, "1C"),
        Err(ReserveError::TooLate)
    );
}

#[test]
fn deadline_crosses_midnight() {
    let mut system = ReservationSystem::new();
    system.add_flight(
        5,
        1,
        2,
        "01:00:00".to_string(),
        "03:00:00".to_string(),
        vec![SeatClass { column: 20, price: 10 }],
    );
    assert_eq!(
        system.process_reserve("2024/03/14-22:59:59", "alice", DAY, 5, "1A"),
        Ok((1, 10))
    );
    assert_eq!(
        system.process_reserve("2024/03/14-23:00:00", "alice", DAY, 5, "1B"),
        Err(ReserveError::TooLate)
    );
}

#[test]
fn reserve_at_decides_on_the_instants_given() {
    let mut system = catalog();
    let departure = Some(Instant { secs: 100_000, nanos: 0 });
    let in_time = Some(Instant { secs: 92_799, nanos: 0 });
    let late = Some(Instant { secs: 92_800, nanos: 0 });
    assert_eq!(
        system.reserve_at(in_time, departure, "alice", DAY, 3, "1A"),
        Err(ReserveError::FlightNotFound)
    );
    assert_eq!(
        system.reserve_at(None, departure, "alice", DAY, 1, "1A"),
        Err(ReserveError::InvalidDatetime)
    );
    assert_eq!(
        system.reserve_at(None, None, "alice", DAY, 1, "1A"),
        Err(ReserveError::InvalidDatetime)
    );
    assert_eq!(
        system.reserve_at(in_time, None, "alice", DAY, 1, "1A"),
        Err(ReserveError::InvalidFlightDatetime)
    );
    assert_eq!(
        system.reserve_at(late, departure, "alice", DAY, 1, "1A"),
        Err(ReserveError::TooLate)
    );
    assert_eq!(
        system.reserve_at(in_time, departure, "alice", DAY, 1, "0A"),
        Err(ReserveError::InvalidSeatId)
    );
    assert_eq!(system.reserve_at(in_time, departure, "alice", DAY, 1, "1A"), Ok((1, 100)));
    assert_eq!(
        system.reserve_at(in_time, departure, "bob", DAY, 1, "1A"),
        Err(ReserveError::AlreadyReserved)
    );
}

#[test]
fn cancel_at_decides_on_the_instants_given() {
    let mut system = catalog();
    let departure = Some(Instant { secs: 100_000, nanos: 0 });
    let in_time = Some(Instant { secs: 92_799, nanos: 0 });
    let late = Some(Instant { secs: 92_800, nanos: 0 });
    assert_eq!(system.reserve_at(in_time, departure, "alice", DAY, 1, "1A"), Ok((1, 100)));
    assert_eq!(
        system.cancel_at(in_time, departure, "alice", 2),
        Err(CancelError::ReservationNotFound)
    );
    assert_eq!(system.cancel_at(None, None, "bob", 1), Err(CancelError::Unauthorized));
    assert_eq!(system.cancel_at(None, departure, "alice", 1), Err(CancelError::InvalidDatetime));
    assert_eq!(
        system.cancel_at(in_time, None, "alice", 1),
        Err(CancelError::InvalidFlightDatetime)
    );
    assert_eq!(system.cancel_at(late, departure, "alice", 1), Err(CancelError::TooLate));
    assert_eq!(system.cancel_at(in_time, departure, "alice", 1), Ok(()));
    assert_eq!(
        system.cancel_at(in_time, departure, "alice", 1),
        Err(CancelError::ReservationNotFound)
    );
}

#[test]
fn departure_of_a_reservation() {
    let mut system = catalog();
    assert_eq!(system.process_reserve(EARLY, "alice", DAY, 1, "1A"), Ok((1, 100)));
    assert_eq!(
        system.reservation_departure(1),
        Some(Instant { secs: 1710496800, nanos: 0 })
    );
    assert_eq!(system.reservation_departure(2), None);
    let flight = system.flight(2).unwrap();
    assert_eq!(
        system.get_flight_datetime(DAY, flight),
        Some(Instant { secs: 1710545400, nanos: 0 })
    );
    assert_eq!(system.get_flight_datetime("2024/3/15/", flight), None);
}

#[test]
fn reasons_in_words() {
    assert_eq!(ReserveError::FlightNotFound.reason(), "flight not found");
    assert_eq!(ReserveError::InvalidDatetime.reason(), "invalid datetime");
    assert_eq!(ReserveError::InvalidFlightDatetime.reason(), "invalid flight datetime");
    assert_eq!(ReserveError::TooLate.reason(), "too late");
    assert_eq!(ReserveError::AlreadyReserved.reason(), "already reserved");
    assert_eq!(ReserveError::InvalidSeatId.reason(), "invalid seat_id");
    assert_eq!(CancelError::ReservationNotFound.reason(), "reservation not found");
    assert_eq!(CancelError::Unauthorized.reason(), "unauthorized operation");
    assert_eq!(CancelError::InvalidDatetime.reason(), "invalid datetime");
    assert_eq!(CancelError::InvalidFlightDatetime.reason(), "invalid flight datetime");
    assert_eq!(CancelError::TooLate.reason(), "too late");
    assert_eq!(SeatSearchError::FlightNotFound.reason(), "flight not found");
}
