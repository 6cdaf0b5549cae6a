use flight_reservation::ranking::insert_in_order;
use flight_reservation::ranking::Ranked;
use flight_reservation::flight_search::ClassAvailability;
use flight_reservation::reservation_listing::DepartureRank;
use flight_reservation::flight_search::FlightRank;
use flight_reservation::seat_map::SeatCell;
use flight_reservation::seat::SeatClass;
use flight_reservation::system::ReservationSystem;
use flight_reservation::time_policy::Instant;

const DAY: &str = "2024/03/15";
const EARLY: &str = "2024/03/01-00:00:00";

fn load(system: &mut ReservationSystem, id: u32, from: u32, to: u32, leaves: &str, classes: &[(u32, u32)]) {
    let mut seat_classes = Vec::new();
    for (column, price) in classes {
        seat_classes.push(SeatClass { column: *column, price: *price });
    }
    system.add_flight(id, from, to, leaves.to_string(), "23:59:59".to_string(), seat_classes);
}

fn line_text(line: &[SeatCell]) -> String {
    let mut text = String::new();
    for cell in line {
        match cell {
            SeatCell::Held => text.push('X'),
            SeatCell::Class(index) => text.push_str(&index.to_string()),
            SeatCell::Unclassified => text.push('-'),
        }
    }
    text
}

#[test]
fn seat_search_unknown_flight() {
    let system = ReservationSystem::new();
    assert!(system.process_seat_search("now", DAY, 1).is_err());
}

#[test]
fn seat_search_shows_classes_and_held_seats() {
    let mut system = ReservationSystem::new();
    load(&mut system, 1, 10, 20, "10:00:00", &[(5, 300), (10, 200), (20, 100)]);
    assert_eq!(system.process_reserve(EARLY, "alice", DAY, 1, "1A"), Ok((1, 300)));
    assert_eq!(system.process_reserve(EARLY, "alice", DAY, 1, "6B"), Ok((2, 200)));
    assert_eq!(system.process_reserve(EARLY, "alice", DAY, 1, "20D"), Ok((3, 100)));
    assert_eq!(system.process_reserve(EARLY, "alice", "2024/03/16", 1, "2C"), Ok((4, 300)));
    let lines = system.process_seat_search("ignored", DAY, 1).unwrap();
    assert_eq!(lines.len(), 4);
    assert_eq!(line_text(&lines[0]), "X1111222223333333333");
    assert_eq!(line_text(&lines[1]), "11111X22223333333333");
    assert_eq!(line_text(&lines[2]), "11111222223333333333");
    assert_eq!(line_text(&lines[3]), "1111122222333333333X");
    let next_day = system.process_seat_search("", "2024/03/16", 1).unwrap();
    assert_eq!(line_text(&next_day[2]), "1X111222223333333333");
    assert_eq!(lines[0][0], SeatCell::Held);
    assert_eq!(lines[0][1], SeatCell::Class(1));
    assert_eq!(lines[3][18], SeatCell::Class(3));
}

#[test]
fn seat_search_after_cancel_shows_the_class_again() {
    let mut system = ReservationSystem::new();
    load(&mut system, 1, 10, 20, "10:00:00", &[(20, 100)]);
    assert_eq!(system.process_reserve(EARLY, "alice", DAY, 1, "7C"), Ok((1, 100)));
    assert_eq!(system.process_seat_search("", DAY, 1).unwrap()[2][6], SeatCell::Held);
    assert_eq!(system.process_cancel(EARLY, "alice", 1), Ok(()));
    assert_eq!(system.process_seat_search("", DAY, 1).unwrap()[2][6], SeatCell::Class(1));
}

#[test]
fn seat_search_marks_rows_after_the_last_class() {
    let mut system = ReservationSystem::new();
    load(&mut system, 1, 10, 20, "10:00:00", &[(3, 50), (18, 20)]);
    let lines = system.process_seat_search("", DAY, 1).unwrap();
    for line in &lines {
        assert_eq!(line_text(line), "111222222222222222--");
    }
    load(&mut system, 2, 10, 20, "10:00:00", &[]);
    let bare = system.process_seat_search("", DAY, 2).unwrap();
    assert_eq!(line_text(&bare[0]), "--------------------");
    assert_eq!(bare[1][0], SeatCell::Unclassified);
}

#[test]
fn seat_search_ignores_seats_written_otherwise() {
    let mut system = ReservationSystem::new();
    load(&mut system, 1, 10, 20, "10:00:00", &[(20, 100)]);
    assert_eq!(system.process_reserve(EARLY, "alice", DAY, 1, "01A"), Ok((1, 100)));
    let lines = system.process_seat_search("", DAY, 1).unwrap();
    assert_eq!(lines[0][0], SeatCell::Class(1));
}

#[test]
fn flight_search_counts_free_seats_of_each_class() {
    let mut system = ReservationSystem::new();
    load(&mut system, 1, 10, 20, "10:00:00", &[(5, 300), (20, 100)]);
    let listing = system.process_flight_search("", DAY, 10, 20);
    assert_eq!(listing.len(), 1);
    assert_eq!(listing[0].flight_id, 1);
    assert_eq!(listing[0].departure_time, "10:00:00");
    assert_eq!(listing[0].arrival_time, "23:59:59");
    assert_eq!(
        listing[0].classes,
        vec![
            ClassAvailability { class_index: 1, available: 20, price: 300 },
            ClassAvailability { class_index: 2, available: 60, price: 100 },
        ]
    );
    assert_eq!(system.process_reserve(EARLY, "alice", DAY, 1, "1A"), Ok((1, 300)));
    assert_eq!(system.process_reserve(EARLY, "alice", DAY, 1, "5D"), Ok((2, 300)));
    assert_eq!(system.process_reserve(EARLY, "alice", DAY, 1, "6B"), Ok((3, 100)));
    assert_eq!(system.process_reserve(EARLY, "alice", "2024/03/16", 1, "7B"), Ok((4, 100)));
    let listing = system.process_flight_search("", DAY, 10, 20);
    assert_eq!(listing[0].classes[0].available, 18);
    assert_eq!(listing[0].classes[1].available, 59);
    assert_eq!(system.process_cancel(EARLY, "alice", 2), Ok(()));
    let listing = system.process_flight_search("", DAY, 10, 20);
    assert_eq!(listing[0].classes[0].available, 19);
    let next_day = system.process_flight_search("", "2024/03/16", 10, 20);
    assert_eq!(next_day[0].classes[0].available, 20);
    assert_eq!(next_day[0].classes[1].available, 59);
}

#[test]
fn flight_search_matches_both_airports() {
    let mut system = ReservationSystem::new();
    load(&mut system, 1, 10, 20, "10:00:00", &[(20, 100)]);
    load(&mut system, 2, 20, 10, "11:00:00", &[(20, 100)]);
    load(&mut system, 3, 10, 30, "12:00:00", &[(20, 100)]);
    assert!(system.process_flight_search("", DAY, 10, 10).is_empty());
    assert!(system.process_flight_search("", DAY, 30, 10).is_empty());
    let there = system.process_flight_search("", DAY, 10, 20);
    assert_eq!(there.len(), 1);
    assert_eq!(there[0].flight_id, 1);
    let back = system.process_flight_search("", DAY, 20, 10);
    assert_eq!(back.len(), 1);
    assert_eq!(back[0].flight_id, 2);
}

#[test]
fn flight_search_orders_by_departure_time_then_id() {
    let flights: [(u32, &str); 6] = [
        (4, "09:00:00"),
        (9, "07:30:00"),
        (2, "09:00:00"),
        (7, "23:00:00"),
        (1, "09:00:00"),
        (3, "00:00:00"),
    ];
    let orders: [[usize; 6]; 3] = [[0, 1, 2, 3, 4, 5], [5, 4, 3, 2, 1, 0], [3, 0, 5, 1, 4, 2]];
    for order in orders {
        let mut system = ReservationSystem::new();
        for k in order {
            load(&mut system, flights[k].0, 10, 20, flights[k].1, &[(20, 100)]);
        }
        load(&mut system, 50, 10, 21, "00:00:00", &[(20, 100)]);
        let listing = system.process_flight_search("", DAY, 10, 20);
        let ids: Vec<u32> = listing.iter().map(|f| f.flight_id).collect();
        assert_eq!(ids, vec![3, 9, 1, 2, 4, 7]);
        let times: Vec<&str> = listing.iter().map(|f| f.departure_time.as_str()).collect();
        assert_eq!(
            times,
            vec!["00:00:00", "07:30:00", "09:00:00", "09:00:00", "09:00:00", "23:00:00"]
        );
    }
}

#[test]
fn flight_search_class_ranges() {
    let mut system = ReservationSystem::new();
    load(&mut system, 1, 10, 20, "10:00:00", &[(2, 9), (2, 8), (1, 7), (30, 6)]);
    let listing = system.process_flight_search("", DAY, 10, 20);
    let counts: Vec<u64> = listing[0].classes.iter().map(|c| c.available).collect();
    assert_eq!(counts, vec![8, 0, 0, 116]);
    let indexes: Vec<usize> = listing[0].classes.iter().map(|c| c.class_index).collect();
    assert_eq!(indexes, vec![1, 2, 3, 4]);
    load(&mut system, 2, 10, 20, "11:00:00", &[]);
    let listing = system.process_flight_search("", DAY, 10, 20);
    assert!(listing[1].classes.is_empty());
    load(&mut system, 3, 10, 20, "12:00:00", &[(0, 1), (2500, 2), (3, 3)]);
    let listing = system.process_flight_search("", DAY, 10, 20);
    assert_eq!(listing[2].classes[0].available, 0);
    assert_eq!(listing[2].classes[1].available, 10000);
    assert_eq!(listing[2].classes[2].available, 0);
}

#[test]
fn get_reservations_of_a_user() {
    let mut system = ReservationSystem::new();
    load(&mut system, 1, 10, 20, "10:00:00", &[(20, 100)]);
    load(&mut system, 2, 30, 40, "06:00:00", &[(20, 70)]);
    assert!(system.process_get_reservations("", "alice").is_empty());
    assert_eq!(system.process_reserve(EARLY, "alice", DAY, 1, "1A"), Ok((1, 100)));
    assert_eq!(system.process_reserve(EARLY, "bob", DAY, 1, "1B"), Ok((2, 100)));
    assert_eq!(system.process_reserve(EARLY, "alice", DAY, 2, "9C"), Ok((3, 70)));
    let listing = system.process_get_reservations("ignored", "alice");
    assert_eq!(listing.len(), 2);
    assert_eq!(listing[0].reservation_id, 3);
    assert_eq!(listing[0].price, 70);
    assert_eq!(listing[0].date, DAY);
    assert_eq!(listing[0].flight_id, 2);
    assert_eq!(listing[0].seat_id, "9C");
    assert_eq!(listing[0].departure_airport, 30);
    assert_eq!(listing[0].departure_time, "06:00:00");
    assert_eq!(listing[0].arrival_airport, 40);
    assert_eq!(listing[0].arrival_time, "23:59:59");
    assert_eq!(listing[1].reservation_id, 1);
    assert_eq!(listing[1].flight_id, 1);
    let bobs = system.process_get_reservations("", "bob");
    assert_eq!(bobs.len(), 1);
    assert_eq!(bobs[0].reservation_id, 2);
    assert!(system.process_get_reservations("", "carol").is_empty());
}

#[test]
fn get_reservations_leaves_out_cancelled_ones() {
    let mut system = ReservationSystem::new();
    load(&mut system, 1, 10, 20, "10:00:00", &[(20, 100)]);
    assert_eq!(system.process_reserve(EARLY, "alice", DAY, 1, "1A"), Ok((1, 100)));
    assert_eq!(system.process_reserve(EARLY, "alice", DAY, 1, "1B"), Ok((2, 100)));
    assert_eq!(system.process_cancel(EARLY, "alice", 1), Ok(()));
    let listing = system.process_get_reservations("", "alice");
    assert_eq!(listing.len(), 1);
    assert_eq!(listing[0].reservation_id, 2);
}

#[test]
fn get_reservations_orders_by_departure_then_id() {
    let bookings: [(&str, u32, &str); 6] = [
        ("2024/03/16", 1, "1A"),
        ("2024/03/15", 2, "1A"),
        ("2024/03/15", 1, "1A"),
        ("2024/03/15", 1, "1B"),
        ("2024/03/14", 2, "1A"),
        ("2024/03/15", 3, "1A"),
    ];
    let orders: [[usize; 6]; 3] = [[0, 1, 2, 3, 4, 5], [5, 4, 3, 2, 1, 0], [2, 5, 0, 4, 1, 3]];
    for order in orders {
        let mut system = ReservationSystem::new();
        load(&mut system, 1, 10, 20, "10:00:00", &[(20, 100)]);
        load(&mut system, 2, 10, 20, "18:00:00", &[(20, 100)]);
        load(&mut system, 3, 10, 20, "10:00:00", &[(20, 100)]);
        let mut ids = [0u32; 6];
        for k in order {
            let (date, flight, seat) = bookings[k];
            ids[k] = system.process_reserve(EARLY, "alice", date, flight, seat).unwrap().0;
        }
        let listing = system.process_get_reservations("", "alice");
        let listed: Vec<u32> = listing.iter().map(|r| r.reservation_id).collect();
        // 03/14 18:00, then the three that leave 03/15 10:00 by id, then 03/15 18:00, then 03/16
        let mut same_departure = vec![ids[2], ids[3], ids[5]];
        same_departure.sort();
        let mut expected = vec![ids[4]];
        expected.extend(same_departure);
        expected.push(ids[1]);
        expected.push(ids[0]);
        assert_eq!(listed, expected);
    }
}

#[test]
fn get_reservations_orders_across_years() {
    let mut system = ReservationSystem::new();
    load(&mut system, 1, 10, 20, "10:00:00", &[(20, 100)]);
    load(&mut system, 2, 10, 20, "00:00:00", &[(20, 100)]);
    assert_eq!(system.process_reserve(EARLY, "alice", "2025/01/01", 2, "1A"), Ok((1, 100)));
    assert_eq!(system.process_reserve(EARLY, "alice", "2024/12/31", 1, "1A"), Ok((2, 100)));
    assert_eq!(system.process_reserve(EARLY, "alice", "2024/12/31", 2, "1A"), Ok((3, 100)));
    let listing = system.process_get_reservations("", "alice");
    let listed: Vec<u32> = listing.iter().map(|r| r.reservation_id).collect();
    assert_eq!(listed, vec![3, 2, 1]);
}

#[test]
fn get_reservations_lists_unreadable_departures_first() {
    let mut system = ReservationSystem::new();
    load(&mut system, 1, 10, 20, "10:00:00", &[(20, 100)]);
    load(&mut system, 2, 10, 20, "05:00:00", &[(20, 100)]);
    assert_eq!(system.process_reserve(EARLY, "alice", DAY, 2, "1A"), Ok((1, 100)));
    assert_eq!(system.process_reserve(EARLY, "alice", DAY, 1, "1A"), Ok((2, 100)));
    assert_eq!(system.process_reserve(EARLY, "alice", DAY, 1, "1B"), Ok((3, 100)));
    load(&mut system, 1, 10, 20, "ten", &[(20, 100)]);
    let listing = system.process_get_reservations("", "alice");
    let listed: Vec<u32> = listing.iter().map(|r| r.reservation_id).collect();
    assert_eq!(listed, vec![2, 3, 1]);
    assert_eq!(listing[0].departure_time, "ten");
}

#[test]
fn departure_ranks_are_kept_in_order() {
    let at = |secs: i64| Some(Instant { secs, nanos: 0 });
    let mut list: Vec<DepartureRank> = Vec::new();
    assert_eq!(insert_in_order(&mut list, DepartureRank { departure: at(50), reservation_id: 4 }), 0);
    assert_eq!(insert_in_order(&mut list, DepartureRank { departure: at(10), reservation_id: 9 }), 0);
    assert_eq!(insert_in_order(&mut list, DepartureRank { departure: at(50), reservation_id: 2 }), 1);
    assert_eq!(insert_in_order(&mut list, DepartureRank { departure: at(70), reservation_id: 1 }), 3);
    assert_eq!(insert_in_order(&mut list, DepartureRank { departure: None, reservation_id: 8 }), 0);
    assert_eq!(insert_in_order(&mut list, DepartureRank { departure: at(50), reservation_id: 3 }), 3);
    let ids: Vec<u32> = list.iter().map(|r| r.reservation_id).collect();
    assert_eq!(ids, vec![8, 9, 2, 3, 4, 1]);
}

#[test]
fn departure_rank_order() {
    let early = DepartureRank { departure: Some(Instant { secs: 1, nanos: 0 }), reservation_id: 9 };
    let leap =
        DepartureRank { departure: Some(Instant { secs: 1, nanos: 1_000_000_000 }), reservation_id: 1 };
    let late = DepartureRank { departure: Some(Instant { secs: 2, nanos: 0 }), reservation_id: 1 };
    let late_too = DepartureRank { departure: Some(Instant { secs: 2, nanos: 0 }), reservation_id: 2 };
    assert!(early.is_before(&leap));
    assert!(leap.is_before(&late));
    assert!(late.is_before(&late_too));
    assert!(!late_too.is_before(&late));
    assert!(!late.is_before(&late));
    assert!(!late.is_before(&early));
}

#[test]
fn flight_rank_order() {
    let rank = |time: &str, id: u32| FlightRank { departure_time: time.to_string(), flight_id: id };
    assert!(rank("08:00:00", 9).is_before(&rank("09:00:00", 1)));
    assert!(!rank("09:00:00", 1).is_before(&rank("08:00:00", 9)));
    assert!(rank("09:00:00", 1).is_before(&rank("09:00:00", 2)));
    assert!(!rank("09:00:00", 2).is_before(&rank("09:00:00", 1)));
    assert!(!rank("09:00:00", 2).is_before(&rank("09:00:00", 2)));
    let mut list: Vec<FlightRank> = Vec::new();
    insert_in_order(&mut list, rank("09:00:00", 2));
    insert_in_order(&mut list, rank("09:00:00", 1));
    insert_in_order(&mut list, rank("10:00:00", 0));
    insert_in_order(&mut list, rank("", 7));
    let ids: Vec<u32> = list.iter().map(|r| r.flight_id).collect();
    assert_eq!(ids, vec![7, 1, 2, 0]);
}
