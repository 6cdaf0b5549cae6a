use chrono::NaiveDateTime;
use chrono::TimeDelta;
use flight_reservation::system::ReservationSystem;
use flight_reservation::text::text_less;
use flight_reservation::time_policy::parse_timestamp;

const FORMAT: &str = "%Y/%m/%d-%H:%M:%S";

const STAMPS: [&str; 16] = [
    "2024/03/15-07:59:58",
    "2024/03/15-07:59:59",
    "2024/03/15-07:59:60",
    "2024/03/15-08:00:00",
    "2024/03/15-08:00:01",
    "2024/03/15-09:59:59",
    "2024/03/15-09:59:60",
    "2024/03/15-10:00:00",
    "2024/03/14-23:59:59",
    "2024/03/14-23:59:60",
    "2024/03/15-00:00:00",
    "2024/03/15-01:59:59",
    "2024/03/15-01:59:60",
    "2024/03/15-02:00:00",
    "2023/12/31-22:00:00",
    "2024/01/01-00:00:00",
];

#[test]
fn deadline_agrees_with_chrono() {
    let system = ReservationSystem::new();
    let two_hours = TimeDelta::try_hours(2).unwrap();
    for now_text in STAMPS {
        for departure_text in STAMPS {
            let now = NaiveDateTime::parse_from_str(now_text, FORMAT).unwrap();
            let departure = NaiveDateTime::parse_from_str(departure_text, FORMAT).unwrap();
            let expected = now >= departure - two_hours;
            let got = system.is_too_late(
                parse_timestamp(now_text).unwrap(),
                parse_timestamp(departure_text).unwrap(),
            );
            assert_eq!(got, expected, "now {} departure {}", now_text, departure_text);
        }
    }
}

#[test]
fn order_of_instants_agrees_with_chrono() {
    for a_text in STAMPS {
        for b_text in STAMPS {
            let a = NaiveDateTime::parse_from_str(a_text, FORMAT).unwrap();
            let b = NaiveDateTime::parse_from_str(b_text, FORMAT).unwrap();
            let got = parse_timestamp(a_text).unwrap().is_at_or_after(&parse_timestamp(b_text).unwrap());
            assert_eq!(got, a >= b, "{} and {}", a_text, b_text);
        }
    }
}

#[test]
fn well_written_timestamps_are_read_as_chrono_reads_them() {
    let texts = [
        "2024/03/15-08:30:00",
        "2024/02/29-23:59:59",
        "2023/02/29-00:00:00",
        "2024/04/31-00:00:00",
        "2024/00/10-00:00:00",
        "2024/01/00-00:00:00",
        "0000/01/01-00:00:00",
        "9999/12/31-23:59:60",
        "2024/03/15-24:00:00",
        "2024/03/15-23:60:00",
        "2024/03/15-23:59:61",
        "1900/02/29-12:00:00",
        "2000/02/29-12:00:00",
    ];
    for text in texts {
        let expected = NaiveDateTime::parse_from_str(text, FORMAT)
            .ok()
            .map(|d| (d.and_utc().timestamp(), d.and_utc().timestamp_subsec_nanos()));
        let got = parse_timestamp(text).map(|i| (i.secs, i.nanos));
        assert_eq!(got, expected, "{}", text);
    }
}

#[test]
fn text_order_agrees_with_the_order_of_strings() {
    let texts = [
        "", "0", "00:00:00", "09:00:00", "09:00:01", "10:00:00", "9:00:00", "23:59:59", "a", "ab",
        "b", "Z", "z", "\u{e9}", "\u{e9}a", "\u{4e2d}", "\u{1f600}", "\u{ffff}", "\u{10000}",
    ];
    for a in texts {
        for b in texts {
            assert_eq!(text_less(a, b), a < b, "{:?} and {:?}", a, b);
        }
    }
}
