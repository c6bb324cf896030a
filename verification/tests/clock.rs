use osai_core::clock::CivilTime;

fn leap(year: i64) -> bool {
    year % 4 == 0 && (year % 100 != 0 || year % 400 == 0)
}

fn month_length(year: i64, month: i64) -> i64 {
    match month {
        2 => {
            if leap(year) {
                29
            } else {
                28
            }
        }
        4 | 6 | 9 | 11 => 30,
        _ => 31,
    }
}

fn seconds_by_counting(year: i64, month: i64, day: i64, hour: i64, minute: i64, second: i64) -> i64 {
    let through = |y: i64| y.div_euclid(4) - y.div_euclid(100) + y.div_euclid(400);
    let mut days = 365 * (year - 1970) + through(year - 1) - through(1969);
    for m in 1..month {
        days += month_length(year, m);
    }
    days += day - 1;
    days * 86400 + hour * 3600 + minute * 60 + second
}

#[test]
fn the_epoch_is_second_zero() {
    assert_eq!(CivilTime::new(1970, 1, 1, 0, 0, 0).unwrap().unix_seconds(), 0);
    assert_eq!(CivilTime::new(1969, 12, 31, 23, 59, 59).unwrap().unix_seconds(), -1);
    assert_eq!(CivilTime::new(1970, 1, 2, 0, 0, 1).unwrap().unix_seconds(), 86401);
}

#[test]
fn known_moments_have_their_known_timestamps() {
    assert_eq!(CivilTime::new(2025, 11, 19, 8, 0, 0).unwrap().unix_seconds(), 1763539200);
    assert_eq!(CivilTime::new(2025, 11, 19, 7, 55, 0).unwrap().unix_seconds(), 1763538900);
    assert_eq!(CivilTime::new(2000, 2, 29, 12, 0, 0).unwrap().unix_seconds(), 951825600);
    assert_eq!(CivilTime::new(2024, 2, 29, 0, 0, 0).unwrap().unix_seconds(), 1709164800);
    assert_eq!(CivilTime::new(1, 1, 1, 0, 0, 0).unwrap().unix_seconds(), -62135596800);
    assert_eq!(CivilTime::new(9999, 12, 31, 23, 59, 59).unwrap().unix_seconds(), 253402300799);
    assert_eq!(CivilTime::new(0, 1, 1, 0, 0, 0).unwrap().unix_seconds(), -62135596800 - 366 * 86400);
}

#[test]
fn timestamps_agree_with_counting_the_days() {
    let mut year: i64 = 0;
    while year <= 9999 {
        for month in 1..=12i64 {
            for day in [1, 15, month_length(year, month)] {
                let moment =
                    CivilTime::new(year as i32, month as u32, day as u32, 13, 7, 42).unwrap();
                assert_eq!(moment.unix_seconds(), seconds_by_counting(year, month, day, 13, 7, 42));
            }
        }
        year += if (1890..2110).contains(&year) { 1 } else { 37 };
    }
}

#[test]
fn every_day_of_a_leap_and_a_common_year_counts_once() {
    for year in [2023i64, 2024, 1900, 2000] {
        let mut expected = CivilTime::new(year as i32, 1, 1, 0, 0, 0).unwrap().unix_seconds();
        for month in 1..=12i64 {
            for day in 1..=month_length(year, month) {
                let moment = CivilTime::new(year as i32, month as u32, day as u32, 0, 0, 0).unwrap();
                assert_eq!(moment.unix_seconds(), expected);
                expected += 86400;
            }
        }
        assert_eq!(CivilTime::new(year as i32 + 1, 1, 1, 0, 0, 0).unwrap().unix_seconds(), expected);
    }
}

#[test]
fn validity_follows_the_calendar() {
    for year in [0i64, 1, 1900, 2000, 2023, 2024, 2100, 9999] {
        for month in 0..=13i64 {
            for day in 0..=32i64 {
                let real = (1..=12).contains(&month) && 1 <= day && day <= month_length(year, month);
                let made = CivilTime::new(year as i32, month as u32, day as u32, 12, 0, 0);
                assert_eq!(made.is_some(), real);
                let plain = CivilTime {
                    year: year as i32,
                    month: month as u32,
                    day: day as u32,
                    hour: 12,
                    minute: 0,
                    second: 0,
                };
                assert_eq!(plain.check_valid(), real);
            }
        }
    }
}

#[test]
fn refuses_fields_out_of_range() {
    assert!(CivilTime::new(-1, 1, 1, 0, 0, 0).is_none());
    assert!(CivilTime::new(10000, 1, 1, 0, 0, 0).is_none());
    assert!(CivilTime::new(2025, 1, 1, 24, 0, 0).is_none());
    assert!(CivilTime::new(2025, 1, 1, 0, 60, 0).is_none());
    assert!(CivilTime::new(2025, 1, 1, 0, 0, 60).is_none());
    assert!(CivilTime::new(2025, 1, 1, 23, 59, 59).is_some());
    assert!(CivilTime::new(2025, u32::MAX, 1, 0, 0, 0).is_none());
    assert!(CivilTime::new(2025, 1, u32::MAX, 0, 0, 0).is_none());
    assert!(CivilTime::new(i32::MAX, 1, 1, 0, 0, 0).is_none());
    assert!(CivilTime::new(i32::MIN, 1, 1, 0, 0, 0).is_none());
}

#[test]
fn new_keeps_the_fields() {
    let moment = CivilTime::new(2025, 11, 19, 8, 5, 59).unwrap();
    assert_eq!(
        moment,
        CivilTime { year: 2025, month: 11, day: 19, hour: 8, minute: 5, second: 59 }
    );
}

#[test]
fn canonical_text_is_zero_padded() {
    assert_eq!(CivilTime::new(2025, 11, 19, 8, 0, 0).unwrap().canonical(), "2025-11-19:08:00");
    assert_eq!(CivilTime::new(7, 1, 2, 3, 4, 0).unwrap().canonical(), "0007-01-02:03:04");
    assert_eq!(CivilTime::new(0, 12, 31, 23, 59, 0).unwrap().canonical(), "0000-12-31:23:59");
    assert_eq!(CivilTime::new(9999, 12, 31, 23, 59, 0).unwrap().canonical(), "9999-12-31:23:59");
    assert_eq!(CivilTime::new(2025, 11, 19, 8, 0, 45).unwrap().canonical(), "2025-11-19:08:00");
}

#[test]
fn time_label_names_hour_and_minute() {
    assert_eq!(CivilTime::new(2025, 11, 19, 8, 0, 0).unwrap().time_label(), "08時00分");
    assert_eq!(CivilTime::new(2025, 11, 19, 23, 59, 0).unwrap().time_label(), "23時59分");
    assert_eq!(CivilTime::new(2025, 11, 19, 0, 7, 0).unwrap().time_label(), "00時07分");
}

#[test]
fn reads_a_canonical_text() {
    let chars: Vec<char> = "2025-11-19:08:00".chars().collect();
    assert_eq!(
        CivilTime::parse_canonical(&chars),
        Some(CivilTime { year: 2025, month: 11, day: 19, hour: 8, minute: 0, second: 0 })
    );
}

#[test]
fn refuses_what_is_not_canonical() {
    for text in [
        "",
        "2025-11-19",
        "2025-11-19 08:00",
        "2025-11-19:08:00 ",
        "2025-11-19:08:00:00",
        "2025-11-19:8:00",
        "2025-02-30:08:00",
        "2025-11-19:24:00",
        "2025-11-19:08:60",
        "２０２５-11-19:08:00",
        "2025-11-19T08:00",
    ] {
        let chars: Vec<char> = text.chars().collect();
        assert_eq!(CivilTime::parse_canonical(&chars), None);
    }
}

#[test]
fn canonical_text_and_reading_undo_each_other() {
    for year in [0, 1, 999, 1970, 2024, 9999] {
        for (month, day) in [(1, 1), (2, 28), (6, 30), (12, 31)] {
            for (hour, minute) in [(0, 0), (9, 5), (23, 59)] {
                let moment = CivilTime::new(year, month, day, hour, minute, 0).unwrap();
                let chars: Vec<char> = moment.canonical().chars().collect();
                assert_eq!(CivilTime::parse_canonical(&chars), Some(moment));
            }
        }
    }
}

#[test]
fn time_label_is_what_chrono_formats() {
    for hour in 0..24u32 {
        for minute in 0..60u32 {
            let expected = chrono::NaiveTime::from_hms_opt(hour, minute, 0)
                .unwrap()
                .format("%H時%M分")
                .to_string();
            let moment = CivilTime::new(2025, 11, 19, hour, minute, 0).unwrap();
            assert_eq!(moment.time_label(), expected);
        }
    }
}

#[test]
fn canonical_text_is_what_chrono_formats_and_reads() {
    for (year, month, day, hour, minute) in
        [(2025, 11, 19, 8, 0), (1, 2, 3, 4, 5), (9999, 12, 31, 23, 59), (2024, 2, 29, 0, 0)]
    {
        let moment = CivilTime::new(year, month, day, hour, minute, 0).unwrap();
        let naive = chrono::NaiveDate::from_ymd_opt(year, month, day)
            .unwrap()
            .and_hms_opt(hour, minute, 0)
            .unwrap();
        let text = moment.canonical();
        assert_eq!(text, naive.format("%Y-%m-%d:%H:%M").to_string());
        assert_eq!(
            chrono::NaiveDateTime::parse_from_str(&text, "%Y-%m-%d:%H:%M").unwrap(),
            naive
        );
    }
}

#[test]
fn calendar_order_is_the_order_of_the_seconds() {
    let moments = [
        CivilTime::new(0, 1, 1, 0, 0, 0).unwrap(),
        CivilTime::new(1969, 12, 31, 23, 59, 59).unwrap(),
        CivilTime::new(1970, 1, 1, 0, 0, 0).unwrap(),
        CivilTime::new(2024, 2, 28, 23, 59, 59).unwrap(),
        CivilTime::new(2024, 2, 29, 0, 0, 0).unwrap(),
        CivilTime::new(2024, 3, 1, 0, 0, 0).unwrap(),
        CivilTime::new(2024, 12, 31, 23, 59, 59).unwrap(),
        CivilTime::new(2025, 1, 1, 0, 0, 0).unwrap(),
        CivilTime::new(2025, 1, 1, 0, 0, 1).unwrap(),
        CivilTime::new(2025, 1, 1, 0, 1, 0).unwrap(),
        CivilTime::new(2025, 1, 1, 1, 0, 0).unwrap(),
        CivilTime::new(9999, 12, 31, 23, 59, 59).unwrap(),
    ];
    for pair in moments.windows(2) {
        assert!(pair[0].unix_seconds() < pair[1].unix_seconds());
    }
}
