use chrono::{Datelike, Timelike};
use schedule_bot::data::{Day, InvalidWeekday, Repeat, Slot};
use schedule_bot::time::{LocalTime, Weekday};

fn at(weekday: Weekday, day: u32, hour: u32, minute: u32, second: u32) -> LocalTime {
    LocalTime { weekday, day, second: hour * 3600 + minute * 60 + second }
}

#[test]
fn kyiv_time_in_winter_is_two_hours_ahead() {
    assert_eq!(
        LocalTime::at(1705305600),
        Some(LocalTime { weekday: Weekday::Mon, day: 15, second: 36000 })
    );
    assert_eq!(
        LocalTime::at(1709200800),
        Some(LocalTime { weekday: Weekday::Thu, day: 29, second: 43200 })
    );
}

#[test]
fn kyiv_time_in_summer_is_three_hours_ahead() {
    assert_eq!(
        LocalTime::at(1719990840),
        Some(LocalTime { weekday: Weekday::Wed, day: 3, second: 36840 })
    );
    assert_eq!(
        LocalTime::at(1720010400),
        Some(LocalTime { weekday: Weekday::Wed, day: 3, second: 56400 })
    );
}

#[test]
fn kyiv_time_across_midnight() {
    assert_eq!(
        LocalTime::at(1705098600),
        Some(LocalTime { weekday: Weekday::Sat, day: 13, second: 1800 })
    );
    assert_eq!(
        LocalTime::at(1704664799),
        Some(LocalTime { weekday: Weekday::Sun, day: 7, second: 86399 })
    );
    assert_eq!(
        LocalTime::at(1704664800),
        Some(LocalTime { weekday: Weekday::Mon, day: 8, second: 0 })
    );
    assert_eq!(
        LocalTime::at(1704060000),
        Some(LocalTime { weekday: Weekday::Mon, day: 1, second: 0 })
    );
}

#[test]
fn kyiv_time_when_the_clocks_change() {
    assert_eq!(
        LocalTime::at(1711846799),
        Some(LocalTime { weekday: Weekday::Sun, day: 31, second: 10799 })
    );
    assert_eq!(
        LocalTime::at(1711846800),
        Some(LocalTime { weekday: Weekday::Sun, day: 31, second: 14400 })
    );
    assert_eq!(
        LocalTime::at(1729990799),
        Some(LocalTime { weekday: Weekday::Sun, day: 27, second: 14399 })
    );
    assert_eq!(
        LocalTime::at(1729990800),
        Some(LocalTime { weekday: Weekday::Sun, day: 27, second: 10800 })
    );
}

#[test]
fn kyiv_time_at_the_start_of_1970() {
    assert_eq!(
        LocalTime::at(0),
        Some(LocalTime { weekday: Weekday::Thu, day: 1, second: 10800 })
    );
    assert_eq!(
        LocalTime::at(-1),
        Some(LocalTime { weekday: Weekday::Thu, day: 1, second: 10799 })
    );
}

#[test]
fn kyiv_time_of_an_instant_without_a_date() {
    assert_eq!(LocalTime::at(i64::MAX), None);
    assert_eq!(LocalTime::at(i64::MIN), None);
}

#[test]
fn kyiv_time_is_what_chrono_shows() {
    let mut timestamp: i64 = 1_600_000_000;
    while timestamp < 1_800_000_000 {
        let local = chrono::DateTime::from_timestamp(timestamp, 0)
            .unwrap()
            .with_timezone(&chrono_tz::Europe::Kiev);
        let time = LocalTime::at(timestamp).unwrap();
        assert_eq!(time.weekday.name(), local.weekday().to_string());
        assert_eq!(time.day, local.day());
        assert_eq!(time.second, local.hour() * 3600 + local.minute() * 60 + local.second());
        timestamp += 1_234_567;
    }
}

#[test]
fn written_dates() {
    assert_eq!(
        LocalTime::on("15.01.2024"),
        Some(LocalTime { weekday: Weekday::Mon, day: 15, second: 43200 })
    );
    assert_eq!(
        LocalTime::on("29.02.2024"),
        Some(LocalTime { weekday: Weekday::Thu, day: 29, second: 43200 })
    );
    assert_eq!(
        LocalTime::on("13.01.2024"),
        Some(LocalTime { weekday: Weekday::Sat, day: 13, second: 43200 })
    );
    assert_eq!(
        LocalTime::on("31.12.1999"),
        Some(LocalTime { weekday: Weekday::Fri, day: 31, second: 43200 })
    );
    assert_eq!(
        LocalTime::on("01.09.2025"),
        Some(LocalTime { weekday: Weekday::Mon, day: 1, second: 43200 })
    );
}

#[test]
fn texts_that_are_no_dates() {
    for text in [
        "", "today", "2024-01-15", "15/01/2024", "15.01", "15.13.2024", "32.01.2024",
        "29.02.2023", "31.04.2024", "00.01.2024", "15.00.2024", "15.01.2024x", "_",
    ] {
        assert_eq!(LocalTime::on(text), None, "text {:?}", text);
    }
}

#[test]
fn weekday_numbers_and_names() {
    let week = [
        (1, Weekday::Mon, "Mon"),
        (2, Weekday::Tue, "Tue"),
        (3, Weekday::Wed, "Wed"),
        (4, Weekday::Thu, "Thu"),
        (5, Weekday::Fri, "Fri"),
        (6, Weekday::Sat, "Sat"),
        (7, Weekday::Sun, "Sun"),
    ];
    for (number, weekday, name) in week {
        assert_eq!(Weekday::from_number(number), weekday);
        assert_eq!(weekday.name(), name);
    }
    assert_eq!(Weekday::from_number(0), Weekday::Sun);
    assert_eq!(Weekday::from_number(8), Weekday::Sun);
}

#[test]
fn day_of_a_local_time() {
    assert_eq!(Day::try_from(&at(Weekday::Mon, 1, 9, 0, 0)), Ok(Day::Mon));
    assert_eq!(Day::try_from(&at(Weekday::Tue, 2, 9, 0, 0)), Ok(Day::Tue));
    assert_eq!(Day::try_from(&at(Weekday::Wed, 3, 9, 0, 0)), Ok(Day::Wed));
    assert_eq!(Day::try_from(&at(Weekday::Thu, 4, 9, 0, 0)), Ok(Day::Thu));
    assert_eq!(Day::try_from(&at(Weekday::Fri, 5, 9, 0, 0)), Ok(Day::Fri));
    assert_eq!(
        Day::try_from(&at(Weekday::Sat, 6, 9, 0, 0)),
        Err(InvalidWeekday { weekday: Weekday::Sat })
    );
    assert_eq!(
        Day::try_from(&at(Weekday::Sun, 7, 9, 0, 0)),
        Err(InvalidWeekday { weekday: Weekday::Sun })
    );
}

#[test]
fn slot_at_the_ends_of_the_periods() {
    let slot = |hour, minute, second| Slot::from(&at(Weekday::Mon, 1, hour, minute, second));
    assert_eq!(slot(10, 14, 0), Slot::I);
    assert_eq!(slot(10, 14, 59), Slot::I);
    assert_eq!(slot(10, 15, 0), Slot::II);
    assert_eq!(slot(10, 16, 0), Slot::II);
    assert_eq!(slot(12, 9, 59), Slot::II);
    assert_eq!(slot(12, 10, 0), Slot::III);
    assert_eq!(slot(13, 54, 59), Slot::III);
    assert_eq!(slot(13, 55, 0), Slot::IV);
    assert_eq!(slot(15, 39, 0), Slot::IV);
    assert_eq!(slot(15, 39, 59), Slot::IV);
    assert_eq!(slot(15, 40, 0), Slot::I);
    assert_eq!(slot(23, 59, 59), Slot::I);
    assert_eq!(slot(0, 0, 0), Slot::I);
}

#[test]
fn slot_never_goes_back_before_the_last_period_ends() {
    let mut last = Slot::I.code();
    for second in 0..56_400 {
        let slot = Slot::from(&LocalTime { weekday: Weekday::Mon, day: 1, second }).code();
        assert!(last <= slot, "second {}", second);
        last = slot;
    }
    assert_eq!(last, Slot::IV.code());
    for second in 56_400..86_400 {
        assert_eq!(Slot::from(&LocalTime { weekday: Weekday::Mon, day: 1, second }), Slot::I);
    }
    assert_eq!(
        Slot::from(&LocalTime { weekday: Weekday::Mon, day: 1, second: u32::MAX }),
        Slot::I
    );
}

#[test]
fn week_of_each_day_of_the_month() {
    for day in 1..=31u32 {
        let expected = match day {
            1..=7 => Repeat::Even,
            8..=14 => Repeat::Odd,
            15..=21 => Repeat::Even,
            22..=28 => Repeat::Odd,
            _ => Repeat::Even,
        };
        let time = LocalTime { weekday: Weekday::Mon, day, second: 0 };
        assert_eq!(Repeat::from(&time), expected, "day {}", day);
        assert_eq!(Repeat::from(&time) == Repeat::Odd, ((day + 6) / 7) % 2 == 0);
    }
    let far = LocalTime { weekday: Weekday::Mon, day: u32::MAX, second: 0 };
    assert_eq!(Repeat::from(&far), Repeat::Even);
}

#[test]
fn week_and_day_of_an_instant() {
    let time = LocalTime::at(1705305600).unwrap();
    assert_eq!(Day::try_from(&time), Ok(Day::Mon));
    assert_eq!(Repeat::from(&time), Repeat::Even);
    assert_eq!(Slot::from(&time), Slot::I);
    let late = LocalTime::at(1705098600).unwrap();
    assert_eq!(Day::try_from(&late), Err(InvalidWeekday { weekday: Weekday::Sat }));
    assert_eq!(Repeat::from(&late), Repeat::Odd);
}

#[test]
fn local_time_from_its_fields() {
    assert_eq!(
        LocalTime::from_fields(5, 31, 86_399),
        LocalTime { weekday: Weekday::Fri, day: 31, second: 86_399 }
    );
    assert_eq!(
        LocalTime::from_fields(7, 1, 0),
        LocalTime { weekday: Weekday::Sun, day: 1, second: 0 }
    );
}
