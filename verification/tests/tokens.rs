use schedule_bot::data::{Day, Group, ParseError, Repeat, Slot};

#[test]
fn slot_tokens_round_trip() {
    for slot in [Slot::I, Slot::II, Slot::III, Slot::IV] {
        assert_eq!(Slot::try_from(slot.name()), Ok(slot));
        let digit = slot.code().to_string();
        assert_eq!(Slot::try_from(digit.as_str()), Ok(slot));
        assert_eq!(Slot::from_code(slot.code()), Some(slot));
    }
    assert_eq!(Slot::I.name(), "I");
    assert_eq!(Slot::II.name(), "II");
    assert_eq!(Slot::III.name(), "III");
    assert_eq!(Slot::IV.name(), "IV");
}

#[test]
fn slot_tokens_are_exact() {
    for token in ["", "0", "5", "i", "ii", "IIII", "V", " 1", "1 ", "01", "I I", "one"] {
        assert_eq!(Slot::try_from(token), Err(ParseError::NotASlot), "token {:?}", token);
    }
}

#[test]
fn slot_codes() {
    assert_eq!(Slot::I.code(), 1);
    assert_eq!(Slot::II.code(), 2);
    assert_eq!(Slot::III.code(), 3);
    assert_eq!(Slot::IV.code(), 4);
    assert_eq!(Slot::from_code(0), None);
    assert_eq!(Slot::from_code(5), None);
    assert_eq!(Slot::from_code(255), None);
}

#[test]
fn day_tokens_round_trip_and_differ() {
    let days = [Day::Mon, Day::Tue, Day::Wed, Day::Thu, Day::Fri];
    for (i, day) in days.iter().enumerate() {
        assert_eq!(Day::try_from(day.name()), Ok(*day));
        assert_eq!(Day::from_code(day.code()), Some(*day));
        assert_eq!(day.code() as usize, i + 1);
        for other in &days[i + 1..] {
            assert_ne!(day.name(), other.name());
        }
    }
    assert_eq!(Day::try_from("Mon"), Ok(Day::Mon));
    assert_eq!(Day::try_from("Tue"), Ok(Day::Tue));
    assert_eq!(Day::try_from("Wed"), Ok(Day::Wed));
    assert_eq!(Day::try_from("Thu"), Ok(Day::Thu));
    assert_eq!(Day::try_from("Fri"), Ok(Day::Fri));
}

#[test]
fn day_tokens_are_exact() {
    for token in ["", "Sat", "Sun", "mon", "MON", "Monday", "Mo", " Mon", "Mon ", "1"] {
        assert_eq!(Day::try_from(token), Err(ParseError::NotADay), "token {:?}", token);
    }
    assert_eq!(Day::from_code(0), None);
    assert_eq!(Day::from_code(6), None);
    assert_eq!(Day::from_code(7), None);
}

#[test]
fn repeat_tokens_and_codes() {
    for repeat in [Repeat::Odd, Repeat::Even, Repeat::Both] {
        assert_eq!(Repeat::try_from(repeat.name()), Ok(repeat));
        assert_eq!(Repeat::from_code(repeat.code()), Some(repeat));
    }
    assert_eq!(Repeat::try_from("Odd"), Ok(Repeat::Odd));
    assert_eq!(Repeat::try_from("Even"), Ok(Repeat::Even));
    assert_eq!(Repeat::try_from("Both"), Ok(Repeat::Both));
    assert_eq!(Repeat::Odd.code(), 0b01);
    assert_eq!(Repeat::Even.code(), 0b10);
    assert_eq!(Repeat::Both.code(), 0b11);
    assert_eq!(Repeat::Both.code(), Repeat::Odd.code() | Repeat::Even.code());
    assert_eq!(Repeat::from_code(0), None);
    assert_eq!(Repeat::from_code(4), None);
    for token in ["", "odd", "EVEN", "both", "Bot", "Odd ", "1"] {
        assert_eq!(Repeat::try_from(token), Err(ParseError::NotARepeat), "token {:?}", token);
    }
}

#[test]
fn repeat_held_in_weeks() {
    assert!(Repeat::Both.is_held_in(Repeat::Odd));
    assert!(Repeat::Both.is_held_in(Repeat::Even));
    assert!(Repeat::Odd.is_held_in(Repeat::Odd));
    assert!(Repeat::Even.is_held_in(Repeat::Even));
    assert!(!Repeat::Odd.is_held_in(Repeat::Even));
    assert!(!Repeat::Even.is_held_in(Repeat::Odd));
    assert!(Repeat::Both.is_held_in(Repeat::Both));
    assert!(!Repeat::Odd.is_held_in(Repeat::Both));
    assert!(!Repeat::Even.is_held_in(Repeat::Both));
    for entry in [Repeat::Odd, Repeat::Even, Repeat::Both] {
        for week in [Repeat::Odd, Repeat::Even] {
            assert_eq!(entry.is_held_in(week), entry.code() & week.code() == week.code());
        }
    }
}

#[test]
fn group_token() {
    assert_eq!(Group::try_from("K-25"), Ok(Group::K25));
    assert_eq!(Group::K25.name(), "K-25");
    for token in ["", "K25", "k-25", "K-26", "K-25 ", "К-25"] {
        assert_eq!(Group::try_from(token), Err(ParseError::NotAGroup), "token {:?}", token);
    }
}
