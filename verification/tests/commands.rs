use schedule_bot::bot::{
    after_subjects, after_write, command_at, command_handler, parse_command_subject, read_date,
    resolve, Command, DateReading, Error, Lookup, Pending, Query, Step, TooManyArguments,
};
use schedule_bot::data::{Day, Group, Repeat, Slot, Subject};
use schedule_bot::time::{LocalTime, Weekday};

const CHAT: i64 = -1001234;

fn monday_morning() -> LocalTime {
    LocalTime { weekday: Weekday::Mon, day: 15, second: 9 * 3600 }
}

fn text(value: &str) -> Option<String> {
    Some(value.to_string())
}

#[test]
fn arguments_of_a_subject_query() {
    assert_eq!(parse_command_subject("2".to_string()), Ok((text("2"), None)));
    assert_eq!(parse_command_subject("II".to_string()), Ok((text("II"), None)));
    assert_eq!(
        parse_command_subject("2 15.01.2024".to_string()),
        Ok((text("2"), text("15.01.2024")))
    );
    assert_eq!(
        parse_command_subject("_ 15.01.2024".to_string()),
        Ok((None, text("15.01.2024")))
    );
    assert_eq!(parse_command_subject("_".to_string()), Ok((text("_"), None)));
    assert_eq!(parse_command_subject("__ x".to_string()), Ok((text("__"), text("x"))));
    assert_eq!(parse_command_subject("пара дата".to_string()), Ok((text("пара"), text("дата"))));
}

#[test]
fn no_arguments_give_neither_token() {
    assert_eq!(parse_command_subject(String::new()), Ok((None, None)));
}

#[test]
fn each_space_starts_a_new_argument() {
    assert_eq!(parse_command_subject(" ".to_string()), Ok((text(""), text(""))));
    assert_eq!(parse_command_subject("2 ".to_string()), Ok((text("2"), text(""))));
    assert_eq!(parse_command_subject(" 2".to_string()), Ok((text(""), text("2"))));
}

#[test]
fn more_than_two_arguments_are_refused() {
    assert_eq!(parse_command_subject("1 2 3".to_string()), Err(TooManyArguments));
    assert_eq!(parse_command_subject("1  2".to_string()), Err(TooManyArguments));
    assert_eq!(parse_command_subject("  ".to_string()), Err(TooManyArguments));
    assert_eq!(parse_command_subject("_ 15.01.2024 K-25".to_string()), Err(TooManyArguments));
    assert_eq!(TooManyArguments.message(), "Only 2 arguments allowed!");
}

#[test]
fn arguments_with_characters_are_split_as_the_standard_library_splits() {
    for input in ["a", "a b", " a", "a ", "_ b", "a\tb", "a\u{a0}b", "é ü", "a b c", "   ", " "] {
        let parts: Vec<&str> = input.split(' ').collect();
        let expected = match &parts[..] {
            [slot] => Ok((text(slot), None)),
            ["_", date] => Ok((None, text(date))),
            [slot, date] => Ok((text(slot), text(date))),
            _ => Err(TooManyArguments),
        };
        assert_eq!(parse_command_subject(input.to_string()), expected, "input {:?}", input);
    }
}

#[test]
fn query_without_arguments_is_about_now() {
    let now = LocalTime { weekday: Weekday::Wed, day: 10, second: 12 * 3600 + 30 * 60 };
    let query = resolve(CHAT, &now, None, DateReading::Today).unwrap();
    assert_eq!(query, Query { day: Day::Wed, repeat: Repeat::Odd, slot: Slot::III });
}

#[test]
fn slot_token_takes_the_place_of_the_clock() {
    let now = monday_morning();
    let query = resolve(CHAT, &now, text("4"), DateReading::Today).unwrap();
    assert_eq!(query, Query { day: Day::Mon, repeat: Repeat::Even, slot: Slot::IV });
    let roman = resolve(CHAT, &now, text("III"), DateReading::Today).unwrap();
    assert_eq!(roman.slot, Slot::III);
}

#[test]
fn date_takes_the_place_of_today() {
    let now = monday_morning();
    let friday = LocalTime { weekday: Weekday::Fri, day: 26, second: 43_200 };
    let query = resolve(CHAT, &now, None, DateReading::On(friday)).unwrap();
    assert_eq!(query, Query { day: Day::Fri, repeat: Repeat::Odd, slot: Slot::I });
    let both = resolve(CHAT, &now, text("2"), DateReading::On(friday)).unwrap();
    assert_eq!(both, Query { day: Day::Fri, repeat: Repeat::Odd, slot: Slot::II });
}

#[test]
fn errors_of_a_query_in_their_order() {
    let saturday = LocalTime { weekday: Weekday::Sat, day: 13, second: 43_200 };
    let now = monday_morning();
    match resolve(CHAT, &saturday, text("9"), DateReading::Unreadable("x".into())) {
        Err(Error::InvalidSlot(chat, value)) => {
            assert_eq!(chat, CHAT);
            assert_eq!(value, "9");
        }
        other => panic!("unexpected {:?}", other),
    }
    match resolve(CHAT, &saturday, text("1"), DateReading::Unreadable("x".into())) {
        Err(Error::InvalidDate(chat, value)) => {
            assert_eq!(chat, CHAT);
            assert_eq!(value, "x");
        }
        other => panic!("unexpected {:?}", other),
    }
    match resolve(CHAT, &saturday, text("1"), DateReading::Today) {
        Err(Error::InvalidWeekday(chat, value)) => {
            assert_eq!(chat, CHAT);
            assert_eq!(value, "Sat");
        }
        other => panic!("unexpected {:?}", other),
    }
    let sunday = LocalTime { weekday: Weekday::Sun, day: 14, second: 43_200 };
    match resolve(CHAT, &now, None, DateReading::On(sunday)) {
        Err(Error::InvalidWeekday(_, value)) => assert_eq!(value, "Sun"),
        other => panic!("unexpected {:?}", other),
    }
    assert!(resolve(CHAT, &saturday, None, DateReading::On(now)).is_ok());
}

#[test]
fn date_tokens_are_read_at_noon() {
    match read_date(None) {
        DateReading::Today => {}
        other => panic!("unexpected {:?}", other),
    }
    match read_date(text("16.01.2024")) {
        DateReading::On(time) => {
            assert_eq!(time, LocalTime { weekday: Weekday::Tue, day: 16, second: 43_200 })
        }
        other => panic!("unexpected {:?}", other),
    }
    match read_date(text("16-01-2024")) {
        DateReading::Unreadable(value) => assert_eq!(value, "16-01-2024"),
        other => panic!("unexpected {:?}", other),
    }
}

#[test]
fn config_command_names_a_group() {
    let now = monday_morning();
    assert_eq!(
        command_handler(CHAT, &now, Command::Config("K-25".into())).unwrap(),
        Pending::Configure { chat: CHAT, group: Group::K25 }
    );
    match command_handler(CHAT, &now, Command::Config("K-99".into())) {
        Err(Error::InvalidGroup(chat, value)) => {
            assert_eq!(chat, CHAT);
            assert_eq!(value, "K-99");
        }
        other => panic!("unexpected {:?}", other),
    }
}

#[test]
fn subject_command_is_resolved() {
    let now = monday_morning();
    let plain = Command::Subject { slot: None, date: None };
    assert_eq!(
        command_handler(CHAT, &now, plain).unwrap(),
        Pending::Query {
            chat: CHAT,
            query: Query { day: Day::Mon, repeat: Repeat::Even, slot: Slot::I }
        }
    );
    let dated = Command::Subject { slot: text("3"), date: text("09.02.2024") };
    assert_eq!(
        command_handler(CHAT, &now, dated).unwrap(),
        Pending::Query {
            chat: CHAT,
            query: Query { day: Day::Fri, repeat: Repeat::Odd, slot: Slot::III }
        }
    );
    let weekend = Command::Subject { slot: None, date: text("10.02.2024") };
    match command_handler(CHAT, &now, weekend) {
        Err(Error::InvalidWeekday(_, value)) => assert_eq!(value, "Sat"),
        other => panic!("unexpected {:?}", other),
    }
    let unreadable = Command::Subject { slot: None, date: text("tomorrow") };
    match command_handler(CHAT, &now, unreadable) {
        Err(Error::InvalidDate(_, value)) => assert_eq!(value, "tomorrow"),
        other => panic!("unexpected {:?}", other),
    }
    let no_slot = Command::Subject { slot: text(""), date: None };
    match command_handler(CHAT, &now, no_slot) {
        Err(Error::InvalidSlot(_, value)) => assert_eq!(value, ""),
        other => panic!("unexpected {:?}", other),
    }
}

#[test]
fn command_is_read_at_the_time_it_was_sent() {
    // 2024-07-03 12:39:00 UTC is 15:39 in Kyiv, a Wednesday in the first week.
    let plain = Command::Subject { slot: None, date: None };
    assert_eq!(
        command_at(CHAT, 1720010340, plain).unwrap().unwrap(),
        Pending::Query {
            chat: CHAT,
            query: Query { day: Day::Wed, repeat: Repeat::Even, slot: Slot::IV }
        }
    );
    // One minute later the fourth period has ended.
    let later = Command::Subject { slot: None, date: None };
    assert_eq!(
        command_at(CHAT, 1720010400, later).unwrap().unwrap(),
        Pending::Query {
            chat: CHAT,
            query: Query { day: Day::Wed, repeat: Repeat::Even, slot: Slot::I }
        }
    );
    // 2024-01-12 22:30:00 UTC is already Saturday in Kyiv.
    let late = Command::Subject { slot: None, date: None };
    match command_at(CHAT, 1705098600, late).unwrap() {
        Err(Error::InvalidWeekday(chat, value)) => {
            assert_eq!(chat, CHAT);
            assert_eq!(value, "Sat");
        }
        other => panic!("unexpected {:?}", other),
    }
    // A date takes the place of that Saturday, the clock still gives the slot.
    let dated = Command::Subject { slot: None, date: text("12.01.2024") };
    assert_eq!(
        command_at(CHAT, 1705098600, dated).unwrap().unwrap(),
        Pending::Query {
            chat: CHAT,
            query: Query { day: Day::Fri, repeat: Repeat::Odd, slot: Slot::I }
        }
    );
    assert_eq!(
        command_at(CHAT, 0, Command::Config("K-25".into())).unwrap().unwrap(),
        Pending::Configure { chat: CHAT, group: Group::K25 }
    );
    assert!(command_at(CHAT, i64::MAX, Command::Config("K-25".into())).is_none());
}

#[test]
fn steps_after_the_group_is_looked_up() {
    let configure = Pending::Configure { chat: CHAT, group: Group::K25 };
    assert_eq!(
        configure.after_lookup(Lookup::Found(Group::K25)).unwrap(),
        Step::UpdateUser { chat: CHAT, group: Group::K25 }
    );
    assert_eq!(
        configure.after_lookup(Lookup::Missing).unwrap(),
        Step::AddUser { chat: CHAT, group: Group::K25 }
    );
    match configure.after_lookup(Lookup::Failed) {
        Err(Error::Storage(chat)) => assert_eq!(chat, CHAT),
        other => panic!("unexpected {:?}", other),
    }
    let query = Query { day: Day::Tue, repeat: Repeat::Odd, slot: Slot::II };
    let pending = Pending::Query { chat: CHAT, query };
    assert_eq!(
        pending.after_lookup(Lookup::Found(Group::K25)).unwrap(),
        Step::GetSubjects { chat: CHAT, query, group: Group::K25 }
    );
    match pending.after_lookup(Lookup::Missing) {
        Err(Error::NoGroupConfigured(chat)) => assert_eq!(chat, CHAT),
        other => panic!("unexpected {:?}", other),
    }
    match pending.after_lookup(Lookup::Failed) {
        Err(Error::Storage(chat)) => assert_eq!(chat, CHAT),
        other => panic!("unexpected {:?}", other),
    }
}

#[test]
fn writes_end_a_command() {
    assert!(after_write(CHAT, true).is_ok());
    match after_write(CHAT, false) {
        Err(Error::Storage(chat)) => assert_eq!(chat, CHAT),
        other => panic!("unexpected {:?}", other),
    }
}

#[test]
fn answer_lists_the_subjects() {
    let subjects = vec![
        Subject { id: 1, title: "Algebra".into(), group: Group::K25, optional: false },
        Subject { id: 2, title: "History [opt]".into(), group: Group::K25, optional: true },
    ];
    let reply = after_subjects(CHAT, Slot::III, Some(subjects)).unwrap();
    assert_eq!(reply.chat, CHAT);
    assert!(reply.markdown);
    assert_eq!(reply.text, "3\u{fe0f}\u{20e3} Algebra\n3\u{fe0f}\u{20e3} History [opt]\n");
}

#[test]
fn answer_for_no_subject_is_plain() {
    let reply = after_subjects(CHAT, Slot::I, Some(Vec::new())).unwrap();
    assert_eq!(reply.chat, CHAT);
    assert!(!reply.markdown);
    assert_eq!(reply.text, "No such subject is found.");
}

#[test]
fn answer_after_a_failure_is_an_error() {
    match after_subjects(CHAT, Slot::I, None) {
        Err(Error::Storage(chat)) => assert_eq!(chat, CHAT),
        other => panic!("unexpected {:?}", other),
    }
}

#[test]
fn messages_of_errors() {
    let told = |error: Error| error.reply();
    assert_eq!(
        told(Error::InvalidGroup(1, "K-99".into())),
        (1, "Invalid group: K-99.".to_string())
    );
    assert_eq!(told(Error::InvalidDate(2, "x".into())), (2, "Invalid date: x.".to_string()));
    assert_eq!(told(Error::InvalidSlot(3, "".into())), (3, "Invalid slot: .".to_string()));
    assert_eq!(
        told(Error::InvalidWeekday(4, "Sat".into())),
        (4, "Invalid weekday: Sat.".to_string())
    );
    assert_eq!(
        told(Error::NoGroupConfigured(5)),
        (5, "Please configure your group with `/config <group>`".to_string())
    );
    assert_eq!(told(Error::Storage(-6)), (-6, "Something went wrong".to_string()));
}
