use schedule_bot::data::Slot;
use schedule_bot::display::{Meeting, Subject};

#[test]
fn keycaps_of_the_slots() {
    assert_eq!(Slot::I.emoji(), "1\u{fe0f}\u{20e3}");
    assert_eq!(Slot::II.emoji(), "2\u{fe0f}\u{20e3}");
    assert_eq!(Slot::III.emoji(), "3\u{fe0f}\u{20e3}");
    assert_eq!(Slot::IV.emoji(), "4\u{fe0f}\u{20e3}");
    assert_eq!(Slot::I.emoji_shortcode(), "one");
    assert_eq!(Slot::II.emoji_shortcode(), "two");
    assert_eq!(Slot::III.emoji_shortcode(), "three");
    assert_eq!(Slot::IV.emoji_shortcode(), "four");
}

#[test]
fn meeting_without_a_link_is_its_name() {
    assert_eq!(Meeting::new("Room 12".to_string(), None).render(), "Room 12");
    assert_eq!(Meeting::new(String::new(), None).render(), "");
}

#[test]
fn meeting_with_a_link_is_an_inline_link() {
    let meeting = Meeting::new("Lecture".to_string(), Some("https://fake-link.lol".to_string()));
    assert_eq!(meeting.render(), "[Lecture](https://fake-link.lol)");
}

#[test]
fn link_address_is_escaped() {
    let meeting = Meeting::new(
        "A (b) `c`".to_string(),
        Some("https://x.y/a(b)`c`\\d".to_string()),
    );
    assert_eq!(meeting.render(), "[A (b) `c`](https://x.y/a(b\\)\\`c\\`\\d)");
    let empty = Meeting::new(String::new(), Some(String::new()));
    assert_eq!(empty.render(), "[]()");
}

#[test]
fn subject_without_meetings() {
    let subject = Subject::new(Slot::II, "Algebra".to_string(), Vec::new());
    assert_eq!(subject.render(), "2\u{fe0f}\u{20e3} Algebra");
    let marked = Subject::new(Slot::IV, "C_1 (lab).".to_string(), Vec::new());
    assert_eq!(marked.render(), "4\u{fe0f}\u{20e3} C_1 (lab).");
}

#[test]
fn subject_with_meetings() {
    let subject = Subject::new(
        Slot::I,
        "History".to_string(),
        vec![
            Meeting::new("Lecture".to_string(), Some("https://a.b/c".to_string())),
            Meeting::new("Room 3".to_string(), None),
        ],
    );
    assert_eq!(
        subject.render(),
        "1\u{fe0f}\u{20e3} History\n:teacher: [Lecture](https://a.b/c)\n:teacher: Room 3"
    );
}
