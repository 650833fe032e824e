//! The text of a reply that names the subjects of a slot.
//!
//! A reply is written for a chat that reads MarkdownV2: a subject starts with
//! the keycap emoji of its slot, and a meeting that has a link is written as
//! an inline link. The emoji come from `emojis`, the link from `teloxide`.

use crate::data::Slot;
use vstd::prelude::*;
use vstd::string::StringExecFns;

verus! {

impl Slot {
    /// The shortcode of the emoji that shows this slot's number on a keycap.
    pub open spec fn shortcode(self) -> Seq<char> {
        match self {
            Slot::I => "one"@,
            Slot::II => "two"@,
            Slot::III => "three"@,
            Slot::IV => "four"@,
        }
    }

    /// The emoji that shows this slot's number on a keycap: the digit, then
    /// the variation selector that asks for an emoji, then the keycap mark.
    pub open spec fn keycap(self) -> Seq<char> {
        match self {
            Slot::I => seq!['1', '\u{fe0f}', '\u{20e3}'],
            Slot::II => seq!['2', '\u{fe0f}', '\u{20e3}'],
            Slot::III => seq!['3', '\u{fe0f}', '\u{20e3}'],
            Slot::IV => seq!['4', '\u{fe0f}', '\u{20e3}'],
        }
    }

    /// Returns the shortcode of the emoji that shows this slot's number on a
    /// keycap.
    pub fn emoji_shortcode(self) -> (r: &'static str)
        ensures
            r@ == self.shortcode(),
    {
        match self {
            Slot::I => "one",
            Slot::II => "two",
            Slot::III => "three",
            Slot::IV => "four",
        }
    }

    /// Returns the emoji that shows this slot's number on a keycap.
    pub fn emoji(self) -> (r: &'static str)
        ensures
            r@ == self.keycap(),
    {
        emoji_by_shortcode(self.emoji_shortcode()).unwrap()
    }
}

/// The characters of a text that may be missing.
pub open spec fn text_of(found: Option<&str>) -> Option<Seq<char>> {
    match found {
        Some(text) => Some(text@),
        None => None,
    }
}

/// `emojis::get_by_shortcode`, and `Emoji::as_str` on what it finds: the
/// table of `emojis` holds the four keycaps under the shortcodes `one` to
/// `four`. Nothing is said here of any other shortcode.
#[verifier::external_body]
fn emoji_by_shortcode(shortcode: &str) -> (found: Option<&'static str>)
    ensures
        shortcode@ == "one"@ ==> text_of(found) == Some(Slot::I.keycap()),
        shortcode@ == "two"@ ==> text_of(found) == Some(Slot::II.keycap()),
        shortcode@ == "three"@ ==> text_of(found) == Some(Slot::III.keycap()),
        shortcode@ == "four"@ ==> text_of(found) == Some(Slot::IV.keycap()),
{
    match emojis::get_by_shortcode(shortcode) {
        Some(emoji) => Some(emoji.as_str()),
        None => None,
    }
}

/// The address of a link as it stands inside the round brackets of an
/// inline link: a backslash goes before each backtick and each closing round
/// bracket, and every other character stands as it is.
pub open spec fn escaped_url(url: Seq<char>) -> Seq<char>
    decreases url.len(),
{
    if url.len() == 0 {
        Seq::empty()
    } else if url.last() == '`' || url.last() == ')' {
        escaped_url(url.drop_last()) + seq!['\\', url.last()]
    } else {
        escaped_url(url.drop_last()) + seq![url.last()]
    }
}

/// An inline link: the anchor in square brackets, then the address in round
/// brackets.
pub open spec fn inline_link(url: Seq<char>, anchor: Seq<char>) -> Seq<char> {
    seq!['['] + anchor + seq![']', '('] + escaped_url(url) + seq![')']
}

/// `teloxide::utils::markdown::link`: writes the anchor in square brackets
/// as it is given, and after it the address in round brackets, with a
/// backslash before each backtick and each closing round bracket.
#[verifier::external_body]
fn markdown_link(url: &str, anchor: &str) -> (r: String)
    ensures
        r@ == inline_link(url@, anchor@),
{
    teloxide::utils::markdown::link(url, anchor)
}

/// A meeting as a reply shows it: a name, and a link where there is one.
pub struct Meeting {
    name: String,
    url: Option<String>,
}

/// A meeting as a reply shows it, with its texts as sequences of
/// characters.
pub struct MeetingView {
    pub name: Seq<char>,
    pub url: Option<Seq<char>>,
}

impl MeetingView {
    /// The text of the meeting: an inline link to its address with its name
    /// as the anchor, or the bare name where it has no address.
    pub open spec fn text(self) -> Seq<char> {
        match self.url {
            Some(url) => inline_link(url, self.name),
            None => self.name,
        }
    }
}

impl View for Meeting {
    type V = MeetingView;

    closed spec fn view(&self) -> MeetingView {
        MeetingView {
            name: self.name@,
            url: match self.url {
                Some(url) => Some(url@),
                None => None,
            },
        }
    }
}

impl Meeting {
    /// Makes a meeting with the given name and, where there is one, link.
    pub fn new(name: String, url: Option<String>) -> (r: Meeting)
        ensures
            r@.name == name@,
            r@.url == match url {
                Some(url) => Some(url@),
                None => None::<Seq<char>>,
            },
    {
        Meeting { name, url }
    }

    /// Returns the text of the meeting.
    pub fn render(&self) -> (r: String)
        ensures
            r@ == self@.text(),
    {
        match &self.url {
            Some(value) => markdown_link(value.as_str(), self.name.as_str()),
            None => self.name.clone(),
        }
    }
}

/// The line that a meeting is announced with, after the text of its
/// subject.
pub const MEETING_LINE: &'static str = "\n:teacher: ";

/// The texts of the given meetings in their order, each announced on a line
/// of its own.
pub open spec fn meeting_lines(meetings: Seq<MeetingView>) -> Seq<char>
    decreases meetings.len(),
{
    if meetings.len() == 0 {
        Seq::empty()
    } else {
        meeting_lines(meetings.drop_last()) + MEETING_LINE@ + meetings.last().text()
    }
}

/// A subject as a reply shows it: the slot it is held in, its title, and
/// the meetings that belong to it.
pub struct Subject {
    slot: Slot,
    title: String,
    meetings: Vec<Meeting>,
}

/// A subject as a reply shows it, with its texts as sequences of
/// characters.
pub struct SubjectView {
    pub slot: Slot,
    pub title: Seq<char>,
    pub meetings: Seq<MeetingView>,
}

impl SubjectView {
    /// The text of the subject: the keycap of its slot, a space, its title
    /// as it is given, and a line for each of its meetings.
    pub open spec fn text(self) -> Seq<char> {
        self.slot.keycap() + " "@ + self.title + meeting_lines(self.meetings)
    }
}

impl View for Subject {
    type V = SubjectView;

    closed spec fn view(&self) -> SubjectView {
        SubjectView {
            slot: self.slot,
            title: self.title@,
            meetings: self.meetings@.map_values(|meeting: Meeting| meeting@),
        }
    }
}

impl Subject {
    /// Makes a subject with the given slot, title and meetings.
    pub fn new(slot: Slot, title: String, meetings: Vec<Meeting>) -> (r: Subject)
        ensures
            r@.slot == slot,
            r@.title == title@,
            r@.meetings == meetings@.map_values(|meeting: Meeting| meeting@),
    {
        Subject { slot, title, meetings }
    }

    /// Returns the text of the subject.
    pub fn render(&self) -> (r: String)
        ensures
            r@ == self@.text(),
    {
        let ghost shown = self@.meetings;
        let mut text = String::from_str(self.slot.emoji());
        text.append(" ");
        text.append(self.title.as_str());
        let ghost start = text@;
        let mut i: usize = 0;
        while i < self.meetings.len()
            invariant
                i <= self.meetings.len(),
                shown == self@.meetings,
                shown.len() == self.meetings.len(),
                forall|j: int| 0 <= j < shown.len() ==> shown[j] == (#[trigger] self.meetings@[j])@,
                text@ == start + meeting_lines(shown.take(i as int)),
            decreases self.meetings.len() - i,
        {
            let line = self.meetings[i].render();
            text.append(MEETING_LINE);
            text.append(line.as_str());
            proof {
                assert(shown.take(i + 1).drop_last() == shown.take(i as int));
                assert(shown.take(i + 1).last() == self.meetings@[i as int]@);
            }
            i += 1;
        }
        proof {
            assert(shown.take(i as int) == shown);
        }
        text
    }
}

} // verus!
