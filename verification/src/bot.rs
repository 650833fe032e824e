//! What a chat command asks for, and what is to be done about it.
//!
//! Talking to the chat and to the storage is the caller's part. This module
//! holds the decisions between those steps: reading the arguments of a
//! command, working out the day, week and slot that are asked about, saying
//! what to look up or store next, and writing the reply or the message of an
//! error.

use crate::data::{Day, Group, Repeat, Slot, Subject, SubjectView};
use crate::display;
use crate::text::{find, first_index, same};
use crate::time::LocalTime;
use vstd::prelude::*;
use vstd::string::{StrSliceExecFns, StringExecFns};

verus! {

/// The parts of `text` between its spaces, in their order, where `text`
/// holds a character at all. Each space ends one part and starts the next,
/// so a text with `n` spaces has `n + 1` parts, some of which may be empty.
pub open spec fn parts(text: Seq<char>) -> Seq<Seq<char>>
    decreases text.len(),
{
    let space = first_index(text, ' ');
    if 0 <= space < text.len() {
        seq![text.take(space)] + parts(text.skip(space + 1))
    } else {
        seq![text]
    }
}

/// The words that a text is made of: none where it holds no character, and
/// its parts between its spaces otherwise.
pub open spec fn words(text: Seq<char>) -> Seq<Seq<char>> {
    if text.len() == 0 {
        Seq::empty()
    } else {
        parts(text)
    }
}

/// A text has at least one part, and no word only if it holds no character.
pub proof fn lemma_parts_len(text: Seq<char>)
    ensures
        parts(text).len() >= 1,
        words(text).len() == 0 <==> text.len() == 0,
    decreases text.len(),
{
    let space = first_index(text, ' ');
    if 0 <= space < text.len() {
        lemma_parts_len(text.skip(space + 1));
    }
}

/// Too many arguments were given to a command that takes at most two.
#[derive(Clone, Copy, Debug, PartialEq, Eq, Structural)]
pub struct TooManyArguments;

impl TooManyArguments {
    /// What to tell the user who gave too many arguments.
    pub open spec fn text() -> Seq<char> {
        "Only 2 arguments allowed!"@
    }

    /// Returns what to tell the user who gave too many arguments.
    pub fn message(&self) -> (r: &'static str)
        ensures
            r@ == TooManyArguments::text(),
    {
        "Only 2 arguments allowed!"
    }
}

/// The slot token and the date token that the arguments of a subject query
/// give. No argument gives neither. One argument is the slot; two are the
/// slot and the date, where an underscore in place of the slot gives the
/// date alone. More than two arguments are an error.
pub open spec fn subject_arguments(text: Seq<char>) -> Result<
    (Option<Seq<char>>, Option<Seq<char>>),
    TooManyArguments,
> {
    let given = words(text);
    if given.len() == 0 {
        Ok((None, None))
    } else if given.len() == 1 {
        Ok((Some(given[0]), None))
    } else if given.len() == 2 {
        if given[0] == "_"@ {
            Ok((None, Some(given[1])))
        } else {
            Ok((Some(given[0]), Some(given[1])))
        }
    } else {
        Err(TooManyArguments)
    }
}

/// The characters of a text that may be missing.
pub open spec fn text_of(text: Option<String>) -> Option<Seq<char>> {
    match text {
        Some(text) => Some(text@),
        None => None,
    }
}

/// Reads the arguments of a subject query: the slot token and the date
/// token, as far as they are given.
pub fn parse_command_subject(s: String) -> (r: Result<
    (Option<String>, Option<String>),
    TooManyArguments,
>)
    ensures
        match r {
            Ok((slot, date)) => subject_arguments(s@) == Ok::<
                (Option<Seq<char>>, Option<Seq<char>>),
                TooManyArguments,
            >((text_of(slot), text_of(date))),
            Err(error) => subject_arguments(s@) == Err::<
                (Option<Seq<char>>, Option<Seq<char>>),
                TooManyArguments,
            >(error),
        },
{
    let text = s.as_str();
    let len = text.unicode_len();
    if len == 0 {
        return Ok((None, None));
    }
    let space = find(text, ' ');
    if space >= len {
        return Ok((Some(s), None));
    }
    let first = text.substring_char(0, space);
    let rest = text.substring_char(space + 1, len);
    let rest_len = rest.unicode_len();
    let next = find(rest, ' ');
    proof {
        let all = parts(text@);
        assert(text@.take(space as int) == first@);
        assert(text@.skip(space + 1) == rest@);
        assert(all == seq![first@] + parts(rest@));
        if next < rest_len {
            let more = rest@.skip(next + 1);
            lemma_parts_len(more);
            assert(parts(rest@) == seq![rest@.take(next as int)] + parts(more));
            assert(all.len() >= 3);
        } else {
            assert(parts(rest@) == seq![rest@]);
            assert(all.len() == 2 && all[0] == first@ && all[1] == rest@);
        }
    }
    if next < rest_len {
        return Err(TooManyArguments);
    }
    if same(first, "_") {
        Ok((None, Some(String::from_str(rest))))
    } else {
        Ok((Some(String::from_str(first)), Some(String::from_str(rest))))
    }
}

/// A command as a chat sends it.
#[derive(Debug)]
pub enum Command {
    /// Bind the chat to the group that the text names.
    Config(String),
    /// Tell which subjects the chat's group has, in the slot and on the date
    /// given, or in the present slot and today where they are not given.
    Subject { slot: Option<String>, date: Option<String> },
}

/// A command, with its texts as sequences of characters.
pub enum CommandView {
    Config(Seq<char>),
    Subject { slot: Option<Seq<char>>, date: Option<Seq<char>> },
}

impl View for Command {
    type V = CommandView;

    open spec fn view(&self) -> CommandView {
        match *self {
            Command::Config(gang) => CommandView::Config(gang@),
            Command::Subject { slot, date } => CommandView::Subject {
                slot: text_of(slot),
                date: text_of(date),
            },
        }
    }
}

/// Why a command was not carried out. Each error names the chat to tell.
#[derive(Debug)]
pub enum Error {
    /// The text names no group.
    InvalidGroup(i64, String),
    /// The text is no date written as day, month and year.
    InvalidDate(i64, String),
    /// The text names no slot.
    InvalidSlot(i64, String),
    /// No classes are held on the weekday with this name.
    InvalidWeekday(i64, String),
    /// The chat is bound to no group yet.
    NoGroupConfigured(i64),
    /// The storage failed.
    Storage(i64),
}

/// An error, with its text as a sequence of characters.
pub enum ErrorView {
    InvalidGroup(i64, Seq<char>),
    InvalidDate(i64, Seq<char>),
    InvalidSlot(i64, Seq<char>),
    InvalidWeekday(i64, Seq<char>),
    NoGroupConfigured(i64),
    Storage(i64),
}

impl View for Error {
    type V = ErrorView;

    open spec fn view(&self) -> ErrorView {
        match *self {
            Error::InvalidGroup(chat, value) => ErrorView::InvalidGroup(chat, value@),
            Error::InvalidDate(chat, value) => ErrorView::InvalidDate(chat, value@),
            Error::InvalidSlot(chat, value) => ErrorView::InvalidSlot(chat, value@),
            Error::InvalidWeekday(chat, value) => ErrorView::InvalidWeekday(chat, value@),
            Error::NoGroupConfigured(chat) => ErrorView::NoGroupConfigured(chat),
            Error::Storage(chat) => ErrorView::Storage(chat),
        }
    }
}

impl ErrorView {
    /// The chat to tell about the error.
    pub open spec fn chat(self) -> i64 {
        match self {
            ErrorView::InvalidGroup(chat, _) => chat,
            ErrorView::InvalidDate(chat, _) => chat,
            ErrorView::InvalidSlot(chat, _) => chat,
            ErrorView::InvalidWeekday(chat, _) => chat,
            ErrorView::NoGroupConfigured(chat) => chat,
            ErrorView::Storage(chat) => chat,
        }
    }

    /// What to tell the chat about the error.
    pub open spec fn message(self) -> Seq<char> {
        match self {
            ErrorView::InvalidGroup(_, value) => "Invalid group: "@ + value + "."@,
            ErrorView::InvalidDate(_, value) => "Invalid date: "@ + value + "."@,
            ErrorView::InvalidSlot(_, value) => "Invalid slot: "@ + value + "."@,
            ErrorView::InvalidWeekday(_, value) => "Invalid weekday: "@ + value + "."@,
            ErrorView::NoGroupConfigured(_) => "Please configure your group with `/config <group>`"@,
            ErrorView::Storage(_) => "Something went wrong"@,
        }
    }
}

/// Writes `value` between `before` and a full stop.
fn sentence(before: &str, value: &str) -> (r: String)
    ensures
        r@ == before@ + value@ + "."@,
{
    let mut text = String::from_str(before);
    text.append(value);
    text.append(".");
    text
}

impl Error {
    /// Returns the chat to tell about the error, and what to tell it.
    pub fn reply(&self) -> (r: (i64, String))
        ensures
            r.0 == self@.chat(),
            r.1@ == self@.message(),
    {
        match self {
            Error::InvalidGroup(chat, value) => (*chat, sentence("Invalid group: ", value.as_str())),
            Error::InvalidDate(chat, value) => (*chat, sentence("Invalid date: ", value.as_str())),
            Error::InvalidSlot(chat, value) => (*chat, sentence("Invalid slot: ", value.as_str())),
            Error::InvalidWeekday(chat, value) => (
                *chat,
                sentence("Invalid weekday: ", value.as_str()),
            ),
            Error::NoGroupConfigured(chat) => (
                *chat,
                String::from_str("Please configure your group with `/config <group>`"),
            ),
            Error::Storage(chat) => (*chat, String::from_str("Something went wrong")),
        }
    }
}

/// The day, the week and the slot that a query asks about.
#[derive(Clone, Copy, Debug, PartialEq, Eq, Structural)]
pub struct Query {
    pub day: Day,
    pub repeat: Repeat,
    pub slot: Slot,
}

/// What the date token of a query stands for.
#[derive(Debug)]
pub enum DateReading {
    /// No date was given: the query is about today.
    Today,
    /// The date that was given, at noon.
    On(LocalTime),
    /// The text that was given is no date.
    Unreadable(String),
}

/// A reading of a date token, with its text as a sequence of characters.
pub enum DateReadingView {
    Today,
    On(LocalTime),
    Unreadable(Seq<char>),
}

impl View for DateReading {
    type V = DateReadingView;

    open spec fn view(&self) -> DateReadingView {
        match *self {
            DateReading::Today => DateReadingView::Today,
            DateReading::On(time) => DateReadingView::On(time),
            DateReading::Unreadable(value) => DateReadingView::Unreadable(value@),
        }
    }
}

/// What the date token `date` stands for: today where none is given, noon
/// of the date it writes, or nothing.
pub open spec fn date_read(date: Option<Seq<char>>) -> DateReadingView {
    match date {
        None => DateReadingView::Today,
        Some(value) => match LocalTime::on_spec(value) {
            Some(time) => DateReadingView::On(time),
            None => DateReadingView::Unreadable(value),
        },
    }
}

/// The day, the week and the slot that a query asks about in a chat, at a
/// moment when the clock in Kyiv shows `now`. A slot token, where one is
/// given, decides the slot, and the clock does otherwise. A date, where one
/// is given, decides the day and the week, and today's date does otherwise.
/// The first of these to fail gives the error: a slot token that names no
/// slot, a date token that is no date, a day on which no classes are held.
pub open spec fn resolved(
    chat: i64,
    now: LocalTime,
    slot: Option<Seq<char>>,
    date: DateReadingView,
) -> Result<Query, ErrorView> {
    let chosen = match slot {
        Some(value) => Slot::parse(value),
        None => Some(Slot::at(now.second as int)),
    };
    let time = match date {
        DateReadingView::Today => Some(now),
        DateReadingView::On(time) => Some(time),
        DateReadingView::Unreadable(_) => None,
    };
    match (chosen, time) {
        (None, _) => Err(ErrorView::InvalidSlot(chat, slot->0)),
        (Some(_), None) => Err(ErrorView::InvalidDate(chat, date->Unreadable_0)),
        (Some(slot), Some(time)) => match Day::of_weekday(time.weekday) {
            None => Err(ErrorView::InvalidWeekday(chat, time.weekday.label())),
            Some(day) => Ok(Query { day, repeat: Repeat::of_day(time.day as int), slot }),
        },
    }
}

/// Tells what the date token of a query stands for.
pub fn read_date(date: Option<String>) -> (r: DateReading)
    ensures
        r@ == date_read(text_of(date)),
{
    match date {
        None => DateReading::Today,
        Some(value) => match LocalTime::on(value.as_str()) {
            Some(time) => DateReading::On(time),
            None => DateReading::Unreadable(value),
        },
    }
}

/// Works out the day, the week and the slot that a query asks about in the
/// chat `chat`, at a moment when the clock in Kyiv shows `now`, from the
/// slot token and the reading of the date token.
pub fn resolve(chat: i64, now: &LocalTime, slot: Option<String>, date: DateReading) -> (r: Result<
    Query,
    Error,
>)
    ensures
        match r {
            Ok(query) => resolved(chat, *now, text_of(slot), date@) == Ok::<Query, ErrorView>(query),
            Err(error) => resolved(chat, *now, text_of(slot), date@) == Err::<Query, ErrorView>(
                error@,
            ),
        },
{
    let slot = match slot {
        Some(value) => match Slot::try_from(value.as_str()) {
            Ok(slot) => slot,
            Err(_) => {
                return Err(Error::InvalidSlot(chat, value));
            },
        },
        None => Slot::from(now),
    };
    let time = match date {
        DateReading::Today => *now,
        DateReading::On(time) => time,
        DateReading::Unreadable(value) => {
            return Err(Error::InvalidDate(chat, value));
        },
    };
    let day = match Day::try_from(&time) {
        Ok(day) => day,
        Err(error) => {
            return Err(Error::InvalidWeekday(chat, String::from_str(error.weekday.name())));
        },
    };
    let repeat = Repeat::from(&time);
    Ok(Query { day, repeat, slot })
}

/// What is known of the group a chat is bound to, once the storage was
/// asked.
#[derive(Clone, Copy, Debug, PartialEq, Eq, Structural)]
pub enum Lookup {
    /// The chat is bound to this group.
    Found(Group),
    /// The chat is bound to no group.
    Missing,
    /// The storage failed.
    Failed,
}

/// A command that has been read and waits for the group of its chat.
#[derive(Clone, Copy, Debug, PartialEq, Eq, Structural)]
pub enum Pending {
    /// The chat is to be bound to this group.
    Configure { chat: i64, group: Group },
    /// The chat asks for the subjects of its group at this day, week and
    /// slot.
    Query { chat: i64, query: Query },
}

/// What to ask of the storage for a command, once the group of its chat is
/// known.
#[derive(Clone, Copy, Debug, PartialEq, Eq, Structural)]
pub enum Step {
    /// Change the group that the chat is bound to.
    UpdateUser { chat: i64, group: Group },
    /// Bind the chat, which is bound to no group yet, to this group.
    AddUser { chat: i64, group: Group },
    /// Select the subjects of this group at this day, week and slot.
    GetSubjects { chat: i64, query: Query, group: Group },
}

/// What `command` from the chat `chat` comes to, at a moment when the clock
/// in Kyiv shows `now`, before the storage is asked anything: a group to
/// bind the chat to, a query to answer, or the error in the command's
/// texts.
pub open spec fn started(chat: i64, now: LocalTime, command: CommandView) -> Result<
    Pending,
    ErrorView,
> {
    match command {
        CommandView::Config(gang) => match Group::parse(gang) {
            Some(group) => Ok(Pending::Configure { chat, group }),
            None => Err(ErrorView::InvalidGroup(chat, gang)),
        },
        CommandView::Subject { slot, date } => match resolved(chat, now, slot, date_read(date)) {
            Ok(query) => Ok(Pending::Query { chat, query }),
            Err(error) => Err(error),
        },
    }
}

/// Reads a command from the chat `chat`, at a moment when the clock in Kyiv
/// shows `now`, as far as that can be done before the storage is asked
/// anything.
pub fn command_handler(chat: i64, now: &LocalTime, command: Command) -> (r: Result<Pending, Error>)
    ensures
        match r {
            Ok(pending) => started(chat, *now, command@) == Ok::<Pending, ErrorView>(pending),
            Err(error) => started(chat, *now, command@) == Err::<Pending, ErrorView>(error@),
        },
{
    match command {
        Command::Config(gang) => match Group::try_from(gang.as_str()) {
            Ok(group) => Ok(Pending::Configure { chat, group }),
            Err(_) => Err(Error::InvalidGroup(chat, gang)),
        },
        Command::Subject { slot, date } => {
            let reading = read_date(date);
            match resolve(chat, now, slot, reading) {
                Ok(query) => Ok(Pending::Query { chat, query }),
                Err(error) => Err(error),
            }
        },
    }
}

/// Reads a command from the chat `chat` that was sent at `timestamp` seconds
/// after the start of 1970 in UTC, as far as that can be done before the
/// storage is asked anything. `None` where the instant is too far from 1970
/// to have a local time; the command is read in every other case.
pub fn command_at(chat: i64, timestamp: i64, command: Command) -> (r: Option<
    Result<Pending, Error>,
>)
    ensures
        match r {
            Some(Ok(pending)) => LocalTime::at_spec(timestamp as int) matches Some(now) && started(
                chat,
                now,
                command@,
            ) == Ok::<Pending, ErrorView>(pending),
            Some(Err(error)) => LocalTime::at_spec(timestamp as int) matches Some(now) && started(
                chat,
                now,
                command@,
            ) == Err::<Pending, ErrorView>(error@),
            None => LocalTime::at_spec(timestamp as int) is None,
        },
{
    match LocalTime::at(timestamp) {
        Some(now) => Some(command_handler(chat, &now, command)),
        None => None,
    }
}

impl Pending {
    /// What to ask of the storage next, given what it said of the chat's
    /// group. To bind a chat, its binding is changed where it has one and
    /// made where it has none. A query needs the chat to be bound to a
    /// group. A failure of the storage ends either.
    pub open spec fn next(self, lookup: Lookup) -> Result<Step, ErrorView> {
        match self {
            Pending::Configure { chat, group } => match lookup {
                Lookup::Found(_) => Ok(Step::UpdateUser { chat, group }),
                Lookup::Missing => Ok(Step::AddUser { chat, group }),
                Lookup::Failed => Err(ErrorView::Storage(chat)),
            },
            Pending::Query { chat, query } => match lookup {
                Lookup::Found(group) => Ok(Step::GetSubjects { chat, query, group }),
                Lookup::Missing => Err(ErrorView::NoGroupConfigured(chat)),
                Lookup::Failed => Err(ErrorView::Storage(chat)),
            },
        }
    }

    /// Tells what to ask of the storage next, given what it said of the
    /// chat's group.
    pub fn after_lookup(self, lookup: Lookup) -> (r: Result<Step, Error>)
        ensures
            match r {
                Ok(step) => self.next(lookup) == Ok::<Step, ErrorView>(step),
                Err(error) => self.next(lookup) == Err::<Step, ErrorView>(error@),
            },
    {
        match self {
            Pending::Configure { chat, group } => match lookup {
                Lookup::Found(_) => Ok(Step::UpdateUser { chat, group }),
                Lookup::Missing => Ok(Step::AddUser { chat, group }),
                Lookup::Failed => Err(Error::Storage(chat)),
            },
            Pending::Query { chat, query } => match lookup {
                Lookup::Found(group) => Ok(Step::GetSubjects { chat, query, group }),
                Lookup::Missing => Err(Error::NoGroupConfigured(chat)),
                Lookup::Failed => Err(Error::Storage(chat)),
            },
        }
    }
}

/// Ends a command that changed what is stored: it went well exactly when
/// the storage did not fail.
pub fn after_write(chat: i64, stored: bool) -> (r: Result<(), Error>)
    ensures
        match r {
            Ok(_) => stored,
            Err(error) => !stored && error@ == ErrorView::Storage(chat),
        },
{
    if stored {
        Ok(())
    } else {
        Err(Error::Storage(chat))
    }
}

/// A message for a chat.
#[derive(Debug)]
pub struct Reply {
    pub chat: i64,
    pub text: String,
    /// Whether the text is written in MarkdownV2.
    pub markdown: bool,
}

/// What to tell a chat whose group has no subject at the time asked about.
pub const NOTHING_FOUND: &'static str = "No such subject is found.";

/// The text that lists the given subjects in their order: for each the
/// keycap of the slot and the subject's title, then a line break.
pub open spec fn listing(slot: Slot, subjects: Seq<SubjectView>) -> Seq<char>
    decreases subjects.len(),
{
    if subjects.len() == 0 {
        Seq::empty()
    } else {
        listing(slot, subjects.drop_last()) + (display::SubjectView {
            slot,
            title: subjects.last().title,
            meetings: Seq::empty(),
        }).text() + "\n"@
    }
}

/// Writes the answer to a query about `slot` from the chat `chat`. `found`
/// holds the subjects that were selected, or `None` where the storage
/// failed, which is an error. Where no subject was selected the answer says
/// so in plain text; otherwise it lists the subjects in MarkdownV2.
pub fn after_subjects(chat: i64, slot: Slot, found: Option<Vec<Subject>>) -> (r: Result<
    Reply,
    Error,
>)
    ensures
        match r {
            Ok(reply) => found matches Some(subjects) && reply.chat == chat && reply.markdown == (
            subjects@.len() > 0) && reply.text@ == (if subjects@.len() == 0 {
                NOTHING_FOUND@
            } else {
                listing(slot, subjects@.map_values(|subject: Subject| subject@))
            }),
            Err(error) => found is None && error@ == ErrorView::Storage(chat),
        },
{
    let subjects = match found {
        Some(subjects) => subjects,
        None => {
            return Err(Error::Storage(chat));
        },
    };
    if subjects.len() == 0 {
        return Ok(Reply { chat, text: String::from_str(NOTHING_FOUND), markdown: false });
    }
    let ghost listed = subjects@.map_values(|subject: Subject| subject@);
    let mut text = String::new();
    let mut i: usize = 0;
    while i < subjects.len()
        invariant
            i <= subjects.len(),
            listed == subjects@.map_values(|subject: Subject| subject@),
            text@ == listing(slot, listed.take(i as int)),
        decreases subjects.len() - i,
    {
        let shown = display::Subject::new(slot, subjects[i].title.clone(), Vec::new());
        let line = shown.render();
        text.append(line.as_str());
        text.append("\n");
        proof {
            assert(listed.take(i + 1).drop_last() == listed.take(i as int));
            assert(listed.take(i + 1).last() == subjects@[i as int]@);
            assert(shown@.meetings == Seq::<display::MeetingView>::empty());
            assert(shown@ == display::SubjectView {
                slot,
                title: subjects@[i as int]@.title,
                meetings: Seq::empty(),
            });
        }
        i += 1;
    }
    proof {
        assert(listed.take(i as int) == listed);
    }
    Ok(Reply { chat, text, markdown: true })
}

/// A query asks about odd weeks or about even weeks, never about both.
pub proof fn lemma_query_is_about_one_week(
    chat: i64,
    now: LocalTime,
    slot: Option<Seq<char>>,
    date: DateReadingView,
)
    ensures
        resolved(chat, now, slot, date) matches Ok(query) ==> query.repeat == Repeat::Odd
            || query.repeat == Repeat::Even,
{
}

/// A slot token that names a slot decides the slot of the query, whatever
/// the clock shows; without a token the clock decides.
pub proof fn lemma_slot_token_decides(
    chat: i64,
    now: LocalTime,
    slot: Option<Seq<char>>,
    date: DateReadingView,
)
    ensures
        resolved(chat, now, slot, date) matches Ok(query) ==> query.slot == match slot {
            Some(token) => Slot::parse(token).unwrap(),
            None => Slot::at(now.second as int),
        },
        slot is Some && Slot::parse(slot->0) is None ==> resolved(chat, now, slot, date) == Err::<
            Query,
            ErrorView,
        >(ErrorView::InvalidSlot(chat, slot->0)),
{
}

/// A date that was given decides the day and the week of the query,
/// whatever today's date is; without one today's date decides. A date token
/// that cannot be read is an error, and never stands for today.
pub proof fn lemma_date_decides(
    chat: i64,
    now: LocalTime,
    slot: Option<Seq<char>>,
    date: DateReadingView,
)
    ensures
        resolved(chat, now, slot, date) matches Ok(query) ==> {
            let time = match date {
                DateReadingView::On(time) => time,
                _ => now,
            };
            &&& date !is Unreadable
            &&& Day::of_weekday(time.weekday) == Some(query.day)
            &&& query.repeat == Repeat::of_day(time.day as int)
        },
{
}

/// A chat that is bound to no group is told so, which is another outcome
/// than an answer that no subject was found: the one is an error before any
/// subject is looked for, the other the step that looks for them.
pub proof fn lemma_unbound_chat_is_no_empty_answer(chat: i64, query: Query, lookup: Lookup)
    ensures
        (Pending::Query { chat, query }).next(lookup) is Ok <==> lookup is Found,
        lookup is Missing ==> (Pending::Query { chat, query }).next(lookup) == Err::<
            Step,
            ErrorView,
        >(ErrorView::NoGroupConfigured(chat)),
{
}

} // verus!
