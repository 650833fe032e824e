//! The values a timetable is written in, and the records it is made of.

use crate::text::{decimal_i64, parse_i64, same};
use crate::time::{LocalTime, Weekday};
use vstd::prelude::*;
use vstd::std_specs::convert::{FromSpecImpl, TryFromSpecImpl};
use vstd::string::StringExecFns;

verus! {

/// A token that names no member of the set it was read for.
#[derive(Clone, Copy, Debug, PartialEq, Eq, Structural)]
pub enum ParseError {
    NotARepeat,
    NotAGroup,
    NotADay,
    NotASlot,
}

/// A weekday on which no classes are held.
#[derive(Clone, Copy, Debug, PartialEq, Eq, Structural)]
pub struct InvalidWeekday {
    pub weekday: Weekday,
}

/// Which of the two alternating weeks a class is held in. A moment in time
/// falls in an odd or an even week; `Both` is written on timetable entries
/// only, for a class that is held every week.
#[derive(Clone, Copy, Debug, PartialEq, Eq, Structural)]
pub enum Repeat {
    Odd,
    Even,
    Both,
}

impl Repeat {
    /// The token that names this repeat.
    pub open spec fn token(self) -> Seq<char> {
        match self {
            Repeat::Odd => "Odd"@,
            Repeat::Even => "Even"@,
            Repeat::Both => "Both"@,
        }
    }

    /// The repeat that `token` names, if it names one.
    pub open spec fn parse(token: Seq<char>) -> Option<Repeat> {
        if token == "Odd"@ {
            Some(Repeat::Odd)
        } else if token == "Even"@ {
            Some(Repeat::Even)
        } else if token == "Both"@ {
            Some(Repeat::Both)
        } else {
            None
        }
    }

    /// The number a repeat is stored as, read as two bits: the lower one for
    /// odd weeks, the higher one for even weeks.
    pub open spec fn bits(self) -> int {
        match self {
            Repeat::Odd => 1,
            Repeat::Even => 2,
            Repeat::Both => 3,
        }
    }

    /// The repeat stored as `bits`, if there is one.
    pub open spec fn of_bits(bits: int) -> Option<Repeat> {
        if bits == 1 {
            Some(Repeat::Odd)
        } else if bits == 2 {
            Some(Repeat::Even)
        } else if bits == 3 {
            Some(Repeat::Both)
        } else {
            None
        }
    }

    /// The week that the given day of a month falls in. The weeks of a month
    /// are counted from its first day in runs of seven days; the first week
    /// is even, the second odd, and so on in turn.
    pub open spec fn of_day(day: int) -> Repeat {
        if ((day + 6) / 7) % 2 == 0 {
            Repeat::Odd
        } else {
            Repeat::Even
        }
    }

    /// Whether a timetable entry written with this repeat is held in a week
    /// of kind `week`: every entry is held in the weeks it names, and one
    /// written with `Both` in all of them.
    pub open spec fn covers(self, week: Repeat) -> bool {
        self == week || self == Repeat::Both
    }

    /// Returns the token that names this repeat.
    pub fn name(self) -> (r: &'static str)
        ensures
            r@ == self.token(),
    {
        match self {
            Repeat::Odd => "Odd",
            Repeat::Even => "Even",
            Repeat::Both => "Both",
        }
    }

    /// Returns the number this repeat is stored as.
    pub fn code(self) -> (r: u8)
        ensures
            r == self.bits(),
    {
        match self {
            Repeat::Odd => 1,
            Repeat::Even => 2,
            Repeat::Both => 3,
        }
    }

    /// Returns the repeat stored as `code`, if there is one.
    pub fn from_code(code: u8) -> (r: Option<Repeat>)
        ensures
            r == Repeat::of_bits(code as int),
    {
        match code {
            1 => Some(Repeat::Odd),
            2 => Some(Repeat::Even),
            3 => Some(Repeat::Both),
            _ => None,
        }
    }

    /// Tells whether a timetable entry written with this repeat is held in
    /// a week of kind `week`.
    pub fn is_held_in(self, week: Repeat) -> (r: bool)
        ensures
            r == self.covers(week),
    {
        self == week || self == Repeat::Both
    }
}

impl<'a> TryFrom<&'a str> for Repeat {
    type Error = ParseError;

    /// Reads a repeat from the token that names it.
    fn try_from(value: &'a str) -> (r: Result<Repeat, ParseError>) {
        if same(value, "Odd") {
            Ok(Repeat::Odd)
        } else if same(value, "Even") {
            Ok(Repeat::Even)
        } else if same(value, "Both") {
            Ok(Repeat::Both)
        } else {
            Err(ParseError::NotARepeat)
        }
    }
}

impl<'a> TryFromSpecImpl<&'a str> for Repeat {
    open spec fn obeys_try_from_spec() -> bool {
        true
    }

    open spec fn try_from_spec(v: &'a str) -> Result<Repeat, ParseError> {
        match Repeat::parse(v@) {
            Some(repeat) => Ok(repeat),
            None => Err(ParseError::NotARepeat),
        }
    }
}

impl<'a> From<&'a LocalTime> for Repeat {
    /// Tells which week the day of the month of `value` falls in.
    fn from(value: &'a LocalTime) -> (r: Repeat) {
        let week = (value.day as u64 + 6) / 7;
        if week % 2 == 0 {
            Repeat::Odd
        } else {
            Repeat::Even
        }
    }
}

impl<'a> FromSpecImpl<&'a LocalTime> for Repeat {
    open spec fn obeys_from_spec() -> bool {
        true
    }

    open spec fn from_spec(v: &'a LocalTime) -> Repeat {
        Repeat::of_day(v.day as int)
    }
}

/// A group of students who share a timetable.
#[derive(Clone, Copy, Debug, PartialEq, Eq, Structural)]
pub enum Group {
    K25,
}

impl Group {
    /// The token that names this group.
    pub open spec fn token(self) -> Seq<char> {
        match self {
            Group::K25 => "K-25"@,
        }
    }

    /// The group that `token` names, if it names one.
    pub open spec fn parse(token: Seq<char>) -> Option<Group> {
        if token == "K-25"@ {
            Some(Group::K25)
        } else {
            None
        }
    }

    /// Returns the token that names this group.
    pub fn name(&self) -> (r: &'static str)
        ensures
            r@ == self.token(),
    {
        match self {
            Group::K25 => "K-25",
        }
    }
}

impl<'a> TryFrom<&'a str> for Group {
    type Error = ParseError;

    /// Reads a group from the token that names it.
    fn try_from(value: &'a str) -> (r: Result<Group, ParseError>) {
        if same(value, "K-25") {
            Ok(Group::K25)
        } else {
            Err(ParseError::NotAGroup)
        }
    }
}

impl<'a> TryFromSpecImpl<&'a str> for Group {
    open spec fn obeys_try_from_spec() -> bool {
        true
    }

    open spec fn try_from_spec(v: &'a str) -> Result<Group, ParseError> {
        match Group::parse(v@) {
            Some(group) => Ok(group),
            None => Err(ParseError::NotAGroup),
        }
    }
}

/// A day on which classes are held: Monday to Friday.
#[derive(Clone, Copy, Debug, PartialEq, Eq, Structural)]
pub enum Day {
    Mon,
    Tue,
    Wed,
    Thu,
    Fri,
}

impl Day {
    /// The token that names this day.
    pub open spec fn token(self) -> Seq<char> {
        match self {
            Day::Mon => "Mon"@,
            Day::Tue => "Tue"@,
            Day::Wed => "Wed"@,
            Day::Thu => "Thu"@,
            Day::Fri => "Fri"@,
        }
    }

    /// The day that `token` names, if it names one.
    pub open spec fn parse(token: Seq<char>) -> Option<Day> {
        if token == "Mon"@ {
            Some(Day::Mon)
        } else if token == "Tue"@ {
            Some(Day::Tue)
        } else if token == "Wed"@ {
            Some(Day::Wed)
        } else if token == "Thu"@ {
            Some(Day::Thu)
        } else if token == "Fri"@ {
            Some(Day::Fri)
        } else {
            None
        }
    }

    /// The number a day is stored as: 1 for Monday up to 5 for Friday.
    pub open spec fn number(self) -> int {
        match self {
            Day::Mon => 1,
            Day::Tue => 2,
            Day::Wed => 3,
            Day::Thu => 4,
            Day::Fri => 5,
        }
    }

    /// The day stored as `number`, if there is one.
    pub open spec fn of_number(number: int) -> Option<Day> {
        if number == 1 {
            Some(Day::Mon)
        } else if number == 2 {
            Some(Day::Tue)
        } else if number == 3 {
            Some(Day::Wed)
        } else if number == 4 {
            Some(Day::Thu)
        } else if number == 5 {
            Some(Day::Fri)
        } else {
            None
        }
    }

    /// The day of classes that falls on `weekday`, if classes are held then.
    pub open spec fn of_weekday(weekday: Weekday) -> Option<Day> {
        match weekday {
            Weekday::Mon => Some(Day::Mon),
            Weekday::Tue => Some(Day::Tue),
            Weekday::Wed => Some(Day::Wed),
            Weekday::Thu => Some(Day::Thu),
            Weekday::Fri => Some(Day::Fri),
            Weekday::Sat => None,
            Weekday::Sun => None,
        }
    }

    /// Returns the token that names this day.
    pub fn name(self) -> (r: &'static str)
        ensures
            r@ == self.token(),
    {
        match self {
            Day::Mon => "Mon",
            Day::Tue => "Tue",
            Day::Wed => "Wed",
            Day::Thu => "Thu",
            Day::Fri => "Fri",
        }
    }

    /// Returns the number this day is stored as.
    pub fn code(self) -> (r: u8)
        ensures
            r == self.number(),
    {
        match self {
            Day::Mon => 1,
            Day::Tue => 2,
            Day::Wed => 3,
            Day::Thu => 4,
            Day::Fri => 5,
        }
    }

    /// Returns the day stored as `code`, if there is one.
    pub fn from_code(code: u8) -> (r: Option<Day>)
        ensures
            r == Day::of_number(code as int),
    {
        match code {
            1 => Some(Day::Mon),
            2 => Some(Day::Tue),
            3 => Some(Day::Wed),
            4 => Some(Day::Thu),
            5 => Some(Day::Fri),
            _ => None,
        }
    }
}

impl<'a> TryFrom<&'a str> for Day {
    type Error = ParseError;

    /// Reads a day from the token that names it.
    fn try_from(value: &'a str) -> (r: Result<Day, ParseError>) {
        if same(value, "Mon") {
            Ok(Day::Mon)
        } else if same(value, "Tue") {
            Ok(Day::Tue)
        } else if same(value, "Wed") {
            Ok(Day::Wed)
        } else if same(value, "Thu") {
            Ok(Day::Thu)
        } else if same(value, "Fri") {
            Ok(Day::Fri)
        } else {
            Err(ParseError::NotADay)
        }
    }
}

impl<'a> TryFromSpecImpl<&'a str> for Day {
    open spec fn obeys_try_from_spec() -> bool {
        true
    }

    open spec fn try_from_spec(v: &'a str) -> Result<Day, ParseError> {
        match Day::parse(v@) {
            Some(day) => Ok(day),
            None => Err(ParseError::NotADay),
        }
    }
}

impl<'a> TryFrom<&'a LocalTime> for Day {
    type Error = InvalidWeekday;

    /// Tells which day of classes `value` falls on; a Saturday or a Sunday
    /// is rejected and handed back in the error.
    fn try_from(value: &'a LocalTime) -> (r: Result<Day, InvalidWeekday>) {
        match value.weekday {
            Weekday::Mon => Ok(Day::Mon),
            Weekday::Tue => Ok(Day::Tue),
            Weekday::Wed => Ok(Day::Wed),
            Weekday::Thu => Ok(Day::Thu),
            Weekday::Fri => Ok(Day::Fri),
            other => Err(InvalidWeekday { weekday: other }),
        }
    }
}

impl<'a> TryFromSpecImpl<&'a LocalTime> for Day {
    open spec fn obeys_try_from_spec() -> bool {
        true
    }

    open spec fn try_from_spec(v: &'a LocalTime) -> Result<Day, InvalidWeekday> {
        match Day::of_weekday(v.weekday) {
            Some(day) => Ok(day),
            None => Err(InvalidWeekday { weekday: v.weekday }),
        }
    }
}

/// One of the four class periods of a day, in their order.
#[derive(Clone, Copy, Debug, PartialEq, Eq, Structural)]
pub enum Slot {
    I,
    II,
    III,
    IV,
}

/// The second of the day at which the first period ends: 10:15.
pub const FIRST_END: u32 = 36_900;

/// The second of the day at which the second period ends: 12:10.
pub const SECOND_END: u32 = 43_800;

/// The second of the day at which the third period ends: 13:55.
pub const THIRD_END: u32 = 50_100;

/// The second of the day at which the fourth period ends: 15:40.
pub const FOURTH_END: u32 = 56_400;

impl Slot {
    /// The token that names this slot in Roman numerals.
    pub open spec fn token(self) -> Seq<char> {
        match self {
            Slot::I => "I"@,
            Slot::II => "II"@,
            Slot::III => "III"@,
            Slot::IV => "IV"@,
        }
    }

    /// The token that names this slot by its number.
    pub open spec fn digit(self) -> Seq<char> {
        match self {
            Slot::I => "1"@,
            Slot::II => "2"@,
            Slot::III => "3"@,
            Slot::IV => "4"@,
        }
    }

    /// The slot that `token` names, by number or in Roman numerals, if it
    /// names one.
    pub open spec fn parse(token: Seq<char>) -> Option<Slot> {
        if token == "1"@ || token == "I"@ {
            Some(Slot::I)
        } else if token == "2"@ || token == "II"@ {
            Some(Slot::II)
        } else if token == "3"@ || token == "III"@ {
            Some(Slot::III)
        } else if token == "4"@ || token == "IV"@ {
            Some(Slot::IV)
        } else {
            None
        }
    }

    /// The number a slot is stored as, which is its place in the day.
    pub open spec fn number(self) -> int {
        match self {
            Slot::I => 1,
            Slot::II => 2,
            Slot::III => 3,
            Slot::IV => 4,
        }
    }

    /// The slot stored as `number`, if there is one.
    pub open spec fn of_number(number: int) -> Option<Slot> {
        if number == 1 {
            Some(Slot::I)
        } else if number == 2 {
            Some(Slot::II)
        } else if number == 3 {
            Some(Slot::III)
        } else if number == 4 {
            Some(Slot::IV)
        } else {
            None
        }
    }

    /// The second of the day at which the period of this slot ends.
    pub open spec fn end(self) -> int {
        match self {
            Slot::I => FIRST_END as int,
            Slot::II => SECOND_END as int,
            Slot::III => THIRD_END as int,
            Slot::IV => FOURTH_END as int,
        }
    }

    /// The slot that a clock showing `second` seconds since midnight falls
    /// in: the first period that has not ended yet. Once the fourth period
    /// has ended, it is the first one again.
    pub open spec fn at(second: int) -> Slot {
        if second < FIRST_END {
            Slot::I
        } else if second < SECOND_END {
            Slot::II
        } else if second < THIRD_END {
            Slot::III
        } else if second < FOURTH_END {
            Slot::IV
        } else {
            Slot::I
        }
    }

    /// Returns the token that names this slot in Roman numerals.
    pub fn name(self) -> (r: &'static str)
        ensures
            r@ == self.token(),
    {
        match self {
            Slot::I => "I",
            Slot::II => "II",
            Slot::III => "III",
            Slot::IV => "IV",
        }
    }

    /// Returns the number this slot is stored as.
    pub fn code(self) -> (r: u8)
        ensures
            r == self.number(),
    {
        match self {
            Slot::I => 1,
            Slot::II => 2,
            Slot::III => 3,
            Slot::IV => 4,
        }
    }

    /// Returns the slot stored as `code`, if there is one.
    pub fn from_code(code: u8) -> (r: Option<Slot>)
        ensures
            r == Slot::of_number(code as int),
    {
        match code {
            1 => Some(Slot::I),
            2 => Some(Slot::II),
            3 => Some(Slot::III),
            4 => Some(Slot::IV),
            _ => None,
        }
    }
}

impl<'a> TryFrom<&'a str> for Slot {
    type Error = ParseError;

    /// Reads a slot from a token that names it, by number or in Roman
    /// numerals.
    fn try_from(value: &'a str) -> (r: Result<Slot, ParseError>) {
        if same(value, "1") || same(value, "I") {
            Ok(Slot::I)
        } else if same(value, "2") || same(value, "II") {
            Ok(Slot::II)
        } else if same(value, "3") || same(value, "III") {
            Ok(Slot::III)
        } else if same(value, "4") || same(value, "IV") {
            Ok(Slot::IV)
        } else {
            Err(ParseError::NotASlot)
        }
    }
}

impl<'a> TryFromSpecImpl<&'a str> for Slot {
    open spec fn obeys_try_from_spec() -> bool {
        true
    }

    open spec fn try_from_spec(v: &'a str) -> Result<Slot, ParseError> {
        match Slot::parse(v@) {
            Some(slot) => Ok(slot),
            None => Err(ParseError::NotASlot),
        }
    }
}

impl<'a> From<&'a LocalTime> for Slot {
    /// Tells which slot the clock of `value` falls in, by going through the
    /// ends of the four periods in their order.
    fn from(value: &'a LocalTime) -> (r: Slot) {
        let ends = [
            (FIRST_END, Slot::I),
            (SECOND_END, Slot::II),
            (THIRD_END, Slot::III),
            (FOURTH_END, Slot::IV),
        ];
        let mut i: usize = 0;
        while i < 4
            invariant
                i <= 4,
                ends@ == seq![
                    (FIRST_END, Slot::I),
                    (SECOND_END, Slot::II),
                    (THIRD_END, Slot::III),
                    (FOURTH_END, Slot::IV),
                ],
                forall|j: int| 0 <= j < i ==> value.second >= (#[trigger] ends@[j]).0,
            decreases 4 - i,
        {
            let (end, slot) = ends[i];
            if value.second < end {
                assert(i > 0 ==> value.second >= ends@[i - 1].0);
                return slot;
            }
            i += 1;
        }
        assert(value.second >= ends@[3].0);
        Slot::I
    }
}

impl<'a> FromSpecImpl<&'a LocalTime> for Slot {
    open spec fn obeys_from_spec() -> bool {
        true
    }

    open spec fn from_spec(v: &'a LocalTime) -> Slot {
        Slot::at(v.second as int)
    }
}

/// The places of a packed record that hold a value.
#[derive(Clone, Copy, Debug, PartialEq, Eq, Structural)]
pub enum Field {
    Id,
    Title,
    Group,
    Optional,
    Name,
    Link,
    Day,
    SubjectId,
    Repeat,
    Slot,
    MeetingId,
}

/// Why a run of packed values is no record.
#[derive(Clone, Copy, Debug, PartialEq, Eq, Structural)]
pub enum UnpackError {
    /// The values end before the one for this field.
    Missing(Field),
    /// The value for this field is no decimal number that fits in 64 bits.
    NotANumber(Field),
    /// A value names no member of the set its field is read in.
    Token(ParseError),
}

/// A subject taught to a group.
#[derive(Debug)]
pub struct Subject {
    pub id: i64,
    pub title: String,
    pub group: Group,
    pub optional: bool,
}

/// A subject, with its title as a sequence of characters.
pub struct SubjectView {
    pub id: i64,
    pub title: Seq<char>,
    pub group: Group,
    pub optional: bool,
}

impl View for Subject {
    type V = SubjectView;

    open spec fn view(&self) -> SubjectView {
        SubjectView { id: self.id, title: self.title@, group: self.group, optional: self.optional }
    }
}

impl Clone for Subject {
    fn clone(&self) -> (r: Subject)
        ensures
            r@ == self@,
    {
        Subject {
            id: self.id,
            title: self.title.clone(),
            group: self.group,
            optional: self.optional,
        }
    }
}

/// A place where a group meets a teacher: a name and a link.
#[derive(Debug)]
pub struct Meeting {
    pub id: i64,
    pub name: String,
    pub group: Group,
    pub link: String,
}

/// A meeting, with its texts as sequences of characters.
pub struct MeetingView {
    pub id: i64,
    pub name: Seq<char>,
    pub group: Group,
    pub link: Seq<char>,
}

impl View for Meeting {
    type V = MeetingView;

    open spec fn view(&self) -> MeetingView {
        MeetingView { id: self.id, name: self.name@, group: self.group, link: self.link@ }
    }
}

/// An entry of the timetable: the subject with the given number is held on
/// this day, in this slot, in the weeks that the repeat names.
#[derive(Clone, Copy, Debug, PartialEq, Eq, Structural)]
pub struct Schedule {
    pub subject_id: i64,
    pub day: Day,
    pub repeat: Repeat,
    pub slot: Slot,
}

impl View for Schedule {
    type V = Schedule;

    open spec fn view(&self) -> Schedule {
        *self
    }
}

/// A meeting assigned to a subject, each given by its number.
#[derive(Clone, Copy, Debug, PartialEq, Eq, Structural)]
pub struct Assigned {
    pub meeting_id: i64,
    pub subject_id: i64,
}

impl View for Assigned {
    type V = Assigned;

    open spec fn view(&self) -> Assigned {
        *self
    }
}

/// The value for `field` at place `index` of a packed record.
pub open spec fn value_at(packed: Seq<Seq<char>>, index: int, field: Field) -> Result<
    Seq<char>,
    UnpackError,
> {
    if 0 <= index < packed.len() {
        Ok(packed[index])
    } else {
        Err(UnpackError::Missing(field))
    }
}

/// The number written for `field` at place `index` of a packed record.
pub open spec fn number_at(packed: Seq<Seq<char>>, index: int, field: Field) -> Result<
    i64,
    UnpackError,
> {
    match value_at(packed, index, field) {
        Ok(value) => match decimal_i64(value) {
            Some(number) => Ok(number),
            None => Err(UnpackError::NotANumber(field)),
        },
        Err(error) => Err(error),
    }
}

/// Returns the value for `field` at place `index` of a packed record.
fn value<'a>(packed: &'a Vec<String>, index: usize, field: Field) -> (r: Result<
    &'a str,
    UnpackError,
>)
    ensures
        match r {
            Ok(value) => value_at(packed.deep_view(), index as int, field) == Ok::<
                Seq<char>,
                UnpackError,
            >(value@),
            Err(error) => value_at(packed.deep_view(), index as int, field) == Err::<
                Seq<char>,
                UnpackError,
            >(error),
        },
{
    if index < packed.len() {
        Ok(packed[index].as_str())
    } else {
        Err(UnpackError::Missing(field))
    }
}

/// Returns the number written for `field` at place `index` of a packed
/// record.
fn number(packed: &Vec<String>, index: usize, field: Field) -> (r: Result<i64, UnpackError>)
    ensures
        r == number_at(packed.deep_view(), index as int, field),
{
    match parse_i64(value(packed, index, field)?) {
        Some(number) => Ok(number),
        None => Err(UnpackError::NotANumber(field)),
    }
}

/// A record that can be read from its packed form: a run of text values,
/// one for each of its fields in a fixed order.
pub trait Unpackable: View + Sized {
    /// The record that the values of `packed` stand for, or the reason why
    /// they stand for none: the first of its fields, in their order, whose
    /// value is missing or cannot be read. Values after the last field do
    /// not count.
    spec fn unpacked(packed: Seq<Seq<char>>) -> Result<Self::V, UnpackError>;

    /// Reads a record from its packed form.
    fn unpack(packed: Vec<String>) -> (r: Result<Self, UnpackError>)
        ensures
            match r {
                Ok(record) => Self::unpacked(packed.deep_view()) == Ok::<Self::V, UnpackError>(
                    record@,
                ),
                Err(error) => Self::unpacked(packed.deep_view()) == Err::<Self::V, UnpackError>(
                    error,
                ),
            },
    ;
}

impl Unpackable for Subject {
    /// A subject is packed as its number, its title, the token of its group
    /// and `true` if it is optional; any other text there says it is not.
    open spec fn unpacked(packed: Seq<Seq<char>>) -> Result<SubjectView, UnpackError> {
        match number_at(packed, 0, Field::Id) {
            Err(error) => Err(error),
            Ok(id) => match value_at(packed, 1, Field::Title) {
                Err(error) => Err(error),
                Ok(title) => match value_at(packed, 2, Field::Group) {
                    Err(error) => Err(error),
                    Ok(token) => match Group::parse(token) {
                        None => Err(UnpackError::Token(ParseError::NotAGroup)),
                        Some(group) => match value_at(packed, 3, Field::Optional) {
                            Err(error) => Err(error),
                            Ok(flag) => Ok(
                                SubjectView { id, title, group, optional: flag == "true"@ },
                            ),
                        },
                    },
                },
            },
        }
    }

    fn unpack(packed: Vec<String>) -> (r: Result<Subject, UnpackError>) {
        let id = number(&packed, 0, Field::Id)?;
        let title = value(&packed, 1, Field::Title)?;
        let group = match Group::try_from(value(&packed, 2, Field::Group)?) {
            Ok(group) => group,
            Err(error) => return Err(UnpackError::Token(error)),
        };
        let optional = same(value(&packed, 3, Field::Optional)?, "true");
        Ok(Subject { id, title: String::from_str(title), group, optional })
    }
}

impl Unpackable for Meeting {
    /// A meeting is packed as its number, its name, the token of its group
    /// and its link.
    open spec fn unpacked(packed: Seq<Seq<char>>) -> Result<MeetingView, UnpackError> {
        match number_at(packed, 0, Field::Id) {
            Err(error) => Err(error),
            Ok(id) => match value_at(packed, 1, Field::Name) {
                Err(error) => Err(error),
                Ok(name) => match value_at(packed, 2, Field::Group) {
                    Err(error) => Err(error),
                    Ok(token) => match Group::parse(token) {
                        None => Err(UnpackError::Token(ParseError::NotAGroup)),
                        Some(group) => match value_at(packed, 3, Field::Link) {
                            Err(error) => Err(error),
                            Ok(link) => Ok(MeetingView { id, name, group, link }),
                        },
                    },
                },
            },
        }
    }

    fn unpack(packed: Vec<String>) -> (r: Result<Meeting, UnpackError>) {
        let id = number(&packed, 0, Field::Id)?;
        let name = value(&packed, 1, Field::Name)?;
        let group = match Group::try_from(value(&packed, 2, Field::Group)?) {
            Ok(group) => group,
            Err(error) => return Err(UnpackError::Token(error)),
        };
        let link = value(&packed, 3, Field::Link)?;
        Ok(Meeting { id, name: String::from_str(name), group, link: String::from_str(link) })
    }
}

impl Unpackable for Schedule {
    /// An entry of the timetable is packed as the token of its day, the
    /// number of its subject, the token of its repeat and a token of its
    /// slot.
    open spec fn unpacked(packed: Seq<Seq<char>>) -> Result<Schedule, UnpackError> {
        match value_at(packed, 0, Field::Day) {
            Err(error) => Err(error),
            Ok(day_token) => match Day::parse(day_token) {
                None => Err(UnpackError::Token(ParseError::NotADay)),
                Some(day) => match number_at(packed, 1, Field::SubjectId) {
                    Err(error) => Err(error),
                    Ok(subject_id) => match value_at(packed, 2, Field::Repeat) {
                        Err(error) => Err(error),
                        Ok(repeat_token) => match Repeat::parse(repeat_token) {
                            None => Err(UnpackError::Token(ParseError::NotARepeat)),
                            Some(repeat) => match value_at(packed, 3, Field::Slot) {
                                Err(error) => Err(error),
                                Ok(slot_token) => match Slot::parse(slot_token) {
                                    None => Err(UnpackError::Token(ParseError::NotASlot)),
                                    Some(slot) => Ok(Schedule { subject_id, day, repeat, slot }),
                                },
                            },
                        },
                    },
                },
            },
        }
    }

    fn unpack(packed: Vec<String>) -> (r: Result<Schedule, UnpackError>) {
        let day = match Day::try_from(value(&packed, 0, Field::Day)?) {
            Ok(day) => day,
            Err(error) => return Err(UnpackError::Token(error)),
        };
        let subject_id = number(&packed, 1, Field::SubjectId)?;
        let repeat = match Repeat::try_from(value(&packed, 2, Field::Repeat)?) {
            Ok(repeat) => repeat,
            Err(error) => return Err(UnpackError::Token(error)),
        };
        let slot = match Slot::try_from(value(&packed, 3, Field::Slot)?) {
            Ok(slot) => slot,
            Err(error) => return Err(UnpackError::Token(error)),
        };
        Ok(Schedule { subject_id, day, repeat, slot })
    }
}

impl Unpackable for Assigned {
    /// An assignment is packed as the number of the meeting and the number
    /// of the subject.
    open spec fn unpacked(packed: Seq<Seq<char>>) -> Result<Assigned, UnpackError> {
        match number_at(packed, 0, Field::MeetingId) {
            Err(error) => Err(error),
            Ok(meeting_id) => match number_at(packed, 1, Field::SubjectId) {
                Err(error) => Err(error),
                Ok(subject_id) => Ok(Assigned { meeting_id, subject_id }),
            },
        }
    }

    fn unpack(packed: Vec<String>) -> (r: Result<Assigned, UnpackError>) {
        let meeting_id = number(&packed, 0, Field::MeetingId)?;
        let subject_id = number(&packed, 1, Field::SubjectId)?;
        Ok(Assigned { meeting_id, subject_id })
    }
}

/// Something worth telling about one chunk of an import.
#[derive(Debug)]
pub enum Notice {
    /// The chunk with this number, counted from zero, is no record, and was
    /// left out.
    Skipped { chunk: usize, error: UnpackError },
    /// The chunk with this number was read, and holds this text after its
    /// last field, where an empty line should stand.
    Extra { chunk: usize, value: String },
}

/// A notice, with its text as a sequence of characters.
pub enum NoticeView {
    Skipped { chunk: int, error: UnpackError },
    Extra { chunk: int, value: Seq<char> },
}

impl View for Notice {
    type V = NoticeView;

    open spec fn view(&self) -> NoticeView {
        match *self {
            Notice::Skipped { chunk, error } => NoticeView::Skipped { chunk: chunk as int, error },
            Notice::Extra { chunk, value } => NoticeView::Extra {
                chunk: chunk as int,
                value: value@,
            },
        }
    }
}

/// The records read by an import, in the order of their chunks, and what
/// there is to tell about the chunks, in their order too.
pub struct Unpacked<U> {
    pub records: Vec<U>,
    pub notices: Vec<Notice>,
}

/// The views of the items of a sequence, in their order.
pub open spec fn views<T: View>(items: Seq<T>) -> Seq<T::V> {
    items.map_values(|item: T| item@)
}

/// The number of lines in the first chunk of `lines`, where a chunk has
/// `size` lines and the last one may have fewer.
pub open spec fn chunk_len(lines: Seq<Seq<char>>, size: int) -> int {
    if size < lines.len() {
        size
    } else {
        lines.len() as int
    }
}

/// The records that the chunks of `lines` stand for: each chunk of `size`
/// lines, from the first line on, gives its record if it stands for one and
/// nothing otherwise.
pub open spec fn records_in<U: Unpackable>(lines: Seq<Seq<char>>, size: int) -> Seq<U::V>
    decreases lines.len(),
{
    if lines.len() == 0 || size <= 0 {
        Seq::empty()
    } else {
        let n = chunk_len(lines, size);
        let rest = records_in::<U>(lines.skip(n), size);
        match U::unpacked(lines.take(n)) {
            Ok(record) => seq![record] + rest,
            Err(_) => rest,
        }
    }
}

/// What there is to tell about one chunk: that it is no record and why, or
/// that it holds a text after its last field, which is the line with number
/// `size - 1`.
pub open spec fn notice_of<U: Unpackable>(chunk: Seq<Seq<char>>, size: int, number: int) -> Option<
    NoticeView,
> {
    match U::unpacked(chunk) {
        Err(error) => Some(NoticeView::Skipped { chunk: number, error }),
        Ok(_) => if chunk.len() >= size && chunk[size - 1].len() > 0 {
            Some(NoticeView::Extra { chunk: number, value: chunk[size - 1] })
        } else {
            None
        },
    }
}

/// What there is to tell about the chunks of `lines`, the first of which
/// has the number `first`.
pub open spec fn notices_in<U: Unpackable>(lines: Seq<Seq<char>>, size: int, first: int) -> Seq<
    NoticeView,
>
    decreases lines.len(),
{
    if lines.len() == 0 || size <= 0 {
        Seq::empty()
    } else {
        let n = chunk_len(lines, size);
        let rest = notices_in::<U>(lines.skip(n), size, first + 1);
        match notice_of::<U>(lines.take(n), size, first) {
            Some(notice) => seq![notice] + rest,
            None => rest,
        }
    }
}

/// Copies the lines from `start` up to `end` into a vector of their own.
fn copy_lines(lines: &Vec<String>, start: usize, end: usize) -> (r: Vec<String>)
    requires
        start <= end <= lines.len(),
    ensures
        r.deep_view() == lines.deep_view().subrange(start as int, end as int),
{
    let mut chunk: Vec<String> = Vec::new();
    let mut i = start;
    while i < end
        invariant
            start <= i <= end <= lines.len(),
            chunk@.len() == i - start,
            forall|j: int| 0 <= j < chunk@.len() ==> (#[trigger] chunk@[j])@ == lines@[start + j]@,
        decreases end - i,
    {
        chunk.push(lines[i].clone());
        i += 1;
    }
    assert(chunk.deep_view() =~= lines.deep_view().subrange(start as int, end as int));
    chunk
}

/// Reads the records packed in `lines`, each in a chunk of `fields + 1`
/// lines: one line for each field, then a line that should be empty. A
/// chunk that is no record is left out and the next ones are read all the
/// same; what there is to tell about the chunks is handed back with the
/// records.
pub fn unpack_with_notices<U: Unpackable>(lines: &Vec<String>, fields: usize) -> (r: Unpacked<U>)
    ensures
        views(r.records@) == records_in::<U>(lines.deep_view(), fields + 1),
        views(r.notices@) == notices_in::<U>(lines.deep_view(), fields + 1, 0),
{
    let ghost all = lines.deep_view();
    let ghost size = fields + 1;
    let mut records: Vec<U> = Vec::new();
    let mut notices: Vec<Notice> = Vec::new();
    let mut start: usize = 0;
    let mut chunk_number: usize = 0;
    assert(all.skip(0) == all);
    while start < lines.len()
        invariant
            size == fields + 1,
            all == lines.deep_view(),
            start <= lines.len(),
            chunk_number <= start,
            views(records@) + records_in::<U>(all.skip(start as int), size) == records_in::<U>(
                all,
                size,
            ),
            views(notices@) + notices_in::<U>(all.skip(start as int), size, chunk_number as int)
                == notices_in::<U>(all, size, 0),
        decreases lines.len() - start,
    {
        let whole = lines.len() - start > fields;
        let end = if whole {
            start + fields + 1
        } else {
            lines.len()
        };
        let chunk = copy_lines(lines, start, end);
        let extra = if whole && !lines[start + fields].as_str().is_empty() {
            Some(lines[start + fields].clone())
        } else {
            None
        };
        proof {
            let left = all.skip(start as int);
            let n = chunk_len(left, size);
            assert(n == end - start);
            assert(left.take(n) == all.subrange(start as int, end as int));
            assert(left.skip(n) == all.skip(end as int));
            assert(chunk.deep_view() == left.take(n));
            assert(whole ==> left.take(n)[size - 1] == lines[start + fields]@);
        }
        let ghost old_records = views(records@);
        let ghost old_notices = views(notices@);
        match U::unpack(chunk) {
            Ok(record) => {
                records.push(record);
                assert(views(records@) == old_records + seq![record@]);
                match extra {
                    Some(value) => {
                        notices.push(Notice::Extra { chunk: chunk_number, value });
                        assert(views(notices@) == old_notices + seq![
                            NoticeView::Extra { chunk: chunk_number as int, value: value@ },
                        ]);
                    },
                    None => {},
                }
            },
            Err(error) => {
                notices.push(Notice::Skipped { chunk: chunk_number, error });
                assert(views(notices@) == old_notices + seq![
                    NoticeView::Skipped { chunk: chunk_number as int, error },
                ]);
            },
        }
        start = end;
        chunk_number += 1;
    }
    Unpacked { records, notices }
}

/// Reads the records packed in `lines`, each in a chunk of `fields + 1`
/// lines: one line for each field, then a line that should be empty. The
/// records come in the order of their chunks; a chunk that is no record is
/// left out, and the chunks after it are read all the same.
pub fn unpack<U: Unpackable>(lines: Vec<String>, fields: usize) -> (r: Vec<U>)
    ensures
        views(r@) == records_in::<U>(lines.deep_view(), fields + 1),
{
    unpack_with_notices(&lines, fields).records
}

/// A whole chunk at the front of the lines gives its record, or nothing if
/// it is no record, and leaves the records of the lines after it as they
/// are: a chunk that fails does not stop the chunks after it from being
/// read, nor change what they are read as.
pub proof fn lemma_records_after_chunk<U: Unpackable>(
    chunk: Seq<Seq<char>>,
    rest: Seq<Seq<char>>,
    size: int,
)
    requires
        size > 0,
        chunk.len() == size,
    ensures
        records_in::<U>(chunk + rest, size) == match U::unpacked(chunk) {
            Ok(record) => seq![record] + records_in::<U>(rest, size),
            Err(_) => records_in::<U>(rest, size),
        },
{
    let lines = chunk + rest;
    assert(lines.take(size) == chunk);
    assert(lines.skip(size) == rest);
}

/// The records of lines that end in an incomplete chunk: all lines of the
/// last chunk are read as one record, however few they are.
pub proof fn lemma_records_of_last_chunk<U: Unpackable>(chunk: Seq<Seq<char>>, size: int)
    requires
        0 < chunk.len() <= size,
    ensures
        records_in::<U>(chunk, size) == match U::unpacked(chunk) {
            Ok(record) => seq![record],
            Err(_) => Seq::<U::V>::empty(),
        },
{
    assert(chunk.take(chunk.len() as int) == chunk);
    assert(chunk.skip(chunk.len() as int).len() == 0);
    assert(records_in::<U>(chunk.skip(chunk.len() as int), size) == Seq::<U::V>::empty());
}

/// The records of `count` whole chunks followed by more lines are the
/// records of those chunks followed by the records of the other lines.
pub proof fn lemma_records_of_chunks<U: Unpackable>(
    head: Seq<Seq<char>>,
    tail: Seq<Seq<char>>,
    size: int,
    count: nat,
)
    requires
        size > 0,
        head.len() == count * size,
    ensures
        records_in::<U>(head + tail, size) == records_in::<U>(head, size) + records_in::<U>(
            tail,
            size,
        ),
    decreases count,
{
    if count == 0 {
        assert(head.len() == 0) by (nonlinear_arith)
            requires
                count == 0,
                head.len() == count * size,
        ;
        assert(head + tail == tail);
    } else {
        assert(head.len() == (count - 1) * size + size) by (nonlinear_arith)
            requires
                head.len() == count * size,
        ;
        assert((count - 1) * size >= 0) by (nonlinear_arith)
            requires
                count >= 1,
                size > 0,
        ;
        let chunk = head.take(size);
        let more = head.skip(size);
        assert(head == chunk + more);
        assert(head + tail == chunk + (more + tail));
        lemma_records_after_chunk::<U>(chunk, more + tail, size);
        lemma_records_after_chunk::<U>(chunk, more, size);
        lemma_records_of_chunks::<U>(more, tail, size, (count - 1) as nat);
    }
}

/// The token that names a repeat is read as that repeat, and as no other;
/// every other text is read as none.
pub proof fn lemma_repeat_tokens(token: Seq<char>, repeat: Repeat)
    ensures
        Repeat::parse(repeat.token()) == Some(repeat),
        Repeat::parse(token) == Some(repeat) <==> token == repeat.token(),
{
    reveal_strlit("Odd");
    reveal_strlit("Even");
    reveal_strlit("Both");
    assert("Odd"@.len() == 3 && "Even"@.len() == 4 && "Both"@.len() == 4);
    assert("Even"@[0] == 'E' && "Both"@[0] == 'B');
}

/// The number a repeat is stored as is read back as that repeat, and no
/// other number is.
pub proof fn lemma_repeat_codes(bits: int, repeat: Repeat)
    ensures
        Repeat::of_bits(repeat.bits()) == Some(repeat),
        Repeat::of_bits(bits) == Some(repeat) <==> bits == repeat.bits(),
{
}

/// The two bits a repeat is stored as say which weeks it is held in: `Both`
/// has the bit of odd weeks and the bit of even weeks, and an entry is held
/// in odd weeks, or in even ones, exactly when it has their bit.
pub proof fn lemma_repeat_bits(entry: Repeat, week: Repeat)
    requires
        week != Repeat::Both,
    ensures
        Repeat::Both.bits() as u8 == (Repeat::Odd.bits() as u8) | (Repeat::Even.bits() as u8),
        entry.covers(week) <==> (entry.bits() as u8) & (week.bits() as u8) == week.bits() as u8,
{
    assert(3u8 == 1u8 | 2u8) by (bit_vector);
    assert(1u8 & 1u8 == 1u8) by (bit_vector);
    assert(2u8 & 1u8 == 0u8) by (bit_vector);
    assert(3u8 & 1u8 == 1u8) by (bit_vector);
    assert(1u8 & 2u8 == 0u8) by (bit_vector);
    assert(2u8 & 2u8 == 2u8) by (bit_vector);
    assert(3u8 & 2u8 == 2u8) by (bit_vector);
}

/// An entry written with `Both` is held in odd weeks and in even weeks; one
/// written with `Odd` is not held in even weeks, nor one written with `Even`
/// in odd weeks.
pub proof fn lemma_repeat_covers()
    ensures
        Repeat::Both.covers(Repeat::Odd),
        Repeat::Both.covers(Repeat::Even),
        Repeat::Odd.covers(Repeat::Odd),
        Repeat::Even.covers(Repeat::Even),
        !Repeat::Odd.covers(Repeat::Even),
        !Repeat::Even.covers(Repeat::Odd),
{
}

/// The weeks of a month in turn: days 1 to 7 are its first week, which is
/// even; days 8 to 14 its second, odd; days 15 to 21 its third, even; days
/// 22 to 28 its fourth, odd; and days 29 to 31 its fifth, even.
pub proof fn lemma_repeat_of_day(day: int)
    requires
        1 <= day <= 31,
    ensures
        1 <= day <= 7 ==> (day + 6) / 7 == 1 && Repeat::of_day(day) == Repeat::Even,
        8 <= day <= 14 ==> (day + 6) / 7 == 2 && Repeat::of_day(day) == Repeat::Odd,
        15 <= day <= 21 ==> (day + 6) / 7 == 3 && Repeat::of_day(day) == Repeat::Even,
        22 <= day <= 28 ==> (day + 6) / 7 == 4 && Repeat::of_day(day) == Repeat::Odd,
        29 <= day <= 31 ==> (day + 6) / 7 == 5 && Repeat::of_day(day) == Repeat::Even,
{
}

/// The week a moment falls in is never `Both`, whatever the day.
pub proof fn lemma_repeat_of_day_is_one_week(day: int)
    ensures
        Repeat::of_day(day) == Repeat::Odd || Repeat::of_day(day) == Repeat::Even,
{
}

/// The token that names a group is read as that group, and as no other;
/// every other text is read as none.
pub proof fn lemma_group_tokens(token: Seq<char>, group: Group)
    ensures
        Group::parse(group.token()) == Some(group),
        Group::parse(token) == Some(group) <==> token == group.token(),
{
}

/// Each of the five tokens that name a day is read as that day, and as no
/// other; every other text is read as none.
pub proof fn lemma_day_tokens(token: Seq<char>, day: Day)
    ensures
        Day::parse(day.token()) == Some(day),
        Day::parse(token) == Some(day) <==> token == day.token(),
{
    lemma_day_tokens_differ(Day::Mon, day);
    lemma_day_tokens_differ(Day::Tue, day);
    lemma_day_tokens_differ(Day::Wed, day);
    lemma_day_tokens_differ(Day::Thu, day);
    lemma_day_tokens_differ(Day::Fri, day);
}

/// No two days share a token.
pub proof fn lemma_day_tokens_differ(a: Day, b: Day)
    ensures
        a.token() == b.token() <==> a == b,
{
    reveal_strlit("Mon");
    reveal_strlit("Tue");
    reveal_strlit("Wed");
    reveal_strlit("Thu");
    reveal_strlit("Fri");
    assert("Mon"@[0] == 'M' && "Tue"@[0] == 'T' && "Wed"@[0] == 'W' && "Thu"@[0] == 'T'
        && "Fri"@[0] == 'F');
    assert("Tue"@[1] == 'u' && "Thu"@[1] == 'h');
}

/// The number a day is stored as is read back as that day, and no other
/// number is.
pub proof fn lemma_day_codes(number: int, day: Day)
    ensures
        Day::of_number(day.number()) == Some(day),
        Day::of_number(number) == Some(day) <==> number == day.number(),
{
}

/// A day of classes keeps the name of the weekday it falls on.
pub proof fn lemma_day_of_weekday(weekday: Weekday)
    ensures
        Day::of_weekday(weekday) matches Some(day) ==> day.token() == weekday.label(),
        Day::of_weekday(weekday) is None <==> weekday == Weekday::Sat || weekday == Weekday::Sun,
{
}

/// Reading a token that names a slot gives that slot back, whether the
/// token is its Roman numeral or its number; and a text is read as a slot
/// only if it is one of that slot's two tokens.
pub proof fn lemma_slot_tokens(token: Seq<char>, slot: Slot)
    ensures
        Slot::parse(slot.token()) == Some(slot),
        Slot::parse(slot.digit()) == Some(slot),
        Slot::parse(token) == Some(slot) <==> token == slot.token() || token == slot.digit(),
{
    reveal_strlit("1");
    reveal_strlit("2");
    reveal_strlit("3");
    reveal_strlit("4");
    reveal_strlit("I");
    reveal_strlit("II");
    reveal_strlit("III");
    reveal_strlit("IV");
    assert("1"@.len() == 1 && "2"@.len() == 1 && "3"@.len() == 1 && "4"@.len() == 1);
    assert("I"@.len() == 1 && "II"@.len() == 2 && "III"@.len() == 3 && "IV"@.len() == 2);
    assert("1"@[0] == '1' && "2"@[0] == '2' && "3"@[0] == '3' && "4"@[0] == '4' && "I"@[0]
        == 'I');
    assert("II"@[1] == 'I' && "IV"@[1] == 'V');
}

/// The number a slot is stored as is read back as that slot, and no other
/// number is.
pub proof fn lemma_slot_codes(number: int, slot: Slot)
    ensures
        Slot::of_number(slot.number()) == Some(slot),
        Slot::of_number(number) == Some(slot) <==> number == slot.number(),
{
}

/// While the fourth period has not ended, a later time of day never falls
/// in an earlier slot.
pub proof fn lemma_slot_never_earlier(earlier: int, later: int)
    requires
        earlier <= later < FOURTH_END,
    ensures
        Slot::at(earlier).number() <= Slot::at(later).number(),
{
}

/// From the end of the fourth period on, the slot is the first one again.
pub proof fn lemma_slot_wraps(second: int)
    requires
        second >= FOURTH_END,
    ensures
        Slot::at(second) == Slot::I,
{
}

/// While the fourth period has not ended, the slot of a time of day is the
/// first one whose period has not ended by then: its period ends later than
/// that time, and no slot before it has a period that does.
pub proof fn lemma_slot_is_first_to_end_later(second: int, slot: Slot)
    requires
        second < FOURTH_END,
    ensures
        second < Slot::at(second).end(),
        second < slot.end() ==> Slot::at(second).number() <= slot.number(),
{
}

} // verus!
