//! The stored form of the timetable, and the selection of the subjects that
//! are held at a given day, slot and week for a given group.

use crate::data::{
    lemma_group_tokens, views, Day, Group, ParseError, Repeat, Schedule, Slot, Subject,
    SubjectView,
};
use vstd::prelude::*;
use vstd::string::StringExecFns;

verus! {

/// A subject as a row of plain values: its number, its title, the token of
/// its group, and 1 if it is optional or 0 if it is not.
#[derive(Debug)]
pub struct SubjectRow {
    pub id: i64,
    pub title: String,
    pub gang: String,
    pub optional: i64,
}

/// A row of a subject, with its texts as sequences of characters.
pub struct SubjectRowView {
    pub id: i64,
    pub title: Seq<char>,
    pub gang: Seq<char>,
    pub optional: i64,
}

impl View for SubjectRow {
    type V = SubjectRowView;

    open spec fn view(&self) -> SubjectRowView {
        SubjectRowView {
            id: self.id,
            title: self.title@,
            gang: self.gang@,
            optional: self.optional,
        }
    }
}

impl SubjectRowView {
    /// The subject that the row stores, if its group token names a group.
    /// The subject is optional exactly when the row says 1.
    pub open spec fn subject(self) -> Option<SubjectView> {
        match Group::parse(self.gang) {
            Some(group) => Some(
                SubjectView {
                    id: self.id,
                    title: self.title,
                    group,
                    optional: self.optional == 1,
                },
            ),
            None => None,
        }
    }
}

/// An entry of the timetable as a row of plain values: the numbers that its
/// day, its repeat and its slot are stored as, and the number of its
/// subject.
#[derive(Clone, Copy, Debug, PartialEq, Eq, Structural)]
pub struct ScheduleRow {
    pub day: u8,
    pub repeat: u8,
    pub slot: u8,
    pub subject_id: i64,
}

impl Subject {
    /// Returns the row that this subject is stored as.
    pub fn to_row(&self) -> (r: SubjectRow)
        ensures
            r@ == (SubjectRowView {
                id: self.id,
                title: self.title@,
                gang: self.group.token(),
                optional: if self.optional {
                    1i64
                } else {
                    0i64
                },
            }),
            r@.subject() == Some(self@),
    {
        proof {
            lemma_group_tokens(self.group.token(), self.group);
        }
        SubjectRow {
            id: self.id,
            title: self.title.clone(),
            gang: String::from_str(self.group.name()),
            optional: if self.optional {
                1
            } else {
                0
            },
        }
    }

    /// Reads a subject from the row it is stored as. A row whose group token
    /// names no group is rejected.
    pub fn from_row(row: SubjectRow) -> (r: Result<Subject, ParseError>)
        ensures
            match r {
                Ok(subject) => row@.subject() == Some(subject@),
                Err(error) => row@.subject() is None && error == ParseError::NotAGroup,
            },
    {
        match Group::try_from(row.gang.as_str()) {
            Ok(group) => Ok(
                Subject { id: row.id, title: row.title, group, optional: row.optional == 1 },
            ),
            Err(error) => Err(error),
        }
    }
}

impl Schedule {
    /// The entry that `row` stores, if its numbers are those of a day, of a
    /// repeat and of a slot.
    pub open spec fn of_row(row: ScheduleRow) -> Option<Schedule> {
        match (
            Day::of_number(row.day as int),
            Repeat::of_bits(row.repeat as int),
            Slot::of_number(row.slot as int),
        ) {
            (Some(day), Some(repeat), Some(slot)) => Some(
                Schedule { subject_id: row.subject_id, day, repeat, slot },
            ),
            _ => None,
        }
    }

    /// Whether this entry places its subject at the given day and slot in a
    /// week of the given kind: the day and the slot are the entry's own, and
    /// the entry is held in such weeks.
    pub open spec fn is_held(self, day: Day, repeat: Repeat, slot: Slot) -> bool {
        self.day == day && self.slot == slot && self.repeat.covers(repeat)
    }

    /// Returns the row that this entry is stored as.
    pub fn to_row(&self) -> (r: ScheduleRow)
        ensures
            r.day == self.day.number(),
            r.repeat == self.repeat.bits(),
            r.slot == self.slot.number(),
            r.subject_id == self.subject_id,
            Schedule::of_row(r) == Some(*self),
    {
        ScheduleRow {
            day: self.day.code(),
            repeat: self.repeat.code(),
            slot: self.slot.code(),
            subject_id: self.subject_id,
        }
    }

    /// Reads an entry from the row it is stored as, or `None` where one of
    /// the row's numbers stands for nothing.
    pub fn from_row(row: ScheduleRow) -> (r: Option<Schedule>)
        ensures
            r == Schedule::of_row(row),
    {
        match (Day::from_code(row.day), Repeat::from_code(row.repeat), Slot::from_code(row.slot)) {
            (Some(day), Some(repeat), Some(slot)) => Some(
                Schedule { subject_id: row.subject_id, day, repeat, slot },
            ),
            _ => None,
        }
    }

    /// Tells whether this entry places its subject at the given day and slot
    /// in a week of the given kind.
    pub fn matches(&self, day: Day, repeat: Repeat, slot: Slot) -> (r: bool)
        ensures
            r == self.is_held(day, repeat, slot),
    {
        self.day == day && self.slot == slot && self.repeat.is_held_in(repeat)
    }
}

/// Whether some entry of `schedule` places the subject with the number
/// `subject_id` at the given day and slot in a week of the given kind.
pub open spec fn scheduled(
    schedule: Seq<Schedule>,
    subject_id: i64,
    day: Day,
    repeat: Repeat,
    slot: Slot,
) -> bool {
    exists|i: int|
        0 <= i < schedule.len() && (#[trigger] schedule[i]).subject_id == subject_id
            && schedule[i].is_held(day, repeat, slot)
}

/// The test that picks the subjects of `group` that `schedule` places at
/// the given day and slot in a week of the given kind.
pub open spec fn wanted(
    schedule: Seq<Schedule>,
    day: Day,
    repeat: Repeat,
    slot: Slot,
    group: Group,
) -> spec_fn(SubjectView) -> bool {
    |subject: SubjectView|
        subject.group == group && scheduled(schedule, subject.id, day, repeat, slot)
}

/// The entries that the given rows store, in the order of the rows. A row
/// whose numbers do not all stand for something stores no entry.
pub open spec fn entries_of(rows: Seq<ScheduleRow>) -> Seq<Schedule>
    decreases rows.len(),
{
    if rows.len() == 0 {
        Seq::empty()
    } else {
        match Schedule::of_row(rows.last()) {
            Some(entry) => entries_of(rows.drop_last()).push(entry),
            None => entries_of(rows.drop_last()),
        }
    }
}

/// A timetable as it is loaded: the subjects and the entries that place
/// them, each list in the order it is stored in.
#[derive(Debug)]
pub struct Timetable {
    pub subjects: Vec<Subject>,
    pub schedule: Vec<Schedule>,
}

impl Timetable {
    /// Reads a timetable from the rows it is stored as. Every row of a
    /// subject must store one: the first that names no group is an error. A
    /// row of an entry that stores none could never be selected, and is left
    /// out.
    pub fn from_rows(subjects: &Vec<SubjectRow>, schedule: &Vec<ScheduleRow>) -> (r: Result<
        Timetable,
        ParseError,
    >)
        ensures
            match r {
                Ok(timetable) => timetable.schedule@ == entries_of(schedule@)
                    && timetable.subjects@.len() == subjects@.len() && forall|i: int|
                    0 <= i < subjects@.len() ==> (#[trigger] subjects@[i])@.subject() == Some(
                        timetable.subjects@[i]@,
                    ),
                Err(error) => error == ParseError::NotAGroup && exists|i: int|
                    0 <= i < subjects@.len() && (#[trigger] subjects@[i])@.subject() is None,
            },
    {
        let mut read: Vec<Subject> = Vec::new();
        let mut i: usize = 0;
        while i < subjects.len()
            invariant
                i <= subjects.len(),
                read@.len() == i,
                forall|j: int|
                    0 <= j < i ==> (#[trigger] subjects@[j])@.subject() == Some(read@[j]@),
            decreases subjects.len() - i,
        {
            let row = &subjects[i];
            let copy = SubjectRow {
                id: row.id,
                title: row.title.clone(),
                gang: row.gang.clone(),
                optional: row.optional,
            };
            match Subject::from_row(copy) {
                Ok(subject) => {
                    read.push(subject);
                },
                Err(error) => {
                    return Err(error);
                },
            }
            i += 1;
        }
        let mut entries: Vec<Schedule> = Vec::new();
        let mut k: usize = 0;
        while k < schedule.len()
            invariant
                k <= schedule.len(),
                entries@ == entries_of(schedule@.take(k as int)),
            decreases schedule.len() - k,
        {
            proof {
                assert(schedule@.take(k + 1).drop_last() == schedule@.take(k as int));
            }
            match Schedule::from_row(schedule[k]) {
                Some(entry) => {
                    entries.push(entry);
                },
                None => {},
            }
            k += 1;
        }
        proof {
            assert(schedule@.take(k as int) == schedule@);
        }
        Ok(Timetable { subjects: read, schedule: entries })
    }

    /// Tells whether some entry places the subject with the number
    /// `subject_id` at the given day and slot in a week of the given kind.
    pub fn is_scheduled(&self, subject_id: i64, day: Day, repeat: Repeat, slot: Slot) -> (r: bool)
        ensures
            r == scheduled(self.schedule@, subject_id, day, repeat, slot),
    {
        let mut i: usize = 0;
        while i < self.schedule.len()
            invariant
                i <= self.schedule.len(),
                forall|j: int|
                    0 <= j < i ==> !((#[trigger] self.schedule@[j]).subject_id == subject_id
                        && self.schedule@[j].is_held(day, repeat, slot)),
            decreases self.schedule.len() - i,
        {
            let entry = &self.schedule[i];
            if entry.subject_id == subject_id && entry.matches(day, repeat, slot) {
                return true;
            }
            i += 1;
        }
        false
    }

    /// Returns the subjects of `group` that the timetable places at the
    /// given day and slot in a week of the given kind, each once, in the
    /// order in which the subjects are stored. Where no entry is held then,
    /// the result is empty.
    pub fn get_subjects(&self, day: Day, repeat: Repeat, slot: Slot, group: Group) -> (r: Vec<
        Subject,
    >)
        ensures
            views(r@) == views(self.subjects@).filter(
                wanted(self.schedule@, day, repeat, slot, group),
            ),
            forall|i: int| 0 <= i < r@.len() ==> (#[trigger] r@[i]).group == group,
            (forall|i: int|
                0 <= i < self.schedule@.len() ==> !(#[trigger] self.schedule@[i]).is_held(
                    day,
                    repeat,
                    slot,
                )) ==> r@.len() == 0,
    {
        let ghost all = views(self.subjects@);
        let ghost test = wanted(self.schedule@, day, repeat, slot, group);
        let mut found: Vec<Subject> = Vec::new();
        let mut i: usize = 0;
        proof {
            reveal(Seq::filter);
            assert(all.take(0).filter(test) == Seq::<SubjectView>::empty());
        }
        while i < self.subjects.len()
            invariant
                i <= self.subjects.len(),
                all == views(self.subjects@),
                test == wanted(self.schedule@, day, repeat, slot, group),
                views(found@) == all.take(i as int).filter(test),
            decreases self.subjects.len() - i,
        {
            let subject = &self.subjects[i];
            let ghost before = views(found@);
            if subject.group == group && self.is_scheduled(subject.id, day, repeat, slot) {
                found.push(subject.clone());
                assert(views(found@) == before.push(subject@));
            }
            proof {
                reveal(Seq::filter);
                assert(all.take(i + 1).drop_last() == all.take(i as int));
                assert(all.take(i + 1).last() == subject@);
            }
            i += 1;
        }
        proof {
            assert(all.take(i as int) == all);
            assert forall|k: int| 0 <= k < found@.len() implies (#[trigger] found@[k]).group
                == group by {
                all.lemma_filter_pred(test, k);
                assert(views(found@)[k] == found@[k]@);
            }
            if forall|i: int|
                0 <= i < self.schedule@.len() ==> !(#[trigger] self.schedule@[i]).is_held(
                    day,
                    repeat,
                    slot,
                ) {
                assert forall|k: int| 0 <= k < all.len() implies !test(#[trigger] all[k]) by {}
                all.lemma_all_neg_filter_empty(test);
            }
        }
        found
    }
}

/// An entry written with `Both` places its subject in odd weeks and in even
/// weeks alike; an entry written with `Odd` or `Even` places it in weeks of
/// its own kind and in no others. The day and the slot must be the entry's
/// own in every case.
pub proof fn lemma_entry_weeks(entry: Schedule, day: Day, repeat: Repeat, slot: Slot)
    ensures
        entry.repeat == Repeat::Both ==> (entry.is_held(day, repeat, slot) <==> entry.day == day
            && entry.slot == slot),
        entry.repeat != Repeat::Both ==> (entry.is_held(day, repeat, slot) <==> entry.day == day
            && entry.slot == slot && entry.repeat == repeat),
        entry.repeat == Repeat::Odd ==> !entry.is_held(day, Repeat::Even, slot),
        entry.repeat == Repeat::Even ==> !entry.is_held(day, Repeat::Odd, slot),
{
}

/// A subject of the group asked for, with an entry written with `Both`, is
/// selected for the entry's day and slot whether the week is odd or even.
pub proof fn lemma_both_is_selected(
    schedule: Seq<Schedule>,
    i: int,
    subject: SubjectView,
    repeat: Repeat,
)
    requires
        0 <= i < schedule.len(),
        schedule[i].subject_id == subject.id,
        schedule[i].repeat == Repeat::Both,
    ensures
        wanted(schedule, schedule[i].day, repeat, schedule[i].slot, subject.group)(subject),
{
}

/// A subject whose entries are all written for the other week than the one
/// asked about is not selected: entries for odd weeks place nothing in even
/// weeks, nor entries for even weeks anything in odd ones.
pub proof fn lemma_other_week_is_left_out(
    schedule: Seq<Schedule>,
    subject: SubjectView,
    day: Day,
    repeat: Repeat,
    slot: Slot,
    group: Group,
)
    requires
        repeat != Repeat::Both,
        forall|i: int|
            0 <= i < schedule.len() && (#[trigger] schedule[i]).subject_id == subject.id
                ==> schedule[i].repeat != repeat && schedule[i].repeat != Repeat::Both,
    ensures
        !wanted(schedule, day, repeat, slot, group)(subject),
{
}

/// Only subjects of the group asked for are selected, and only those that
/// some entry places at the day, slot and week asked for.
pub proof fn lemma_selected_is_of_group(
    schedule: Seq<Schedule>,
    subject: SubjectView,
    day: Day,
    repeat: Repeat,
    slot: Slot,
    group: Group,
)
    ensures
        wanted(schedule, day, repeat, slot, group)(subject) ==> subject.group == group
            && scheduled(schedule, subject.id, day, repeat, slot),
{
}

/// Where no entry is held at the day, slot and week asked for, no subject
/// is selected, whatever the subjects and the group are.
pub proof fn lemma_nothing_held_nothing_selected(
    subjects: Seq<SubjectView>,
    schedule: Seq<Schedule>,
    day: Day,
    repeat: Repeat,
    slot: Slot,
    group: Group,
)
    requires
        forall|i: int| 0 <= i < schedule.len() ==> !(#[trigger] schedule[i]).is_held(
            day,
            repeat,
            slot,
        ),
    ensures
        subjects.filter(wanted(schedule, day, repeat, slot, group)).len() == 0,
{
    let test = wanted(schedule, day, repeat, slot, group);
    assert forall|k: int| 0 <= k < subjects.len() implies !test(#[trigger] subjects[k]) by {}
    subjects.lemma_all_neg_filter_empty(test);
}

} // verus!
