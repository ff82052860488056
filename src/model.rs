//! The typed timetable: reference entities, assignments and periods.
use vstd::prelude::*;
use crate::clock::{ClockTime, Date};

verus! {

/// How an assigned resource relates to the regular schedule.
#[derive(Debug, Clone, Copy, PartialEq, Eq, Structural)]
pub enum ElementState {
    Regular,
    Absent,
    Substituted,
}

/// How a period relates to the regular schedule.
#[derive(Debug, Clone, Copy, PartialEq, Eq, Structural)]
pub enum PeriodState {
    Standard,
    Substitution,
    Cancel,
}

/// A room as the catalog describes it.
#[derive(Debug)]
pub struct OriginalRoom {
    pub id: u64,
    pub name: String,
    pub long_name: String,
    pub displayname: String,
    pub alternatename: String,
    pub can_view_timetable: bool,
    pub room_capacity: u64,
}

/// A teacher as the catalog describes it.
#[derive(Debug)]
pub struct OriginalTeacher {
    pub id: u64,
    pub name: String,
    pub can_view_timetable: bool,
    pub extern_key: String,
    pub room_capacity: u64,
}

/// A subject as the catalog describes it.
#[derive(Debug)]
pub struct OriginalSubject {
    pub id: u64,
    pub name: String,
    pub long_name: String,
    pub display_name: String,
    pub alternate_name: String,
    pub back_color: String,
    pub can_view_timetable: bool,
    pub room_capacity: u64,
    pub fore_color: Option<String>,
}

impl OriginalRoom {
    pub fn snapshot(&self) -> (r: OriginalRoom)
        ensures
            r == *self,
    {
        OriginalRoom {
            id: self.id,
            name: self.name.clone(),
            long_name: self.long_name.clone(),
            displayname: self.displayname.clone(),
            alternatename: self.alternatename.clone(),
            can_view_timetable: self.can_view_timetable,
            room_capacity: self.room_capacity,
        }
    }
}

impl OriginalTeacher {
    pub fn snapshot(&self) -> (r: OriginalTeacher)
        ensures
            r == *self,
    {
        OriginalTeacher {
            id: self.id,
            name: self.name.clone(),
            can_view_timetable: self.can_view_timetable,
            extern_key: self.extern_key.clone(),
            room_capacity: self.room_capacity,
        }
    }
}

pub fn clone_opt_string(s: &Option<String>) -> (r: Option<String>)
    ensures
        r == *s,
{
    match s {
        Some(v) => Some(v.clone()),
        None => None,
    }
}

impl OriginalSubject {
    pub fn snapshot(&self) -> (r: OriginalSubject)
        ensures
            r == *self,
    {
        OriginalSubject {
            id: self.id,
            name: self.name.clone(),
            long_name: self.long_name.clone(),
            display_name: self.display_name.clone(),
            alternate_name: self.alternate_name.clone(),
            back_color: self.back_color.clone(),
            can_view_timetable: self.can_view_timetable,
            room_capacity: self.room_capacity,
            fore_color: clone_opt_string(&self.fore_color),
        }
    }
}

/// A period's room: the current room's fields, and the originally planned
/// room where it differs and is known.
#[derive(Debug)]
pub struct Room {
    pub id: u64,
    pub original_room_id: u64,
    pub original_room: Option<OriginalRoom>,
    pub missing: bool,
    pub state: ElementState,
    pub name: String,
    pub long_name: String,
    pub displayname: String,
    pub alternatename: String,
    pub can_view_timetable: bool,
    pub room_capacity: u64,
}

/// A period's teacher, shaped as `Room`.
#[derive(Debug)]
pub struct Teacher {
    pub id: u64,
    pub original_teacher_id: u64,
    pub original_teacher: Option<OriginalTeacher>,
    pub missing: bool,
    pub state: ElementState,
    pub name: String,
    pub can_view_timetable: bool,
    pub extern_key: String,
    pub room_capacity: u64,
}

/// A period's subject, shaped as `Room`.
#[derive(Debug)]
pub struct Subject {
    pub id: u64,
    pub original_subject_id: u64,
    pub original_subject: Option<OriginalSubject>,
    pub missing: bool,
    pub state: ElementState,
    pub name: String,
    pub long_name: String,
    pub display_name: String,
    pub alternate_name: String,
    pub back_color: String,
    pub can_view_timetable: bool,
    pub room_capacity: u64,
    pub fore_color: Option<String>,
}

impl Room {
    /// An original snapshot is only kept for a room that was changed.
    pub open spec fn wf(&self) -> bool {
        self.original_room is Some ==> self.original_room_id != self.id
    }
}

impl Teacher {
    pub open spec fn wf(&self) -> bool {
        self.original_teacher is Some ==> self.original_teacher_id != self.id
    }
}

impl Subject {
    pub open spec fn wf(&self) -> bool {
        self.original_subject is Some ==> self.original_subject_id != self.id
    }
}

/// One lesson slot of the timetable.
#[derive(Debug)]
pub struct Period {
    pub lesson_text: String,
    pub text: String,
    pub info: String,
    pub substitution_text: String,
    pub date: Date,
    pub start_time: ClockTime,
    pub end_time: ClockTime,
    pub state: PeriodState,
    pub teacher: Option<Teacher>,
    pub subject: Option<Subject>,
    pub room: Option<Room>,
}

impl Period {
    pub open spec fn wf(&self) -> bool {
        &&& self.start_time.wf()
        &&& self.end_time.wf()
        &&& (self.teacher matches Some(t) ==> t.wf())
        &&& (self.subject matches Some(s) ==> s.wf())
        &&& (self.room matches Some(r) ==> r.wf())
    }
}

} // verus!
