//! Decoding of the timetable document into periods with resolved assignments.
use vstd::prelude::*;
use std::collections::HashMap;
use crate::catalog::{build_catalog, catalog_upto, Catalog, CatalogMaps, ROOM_TAG, SUBJECT_TAG, TEACHER_TAG};
use crate::clock::{decode_date, decode_date_spec, decode_time, decode_time_spec};
use crate::json::{
    err, get_spec, required, required_array, required_bool, required_str, required_u64,
    str_eq, JsonValue, ParseError, ParseErrorKind,
};
use crate::model::{
    ElementState, OriginalRoom, OriginalSubject, OriginalTeacher, Period, PeriodState, Room,
    Subject, Teacher,
};
use crate::text::{decimal, decimal_string};

verus! {

broadcast use vstd::std_specs::hash::group_hash_axioms;

/// The teacher, subject and room of a period, each where it has one.
pub type Slots = (Option<Teacher>, Option<Subject>, Option<Room>);

pub open spec fn element_state_spec(e: JsonValue) -> Result<ElementState, ParseError> {
    match required_str(e, "state") {
        Ok(s) => if s@ == "ABSENT"@ {
            Ok(ElementState::Absent)
        } else if s@ == "REGULAR"@ {
            Ok(ElementState::Regular)
        } else if s@ == "SUBSTITUTED"@ {
            Ok(ElementState::Substituted)
        } else {
            err(ParseErrorKind::UnknownEnumValue, "state")
        },
        Err(x) => Err(x),
    }
}

pub open spec fn period_state_spec(p: JsonValue) -> Result<PeriodState, ParseError> {
    match required_str(p, "cellState") {
        Ok(s) => if s@ == "CANCEL"@ {
            Ok(PeriodState::Cancel)
        } else if s@ == "STANDARD"@ {
            Ok(PeriodState::Standard)
        } else if s@ == "SUBSTITUTION"@ {
            Ok(PeriodState::Substitution)
        } else {
            err(ParseErrorKind::UnknownEnumValue, "cellState")
        },
        Err(x) => Err(x),
    }
}

/// The catalog entry of the originally planned resource, kept only where it
/// differs from the current one.
pub open spec fn original_of<V>(m: Map<u64, V>, id: u64, org: u64) -> Option<V> {
    if org != id && m.contains_key(org) {
        Some(m[org])
    } else {
        None
    }
}

pub open spec fn teacher_assignment_spec(
    e: JsonValue,
    teachers: Map<u64, OriginalTeacher>,
    id: u64,
    org: u64,
    state: ElementState,
) -> Result<Teacher, ParseError> {
    let missing = required_bool(e, "missing");
    if !teachers.contains_key(id) {
        err(ParseErrorKind::UnresolvedReference, "teacher")
    } else if missing is Err {
        Err(missing->Err_0)
    } else {
        let info = teachers[id];
        Ok(
            Teacher {
                id,
                original_teacher_id: org,
                original_teacher: original_of(teachers, id, org),
                missing: missing->Ok_0,
                state,
                name: info.name,
                can_view_timetable: info.can_view_timetable,
                extern_key: info.extern_key,
                room_capacity: info.room_capacity,
            },
        )
    }
}

pub open spec fn room_assignment_spec(
    e: JsonValue,
    rooms: Map<u64, OriginalRoom>,
    id: u64,
    org: u64,
    state: ElementState,
) -> Result<Room, ParseError> {
    let missing = required_bool(e, "missing");
    if !rooms.contains_key(id) {
        err(ParseErrorKind::UnresolvedReference, "room")
    } else if missing is Err {
        Err(missing->Err_0)
    } else {
        let info = rooms[id];
        Ok(
            Room {
                id,
                original_room_id: org,
                original_room: original_of(rooms, id, org),
                missing: missing->Ok_0,
                state,
                name: info.name,
                long_name: info.long_name,
                displayname: info.displayname,
                alternatename: info.alternatename,
                can_view_timetable: info.can_view_timetable,
                room_capacity: info.room_capacity,
            },
        )
    }
}

/// The period-level background colour overrides the catalog's.
pub open spec fn back_color_spec(e: JsonValue, fallback: String) -> Result<String, ParseError> {
    match get_spec(e, "backColor"@) {
        None => Ok(fallback),
        Some(JsonValue::Str(s)) => Ok(s),
        Some(_) => err(ParseErrorKind::TypeMismatch, "backColor"),
    }
}

pub open spec fn fore_color_spec(e: JsonValue) -> Result<Option<String>, ParseError> {
    match get_spec(e, "foreColor"@) {
        None => Ok(None),
        Some(JsonValue::Str(s)) => Ok(Some(s)),
        Some(_) => err(ParseErrorKind::TypeMismatch, "foreColor"),
    }
}

pub open spec fn subject_assignment_spec(
    e: JsonValue,
    subjects: Map<u64, OriginalSubject>,
    id: u64,
    org: u64,
    state: ElementState,
) -> Result<Subject, ParseError> {
    let missing = required_bool(e, "missing");
    let fore = fore_color_spec(e);
    if !subjects.contains_key(id) {
        err(ParseErrorKind::UnresolvedReference, "subject")
    } else if missing is Err {
        Err(missing->Err_0)
    } else if back_color_spec(e, subjects[id].back_color) is Err {
        Err(back_color_spec(e, subjects[id].back_color)->Err_0)
    } else if fore is Err {
        Err(fore->Err_0)
    } else {
        let info = subjects[id];
        Ok(
            Subject {
                id,
                original_subject_id: org,
                original_subject: original_of(subjects, id, org),
                missing: missing->Ok_0,
                state,
                name: info.name,
                long_name: info.long_name,
                display_name: info.display_name,
                alternate_name: info.alternate_name,
                back_color: back_color_spec(e, info.back_color)->Ok_0,
                can_view_timetable: info.can_view_timetable,
                room_capacity: info.room_capacity,
                fore_color: fore->Ok_0,
            },
        )
    }
}

/// One assignment element of a period; a later element of a kind replaces an earlier one.
pub open spec fn assign_step_spec(acc: Slots, e: JsonValue, cat: CatalogMaps) -> Result<
    Slots,
    ParseError,
> {
    let tag = required_u64(e, "type");
    let id = required_u64(e, "id");
    let org = required_u64(e, "orgId");
    let state = element_state_spec(e);
    if tag is Err {
        Err(tag->Err_0)
    } else if id is Err {
        Err(id->Err_0)
    } else if org is Err {
        Err(org->Err_0)
    } else if state is Err {
        Err(state->Err_0)
    } else if tag->Ok_0 == TEACHER_TAG {
        match teacher_assignment_spec(e, cat.0, id->Ok_0, org->Ok_0, state->Ok_0) {
            Ok(t) => Ok((Some(t), acc.1, acc.2)),
            Err(x) => Err(x),
        }
    } else if tag->Ok_0 == SUBJECT_TAG {
        match subject_assignment_spec(e, cat.1, id->Ok_0, org->Ok_0, state->Ok_0) {
            Ok(s) => Ok((acc.0, Some(s), acc.2)),
            Err(x) => Err(x),
        }
    } else if tag->Ok_0 == ROOM_TAG {
        match room_assignment_spec(e, cat.2, id->Ok_0, org->Ok_0, state->Ok_0) {
            Ok(r) => Ok((acc.0, acc.1, Some(r))),
            Err(x) => Err(x),
        }
    } else {
        err(ParseErrorKind::UnknownAssignmentKind, "type")
    }
}

pub open spec fn assignments_upto(elements: Seq<JsonValue>, cat: CatalogMaps, n: nat) -> Result<
    Slots,
    ParseError,
>
    decreases n,
{
    if n == 0 {
        Ok((None, None, None))
    } else {
        match assignments_upto(elements, cat, (n - 1) as nat) {
            Ok(acc) => assign_step_spec(acc, elements[n - 1], cat),
            Err(x) => Err(x),
        }
    }
}

pub open spec fn period_spec(p: JsonValue, cat: CatalogMaps) -> Result<Period, ParseError> {
    let elements = required_array(p, "elements");
    let slots = assignments_upto(elements->Ok_0, cat, elements->Ok_0.len());
    let state = period_state_spec(p);
    let lesson_text = required_str(p, "lessonText");
    let text = required_str(p, "periodText");
    let info = required_str(p, "periodInfo");
    let substitution_text = required_str(p, "substText");
    let date_n = required_u64(p, "date");
    let date = decode_date_spec(date_n->Ok_0, "date");
    let start_n = required_u64(p, "startTime");
    let start = decode_time_spec(start_n->Ok_0, "startTime");
    let end_n = required_u64(p, "endTime");
    let end = decode_time_spec(end_n->Ok_0, "endTime");
    if elements is Err {
        Err(elements->Err_0)
    } else if slots is Err {
        Err(slots->Err_0)
    } else if state is Err {
        Err(state->Err_0)
    } else if lesson_text is Err {
        Err(lesson_text->Err_0)
    } else if text is Err {
        Err(text->Err_0)
    } else if info is Err {
        Err(info->Err_0)
    } else if substitution_text is Err {
        Err(substitution_text->Err_0)
    } else if date_n is Err {
        Err(date_n->Err_0)
    } else if date is Err {
        Err(date->Err_0)
    } else if start_n is Err {
        Err(start_n->Err_0)
    } else if start is Err {
        Err(start->Err_0)
    } else if end_n is Err {
        Err(end_n->Err_0)
    } else if end is Err {
        Err(end->Err_0)
    } else {
        Ok(
            Period {
                lesson_text: lesson_text->Ok_0,
                text: text->Ok_0,
                info: info->Ok_0,
                substitution_text: substitution_text->Ok_0,
                date: date->Ok_0,
                start_time: start->Ok_0,
                end_time: end->Ok_0,
                state: state->Ok_0,
                teacher: slots->Ok_0.0,
                subject: slots->Ok_0.1,
                room: slots->Ok_0.2,
            },
        )
    }
}

pub open spec fn periods_upto(list: Seq<JsonValue>, cat: CatalogMaps, n: nat) -> Result<
    Seq<Period>,
    ParseError,
>
    decreases n,
{
    if n == 0 {
        Ok(Seq::empty())
    } else {
        match periods_upto(list, cat, (n - 1) as nat) {
            Ok(ps) => match period_spec(list[n - 1], cat) {
                Ok(p) => Ok(ps.push(p)),
                Err(x) => Err(x),
            },
            Err(x) => Err(x),
        }
    }
}

/// The periods of `person_id` in the document `doc`, in document order, or the
/// first failure met while decoding it.
pub open spec fn parse_timetable_spec(doc: JsonValue, person_id: u64) -> Result<
    Seq<Period>,
    ParseError,
> {
    let data = required(doc, "data");
    let result = required(data->Ok_0, "result");
    let inner = required(result->Ok_0, "data");
    let elements = required_array(inner->Ok_0, "elements");
    let cat = catalog_upto(elements->Ok_0, elements->Ok_0.len());
    let periods = required(inner->Ok_0, "elementPeriods");
    let list = get_spec(periods->Ok_0, decimal(person_id as nat));
    if data is Err {
        Err(data->Err_0)
    } else if result is Err {
        Err(result->Err_0)
    } else if inner is Err {
        Err(inner->Err_0)
    } else if elements is Err {
        Err(elements->Err_0)
    } else if cat is Err {
        Err(cat->Err_0)
    } else if periods is Err {
        Err(periods->Err_0)
    } else {
        match list {
            None => err(ParseErrorKind::NoTimetableForPerson, "elementPeriods"),
            Some(JsonValue::Array(items)) => periods_upto(items@, cat->Ok_0, items@.len()),
            Some(_) => err(ParseErrorKind::TypeMismatch, "elementPeriods"),
        }
    }
}

pub fn element_state(e: &JsonValue) -> (r: Result<ElementState, ParseError>)
    ensures
        r == element_state_spec(*e),
{
    let s = e.required_str("state")?;
    if str_eq(s.as_str(), "ABSENT") {
        Ok(ElementState::Absent)
    } else if str_eq(s.as_str(), "REGULAR") {
        Ok(ElementState::Regular)
    } else if str_eq(s.as_str(), "SUBSTITUTED") {
        Ok(ElementState::Substituted)
    } else {
        Err(ParseError { kind: ParseErrorKind::UnknownEnumValue, field: "state" })
    }
}

pub fn period_state(p: &JsonValue) -> (r: Result<PeriodState, ParseError>)
    ensures
        r == period_state_spec(*p),
{
    let s = p.required_str("cellState")?;
    if str_eq(s.as_str(), "CANCEL") {
        Ok(PeriodState::Cancel)
    } else if str_eq(s.as_str(), "STANDARD") {
        Ok(PeriodState::Standard)
    } else if str_eq(s.as_str(), "SUBSTITUTION") {
        Ok(PeriodState::Substitution)
    } else {
        Err(ParseError { kind: ParseErrorKind::UnknownEnumValue, field: "cellState" })
    }
}

fn original_teacher(m: &HashMap<u64, OriginalTeacher>, id: u64, org: u64) -> (r: Option<
    OriginalTeacher,
>)
    ensures
        r == original_of(m@, id, org),
{
    if org == id {
        return None;
    }
    match m.get(&org) {
        Some(t) => Some(t.snapshot()),
        None => None,
    }
}

fn original_subject(m: &HashMap<u64, OriginalSubject>, id: u64, org: u64) -> (r: Option<
    OriginalSubject,
>)
    ensures
        r == original_of(m@, id, org),
{
    if org == id {
        return None;
    }
    match m.get(&org) {
        Some(t) => Some(t.snapshot()),
        None => None,
    }
}

fn original_room(m: &HashMap<u64, OriginalRoom>, id: u64, org: u64) -> (r: Option<OriginalRoom>)
    ensures
        r == original_of(m@, id, org),
{
    if org == id {
        return None;
    }
    match m.get(&org) {
        Some(t) => Some(t.snapshot()),
        None => None,
    }
}

pub fn teacher_assignment(
    e: &JsonValue,
    teachers: &HashMap<u64, OriginalTeacher>,
    id: u64,
    org: u64,
    state: ElementState,
) -> (r: Result<Teacher, ParseError>)
    ensures
        r == teacher_assignment_spec(*e, teachers@, id, org, state),
        r matches Ok(t) ==> t.wf(),
{
    let info = match teachers.get(&id) {
        Some(info) => info,
        None => {
            return Err(ParseError { kind: ParseErrorKind::UnresolvedReference, field: "teacher" });
        },
    };
    let missing = e.required_bool("missing")?;
    Ok(
        Teacher {
            id,
            original_teacher_id: org,
            original_teacher: original_teacher(teachers, id, org),
            missing,
            state,
            name: info.name.clone(),
            can_view_timetable: info.can_view_timetable,
            extern_key: info.extern_key.clone(),
            room_capacity: info.room_capacity,
        },
    )
}

pub fn room_assignment(
    e: &JsonValue,
    rooms: &HashMap<u64, OriginalRoom>,
    id: u64,
    org: u64,
    state: ElementState,
) -> (r: Result<Room, ParseError>)
    ensures
        r == room_assignment_spec(*e, rooms@, id, org, state),
        r matches Ok(t) ==> t.wf(),
{
    let info = match rooms.get(&id) {
        Some(info) => info,
        None => {
            return Err(ParseError { kind: ParseErrorKind::UnresolvedReference, field: "room" });
        },
    };
    let missing = e.required_bool("missing")?;
    Ok(
        Room {
            id,
            original_room_id: org,
            original_room: original_room(rooms, id, org),
            missing,
            state,
            name: info.name.clone(),
            long_name: info.long_name.clone(),
            displayname: info.displayname.clone(),
            alternatename: info.alternatename.clone(),
            can_view_timetable: info.can_view_timetable,
            room_capacity: info.room_capacity,
        },
    )
}

pub fn subject_assignment(
    e: &JsonValue,
    subjects: &HashMap<u64, OriginalSubject>,
    id: u64,
    org: u64,
    state: ElementState,
) -> (r: Result<Subject, ParseError>)
    ensures
        r == subject_assignment_spec(*e, subjects@, id, org, state),
        r matches Ok(t) ==> t.wf(),
{
    let info = match subjects.get(&id) {
        Some(info) => info,
        None => {
            return Err(ParseError { kind: ParseErrorKind::UnresolvedReference, field: "subject" });
        },
    };
    let missing = e.required_bool("missing")?;
    let back_color = match e.get("backColor") {
        None => info.back_color.clone(),
        Some(JsonValue::Str(s)) => s.clone(),
        Some(_) => {
            return Err(ParseError { kind: ParseErrorKind::TypeMismatch, field: "backColor" });
        },
    };
    let fore_color = match e.get("foreColor") {
        None => None,
        Some(JsonValue::Str(s)) => Some(s.clone()),
        Some(_) => {
            return Err(ParseError { kind: ParseErrorKind::TypeMismatch, field: "foreColor" });
        },
    };
    Ok(
        Subject {
            id,
            original_subject_id: org,
            original_subject: original_subject(subjects, id, org),
            missing,
            state,
            name: info.name.clone(),
            long_name: info.long_name.clone(),
            display_name: info.display_name.clone(),
            alternate_name: info.alternate_name.clone(),
            back_color,
            can_view_timetable: info.can_view_timetable,
            room_capacity: info.room_capacity,
            fore_color,
        },
    )
}

pub open spec fn slots_wf(s: Slots) -> bool {
    &&& (s.0 matches Some(t) ==> t.wf())
    &&& (s.1 matches Some(t) ==> t.wf())
    &&& (s.2 matches Some(t) ==> t.wf())
}

/// Applies one assignment element of a period to its slots.
pub fn assign_step(slots: &mut Slots, e: &JsonValue, cat: &Catalog) -> (r: Result<(), ParseError>)
    requires
        slots_wf(*old(slots)),
    ensures
        match assign_step_spec(*old(slots), *e, cat.maps()) {
            Ok(s) => r is Ok && *final(slots) == s,
            Err(x) => r == Err::<(), ParseError>(x),
        },
        slots_wf(*final(slots)),
{
    let tag = e.required_u64("type")?;
    let id = e.required_u64("id")?;
    let org = e.required_u64("orgId")?;
    let state = element_state(e)?;
    if tag == TEACHER_TAG {
        let t = teacher_assignment(e, &cat.teachers, id, org, state)?;
        slots.0 = Some(t);
    } else if tag == SUBJECT_TAG {
        let s = subject_assignment(e, &cat.subjects, id, org, state)?;
        slots.1 = Some(s);
    } else if tag == ROOM_TAG {
        let r = room_assignment(e, &cat.rooms, id, org, state)?;
        slots.2 = Some(r);
    } else {
        return Err(ParseError { kind: ParseErrorKind::UnknownAssignmentKind, field: "type" });
    }
    Ok(())
}

proof fn lemma_assignments_error_persists(elements: Seq<JsonValue>, cat: CatalogMaps, n: nat, m: nat)
    requires
        n <= m,
        assignments_upto(elements, cat, n) is Err,
    ensures
        assignments_upto(elements, cat, m) == assignments_upto(elements, cat, n),
    decreases m - n,
{
    if n < m {
        lemma_assignments_error_persists(elements, cat, n, (m - 1) as nat);
    }
}

/// Resolves all assignment elements of one period.
pub fn assignments(elements: &Vec<JsonValue>, cat: &Catalog) -> (r: Result<Slots, ParseError>)
    ensures
        match assignments_upto(elements@, cat.maps(), elements@.len()) {
            Ok(s) => r is Ok && r->Ok_0 == s,
            Err(x) => r is Err && r->Err_0 == x,
        },
        r matches Ok(s) ==> slots_wf(s),
{
    let mut slots: Slots = (None, None, None);
    let mut i: usize = 0;
    while i < elements.len()
        invariant
            i <= elements@.len(),
            assignments_upto(elements@, cat.maps(), i as nat) == Ok::<Slots, ParseError>(slots),
            slots_wf(slots),
        decreases elements.len() - i,
    {
        match assign_step(&mut slots, &elements[i], cat) {
            Ok(()) => {},
            Err(x) => {
                proof {
                    lemma_assignments_error_persists(
                        elements@,
                        cat.maps(),
                        (i + 1) as nat,
                        elements@.len(),
                    );
                }
                return Err(x);
            },
        }
        i = i + 1;
    }
    Ok(slots)
}

/// Decodes one period record against the catalog.
pub fn parse_period(p: &JsonValue, cat: &Catalog) -> (r: Result<Period, ParseError>)
    ensures
        r == period_spec(*p, cat.maps()),
        r matches Ok(q) ==> q.wf(),
{
    let elements = p.required_array("elements")?;
    let slots = assignments(elements, cat)?;
    let state = period_state(p)?;
    let lesson_text = p.required_str("lessonText")?;
    let text = p.required_str("periodText")?;
    let info = p.required_str("periodInfo")?;
    let substitution_text = p.required_str("substText")?;
    let date_n = p.required_u64("date")?;
    let date = decode_date(date_n, "date")?;
    let start_n = p.required_u64("startTime")?;
    let start_time = decode_time(start_n, "startTime")?;
    let end_n = p.required_u64("endTime")?;
    let end_time = decode_time(end_n, "endTime")?;
    let (teacher, subject, room) = slots;
    Ok(
        Period {
            lesson_text,
            text,
            info,
            substitution_text,
            date,
            start_time,
            end_time,
            state,
            teacher,
            subject,
            room,
        },
    )
}

proof fn lemma_periods_error_persists(list: Seq<JsonValue>, cat: CatalogMaps, n: nat, m: nat)
    requires
        n <= m,
        periods_upto(list, cat, n) is Err,
    ensures
        periods_upto(list, cat, m) == periods_upto(list, cat, n),
    decreases m - n,
{
    if n < m {
        lemma_periods_error_persists(list, cat, n, (m - 1) as nat);
    }
}

/// Reads a person's periods from a timetable document, in document order.
/// Fails, with nothing decoded, on the first missing or ill-typed field,
/// unknown state or assignment kind, unresolved reference, or malformed
/// date or time.
pub fn parse_timetable(timetable: &JsonValue, person_id: u64) -> (r: Result<
    Vec<Period>,
    ParseError,
>)
    ensures
        match parse_timetable_spec(*timetable, person_id) {
            Ok(ps) => r is Ok && r->Ok_0@ == ps,
            Err(x) => r is Err && r->Err_0 == x,
        },
        r matches Ok(ps) ==> forall|i: int| 0 <= i < ps@.len() ==> (#[trigger] ps@[i]).wf(),
{
    let data = timetable.required("data")?.required("result")?.required("data")?;
    let elements = data.required_array("elements")?;
    let catalog = build_catalog(elements)?;
    let periods = data.required("elementPeriods")?;
    let key = decimal_string(person_id);
    let list = match periods.get(key.as_str()) {
        None => {
            return Err(
                ParseError { kind: ParseErrorKind::NoTimetableForPerson, field: "elementPeriods" },
            );
        },
        Some(JsonValue::Array(items)) => items,
        Some(_) => {
            return Err(ParseError { kind: ParseErrorKind::TypeMismatch, field: "elementPeriods" });
        },
    };
    let mut out: Vec<Period> = Vec::new();
    let mut i: usize = 0;
    while i < list.len()
        invariant
            i <= list@.len(),
            parse_timetable_spec(*timetable, person_id) == periods_upto(
                list@,
                catalog.maps(),
                list@.len(),
            ),
            periods_upto(list@, catalog.maps(), i as nat) == Ok::<Seq<Period>, ParseError>(out@),
            forall|k: int| 0 <= k < out@.len() ==> (#[trigger] out@[k]).wf(),
        decreases list.len() - i,
    {
        match parse_period(&list[i], &catalog) {
            Ok(p) => {
                out.push(p);
            },
            Err(x) => {
                proof {
                    lemma_periods_error_persists(
                        list@,
                        catalog.maps(),
                        (i + 1) as nat,
                        list@.len(),
                    );
                }
                return Err(x);
            },
        }
        i = i + 1;
    }
    Ok(out)
}

} // verus!
