//! The catalog of reference entities: rooms, teachers and subjects by id.
use vstd::prelude::*;
use std::collections::HashMap;
use crate::json::{
    err, get_spec, required_bool, required_str, required_u64, JsonValue, ParseError, ParseErrorKind,
};
use crate::model::{OriginalRoom, OriginalSubject, OriginalTeacher};

verus! {

broadcast use vstd::std_specs::hash::group_hash_axioms;

pub const TEACHER_TAG: u64 = 2;
pub const SUBJECT_TAG: u64 = 3;
pub const ROOM_TAG: u64 = 4;

/// The catalog as three maps: teachers, subjects, rooms.
pub type CatalogMaps = (Map<u64, OriginalTeacher>, Map<u64, OriginalSubject>, Map<u64, OriginalRoom>);

pub struct Catalog {
    pub teachers: HashMap<u64, OriginalTeacher>,
    pub subjects: HashMap<u64, OriginalSubject>,
    pub rooms: HashMap<u64, OriginalRoom>,
}

impl Catalog {
    pub open spec fn maps(&self) -> CatalogMaps {
        (self.teachers@, self.subjects@, self.rooms@)
    }
}

/// An optional string member: absent or `null` gives nothing.
pub open spec fn optional_str_spec(j: JsonValue, key: &'static str) -> Result<Option<String>, ParseError> {
    match get_spec(j, key@) {
        None => Ok(None),
        Some(JsonValue::Null) => Ok(None),
        Some(JsonValue::Str(s)) => Ok(Some(s)),
        Some(_) => err(ParseErrorKind::TypeMismatch, key),
    }
}

pub open spec fn teacher_record_spec(e: JsonValue) -> Result<OriginalTeacher, ParseError> {
    let id = required_u64(e, "id");
    let name = required_str(e, "name");
    let view = required_bool(e, "canViewTimetable");
    let key = required_str(e, "externKey");
    let cap = required_u64(e, "roomCapacity");
    if id is Err {
        Err(id->Err_0)
    } else if name is Err {
        Err(name->Err_0)
    } else if view is Err {
        Err(view->Err_0)
    } else if key is Err {
        Err(key->Err_0)
    } else if cap is Err {
        Err(cap->Err_0)
    } else {
        Ok(
            OriginalTeacher {
                id: id->Ok_0,
                name: name->Ok_0,
                can_view_timetable: view->Ok_0,
                extern_key: key->Ok_0,
                room_capacity: cap->Ok_0,
            },
        )
    }
}

pub open spec fn room_record_spec(e: JsonValue) -> Result<OriginalRoom, ParseError> {
    let id = required_u64(e, "id");
    let name = required_str(e, "name");
    let long_name = required_str(e, "longName");
    let display = required_str(e, "displayname");
    let alternate = required_str(e, "alternatename");
    let view = required_bool(e, "canViewTimetable");
    let cap = required_u64(e, "roomCapacity");
    if id is Err {
        Err(id->Err_0)
    } else if name is Err {
        Err(name->Err_0)
    } else if long_name is Err {
        Err(long_name->Err_0)
    } else if display is Err {
        Err(display->Err_0)
    } else if alternate is Err {
        Err(alternate->Err_0)
    } else if view is Err {
        Err(view->Err_0)
    } else if cap is Err {
        Err(cap->Err_0)
    } else {
        Ok(
            OriginalRoom {
                id: id->Ok_0,
                name: name->Ok_0,
                long_name: long_name->Ok_0,
                displayname: display->Ok_0,
                alternatename: alternate->Ok_0,
                can_view_timetable: view->Ok_0,
                room_capacity: cap->Ok_0,
            },
        )
    }
}

pub open spec fn subject_record_spec(e: JsonValue) -> Result<OriginalSubject, ParseError> {
    let id = required_u64(e, "id");
    let name = required_str(e, "name");
    let long_name = required_str(e, "longName");
    let display = required_str(e, "displayname");
    let alternate = required_str(e, "alternatename");
    let back = required_str(e, "backColor");
    let view = required_bool(e, "canViewTimetable");
    let cap = required_u64(e, "roomCapacity");
    let fore = optional_str_spec(e, "foreColor");
    if id is Err {
        Err(id->Err_0)
    } else if name is Err {
        Err(name->Err_0)
    } else if long_name is Err {
        Err(long_name->Err_0)
    } else if display is Err {
        Err(display->Err_0)
    } else if alternate is Err {
        Err(alternate->Err_0)
    } else if back is Err {
        Err(back->Err_0)
    } else if view is Err {
        Err(view->Err_0)
    } else if cap is Err {
        Err(cap->Err_0)
    } else if fore is Err {
        Err(fore->Err_0)
    } else {
        Ok(
            OriginalSubject {
                id: id->Ok_0,
                name: name->Ok_0,
                long_name: long_name->Ok_0,
                display_name: display->Ok_0,
                alternate_name: alternate->Ok_0,
                back_color: back->Ok_0,
                can_view_timetable: view->Ok_0,
                room_capacity: cap->Ok_0,
                fore_color: fore->Ok_0,
            },
        )
    }
}

/// Adds one element of the flat element list to the catalog. Elements of an
/// unknown kind are skipped.
pub open spec fn add_element(c: CatalogMaps, e: JsonValue) -> Result<CatalogMaps, ParseError> {
    let tag = required_u64(e, "type");
    let id = required_u64(e, "id");
    if tag is Err {
        Err(tag->Err_0)
    } else if id is Err {
        Err(id->Err_0)
    } else if tag->Ok_0 == TEACHER_TAG {
        match teacher_record_spec(e) {
            Ok(t) => Ok((c.0.insert(id->Ok_0, t), c.1, c.2)),
            Err(x) => Err(x),
        }
    } else if tag->Ok_0 == SUBJECT_TAG {
        match subject_record_spec(e) {
            Ok(s) => Ok((c.0, c.1.insert(id->Ok_0, s), c.2)),
            Err(x) => Err(x),
        }
    } else if tag->Ok_0 == ROOM_TAG {
        match room_record_spec(e) {
            Ok(r) => Ok((c.0, c.1, c.2.insert(id->Ok_0, r))),
            Err(x) => Err(x),
        }
    } else {
        Ok(c)
    }
}

/// The catalog of the first `n` elements; the first failing element decides the error.
pub open spec fn catalog_upto(elements: Seq<JsonValue>, n: nat) -> Result<CatalogMaps, ParseError>
    decreases n,
{
    if n == 0 {
        Ok((Map::empty(), Map::empty(), Map::empty()))
    } else {
        match catalog_upto(elements, (n - 1) as nat) {
            Ok(c) => add_element(c, elements[n - 1]),
            Err(x) => Err(x),
        }
    }
}

pub fn optional_str(j: &JsonValue, key: &'static str) -> (r: Result<Option<String>, ParseError>)
    ensures
        r == optional_str_spec(*j, key),
{
    match j.get(key) {
        None => Ok(None),
        Some(JsonValue::Null) => Ok(None),
        Some(JsonValue::Str(s)) => Ok(Some(s.clone())),
        Some(_) => Err(ParseError { kind: ParseErrorKind::TypeMismatch, field: key }),
    }
}

pub fn teacher_record(e: &JsonValue) -> (r: Result<OriginalTeacher, ParseError>)
    ensures
        r == teacher_record_spec(*e),
{
    let id = e.required_u64("id")?;
    let name = e.required_str("name")?;
    let can_view_timetable = e.required_bool("canViewTimetable")?;
    let extern_key = e.required_str("externKey")?;
    let room_capacity = e.required_u64("roomCapacity")?;
    Ok(OriginalTeacher { id, name, can_view_timetable, extern_key, room_capacity })
}

pub fn room_record(e: &JsonValue) -> (r: Result<OriginalRoom, ParseError>)
    ensures
        r == room_record_spec(*e),
{
    let id = e.required_u64("id")?;
    let name = e.required_str("name")?;
    let long_name = e.required_str("longName")?;
    let displayname = e.required_str("displayname")?;
    let alternatename = e.required_str("alternatename")?;
    let can_view_timetable = e.required_bool("canViewTimetable")?;
    let room_capacity = e.required_u64("roomCapacity")?;
    Ok(
        OriginalRoom {
            id,
            name,
            long_name,
            displayname,
            alternatename,
            can_view_timetable,
            room_capacity,
        },
    )
}

pub fn subject_record(e: &JsonValue) -> (r: Result<OriginalSubject, ParseError>)
    ensures
        r == subject_record_spec(*e),
{
    let id = e.required_u64("id")?;
    let name = e.required_str("name")?;
    let long_name = e.required_str("longName")?;
    let display_name = e.required_str("displayname")?;
    let alternate_name = e.required_str("alternatename")?;
    let back_color = e.required_str("backColor")?;
    let can_view_timetable = e.required_bool("canViewTimetable")?;
    let room_capacity = e.required_u64("roomCapacity")?;
    let fore_color = optional_str(e, "foreColor")?;
    Ok(
        OriginalSubject {
            id,
            name,
            long_name,
            display_name,
            alternate_name,
            back_color,
            can_view_timetable,
            room_capacity,
            fore_color,
        },
    )
}

impl Catalog {
    pub fn new() -> (r: Catalog)
        ensures
            r.maps() == (
            Map::<u64, OriginalTeacher>::empty(),
            Map::<u64, OriginalSubject>::empty(),
            Map::<u64, OriginalRoom>::empty(),
            ),
    {
        Catalog { teachers: HashMap::new(), subjects: HashMap::new(), rooms: HashMap::new() }
    }

    /// Adds one element of the flat element list.
    pub fn add_element(&mut self, e: &JsonValue) -> (r: Result<(), ParseError>)
        ensures
            match add_element(old(self).maps(), *e) {
                Ok(c) => r is Ok && final(self).maps() == c,
                Err(x) => r == Err::<(), ParseError>(x),
            },
    {
        let tag = e.required_u64("type")?;
        let id = e.required_u64("id")?;
        if tag == TEACHER_TAG {
            let t = teacher_record(e)?;
            self.teachers.insert(id, t);
        } else if tag == SUBJECT_TAG {
            let s = subject_record(e)?;
            self.subjects.insert(id, s);
        } else if tag == ROOM_TAG {
            let r = room_record(e)?;
            self.rooms.insert(id, r);
        }
        Ok(())
    }
}

/// Builds the catalog from the document's flat element list.
pub fn build_catalog(elements: &Vec<JsonValue>) -> (r: Result<Catalog, ParseError>)
    ensures
        match catalog_upto(elements@, elements@.len()) {
            Ok(c) => r is Ok && r->Ok_0.maps() == c,
            Err(x) => r is Err && r->Err_0 == x,
        },
{
    let mut catalog = Catalog::new();
    let mut i: usize = 0;
    while i < elements.len()
        invariant
            i <= elements@.len(),
            catalog_upto(elements@, i as nat) == Ok::<CatalogMaps, ParseError>(catalog.maps()),
        decreases elements.len() - i,
    {
        match catalog.add_element(&elements[i]) {
            Ok(()) => {},
            Err(x) => {
                proof {
                    lemma_catalog_error_persists(elements@, (i + 1) as nat, elements@.len());
                }
                return Err(x);
            },
        }
        i = i + 1;
    }
    Ok(catalog)
}

/// Once a prefix of the element list fails, every longer prefix fails the same way.
proof fn lemma_catalog_error_persists(elements: Seq<JsonValue>, n: nat, m: nat)
    requires
        n <= m,
        catalog_upto(elements, n) is Err,
    ensures
        catalog_upto(elements, m) == catalog_upto(elements, n),
    decreases m - n,
{
    if n < m {
        lemma_catalog_error_persists(elements, n, (m - 1) as nat);
    }
}

} // verus!
