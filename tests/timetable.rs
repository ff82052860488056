use untis_timetable::clock::{decode_date, decode_time, ClockTime, Date};
use untis_timetable::extract::parse_timetable;
use untis_timetable::index;
use untis_timetable::json::{JsonValue, ParseErrorKind};
use untis_timetable::model::{ElementState, Period, PeriodState, Teacher};
use untis_timetable::order::chronological_order;
use untis_timetable::render::speakable;
use untis_timetable::text::decimal_string;

const PERSON: u64 = 4711;

fn obj(entries: Vec<(&str, JsonValue)>) -> JsonValue {
    JsonValue::Object(entries.into_iter().map(|(k, v)| (k.to_string(), v)).collect())
}

fn s(x: &str) -> JsonValue {
    JsonValue::Str(x.to_string())
}

fn n(x: u64) -> JsonValue {
    JsonValue::UInt(x)
}

fn teacher(id: u64, name: &str) -> JsonValue {
    obj(vec![
        ("type", n(2)),
        ("id", n(id)),
        ("name", s(name)),
        ("canViewTimetable", JsonValue::Bool(false)),
        ("externKey", s("")),
        ("roomCapacity", n(0)),
    ])
}

fn subject(id: u64, long_name: &str) -> JsonValue {
    obj(vec![
        ("type", n(3)),
        ("id", n(id)),
        ("name", s("S")),
        ("longName", s(long_name)),
        ("displayname", s(long_name)),
        ("alternatename", s("")),
        ("backColor", s("ffffff")),
        ("canViewTimetable", JsonValue::Bool(true)),
        ("roomCapacity", n(0)),
    ])
}

fn room(id: u64, long_name: &str) -> JsonValue {
    obj(vec![
        ("type", n(4)),
        ("id", n(id)),
        ("name", s("R")),
        ("longName", s(long_name)),
        ("displayname", s(long_name)),
        ("alternatename", s("")),
        ("canViewTimetable", JsonValue::Bool(true)),
        ("roomCapacity", n(30)),
    ])
}

fn assignment(kind: u64, id: u64, org: u64, state: &str) -> JsonValue {
    obj(vec![
        ("type", n(kind)),
        ("id", n(id)),
        ("orgId", n(org)),
        ("state", s(state)),
        ("missing", JsonValue::Bool(false)),
    ])
}

fn period(elements: Vec<JsonValue>, state: &str, date: u64, start: u64, end: u64, note: &str) -> JsonValue {
    obj(vec![
        ("elements", JsonValue::Array(elements)),
        ("cellState", s(state)),
        ("lessonText", s("")),
        ("periodText", s("")),
        ("periodInfo", s("")),
        ("substText", s(note)),
        ("date", n(date)),
        ("startTime", n(start)),
        ("endTime", n(end)),
    ])
}

fn document(elements: Vec<JsonValue>, periods: Vec<JsonValue>) -> JsonValue {
    let by_person = obj(vec![(PERSON.to_string().as_str(), JsonValue::Array(periods))]);
    let inner = obj(vec![("elements", JsonValue::Array(elements)), ("elementPeriods", by_person)]);
    obj(vec![("data", obj(vec![("result", obj(vec![("data", inner)]))]))])
}

fn catalog() -> Vec<JsonValue> {
    vec![
        teacher(1, "Müller"),
        teacher(2, "Schmidt"),
        subject(10, "Mathematik"),
        subject(11, "Physik"),
        room(20, "Raum 101"),
        room(21, "Raum 202"),
    ]
}

const TODAY: Date = Date { year: 2024, month: 3, day: 12 };

fn render(periods: Vec<JsonValue>, today: Date) -> String {
    let periods = parse_timetable(&document(catalog(), periods), PERSON).unwrap();
    speakable(&periods, today)
}

#[test]
fn time_decoding_pads_hours() {
    assert_eq!(decode_time(900, "startTime").unwrap(), ClockTime { hour: 9, minute: 0 });
    assert_eq!(decode_time(1430, "startTime").unwrap(), ClockTime { hour: 14, minute: 30 });
}

#[test]
fn time_decoding_rejects_wrong_lengths() {
    assert_eq!(decode_time(30000, "startTime").unwrap_err().kind, ParseErrorKind::MalformedValue);
    assert_eq!(decode_time(5, "endTime").unwrap_err().kind, ParseErrorKind::MalformedValue);
    assert_eq!(decode_time(5, "endTime").unwrap_err().field, "endTime");
}

#[test]
fn time_decoding_rejects_impossible_clock_values() {
    assert_eq!(decode_time(2400, "startTime").unwrap_err().kind, ParseErrorKind::MalformedValue);
    assert_eq!(decode_time(1260, "startTime").unwrap_err().kind, ParseErrorKind::MalformedValue);
    assert_eq!(decode_time(2359, "startTime").unwrap(), ClockTime { hour: 23, minute: 59 });
}

#[test]
fn time_formats_zero_padded() {
    let mut out = String::from("at ");
    ClockTime { hour: 8, minute: 5 }.push_hhmm(&mut out);
    assert_eq!(out, "at 08:05");
}

#[test]
fn date_decoding_follows_the_calendar() {
    assert_eq!(decode_date(20240229, "date").unwrap(), Date { year: 2024, month: 2, day: 29 });
    assert_eq!(decode_date(20230229, "date").unwrap_err().kind, ParseErrorKind::MalformedValue);
    assert_eq!(decode_date(19000229, "date").unwrap_err().kind, ParseErrorKind::MalformedValue);
    assert_eq!(decode_date(20000229, "date").unwrap(), Date { year: 2000, month: 2, day: 29 });
    assert_eq!(decode_date(20241301, "date").unwrap_err().kind, ParseErrorKind::MalformedValue);
    assert_eq!(decode_date(2024131, "date").unwrap_err().kind, ParseErrorKind::MalformedValue);
}

#[test]
fn decimal_string_writes_digits() {
    assert_eq!(decimal_string(0), "0");
    assert_eq!(decimal_string(4711), "4711");
    assert_eq!(decimal_string(u64::MAX), "18446744073709551615");
}

#[test]
fn index_greets() {
    assert_eq!(index(), "Hello, world!");
}

#[test]
fn cancellation_scenario() {
    let p = period(vec![assignment(3, 10, 10, "REGULAR")], "CANCEL", 20240312, 800, 850, "");
    assert_eq!(render(vec![p], TODAY), "Mathematik fällt zwischen 08:00 und 08:50 Uhr aus!");
}

#[test]
fn teacher_substitution_scenario() {
    let p = period(
        vec![assignment(3, 11, 11, "REGULAR"), assignment(2, 2, 1, "SUBSTITUTED"), assignment(4, 20, 20, "REGULAR")],
        "SUBSTITUTION",
        20240312,
        1000,
        1050,
        "Vertretung",
    );
    assert_eq!(
        render(vec![p], TODAY),
        "Änderung bei Physik zwischen 10:00 und 10:50 Uhr: Lehrerwechsel von 'Müller' zu 'Schmidt'; Vertretung"
    );
}

#[test]
fn absent_teacher_and_room_change() {
    let p = period(
        vec![assignment(3, 10, 10, "REGULAR"), assignment(2, 2, 1, "ABSENT"), assignment(4, 21, 20, "SUBSTITUTED")],
        "SUBSTITUTION",
        20240312,
        1145,
        1230,
        "",
    );
    assert_eq!(
        render(vec![p], TODAY),
        "Änderung bei Mathematik zwischen 11:45 und 12:30 Uhr: Unterricht ohne Lehrer (von 'Müller'); Raumwechsel von 'Raum 101' zu 'Raum 202'; "
    );
}

#[test]
fn absent_room_is_announced() {
    let p = period(
        vec![assignment(3, 10, 10, "REGULAR"), assignment(4, 21, 20, "ABSENT")],
        "SUBSTITUTION",
        20240312,
        800,
        845,
        "x",
    );
    assert_eq!(
        render(vec![p], TODAY),
        "Änderung bei Mathematik zwischen 08:00 und 08:45 Uhr: Unterricht ohne Raum (von 'Raum 101'); x"
    );
}

#[test]
fn unchanged_assignment_adds_no_clause() {
    let p = period(
        vec![assignment(3, 10, 10, "REGULAR"), assignment(2, 1, 1, "SUBSTITUTED"), assignment(4, 20, 20, "ABSENT")],
        "SUBSTITUTION",
        20240312,
        800,
        845,
        "Hinweis",
    );
    let periods = parse_timetable(&document(catalog(), vec![p]), PERSON).unwrap();
    assert!(periods[0].teacher.as_ref().unwrap().original_teacher.is_none());
    assert_eq!(
        speakable(&periods, TODAY),
        "Änderung bei Mathematik zwischen 08:00 und 08:45 Uhr: Hinweis"
    );
}

#[test]
fn unresolvable_original_adds_no_clause() {
    let p = period(
        vec![assignment(3, 10, 10, "REGULAR"), assignment(2, 2, 99, "SUBSTITUTED")],
        "SUBSTITUTION",
        20240312,
        800,
        845,
        "",
    );
    assert_eq!(render(vec![p], TODAY), "Änderung bei Mathematik zwischen 08:00 und 08:45 Uhr: ");
}

#[test]
fn standard_period_text() {
    let p = period(vec![assignment(3, 10, 10, "REGULAR")], "STANDARD", 20240312, 800, 845, "");
    let periods = parse_timetable(&document(catalog(), vec![p]), PERSON).unwrap();
    assert_eq!(periods[0].state, PeriodState::Standard);
    assert_eq!(
        periods[0].speakable_text(),
        "Im Fach Mathematik zwischen 08:00 und 08:45 Uhr gibt es keine Änderungen!"
    );
    assert_eq!(speakable(&periods, TODAY), "");
}

#[test]
fn period_without_subject_says_nothing() {
    let p = period(vec![assignment(2, 1, 1, "REGULAR")], "CANCEL", 20240312, 800, 845, "");
    let periods = parse_timetable(&document(catalog(), vec![p]), PERSON).unwrap();
    assert_eq!(periods[0].speakable_text(), "");
}

#[test]
fn date_filter_is_repeatable_and_exact() {
    let periods = vec![
        period(vec![assignment(3, 10, 10, "REGULAR")], "CANCEL", 20240312, 800, 850, ""),
        period(vec![assignment(3, 11, 11, "REGULAR")], "CANCEL", 20240313, 900, 950, ""),
    ];
    let periods = parse_timetable(&document(catalog(), periods), PERSON).unwrap();
    let first = speakable(&periods, TODAY);
    assert_eq!(first, speakable(&periods, TODAY));
    assert_eq!(first, "Mathematik fällt zwischen 08:00 und 08:50 Uhr aus!");
    assert_eq!(speakable(&periods, Date { year: 2024, month: 3, day: 14 }), "");
    assert_eq!(speakable(&Vec::new(), TODAY), "");
}

#[test]
fn lines_are_sorted_and_joined() {
    let periods = vec![
        period(vec![assignment(3, 11, 11, "REGULAR")], "CANCEL", 20240312, 1000, 1045, ""),
        period(vec![assignment(3, 10, 10, "REGULAR")], "CANCEL", 20240312, 800, 845, ""),
    ];
    assert_eq!(
        render(periods, TODAY),
        "Mathematik fällt zwischen 08:00 und 08:45 Uhr aus!\nPhysik fällt zwischen 10:00 und 10:45 Uhr aus!"
    );
}

#[test]
fn equal_starts_keep_their_order() {
    let periods = vec![
        period(vec![assignment(3, 11, 11, "REGULAR")], "CANCEL", 20240312, 800, 845, ""),
        period(vec![assignment(3, 10, 10, "REGULAR")], "CANCEL", 20240312, 800, 845, ""),
        period(vec![assignment(3, 10, 10, "REGULAR")], "CANCEL", 20240311, 1300, 1345, ""),
    ];
    let parsed = parse_timetable(&document(catalog(), periods), PERSON).unwrap();
    assert_eq!(chronological_order(&parsed), vec![2, 0, 1]);
    assert_eq!(
        speakable(&parsed, TODAY),
        "Physik fällt zwischen 08:00 und 08:45 Uhr aus!\nMathematik fällt zwischen 08:00 und 08:45 Uhr aus!"
    );
}

#[test]
fn extraction_keeps_document_order_and_fields() {
    let mut subject_ref = assignment(3, 10, 10, "REGULAR");
    if let JsonValue::Object(entries) = &mut subject_ref {
        entries.push(("backColor".to_string(), s("ff0000")));
        entries.push(("foreColor".to_string(), s("000000")));
    }
    let periods = vec![
        period(vec![subject_ref], "SUBSTITUTION", 20240312, 1000, 1045, "a"),
        period(vec![assignment(3, 11, 11, "REGULAR")], "CANCEL", 20240301, 800, 845, "b"),
    ];
    let parsed = parse_timetable(&document(catalog(), periods), PERSON).unwrap();
    assert_eq!(parsed.len(), 2);
    assert_eq!(parsed[0].substitution_text, "a");
    assert_eq!(parsed[1].substitution_text, "b");
    assert_eq!(parsed[0].date, Date { year: 2024, month: 3, day: 12 });
    assert_eq!(parsed[0].end_time, ClockTime { hour: 10, minute: 45 });
    let subject = parsed[0].subject.as_ref().unwrap();
    assert_eq!(subject.back_color, "ff0000");
    assert_eq!(subject.fore_color.as_deref(), Some("000000"));
    let other = parsed[1].subject.as_ref().unwrap();
    assert_eq!(other.back_color, "ffffff");
    assert_eq!(other.fore_color, None);
    assert_eq!(other.long_name, "Physik");
}

#[test]
fn later_assignment_of_a_kind_wins() {
    let p = period(
        vec![assignment(3, 10, 10, "REGULAR"), assignment(2, 1, 1, "REGULAR"), assignment(2, 2, 1, "SUBSTITUTED")],
        "SUBSTITUTION",
        20240312,
        800,
        845,
        "",
    );
    let parsed = parse_timetable(&document(catalog(), vec![p]), PERSON).unwrap();
    let t: &Teacher = parsed[0].teacher.as_ref().unwrap();
    assert_eq!(t.id, 2);
    assert_eq!(t.name, "Schmidt");
    assert_eq!(t.state, ElementState::Substituted);
    assert_eq!(t.original_teacher.as_ref().unwrap().name, "Müller");
}

#[test]
fn missing_element_id_fails() {
    let mut elements = catalog();
    elements.push(obj(vec![("type", n(2)), ("name", s("X"))]));
    let p = period(vec![assignment(3, 10, 10, "REGULAR")], "CANCEL", 20240312, 800, 850, "");
    let e = parse_timetable(&document(elements, vec![p]), PERSON).unwrap_err();
    assert_eq!(e.kind, ParseErrorKind::MissingField);
    assert_eq!(e.field, "id");
    assert_eq!(e.describe(), "id");
}

#[test]
fn unresolved_reference_fails() {
    let ok = period(vec![assignment(3, 10, 10, "REGULAR")], "CANCEL", 20240312, 800, 850, "");
    let bad = period(vec![assignment(3, 12, 12, "REGULAR")], "CANCEL", 20240312, 900, 950, "");
    let e = parse_timetable(&document(catalog(), vec![ok, bad]), PERSON).unwrap_err();
    assert_eq!(e.kind, ParseErrorKind::UnresolvedReference);
    assert_eq!(e.field, "subject");
}

#[test]
fn unknown_catalog_kind_is_skipped() {
    let mut elements = catalog();
    elements.push(obj(vec![("type", n(5)), ("id", n(7))]));
    let p = period(vec![assignment(3, 10, 10, "REGULAR")], "CANCEL", 20240312, 800, 850, "");
    assert!(parse_timetable(&document(elements, vec![p]), PERSON).is_ok());
}

#[test]
fn unknown_assignment_kind_fails() {
    let p = period(vec![assignment(5, 10, 10, "REGULAR")], "CANCEL", 20240312, 800, 850, "");
    let e = parse_timetable(&document(catalog(), vec![p]), PERSON).unwrap_err();
    assert_eq!(e.kind, ParseErrorKind::UnknownAssignmentKind);
}

#[test]
fn unknown_states_fail() {
    let p = period(vec![assignment(3, 10, 10, "MOVED")], "CANCEL", 20240312, 800, 850, "");
    let e = parse_timetable(&document(catalog(), vec![p]), PERSON).unwrap_err();
    assert_eq!((e.kind, e.field), (ParseErrorKind::UnknownEnumValue, "state"));
    let p = period(vec![assignment(3, 10, 10, "REGULAR")], "EXAM", 20240312, 800, 850, "");
    let e = parse_timetable(&document(catalog(), vec![p]), PERSON).unwrap_err();
    assert_eq!((e.kind, e.field), (ParseErrorKind::UnknownEnumValue, "cellState"));
}

#[test]
fn type_mismatch_fails() {
    let p = obj(vec![("elements", n(3))]);
    let e = parse_timetable(&document(catalog(), vec![p]), PERSON).unwrap_err();
    assert_eq!((e.kind, e.field), (ParseErrorKind::TypeMismatch, "elements"));
}

#[test]
fn malformed_period_time_fails() {
    let p = period(vec![assignment(3, 10, 10, "REGULAR")], "CANCEL", 20240312, 5, 850, "");
    let e = parse_timetable(&document(catalog(), vec![p]), PERSON).unwrap_err();
    assert_eq!((e.kind, e.field), (ParseErrorKind::MalformedValue, "startTime"));
    let p = period(vec![assignment(3, 10, 10, "REGULAR")], "CANCEL", 20240231, 800, 850, "");
    let e = parse_timetable(&document(catalog(), vec![p]), PERSON).unwrap_err();
    assert_eq!((e.kind, e.field), (ParseErrorKind::MalformedValue, "date"));
}

#[test]
fn missing_person_fails() {
    let doc = document(catalog(), vec![]);
    let e = parse_timetable(&doc, 1).unwrap_err();
    assert_eq!(e.kind, ParseErrorKind::NoTimetableForPerson);
    assert!(parse_timetable(&doc, PERSON).unwrap().is_empty());
}

#[test]
fn missing_path_fails() {
    let e = parse_timetable(&obj(vec![("data", obj(vec![]))]), PERSON).unwrap_err();
    assert_eq!((e.kind, e.field), (ParseErrorKind::MissingField, "result"));
}

#[test]
fn empty_input_has_empty_order() {
    let p: Vec<Period> = Vec::new();
    assert!(chronological_order(&p).is_empty());
}
