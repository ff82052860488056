//! A plain JSON tree, and the required-field accessors that decoding is built from.
use vstd::prelude::*;

verus! {

/// A JSON value. Numbers are split by what the decoder can read from them:
/// an unsigned integer, or any other number.
#[derive(Debug)]
pub enum JsonValue {
    Null,
    Bool(bool),
    UInt(u64),
    OtherNumber,
    Str(String),
    Array(Vec<JsonValue>),
    Object(Vec<(String, JsonValue)>),
}

/// What went wrong while decoding a timetable document.
#[derive(Debug, Clone, Copy, PartialEq, Eq, Structural)]
pub enum ParseErrorKind {
    MissingField,
    TypeMismatch,
    UnknownEnumValue,
    UnresolvedReference,
    MalformedValue,
    UnknownAssignmentKind,
    NoTimetableForPerson,
}

/// A decoding failure: its kind and the field (or resource kind) it concerns.
#[derive(Debug, Clone, Copy)]
pub struct ParseError {
    pub kind: ParseErrorKind,
    pub field: &'static str,
}

impl ParseError {
    pub fn describe(&self) -> (r: String)
        ensures
            r@ == self.field@,
    {
        String::from_str(self.field)
    }
}

pub open spec fn err<T>(kind: ParseErrorKind, field: &'static str) -> Result<T, ParseError> {
    Err(ParseError { kind, field })
}

/// The value stored under `key`; the first entry wins.
pub open spec fn lookup(entries: Seq<(String, JsonValue)>, key: Seq<char>) -> Option<JsonValue>
    decreases entries.len(),
{
    if entries.len() == 0 {
        None
    } else if entries[0].0@ == key {
        Some(entries[0].1)
    } else {
        lookup(entries.skip(1), key)
    }
}

/// Member `key` of an object; nothing for any other value.
pub open spec fn get_spec(j: JsonValue, key: Seq<char>) -> Option<JsonValue> {
    match j {
        JsonValue::Object(entries) => lookup(entries@, key),
        _ => None,
    }
}

pub open spec fn required(j: JsonValue, key: &'static str) -> Result<JsonValue, ParseError> {
    match get_spec(j, key@) {
        Some(v) => Ok(v),
        None => err(ParseErrorKind::MissingField, key),
    }
}

pub open spec fn required_u64(j: JsonValue, key: &'static str) -> Result<u64, ParseError> {
    match required(j, key) {
        Ok(JsonValue::UInt(n)) => Ok(n),
        Ok(_) => err(ParseErrorKind::TypeMismatch, key),
        Err(e) => Err(e),
    }
}

pub open spec fn required_bool(j: JsonValue, key: &'static str) -> Result<bool, ParseError> {
    match required(j, key) {
        Ok(JsonValue::Bool(b)) => Ok(b),
        Ok(_) => err(ParseErrorKind::TypeMismatch, key),
        Err(e) => Err(e),
    }
}

pub open spec fn required_str(j: JsonValue, key: &'static str) -> Result<String, ParseError> {
    match required(j, key) {
        Ok(JsonValue::Str(s)) => Ok(s),
        Ok(_) => err(ParseErrorKind::TypeMismatch, key),
        Err(e) => Err(e),
    }
}

pub open spec fn required_array(j: JsonValue, key: &'static str) -> Result<
    Seq<JsonValue>,
    ParseError,
> {
    match required(j, key) {
        Ok(JsonValue::Array(items)) => Ok(items@),
        Ok(_) => err(ParseErrorKind::TypeMismatch, key),
        Err(e) => Err(e),
    }
}

/// Character-wise equality of two strings.
pub fn str_eq(a: &str, b: &str) -> (r: bool)
    ensures
        r == (a@ == b@),
{
    let n = a.unicode_len();
    let m = b.unicode_len();
    if n != m {
        return false;
    }
    let mut i: usize = 0;
    while i < n
        invariant
            n == a@.len(),
            m == b@.len(),
            n == m,
            i <= n,
            a@.take(i as int) == b@.take(i as int),
        decreases n - i,
    {
        if a.get_char(i) != b.get_char(i) {
            return false;
        }
        assert(a@.take(i + 1) == a@.take(i as int).push(a@[i as int]));
        assert(b@.take(i + 1) == b@.take(i as int).push(b@[i as int]));
        i = i + 1;
    }
    assert(a@ == a@.take(n as int));
    assert(b@ == b@.take(n as int));
    true
}

impl JsonValue {
    /// Member `key` of an object, if this is an object that has it.
    pub fn get(&self, key: &str) -> (r: Option<&JsonValue>)
        ensures
            match r {
                Some(v) => get_spec(*self, key@) == Some(*v),
                None => get_spec(*self, key@) is None,
            },
    {
        match self {
            JsonValue::Object(entries) => {
                let mut i: usize = 0;
                assert(entries@.skip(0) == entries@);
                while i < entries.len()
                    invariant
                        i <= entries@.len(),
                        get_spec(*self, key@) == lookup(entries@, key@),
                        lookup(entries@, key@) == lookup(entries@.skip(i as int), key@),
                    decreases entries.len() - i,
                {
                    assert(entries@.skip(i as int).skip(1) == entries@.skip(i + 1));
                    assert(entries@.skip(i as int)[0] == entries@[i as int]);
                    if str_eq(entries[i].0.as_str(), key) {
                        assert(entries@[i as int].0@ == key@);
                        assert(lookup(entries@.skip(i as int), key@) == Some(entries@[i as int].1));
                        return Some(&entries[i].1);
                    }
                    i = i + 1;
                }
                None
            },
            _ => None,
        }
    }

    pub fn required(&self, key: &'static str) -> (r: Result<&JsonValue, ParseError>)
        ensures
            match r {
                Ok(v) => required(*self, key) == Ok::<JsonValue, ParseError>(*v),
                Err(e) => required(*self, key) == Err::<JsonValue, ParseError>(e),
            },
    {
        match self.get(key) {
            Some(v) => Ok(v),
            None => Err(ParseError { kind: ParseErrorKind::MissingField, field: key }),
        }
    }

    pub fn required_u64(&self, key: &'static str) -> (r: Result<u64, ParseError>)
        ensures
            r == required_u64(*self, key),
    {
        match self.required(key)? {
            JsonValue::UInt(n) => Ok(*n),
            _ => Err(ParseError { kind: ParseErrorKind::TypeMismatch, field: key }),
        }
    }

    pub fn required_bool(&self, key: &'static str) -> (r: Result<bool, ParseError>)
        ensures
            r == required_bool(*self, key),
    {
        match self.required(key)? {
            JsonValue::Bool(b) => Ok(*b),
            _ => Err(ParseError { kind: ParseErrorKind::TypeMismatch, field: key }),
        }
    }

    pub fn required_str(&self, key: &'static str) -> (r: Result<String, ParseError>)
        ensures
            r == required_str(*self, key),
    {
        match self.required(key)? {
            JsonValue::Str(s) => Ok(s.clone()),
            _ => Err(ParseError { kind: ParseErrorKind::TypeMismatch, field: key }),
        }
    }

    pub fn required_array(&self, key: &'static str) -> (r: Result<&Vec<JsonValue>, ParseError>)
        ensures
            match r {
                Ok(items) => required_array(*self, key) == Ok::<Seq<JsonValue>, ParseError>(
                    items@,
                ),
                Err(e) => required_array(*self, key) == Err::<Seq<JsonValue>, ParseError>(e),
            },
    {
        match self.required(key)? {
            JsonValue::Array(items) => Ok(items),
            _ => Err(ParseError { kind: ParseErrorKind::TypeMismatch, field: key }),
        }
    }
}

} // verus!
