//! Reads a weekly timetable document into typed lessons and announces the
//! deviations of one day as sentences.
use vstd::prelude::*;

pub mod catalog;
pub mod clock;
pub mod extract;
pub mod json;
pub mod model;
pub mod order;
pub mod render;
pub mod text;

verus! {

/// The greeting served at the root route.
pub fn index() -> (r: &'static str)
    ensures
        r@ == "Hello, world!"@,
{
    "Hello, world!"
}

} // verus!
