//! Canonical timestamps.
//!
//! A timestamp enters the core as an already-formatted, microsecond
//! precision UTC string (for example `2025-11-28T14:30:00.000000Z`); the
//! core never reads a clock.  Parsing and formatting beyond the canonical
//! string are outside collaborators' work.

use vstd::prelude::*;

verus! {

/// A UTC timestamp held in its canonical string form.
#[derive(Debug, Clone, Hash)]
pub struct CanonicalTimestamp {
    value: String,
}

impl View for CanonicalTimestamp {
    type V = Seq<char>;

    closed spec fn view(&self) -> Seq<char> {
        self.value@
    }
}

impl CanonicalTimestamp {
    /// Wraps an already-formatted canonical timestamp string.
    pub fn new(value: String) -> (r: Self)
        ensures
            r@ == value@,
    {
        CanonicalTimestamp { value }
    }

    /// The canonical string form.
    pub fn to_canonical_string(&self) -> (r: String)
        ensures
            r@ == self@,
    {
        self.value.clone()
    }

    /// The canonical string form, borrowed.
    pub fn as_str(&self) -> (r: &str)
        ensures
            r@ == self@,
    {
        self.value.as_str()
    }
}

} // verus!
