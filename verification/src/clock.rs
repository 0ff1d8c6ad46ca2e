use vstd::prelude::*;

verus! {

/// An instant in UTC, as microseconds since 1970-01-01 00:00:00.
#[derive(Clone, Copy, Debug, PartialEq, Eq, Hash, Structural)]
pub struct Timestamp {
    pub micros: i64,
}

/// Reads the wall clock through `chrono::Utc::now` and
/// `DateTime::timestamp_micros`. Nothing is claimed of the value: two
/// readings may differ in either direction. `Utc::now` panics where the
/// system clock stands before 1970; nothing that is passed in can cause or
/// prevent that.
#[verifier::external_body]
fn wall_clock_micros() -> (micros: i64) {
    chrono::Utc::now().timestamp_micros()
}

impl Timestamp {
    pub fn from_micros(micros: i64) -> (t: Timestamp)
        ensures
            t.micros == micros,
    {
        Timestamp { micros }
    }

    /// The current instant.
    pub fn now() -> (t: Timestamp) {
        Timestamp { micros: wall_clock_micros() }
    }

    /// Whether this instant lies strictly before `other`.
    pub fn is_before(&self, other: &Timestamp) -> (before: bool)
        ensures
            before == (self.micros < other.micros),
    {
        self.micros < other.micros
    }
}

} // verus!
