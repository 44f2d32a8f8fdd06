//! The wall clock.
use vstd::prelude::*;

use crate::values::UtcInstant;

verus! {

/// Why the wall clock could not be read.
#[derive(Debug, Clone, Copy, PartialEq, Eq, Structural)]
pub enum ClockError {
    OutOfRange,
}

impl ClockError {
    /// The error in words.
    pub fn message(&self) -> (r: &'static str)
        ensures
            r@ == "wall clock returned an unrepresentable UTC instant"@,
    {
        "wall clock returned an unrepresentable UTC instant"
    }
}

/// The clock of the system.
#[derive(Debug, Clone, Copy, PartialEq, Eq, Structural)]
pub struct SystemClock {}

impl Default for SystemClock {
    fn default() -> (r: SystemClock)
        ensures
            r == (SystemClock {  }),
    {
        SystemClock {  }
    }
}

impl SystemClock {
    pub fn new() -> (r: SystemClock)
        ensures
            r == (SystemClock {  }),
    {
        SystemClock {  }
    }

    /// The moment that the system tells as whole seconds and nanoseconds since
    /// 1970. There is none to tell where the system's clock stands before 1970.
    pub fn now(&self, since_epoch: Option<(u64, u32)>) -> (r: Result<UtcInstant, ClockError>)
        ensures
            match r {
                Ok(t) => {
                    &&& since_epoch matches Some(parts)
                    &&& parts.1 < 1_000_000_000
                    &&& t.wf()
                    &&& t.nanos == parts.0 * 1_000_000_000 + parts.1
                },
                Err(e) => {
                    &&& e == ClockError::OutOfRange
                    &&& since_epoch matches Some(parts) ==> parts.1 >= 1_000_000_000 || parts.0 * 1_000_000_000
                        + parts.1 > crate::values::MAX_INSTANT_NANOS
                },
            },
    {
        let (seconds, nanoseconds): (u64, u32) = match since_epoch {
            Some(parts) => parts,
            None => return Err(ClockError::OutOfRange),
        };
        match UtcInstant::from_unix_parts(seconds, nanoseconds) {
            Some(t) => Ok(t),
            None => Err(ClockError::OutOfRange),
        }
    }
}

} // verus!
