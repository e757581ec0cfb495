//! Shared identifier types.

use vstd::prelude::*;

verus! {

/// A 64-bit resource identifier ("snowflake"); the wire carries it as a
/// string of decimal digits.
#[derive(Clone, Copy, Debug, PartialEq, Eq, Structural)]
pub struct Snowflake {
    pub value: i64,
}

impl Snowflake {
    pub fn new(value: i64) -> (r: Snowflake)
        ensures
            r.value == value,
    {
        Snowflake { value }
    }
}

} // verus!
