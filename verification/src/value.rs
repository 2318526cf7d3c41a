//! Amounts of value.

use vstd::prelude::*;

verus! {

/// An amount of value.
#[derive(Clone, Copy, Debug, PartialEq, Eq, Hash, Structural)]
pub struct Value(pub u64);

impl Value {
    /// No value.
    pub fn zero() -> (r: Value)
        ensures
            r.0 == 0,
    {
        Value(0)
    }

    /// The sum of two amounts, or `None` where it does not fit.
    pub fn checked_add(&self, other: Value) -> (r: Option<Value>)
        ensures
            match r {
                Some(v) => v.0 == self.0 + other.0,
                None => self.0 + other.0 > u64::MAX,
            },
    {
        if self.0 <= u64::MAX - other.0 {
            Some(Value(self.0 + other.0))
        } else {
            None
        }
    }
}

} // verus!
