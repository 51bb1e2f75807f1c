//! Log sequence numbers and safekeeper node identifiers.

use vstd::prelude::*;

verus! {

/// A log sequence number: a byte position in the write-ahead log.
/// The zero value is reserved as "invalid".
#[derive(Clone, Copy, Debug, PartialEq, Eq, Structural)]
pub struct Lsn(pub u64);

impl Lsn {
    /// Whether this is a real position; zero marks "no position known".
    pub fn is_valid(&self) -> (r: bool)
        ensures
            r == (self.0 != 0),
    {
        self.0 != 0
    }

    /// Round the position up to the next 8-byte boundary.
    pub fn align(&self) -> (r: Lsn)
        requires
            self.0 + 7 <= u64::MAX,
        ensures
            r.0 == ((self.0 + 7) as u64) & !7u64,
            r.0 % 8 == 0,
            self.0 <= r.0 < self.0 + 8,
    {
        proof {
            let v = self.0;
            assert(v + 7 <= u64::MAX ==> (((v + 7) as u64) & !7u64) % 8 == 0 && v <= (((v
                + 7) as u64) & !7u64) < v + 8) by (bit_vector);
        }
        Lsn((self.0 + 7) & !7u64)
    }
}

/// Identifier of a safekeeper node.
#[derive(Clone, Copy, Debug, PartialEq, Eq, Hash, Structural)]
pub struct NodeId(pub u64);

} // verus!
