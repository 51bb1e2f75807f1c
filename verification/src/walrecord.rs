//! WAL records as the redo applier sees them: either an opaque Postgres
//! record that only the external replayer can apply, or a structured record
//! applied in process.

use vstd::prelude::*;

verus! {

/// One member of a multixact: a transaction id and its status flags.
#[derive(Clone, Copy, Debug, PartialEq, Eq, Structural)]
pub struct MultiXactMember {
    pub xid: u32,
    pub status: u32,
}

/// A single WAL record.
///
/// `Postgres` carries a raw record understood only by the external replay
/// process; every other variant is applied in process.
#[derive(Clone, Debug, PartialEq, Eq)]
pub enum NeonWalRecord {
    /// Raw Postgres WAL record; `will_init` says the record initialises the
    /// page so no base image is needed by the replayer.
    Postgres { will_init: bool, rec: Vec<u8> },
    /// Clear visibility-map bits for up to two heap blocks.
    ClearVisibilityMapFlags {
        new_heap_blkno: Option<u32>,
        old_heap_blkno: Option<u32>,
        flags: u8,
    },
    /// Mark transactions committed in the CLOG page, stamping the commit time.
    ClogSetCommitted { xids: Vec<u32>, timestamp: i64 },
    /// Mark transactions aborted in the CLOG page.
    ClogSetAborted { xids: Vec<u32> },
    /// Record the starting member offset of a new multixact.
    MultixactOffsetCreate { mid: u32, moff: u32 },
    /// Record the members of a new multixact.
    MultixactMembersCreate { moff: u32, members: Vec<MultiXactMember> },
}

/// Whether the record is applied by this crate's own redo code; opaque
/// Postgres records go to the external replay process instead.
pub open spec fn can_apply_in_neon_spec(rec: NeonWalRecord) -> bool {
    !(rec is Postgres)
}

/// Can this record be served by the in-process redo functions, or must it be
/// passed to the external wal-redo process?
pub fn can_apply_in_neon(rec: &NeonWalRecord) -> (r: bool)
    ensures
        r == can_apply_in_neon_spec(*rec),
{
    match rec {
        NeonWalRecord::Postgres { .. } => false,
        _ => true,
    }
}

} // verus!
