//! The page key handed to the redo applier, already translated to the block
//! category it addresses: either a block of a relation fork or a block of an
//! SLRU area (CLOG or multixact). Key-to-block translation itself is outside
//! this crate's scope; the key type holds exactly what the redo logic reads.

use vstd::prelude::*;

verus! {

/// Identifies a relation fork: tablespace, database, relation and fork number.
#[derive(Clone, Copy, Debug, PartialEq, Eq, Structural)]
pub struct RelTag {
    pub forknum: u8,
    pub spcnode: u32,
    pub dbnode: u32,
    pub relnode: u32,
}

/// Fork number of the visibility-map fork of a relation.
pub const VISIBILITYMAP_FORKNUM: u8 = 2;

/// The SLRU areas whose pages the in-process redo code can rebuild.
#[derive(Clone, Copy, Debug, PartialEq, Eq, Structural)]
pub enum SlruKind {
    Clog,
    MultiXactMembers,
    MultiXactOffsets,
}

/// A page address: a block of a relation fork, or a block of an SLRU segment.
#[derive(Clone, Copy, Debug, PartialEq, Eq, Structural)]
pub enum Key {
    Rel { rel: RelTag, blknum: u32 },
    Slru { kind: SlruKind, segno: u32, blknum: u32 },
}

/// The relation block a key addresses, if it addresses one.
pub fn key_to_rel_block(key: &Key) -> (r: Option<(RelTag, u32)>)
    ensures
        match *key {
            Key::Rel { rel, blknum } => r == Some((rel, blknum)),
            _ => r is None,
        },
{
    match key {
        Key::Rel { rel, blknum } => Some((*rel, *blknum)),
        _ => None,
    }
}

/// The SLRU block a key addresses, if it addresses one.
pub fn key_to_slru_block(key: &Key) -> (r: Option<(SlruKind, u32, u32)>)
    ensures
        match *key {
            Key::Slru { kind, segno, blknum } => r == Some((kind, segno, blknum)),
            _ => r is None,
        },
{
    match key {
        Key::Slru { kind, segno, blknum } => Some((*kind, *segno, *blknum)),
        _ => None,
    }
}

} // verus!
