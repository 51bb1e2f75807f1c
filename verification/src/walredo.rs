//! In-process WAL redo: applying structured records to an 8 KiB page image.
//!
//! Every structured record variant has a byte-exact specification
//! (`apply_record_spec`), and the executable applier is proved to produce
//! exactly that page. Contract violations (a record aimed at the wrong
//! block) fail the request with an error instead of corrupting the page.

use vstd::prelude::*;

use crate::bytecodec::{le32_bytes, le32_of, overwrite, put_u64_be, read_u32_le, write_u32_le};
use crate::bytecodec::be64_bytes;
use crate::key::{key_to_rel_block, key_to_slru_block, Key, SlruKind, VISIBILITYMAP_FORKNUM};
use crate::lsn::Lsn;
use crate::walrecord::{MultiXactMember, NeonWalRecord};

verus! {

/// Why a redo request failed.
#[derive(Clone, Copy, Debug, PartialEq, Eq, Structural)]
pub enum WalRedoError {
    /// The request itself is malformed: no records, a missing base image, or
    /// an opaque record routed to the in-process path.
    InvalidRequest,
    /// A record does not belong to the block category its key addresses.
    InvalidRecord,
    /// The external replay process is not available when it must be.
    InvalidState,
    /// A pipe or process operation failed.
    IoError,
    /// The external replay process did not answer within the redo timeout.
    Timeout,
    /// A pipe to the external replay process hung up before completion.
    BrokenPipe,
}

/// Size of a Postgres page in bytes.
pub const BLCKSZ: usize = 8192;

/// Bytes taken by the page header at the front of a visibility-map page.
pub const PAGE_HEADER_SIZE: usize = 24;

/// Heap blocks described by one byte of the visibility map (two bits each).
pub const HEAPBLOCKS_PER_BYTE: u32 = 4;

/// Heap blocks described by one visibility-map page: (BLCKSZ - header) * 4.
pub const HEAPBLOCKS_PER_PAGE: u32 = 32672;

/// Visibility-map bits kept per heap block.
pub const BITS_PER_HEAPBLOCK: u32 = 2;

/// Transaction statuses held by one CLOG byte (two bits each).
pub const CLOG_XACTS_PER_BYTE: u32 = 4;

/// Transaction statuses held by one CLOG page.
pub const CLOG_XACTS_PER_PAGE: u32 = 32768;

/// Pages per SLRU segment file.
pub const SLRU_PAGES_PER_SEGMENT: u32 = 32;

/// Two-bit CLOG status: transaction committed.
pub const TRANSACTION_STATUS_COMMITTED: u8 = 1;

/// Two-bit CLOG status: transaction aborted.
pub const TRANSACTION_STATUS_ABORTED: u8 = 2;

/// Multixact offset entries held by one page (four bytes each).
pub const MULTIXACT_OFFSETS_PER_PAGE: u32 = 2048;

/// Members grouped together in a multixact member group.
pub const MULTIXACT_MEMBERS_PER_MEMBERGROUP: u32 = 4;

/// Flag bytes at the front of each member group.
pub const MULTIXACT_FLAGBYTES_PER_GROUP: u32 = 4;

/// Bytes per member group: four flag bytes plus four four-byte xids.
pub const MULTIXACT_MEMBERGROUP_SIZE: u32 = 20;

/// Member groups that fit in one page.
pub const MULTIXACT_MEMBERGROUPS_PER_PAGE: u32 = 409;

/// Multixact members held by one page.
pub const MULTIXACT_MEMBERS_PER_PAGE: u32 = 1636;

/// Flag bits kept per multixact member.
pub const MXACT_MEMBER_BITS_PER_XACT: u32 = 8;

/// A page image the in-process applier accepts: a bare page, or a CLOG page
/// with the eight-byte commit timestamp appended.
pub open spec fn page_len_ok(len: int) -> bool {
    len == BLCKSZ || len == BLCKSZ + 8
}

// ---------------------------------------------------------------------------
// Visibility map
// ---------------------------------------------------------------------------
/// The visibility-map block that describes `heapblk`.
pub open spec fn vm_map_block(heapblk: u32) -> u32 {
    heapblk / HEAPBLOCKS_PER_PAGE
}

/// The byte within that block's map that describes `heapblk`.
pub open spec fn vm_map_byte(heapblk: u32) -> u32 {
    (heapblk % HEAPBLOCKS_PER_PAGE) / HEAPBLOCKS_PER_BYTE
}

/// The bit position of `heapblk`'s two bits within that byte.
pub open spec fn vm_map_offset(heapblk: u32) -> u32 {
    ((heapblk % HEAPBLOCKS_PER_BYTE) * BITS_PER_HEAPBLOCK) as u32
}

/// The page after clearing `flags` for `heapblk` in the visibility map.
pub open spec fn vm_clear_bits_spec(page: Seq<u8>, heapblk: u32, flags: u8) -> Seq<u8> {
    let idx = PAGE_HEADER_SIZE + vm_map_byte(heapblk) as int;
    page.update(idx, page[idx] & !(flags << vm_map_offset(heapblk)))
}

/// Clear `flags` for `heapblk` in the visibility-map page.
pub fn clear_vm_bits(page: &mut Vec<u8>, heapblk: u32, flags: u8)
    requires
        old(page)@.len() >= BLCKSZ,
    ensures
        final(page)@ == vm_clear_bits_spec(old(page)@, heapblk, flags),
{
    let map_byte = (heapblk % HEAPBLOCKS_PER_PAGE) / HEAPBLOCKS_PER_BYTE;
    let map_offset = (heapblk % HEAPBLOCKS_PER_BYTE) * BITS_PER_HEAPBLOCK;
    proof {
        let hb = heapblk;
        assert((hb % 32672) / 4 < 8168 && (hb % 4) * 2 < 8) by (nonlinear_arith);
    }
    let idx = PAGE_HEADER_SIZE + map_byte as usize;
    let b = page[idx];
    page[idx] = b & !(flags << map_offset);
}

// ---------------------------------------------------------------------------
// CLOG
// ---------------------------------------------------------------------------
/// The CLOG page that holds `xid`'s status.
pub open spec fn clog_xid_pageno(xid: u32) -> u32 {
    xid / CLOG_XACTS_PER_PAGE
}

/// Whether `xid`'s status lives in the CLOG block `(segno, blknum)`.
pub open spec fn clog_xid_matches(xid: u32, segno: u32, blknum: u32) -> bool {
    clog_xid_pageno(xid) / SLRU_PAGES_PER_SEGMENT == segno && clog_xid_pageno(xid)
        % SLRU_PAGES_PER_SEGMENT == blknum
}

pub open spec fn all_clog_xids_match(xids: Seq<u32>, segno: u32, blknum: u32) -> bool {
    forall|i: int| 0 <= i < xids.len() ==> clog_xid_matches(#[trigger] xids[i], segno, blknum)
}

/// The byte within the CLOG page that holds `xid`'s two status bits.
pub open spec fn clog_byteno(xid: u32) -> int {
    ((xid % CLOG_XACTS_PER_PAGE) / CLOG_XACTS_PER_BYTE) as int
}

/// The bit position of `xid`'s status within that byte.
pub open spec fn clog_bshift(xid: u32) -> u32 {
    ((xid % CLOG_XACTS_PER_BYTE) * BITS_PER_HEAPBLOCK) as u32
}

/// That byte after setting `xid`'s status to `status`.
pub open spec fn clog_byte_set(b: u8, xid: u32, status: u8) -> u8 {
    (b & !(3u8 << clog_bshift(xid))) | (status << clog_bshift(xid))
}

/// The page after setting `xid`'s status.
pub open spec fn clog_set_status_spec(page: Seq<u8>, xid: u32, status: u8) -> Seq<u8> {
    page.update(clog_byteno(xid), clog_byte_set(page[clog_byteno(xid)], xid, status))
}

/// The page after setting every xid in `xids` to `status`, in order.
pub open spec fn clog_set_statuses_spec(page: Seq<u8>, xids: Seq<u32>, status: u8) -> Seq<u8>
    decreases xids.len(),
{
    if xids.len() == 0 {
        page
    } else {
        clog_set_statuses_spec(clog_set_status_spec(page, xids[0], status), xids.drop_first(), status)
    }
}

/// A commit-timestamp stamp: a page of exactly `BLCKSZ` bytes gets the
/// big-endian timestamp appended, replacing any timestamp already there;
/// a page of any other size is left alone.
pub open spec fn clog_page_with_timestamp(page: Seq<u8>, timestamp: i64) -> Seq<u8> {
    let bare = if page.len() == BLCKSZ + 8 {
        page.take(BLCKSZ as int)
    } else {
        page
    };
    if bare.len() == BLCKSZ {
        bare + be64_bytes(timestamp as u64)
    } else {
        bare
    }
}

/// Set `xid`'s two status bits in the CLOG page.
pub fn transaction_id_set_status(xid: u32, status: u8, page: &mut Vec<u8>)
    requires
        old(page)@.len() >= BLCKSZ,
    ensures
        final(page)@ == clog_set_status_spec(old(page)@, xid, status),
{
    let byteno = ((xid % CLOG_XACTS_PER_PAGE) / CLOG_XACTS_PER_BYTE) as usize;
    let bshift = (xid % CLOG_XACTS_PER_BYTE) * BITS_PER_HEAPBLOCK;
    proof {
        let x = xid;
        assert((x % 32768) / 4 < 8192 && (x % 4) * 2 < 8) by (nonlinear_arith);
    }
    let b = page[byteno];
    // Clear the two-bit window, then set it to the new status.
    page[byteno] = (b & !(3u8 << bshift)) | (status << bshift);
}

// ---------------------------------------------------------------------------
// Multixact offsets
// ---------------------------------------------------------------------------
/// The multixact-offsets page that holds `mid`'s entry.
pub open spec fn mx_offsets_pageno(mid: u32) -> u32 {
    mid / MULTIXACT_OFFSETS_PER_PAGE
}

/// Whether `mid`'s offset entry lives in the block `(segno, blknum)`.
pub open spec fn mx_offsets_matches(mid: u32, segno: u32, blknum: u32) -> bool {
    mx_offsets_pageno(mid) / SLRU_PAGES_PER_SEGMENT == segno && mx_offsets_pageno(mid)
        % SLRU_PAGES_PER_SEGMENT == blknum
}

/// Byte position of `mid`'s four-byte entry within the page.
pub open spec fn mx_offsets_entry(mid: u32) -> int {
    ((mid % MULTIXACT_OFFSETS_PER_PAGE) * 4) as int
}

// ---------------------------------------------------------------------------
// Multixact members
// ---------------------------------------------------------------------------
/// The multixact-members page that holds member `offset`.
pub open spec fn mx_members_pageno(offset: u32) -> u32 {
    offset / MULTIXACT_MEMBERS_PER_PAGE
}

/// Whether member `offset` lives in the block `(segno, blknum)`.
pub open spec fn mx_member_matches(offset: u32, segno: u32, blknum: u32) -> bool {
    mx_members_pageno(offset) / SLRU_PAGES_PER_SEGMENT == segno && mx_members_pageno(offset)
        % SLRU_PAGES_PER_SEGMENT == blknum
}

pub open spec fn all_mx_members_match(moff: u32, n: int, segno: u32, blknum: u32) -> bool {
    forall|i: int| 0 <= i < n ==> mx_member_matches(#[trigger] ((moff + i) as u32), segno, blknum)
}

/// Byte position of the flag word of `offset`'s member group.
pub open spec fn mx_flags_offset(offset: u32) -> int {
    (((offset / MULTIXACT_MEMBERS_PER_MEMBERGROUP) % MULTIXACT_MEMBERGROUPS_PER_PAGE)
        * MULTIXACT_MEMBERGROUP_SIZE) as int
}

/// Bit position of `offset`'s flags within the flag word.
pub open spec fn mx_bshift(offset: u32) -> u32 {
    ((offset % MULTIXACT_MEMBERS_PER_MEMBERGROUP) * MXACT_MEMBER_BITS_PER_XACT) as u32
}

/// Byte position of `offset`'s four-byte xid within the page.
pub open spec fn mx_member_offset(offset: u32) -> int {
    mx_flags_offset(offset) + MULTIXACT_FLAGBYTES_PER_GROUP + (offset
        % MULTIXACT_MEMBERS_PER_MEMBERGROUP) * 4
}

/// The page after recording one member at `offset`: its flags replace the
/// eight-bit window in the group's flag word, and its xid is stored
/// little-endian at the member slot.
pub open spec fn mx_apply_member_spec(page: Seq<u8>, offset: u32, m: MultiXactMember) -> Seq<u8> {
    let fo = mx_flags_offset(offset);
    let flagsval = (le32_of(page, fo) & !(0xffu32 << mx_bshift(offset))) | (m.status << mx_bshift(
        offset,
    ));
    overwrite(
        overwrite(page, fo, le32_bytes(flagsval)),
        mx_member_offset(offset),
        le32_bytes(m.xid),
    )
}

/// The page after recording `members` at consecutive offsets from `moff`.
pub open spec fn mx_apply_members_spec(
    page: Seq<u8>,
    moff: u32,
    members: Seq<MultiXactMember>,
) -> Seq<u8>
    decreases members.len(),
{
    if members.len() == 0 {
        page
    } else {
        mx_apply_members_spec(
            mx_apply_member_spec(page, moff, members[0]),
            (moff + 1) as u32,
            members.drop_first(),
        )
    }
}

// ---------------------------------------------------------------------------
// Record application
// ---------------------------------------------------------------------------
/// Machine bound: the member offsets of a multixact record must fit in `u32`.
pub open spec fn record_bounds_ok(rec: NeonWalRecord) -> bool {
    rec matches NeonWalRecord::MultixactMembersCreate { moff, members } ==> moff + members@.len()
        <= u32::MAX
}

/// What applying `rec` to `page` under `key` produces: the new page bytes,
/// or the error that rejects the request. Opaque Postgres records are never
/// applied in process; a record whose key addresses the wrong block category
/// or the wrong block is rejected as `InvalidRecord`.
pub open spec fn apply_record_spec(key: Key, page: Seq<u8>, rec: NeonWalRecord) -> Result<
    Seq<u8>,
    WalRedoError,
> {
    match rec {
        NeonWalRecord::Postgres { .. } => Err(WalRedoError::InvalidRequest),
        NeonWalRecord::ClearVisibilityMapFlags { new_heap_blkno, old_heap_blkno, flags } => {
            match key {
                Key::Rel { rel, blknum } => {
                    if rel.forknum != VISIBILITYMAP_FORKNUM {
                        Err(WalRedoError::InvalidRecord)
                    } else if (new_heap_blkno matches Some(b) && vm_map_block(b) != blknum) || (
                    old_heap_blkno matches Some(b) && vm_map_block(b) != blknum) {
                        Err(WalRedoError::InvalidRecord)
                    } else {
                        let p1 = match new_heap_blkno {
                            Some(b) => vm_clear_bits_spec(page, b, flags),
                            None => page,
                        };
                        let p2 = match old_heap_blkno {
                            Some(b) => vm_clear_bits_spec(p1, b, flags),
                            None => p1,
                        };
                        Ok(p2)
                    }
                },
                _ => Err(WalRedoError::InvalidRecord),
            }
        },
        NeonWalRecord::ClogSetCommitted { xids, timestamp } => {
            match key {
                Key::Slru { kind: SlruKind::Clog, segno, blknum } => {
                    if !all_clog_xids_match(xids@, segno, blknum) {
                        Err(WalRedoError::InvalidRecord)
                    } else {
                        Ok(
                            clog_page_with_timestamp(
                                clog_set_statuses_spec(page, xids@, TRANSACTION_STATUS_COMMITTED),
                                timestamp,
                            ),
                        )
                    }
                },
                _ => Err(WalRedoError::InvalidRecord),
            }
        },
        NeonWalRecord::ClogSetAborted { xids } => {
            match key {
                Key::Slru { kind: SlruKind::Clog, segno, blknum } => {
                    if !all_clog_xids_match(xids@, segno, blknum) {
                        Err(WalRedoError::InvalidRecord)
                    } else {
                        Ok(clog_set_statuses_spec(page, xids@, TRANSACTION_STATUS_ABORTED))
                    }
                },
                _ => Err(WalRedoError::InvalidRecord),
            }
        },
        NeonWalRecord::MultixactOffsetCreate { mid, moff } => {
            match key {
                Key::Slru { kind: SlruKind::MultiXactOffsets, segno, blknum } => {
                    if !mx_offsets_matches(mid, segno, blknum) {
                        Err(WalRedoError::InvalidRecord)
                    } else {
                        Ok(overwrite(page, mx_offsets_entry(mid), le32_bytes(moff)))
                    }
                },
                _ => Err(WalRedoError::InvalidRecord),
            }
        },
        NeonWalRecord::MultixactMembersCreate { moff, members } => {
            match key {
                Key::Slru { kind: SlruKind::MultiXactMembers, segno, blknum } => {
                    if !all_mx_members_match(moff, members@.len() as int, segno, blknum) {
                        Err(WalRedoError::InvalidRecord)
                    } else {
                        Ok(mx_apply_members_spec(page, moff, members@))
                    }
                },
                _ => Err(WalRedoError::InvalidRecord),
            }
        },
    }
}

// ---------------------------------------------------------------------------
// Length preservation
// ---------------------------------------------------------------------------
pub proof fn lemma_clog_set_statuses_len(page: Seq<u8>, xids: Seq<u32>, status: u8)
    requires
        page.len() >= BLCKSZ,
    ensures
        clog_set_statuses_spec(page, xids, status).len() == page.len(),
    decreases xids.len(),
{
    if xids.len() > 0 {
        lemma_clog_set_statuses_len(clog_set_status_spec(page, xids[0], status), xids.drop_first(), status);
    }
}

pub proof fn lemma_mx_apply_member_len(page: Seq<u8>, offset: u32, m: MultiXactMember)
    requires
        page.len() >= BLCKSZ,
    ensures
        mx_apply_member_spec(page, offset, m).len() == page.len(),
{
}

pub proof fn lemma_mx_apply_members_len(page: Seq<u8>, moff: u32, members: Seq<MultiXactMember>)
    requires
        page.len() >= BLCKSZ,
    ensures
        mx_apply_members_spec(page, moff, members).len() == page.len(),
    decreases members.len(),
{
    if members.len() > 0 {
        lemma_mx_apply_member_len(page, moff, members[0]);
        lemma_mx_apply_members_len(
            mx_apply_member_spec(page, moff, members[0]),
            (moff + 1) as u32,
            members.drop_first(),
        );
    }
}

/// A record application keeps the page a valid page image.
pub proof fn lemma_apply_record_len(key: Key, page: Seq<u8>, rec: NeonWalRecord)
    requires
        page_len_ok(page.len() as int),
    ensures
        apply_record_spec(key, page, rec) matches Ok(p) ==> page_len_ok(p.len() as int),
{
    match rec {
        NeonWalRecord::ClogSetCommitted { xids, .. } => {
            lemma_clog_set_statuses_len(page, xids@, TRANSACTION_STATUS_COMMITTED);
        },
        NeonWalRecord::ClogSetAborted { xids } => {
            lemma_clog_set_statuses_len(page, xids@, TRANSACTION_STATUS_ABORTED);
        },
        NeonWalRecord::MultixactMembersCreate { moff, members } => {
            lemma_mx_apply_members_len(page, moff, members@);
        },
        _ => {},
    }
}

// ---------------------------------------------------------------------------
// Fold lemmas for the loop proofs
// ---------------------------------------------------------------------------
proof fn lemma_clog_fold_push(page: Seq<u8>, xids: Seq<u32>, x: u32, status: u8)
    ensures
        clog_set_statuses_spec(page, xids.push(x), status) == clog_set_status_spec(
            clog_set_statuses_spec(page, xids, status),
            x,
            status,
        ),
    decreases xids.len(),
{
    if xids.len() == 0 {
        assert(xids.push(x).drop_first() =~= xids);
        assert(clog_set_statuses_spec(clog_set_status_spec(page, x, status), xids, status)
            == clog_set_status_spec(page, x, status));
    } else {
        assert(xids.push(x).drop_first() =~= xids.drop_first().push(x));
        lemma_clog_fold_push(
            clog_set_status_spec(page, xids[0], status),
            xids.drop_first(),
            x,
            status,
        );
    }
}

proof fn lemma_mx_fold_push(
    page: Seq<u8>,
    moff: u32,
    members: Seq<MultiXactMember>,
    m: MultiXactMember,
)
    requires
        moff + members.len() + 1 <= u32::MAX,
    ensures
        mx_apply_members_spec(page, moff, members.push(m)) == mx_apply_member_spec(
            mx_apply_members_spec(page, moff, members),
            (moff + members.len()) as u32,
            m,
        ),
    decreases members.len(),
{
    if members.len() == 0 {
        assert(members.push(m).drop_first() =~= members);
        assert(members.push(m)[0] == m);
        assert(mx_apply_members_spec(mx_apply_member_spec(page, moff, m), (moff + 1) as u32, members)
            == mx_apply_member_spec(page, moff, m));
    } else {
        assert(members.push(m).drop_first() =~= members.drop_first().push(m));
        assert(members.push(m)[0] == members[0]);
        lemma_mx_fold_push(
            mx_apply_member_spec(page, moff, members[0]),
            (moff + 1) as u32,
            members.drop_first(),
            m,
        );
    }
}

// ---------------------------------------------------------------------------
// The executable applier
// ---------------------------------------------------------------------------
/// Apply one structured record to the page, in process.
///
/// On success the page holds exactly what `apply_record_spec` gives; on any
/// error the page is untouched.
pub fn apply_record_neon(key: &Key, page: &mut Vec<u8>, record: &NeonWalRecord) -> (r: Result<
    (),
    WalRedoError,
>)
    requires
        page_len_ok(old(page)@.len() as int),
        record_bounds_ok(*record),
    ensures
        match apply_record_spec(*key, old(page)@, *record) {
            Ok(p) => r is Ok && final(page)@ == p,
            Err(e) => r == Err::<(), WalRedoError>(e) && final(page)@ == old(page)@,
        },
        r is Ok ==> page_len_ok(final(page)@.len() as int),
{
    proof {
        lemma_apply_record_len(*key, old(page)@, *record);
    }
    match record {
        NeonWalRecord::Postgres { .. } => Err(WalRedoError::InvalidRequest),
        NeonWalRecord::ClearVisibilityMapFlags { new_heap_blkno, old_heap_blkno, flags } => {
            let (rel, blknum) = match key_to_rel_block(key) {
                Some(rb) => rb,
                None => {
                    return Err(WalRedoError::InvalidRecord);
                },
            };
            if rel.forknum != VISIBILITYMAP_FORKNUM {
                return Err(WalRedoError::InvalidRecord);
            }
            if let Some(b) = new_heap_blkno {
                if *b / HEAPBLOCKS_PER_PAGE != blknum {
                    return Err(WalRedoError::InvalidRecord);
                }
            }
            if let Some(b) = old_heap_blkno {
                if *b / HEAPBLOCKS_PER_PAGE != blknum {
                    return Err(WalRedoError::InvalidRecord);
                }
            }
            if let Some(b) = new_heap_blkno {
                clear_vm_bits(page, *b, *flags);
            }
            if let Some(b) = old_heap_blkno {
                clear_vm_bits(page, *b, *flags);
            }
            Ok(())
        },
        NeonWalRecord::ClogSetCommitted { xids, timestamp } => {
            let (kind, segno, blknum) = match key_to_slru_block(key) {
                Some(sb) => sb,
                None => {
                    return Err(WalRedoError::InvalidRecord);
                },
            };
            if !matches!(kind, SlruKind::Clog) {
                return Err(WalRedoError::InvalidRecord);
            }
            if !check_clog_xids(xids, segno, blknum) {
                return Err(WalRedoError::InvalidRecord);
            }
            set_clog_statuses(page, xids, TRANSACTION_STATUS_COMMITTED);
            // Stamp the commit timestamp: drop an old stamp, then append the
            // new one if the page is exactly one block long. A page of any
            // other size is left as it is.
            if page.len() == BLCKSZ + 8 {
                page.truncate(BLCKSZ);
            }
            if page.len() == BLCKSZ {
                put_u64_be(page, *timestamp as u64);
            }
            Ok(())
        },
        NeonWalRecord::ClogSetAborted { xids } => {
            let (kind, segno, blknum) = match key_to_slru_block(key) {
                Some(sb) => sb,
                None => {
                    return Err(WalRedoError::InvalidRecord);
                },
            };
            if !matches!(kind, SlruKind::Clog) {
                return Err(WalRedoError::InvalidRecord);
            }
            if !check_clog_xids(xids, segno, blknum) {
                return Err(WalRedoError::InvalidRecord);
            }
            set_clog_statuses(page, xids, TRANSACTION_STATUS_ABORTED);
            Ok(())
        },
        NeonWalRecord::MultixactOffsetCreate { mid, moff } => {
            let (kind, segno, blknum) = match key_to_slru_block(key) {
                Some(sb) => sb,
                None => {
                    return Err(WalRedoError::InvalidRecord);
                },
            };
            if !matches!(kind, SlruKind::MultiXactOffsets) {
                return Err(WalRedoError::InvalidRecord);
            }
            let pageno = *mid / MULTIXACT_OFFSETS_PER_PAGE;
            if pageno / SLRU_PAGES_PER_SEGMENT != segno || pageno % SLRU_PAGES_PER_SEGMENT
                != blknum {
                return Err(WalRedoError::InvalidRecord);
            }
            let entry = (*mid % MULTIXACT_OFFSETS_PER_PAGE) as usize * 4;
            write_u32_le(page, entry, *moff);
            Ok(())
        },
        NeonWalRecord::MultixactMembersCreate { moff, members } => {
            let (kind, segno, blknum) = match key_to_slru_block(key) {
                Some(sb) => sb,
                None => {
                    return Err(WalRedoError::InvalidRecord);
                },
            };
            if !matches!(kind, SlruKind::MultiXactMembers) {
                return Err(WalRedoError::InvalidRecord);
            }
            if !check_mx_members(*moff, members.len(), segno, blknum) {
                return Err(WalRedoError::InvalidRecord);
            }
            apply_mx_members(page, *moff, members);
            Ok(())
        },
    }
}

/// Check every xid of a CLOG record against the block the key addresses.
fn check_clog_xids(xids: &Vec<u32>, segno: u32, blknum: u32) -> (r: bool)
    ensures
        r == all_clog_xids_match(xids@, segno, blknum),
{
    let mut i: usize = 0;
    while i < xids.len()
        invariant
            i <= xids@.len(),
            forall|j: int| 0 <= j < i ==> clog_xid_matches(#[trigger] xids@[j], segno, blknum),
        decreases xids@.len() - i,
    {
        let pageno = xids[i] / CLOG_XACTS_PER_PAGE;
        if pageno / SLRU_PAGES_PER_SEGMENT != segno || pageno % SLRU_PAGES_PER_SEGMENT != blknum {
            return false;
        }
        i = i + 1;
    }
    true
}

/// Set the status of every xid in order.
fn set_clog_statuses(page: &mut Vec<u8>, xids: &Vec<u32>, status: u8)
    requires
        old(page)@.len() >= BLCKSZ,
    ensures
        final(page)@ == clog_set_statuses_spec(old(page)@, xids@, status),
        final(page)@.len() == old(page)@.len(),
{
    proof {
        lemma_clog_set_statuses_len(old(page)@, xids@, status);
    }
    let mut i: usize = 0;
    while i < xids.len()
        invariant
            i <= xids@.len(),
            page@ == clog_set_statuses_spec(old(page)@, xids@.take(i as int), status),
            page@.len() == old(page)@.len(),
            old(page)@.len() >= BLCKSZ,
        decreases xids@.len() - i,
    {
        proof {
            lemma_clog_fold_push(old(page)@, xids@.take(i as int), xids@[i as int], status);
            assert(xids@.take(i as int).push(xids@[i as int]) =~= xids@.take(i as int + 1));
        }
        transaction_id_set_status(xids[i], status, page);
        i = i + 1;
    }
    proof {
        assert(xids@.take(xids@.len() as int) =~= xids@);
    }
}

/// Check every member offset of a multixact record against the block the key
/// addresses.
fn check_mx_members(moff: u32, n: usize, segno: u32, blknum: u32) -> (r: bool)
    requires
        moff + n <= u32::MAX,
    ensures
        r == all_mx_members_match(moff, n as int, segno, blknum),
{
    let mut i: usize = 0;
    while i < n
        invariant
            i <= n,
            moff + n <= u32::MAX,
            forall|j: int|
                0 <= j < i ==> mx_member_matches(#[trigger] ((moff + j) as u32), segno, blknum),
        decreases n - i,
    {
        let offset = moff + i as u32;
        let pageno = offset / MULTIXACT_MEMBERS_PER_PAGE;
        if pageno / SLRU_PAGES_PER_SEGMENT != segno || pageno % SLRU_PAGES_PER_SEGMENT != blknum {
            return false;
        }
        i = i + 1;
    }
    true
}

/// Record one multixact member at `offset`.
fn apply_mx_member(page: &mut Vec<u8>, offset: u32, member: &MultiXactMember)
    requires
        old(page)@.len() >= BLCKSZ,
    ensures
        final(page)@ == mx_apply_member_spec(old(page)@, offset, *member),
        final(page)@.len() == old(page)@.len(),
{
    let group = (offset / MULTIXACT_MEMBERS_PER_MEMBERGROUP) % MULTIXACT_MEMBERGROUPS_PER_PAGE;
    let flagsoff = (group * MULTIXACT_MEMBERGROUP_SIZE) as usize;
    let within = offset % MULTIXACT_MEMBERS_PER_MEMBERGROUP;
    let bshift = within * MXACT_MEMBER_BITS_PER_XACT;
    let memberoff = flagsoff + MULTIXACT_FLAGBYTES_PER_GROUP as usize + (within * 4) as usize;
    assert(flagsoff + 4 <= 8164 && memberoff + 4 <= 8180 && bshift < 32);
    let flagsval = read_u32_le(page, flagsoff);
    let flagsval = (flagsval & !(0xffu32 << bshift)) | (member.status << bshift);
    write_u32_le(page, flagsoff, flagsval);
    write_u32_le(page, memberoff, member.xid);
}

// ---------------------------------------------------------------------------
// Batches
// ---------------------------------------------------------------------------
/// The in-order application of a run of records, stopping at the first error.
pub open spec fn apply_records_spec(key: Key, page: Seq<u8>, recs: Seq<NeonWalRecord>) -> Result<
    Seq<u8>,
    WalRedoError,
>
    decreases recs.len(),
{
    if recs.len() == 0 {
        Ok(page)
    } else {
        match apply_record_spec(key, page, recs[0]) {
            Ok(p) => apply_records_spec(key, p, recs.drop_first()),
            Err(e) => Err(e),
        }
    }
}

/// What an in-process batch produces: structured records always need a base
/// image; without one the batch is rejected outright.
pub open spec fn apply_batch_spec(
    key: Key,
    img: Option<Seq<u8>>,
    recs: Seq<NeonWalRecord>,
) -> Result<Seq<u8>, WalRedoError> {
    match img {
        None => Err(WalRedoError::InvalidRequest),
        Some(page) => apply_records_spec(key, page, recs),
    }
}

/// The records of `records[start..end]`, without their end positions.
pub open spec fn batch_records(records: Seq<(Lsn, NeonWalRecord)>, start: int, end: int) -> Seq<
    NeonWalRecord,
> {
    records.subrange(start, end).map_values(|p: (Lsn, NeonWalRecord)| p.1)
}

pub open spec fn batch_bounds_ok(records: Seq<(Lsn, NeonWalRecord)>, start: int, end: int) -> bool {
    forall|i: int| start <= i < end ==> record_bounds_ok((#[trigger] records[i]).1)
}

/// A fresh buffer holding the same bytes as `src`.
pub fn copy_page(src: &Vec<u8>) -> (r: Vec<u8>)
    ensures
        r@ == src@,
{
    let mut out: Vec<u8> = Vec::new();
    let mut i: usize = 0;
    while i < src.len()
        invariant
            i <= src@.len(),
            out@ == src@.take(i as int),
        decreases src@.len() - i,
    {
        out.push(src[i]);
        i = i + 1;
        proof {
            assert(out@ =~= src@.take(i as int));
        }
    }
    proof {
        assert(out@ =~= src@);
    }
    out
}

/// Apply `records[start..end]` in process, over a fresh copy of the base
/// image. Rejected with `InvalidRequest` when no base image is given, and
/// with the first record's error otherwise; on success the returned page is
/// exactly the in-order application of the run. Nothing but the fresh copy
/// is ever written to.
#[verifier::loop_isolation(false)]
pub fn apply_batch_neon(
    key: &Key,
    base_img: Option<&Vec<u8>>,
    records: &Vec<(Lsn, NeonWalRecord)>,
    start: usize,
    end: usize,
) -> (r: Result<Vec<u8>, WalRedoError>)
    requires
        start <= end <= records@.len(),
        base_img matches Some(img) ==> page_len_ok(img@.len() as int),
        batch_bounds_ok(records@, start as int, end as int),
    ensures
        match apply_batch_spec(
            *key,
            match base_img {
                Some(img) => Some(img@),
                None => None,
            },
            batch_records(records@, start as int, end as int),
        ) {
            Ok(p) => r matches Ok(v) && v@ == p && page_len_ok(p.len() as int),
            Err(e) => r == Err::<Vec<u8>, WalRedoError>(e),
        },
{
    let mut page = match base_img {
        Some(img) => copy_page(img),
        None => {
            return Err(WalRedoError::InvalidRequest);
        },
    };
    let ghost base = page@;
    let ghost whole = batch_records(records@, start as int, end as int);
    let mut i: usize = start;
    while i < end
        invariant
            start <= i <= end <= records@.len(),
            page_len_ok(page@.len() as int),
            batch_bounds_ok(records@, start as int, end as int),
            apply_records_spec(*key, base, whole) == apply_records_spec(
                *key,
                page@,
                batch_records(records@, i as int, end as int),
            ),
            whole == batch_records(records@, start as int, end as int),
        decreases end - i,
    {
        let ghost rest = batch_records(records@, i as int, end as int);
        proof {
            assert(rest.len() == end - i);
            assert(rest[0] == records@[i as int].1);
            assert(rest.drop_first() =~= batch_records(records@, i as int + 1, end as int));
        }
        let ghost page_before = page@;
        match apply_record_neon(key, &mut page, &records[i].1) {
            Ok(()) => {
                proof {
                    assert(apply_records_spec(*key, page_before, rest) == apply_records_spec(
                        *key,
                        page@,
                        rest.drop_first(),
                    ));
                }
            },
            Err(e) => {
                proof {
                    assert(apply_records_spec(*key, page_before, rest) == Err::<
                        Seq<u8>,
                        WalRedoError,
                    >(e));
                }
                return Err(e);
            },
        }
        i = i + 1;
    }
    proof {
        assert(batch_records(records@, end as int, end as int).len() == 0);
    }
    Ok(page)
}

/// Record every member at consecutive offsets from `moff`.
fn apply_mx_members(page: &mut Vec<u8>, moff: u32, members: &Vec<MultiXactMember>)
    requires
        old(page)@.len() >= BLCKSZ,
        moff + members@.len() <= u32::MAX,
    ensures
        final(page)@ == mx_apply_members_spec(old(page)@, moff, members@),
        final(page)@.len() == old(page)@.len(),
{
    proof {
        lemma_mx_apply_members_len(old(page)@, moff, members@);
    }
    let mut i: usize = 0;
    while i < members.len()
        invariant
            i <= members@.len(),
            moff + members@.len() <= u32::MAX,
            page@ == mx_apply_members_spec(old(page)@, moff, members@.take(i as int)),
            page@.len() == old(page)@.len(),
            old(page)@.len() >= BLCKSZ,
        decreases members@.len() - i,
    {
        proof {
            lemma_mx_fold_push(old(page)@, moff, members@.take(i as int), members@[i as int]);
            assert(members@.take(i as int).push(members@[i as int]) =~= members@.take(i as int + 1));
        }
        apply_mx_member(page, moff + i as u32, &members[i]);
        i = i + 1;
    }
    proof {
        assert(members@.take(members@.len() as int) =~= members@);
    }
}

} // verus!
