//! Laws of the in-process redo operations.
//!
//! `lemma_clog_set_committed_idempotent`: applying a `ClogSetCommitted`
//! record twice with identical arguments leaves the page as after one
//! application.
//!
//! `lemma_clear_vm_flags_both_blocks_once`: a `ClearVisibilityMapFlags`
//! record naming the same heap block twice is equivalent to naming it once.

use vstd::prelude::*;

use crate::key::Key;
use crate::walrecord::NeonWalRecord;
use crate::walredo::{
    apply_record_spec, clog_bshift, clog_byte_set, clog_byteno, clog_page_with_timestamp,
    clog_set_status_spec, clog_set_statuses_spec, lemma_clog_set_statuses_len, page_len_ok,
    vm_clear_bits_spec, vm_map_byte, vm_map_offset, WalRedoError, BLCKSZ, PAGE_HEADER_SIZE,
    TRANSACTION_STATUS_COMMITTED,
};

verus! {

// ---------------------------------------------------------------------------
// A per-byte view of the CLOG status fold
// ---------------------------------------------------------------------------
/// What the status fold does to the single byte at position `k`.
spec fn clog_fold_byte(b: u8, xids: Seq<u32>, status: u8, k: int) -> u8
    decreases xids.len(),
{
    if xids.len() == 0 {
        b
    } else {
        let b1 = if clog_byteno(xids[0]) == k {
            clog_byte_set(b, xids[0], status)
        } else {
            b
        };
        clog_fold_byte(b1, xids.drop_first(), status, k)
    }
}

/// The bits of byte `k` that the fold writes.
spec fn clog_byte_mask(xids: Seq<u32>, k: int) -> u8
    decreases xids.len(),
{
    if xids.len() == 0 {
        0u8
    } else if clog_byteno(xids[0]) == k {
        (3u8 << clog_bshift(xids[0])) | clog_byte_mask(xids.drop_first(), k)
    } else {
        clog_byte_mask(xids.drop_first(), k)
    }
}

proof fn lemma_clog_byteno_bounds(x: u32)
    ensures
        0 <= clog_byteno(x) < 8192,
        clog_bshift(x) <= 6,
{
    assert((x % 32768) / 4 < 8192 && (x % 4) * 2 <= 6) by (nonlinear_arith);
}

/// Outside the written bits, the fold leaves the byte alone.
proof fn lemma_clog_fold_offmask(b: u8, xids: Seq<u32>, status: u8, k: int)
    requires
        status <= 3,
    ensures
        clog_fold_byte(b, xids, status, k) & !clog_byte_mask(xids, k) == b & !clog_byte_mask(
            xids,
            k,
        ),
    decreases xids.len(),
{
    if xids.len() == 0 {
        assert(b & !0u8 == b) by (bit_vector);
    } else {
        let x = xids[0];
        let rest = xids.drop_first();
        let mr = clog_byte_mask(rest, k);
        if clog_byteno(x) == k {
            let sh = clog_bshift(x);
            lemma_clog_byteno_bounds(x);
            let b1 = clog_byte_set(b, x, status);
            let m0 = 3u8 << sh;
            lemma_clog_fold_offmask(b1, rest, status, k);
            let f = clog_fold_byte(b1, rest, status, k);
            assert(((b & !(3u8 << sh)) | (status << sh)) & !(3u8 << sh) == b & !(3u8 << sh))
                by (bit_vector)
                requires
                    status <= 3,
                    sh <= 6,
            ;
            assert(f & !(m0 | mr) == b & !(m0 | mr)) by (bit_vector)
                requires
                    f & !mr == b1 & !mr,
                    b1 & !m0 == b & !m0,
            ;
        } else {
            lemma_clog_fold_offmask(b, rest, status, k);
        }
    }
}

/// Within the written bits, the fold's outcome does not depend on the byte it
/// started from.
proof fn lemma_clog_fold_maskdep(b: u8, b2: u8, xids: Seq<u32>, status: u8, k: int)
    requires
        status <= 3,
    ensures
        clog_fold_byte(b, xids, status, k) & clog_byte_mask(xids, k) == clog_fold_byte(
            b2,
            xids,
            status,
            k,
        ) & clog_byte_mask(xids, k),
    decreases xids.len(),
{
    if xids.len() == 0 {
        assert(b & 0u8 == b2 & 0u8) by (bit_vector);
    } else {
        let x = xids[0];
        let rest = xids.drop_first();
        let mr = clog_byte_mask(rest, k);
        if clog_byteno(x) == k {
            let sh = clog_bshift(x);
            lemma_clog_byteno_bounds(x);
            let b1 = clog_byte_set(b, x, status);
            let b1x = clog_byte_set(b2, x, status);
            let m0 = 3u8 << sh;
            lemma_clog_fold_maskdep(b1, b1x, rest, status, k);
            lemma_clog_fold_offmask(b1, rest, status, k);
            lemma_clog_fold_offmask(b1x, rest, status, k);
            let f = clog_fold_byte(b1, rest, status, k);
            let fx = clog_fold_byte(b1x, rest, status, k);
            assert(((b & !(3u8 << sh)) | (status << sh)) & (3u8 << sh) == ((b2 & !(3u8 << sh)) | (
            status << sh)) & (3u8 << sh)) by (bit_vector);
            assert(f & (m0 | mr) == fx & (m0 | mr)) by (bit_vector)
                requires
                    f & mr == fx & mr,
                    f & !mr == b1 & !mr,
                    fx & !mr == b1x & !mr,
                    b1 & m0 == b1x & m0,
            ;
        } else {
            lemma_clog_fold_maskdep(b, b2, rest, status, k);
        }
    }
}

/// Folding a byte twice gives the same byte as folding it once.
proof fn lemma_clog_fold_byte_idem(b: u8, xids: Seq<u32>, status: u8, k: int)
    requires
        status <= 3,
    ensures
        clog_fold_byte(clog_fold_byte(b, xids, status, k), xids, status, k) == clog_fold_byte(
            b,
            xids,
            status,
            k,
        ),
{
    let f1 = clog_fold_byte(b, xids, status, k);
    let f2 = clog_fold_byte(f1, xids, status, k);
    let m = clog_byte_mask(xids, k);
    lemma_clog_fold_offmask(f1, xids, status, k);
    lemma_clog_fold_maskdep(f1, b, xids, status, k);
    assert(f2 == f1) by (bit_vector)
        requires
            f2 & m == f1 & m,
            f2 & !m == f1 & !m,
    ;
}

/// The whole-page fold agrees with the per-byte fold at every position.
proof fn lemma_clog_fold_pointwise(page: Seq<u8>, xids: Seq<u32>, status: u8, k: int)
    requires
        page.len() >= BLCKSZ,
        0 <= k < page.len(),
    ensures
        clog_set_statuses_spec(page, xids, status)[k] == clog_fold_byte(page[k], xids, status, k),
    decreases xids.len(),
{
    if xids.len() > 0 {
        let x = xids[0];
        lemma_clog_byteno_bounds(x);
        let p1 = clog_set_status_spec(page, x, status);
        lemma_clog_fold_pointwise(p1, xids.drop_first(), status, k);
    }
}

/// Bytes past the status area are never touched by the fold.
proof fn lemma_clog_fold_byte_out(b: u8, xids: Seq<u32>, status: u8, k: int)
    requires
        k >= 8192,
    ensures
        clog_fold_byte(b, xids, status, k) == b,
    decreases xids.len(),
{
    if xids.len() > 0 {
        lemma_clog_byteno_bounds(xids[0]);
        lemma_clog_fold_byte_out(b, xids.drop_first(), status, k);
    }
}

/// Setting the same statuses twice leaves the page as after one pass.
proof fn lemma_clog_set_statuses_idem(page: Seq<u8>, xids: Seq<u32>, status: u8)
    requires
        page.len() >= BLCKSZ,
        status <= 3,
    ensures
        clog_set_statuses_spec(clog_set_statuses_spec(page, xids, status), xids, status)
            == clog_set_statuses_spec(page, xids, status),
{
    let q = clog_set_statuses_spec(page, xids, status);
    let q2 = clog_set_statuses_spec(q, xids, status);
    lemma_clog_set_statuses_len(page, xids, status);
    lemma_clog_set_statuses_len(q, xids, status);
    assert forall|k: int| 0 <= k < q.len() implies q2[k] == q[k] by {
        lemma_clog_fold_pointwise(page, xids, status, k);
        lemma_clog_fold_pointwise(q, xids, status, k);
        lemma_clog_fold_byte_idem(page[k], xids, status, k);
    }
    assert(q2 =~= q);
}

/// The fold touches only the first `BLCKSZ` bytes, so it commutes with
/// replacing the bytes past `BLCKSZ`.
proof fn lemma_clog_fold_low_bytes(p: Seq<u8>, q: Seq<u8>, xids: Seq<u32>, status: u8)
    requires
        p.len() >= BLCKSZ,
        q.len() >= BLCKSZ,
        forall|k: int| 0 <= k < BLCKSZ ==> p[k] == q[k],
    ensures
        forall|k: int|
            0 <= k < BLCKSZ ==> clog_set_statuses_spec(p, xids, status)[k]
                == clog_set_statuses_spec(q, xids, status)[k],
{
    assert forall|k: int|
        0 <= k < BLCKSZ implies clog_set_statuses_spec(p, xids, status)[k]
        == clog_set_statuses_spec(q, xids, status)[k] by {
        lemma_clog_fold_pointwise(p, xids, status, k);
        lemma_clog_fold_pointwise(q, xids, status, k);
    }
}

// ---------------------------------------------------------------------------
// The laws
// ---------------------------------------------------------------------------
/// `ClogSetCommitted` is idempotent: applying the record to its own result
/// (same xids, same timestamp) returns that result unchanged.
pub proof fn lemma_clog_set_committed_idempotent(key: Key, page: Seq<u8>, rec: NeonWalRecord)
    requires
        page_len_ok(page.len() as int),
        rec is ClogSetCommitted,
        apply_record_spec(key, page, rec) is Ok,
    ensures
        match apply_record_spec(key, page, rec) {
            Ok(p1) => apply_record_spec(key, p1, rec) == Ok::<Seq<u8>, WalRedoError>(p1),
            Err(_) => true,
        },
{
    let xids = match rec {
        NeonWalRecord::ClogSetCommitted { xids, .. } => xids@,
        _ => Seq::empty(),
    };
    let st = TRANSACTION_STATUS_COMMITTED;
    let q = clog_set_statuses_spec(page, xids, st);
    lemma_clog_set_statuses_len(page, xids, st);
    let r1 = clog_page_with_timestamp(q, rec->ClogSetCommitted_timestamp);
    assert(r1.len() == BLCKSZ + 8);
    assert(forall|k: int| 0 <= k < BLCKSZ ==> r1[k] == q[k]);
    let s2 = clog_set_statuses_spec(r1, xids, st);
    lemma_clog_set_statuses_len(r1, xids, st);
    lemma_clog_set_statuses_idem(page, xids, st);
    lemma_clog_fold_low_bytes(r1, q, xids, st);
    assert forall|k: int| 0 <= k < r1.len() implies s2[k] == r1[k] by {
        if k < BLCKSZ {
            assert(s2[k] == clog_set_statuses_spec(q, xids, st)[k]);
            assert(clog_set_statuses_spec(q, xids, st) == q);
        } else {
            lemma_clog_fold_pointwise(r1, xids, st, k);
            lemma_clog_fold_byte_out(r1[k], xids, st, k);
        }
    }
    assert(s2 =~= r1);
    let r2 = clog_page_with_timestamp(s2, rec->ClogSetCommitted_timestamp);
    assert(r2 =~= r1);
}

/// Clearing the same heap block's visibility bits through both block fields
/// of one record equals clearing it through one field.
pub proof fn lemma_clear_vm_flags_both_blocks_once(key: Key, page: Seq<u8>, blkno: u32, flags: u8)
    requires
        page.len() >= BLCKSZ,
    ensures
        apply_record_spec(
            key,
            page,
            (NeonWalRecord::ClearVisibilityMapFlags {
                new_heap_blkno: Some(blkno),
                old_heap_blkno: Some(blkno),
                flags,
            }),
        ) == apply_record_spec(
            key,
            page,
            (NeonWalRecord::ClearVisibilityMapFlags {
                new_heap_blkno: Some(blkno),
                old_heap_blkno: None,
                flags,
            }),
        ),
{
    let hb = blkno;
    assert(24 + (hb % 32672) / 4 < 8192 && (hb % 4) * 2 <= 6) by (nonlinear_arith);
    let idx = PAGE_HEADER_SIZE + vm_map_byte(blkno) as int;
    let q = vm_clear_bits_spec(page, blkno, flags);
    let m = !(flags << vm_map_offset(blkno));
    let b = page[idx];
    assert((b & m) & m == b & m) by (bit_vector);
    assert(vm_clear_bits_spec(q, blkno, flags) =~= q);
}

} // verus!
