use walcore::key::{Key, RelTag, SlruKind, VISIBILITYMAP_FORKNUM};
use walcore::lsn::Lsn;
use walcore::redo_plan::{request_redo_neon, RedoRequest};
use walcore::walrecord::{MultiXactMember, NeonWalRecord};
use walcore::walredo::{apply_record_neon, WalRedoError, BLCKSZ, PAGE_HEADER_SIZE};

fn vm_key(blknum: u32) -> Key {
    Key::Rel {
        rel: RelTag {
            forknum: VISIBILITYMAP_FORKNUM,
            spcnode: 1,
            dbnode: 2,
            relnode: 3,
        },
        blknum,
    }
}

fn clog_key() -> Key {
    Key::Slru {
        kind: SlruKind::Clog,
        segno: 0,
        blknum: 0,
    }
}

#[test]
fn clog_set_committed_sets_bits_and_timestamp() {
    let mut page = vec![0u8; BLCKSZ];
    let rec = NeonWalRecord::ClogSetCommitted {
        xids: vec![3],
        timestamp: 0x0102030405060708,
    };
    apply_record_neon(&clog_key(), &mut page, &rec).unwrap();
    // xid 3 lives in byte 0, bits 6..8; committed status is 1.
    assert_eq!(page[0], 0x40);
    assert_eq!(page.len(), BLCKSZ + 8);
    assert_eq!(&page[BLCKSZ..], &[1, 2, 3, 4, 5, 6, 7, 8]);
}

#[test]
fn clog_set_committed_twice_is_idempotent() {
    let mut once = vec![0u8; BLCKSZ];
    let rec = NeonWalRecord::ClogSetCommitted {
        xids: vec![3, 17, 3],
        timestamp: -12345,
    };
    apply_record_neon(&clog_key(), &mut once, &rec).unwrap();
    let mut twice = once.clone();
    apply_record_neon(&clog_key(), &mut twice, &rec).unwrap();
    assert_eq!(once, twice);
}

#[test]
fn clog_set_aborted_sets_status_two() {
    let mut page = vec![0u8; BLCKSZ];
    let rec = NeonWalRecord::ClogSetAborted { xids: vec![0] };
    apply_record_neon(&clog_key(), &mut page, &rec).unwrap();
    assert_eq!(page[0], 0x02);
    assert_eq!(page.len(), BLCKSZ);
}

#[test]
fn clog_record_for_wrong_block_is_rejected() {
    let mut page = vec![0u8; BLCKSZ];
    let before = page.clone();
    // xid 40000 lives in CLOG page 1, not block 0 of segment 0.
    let rec = NeonWalRecord::ClogSetAborted { xids: vec![40000] };
    assert_eq!(
        apply_record_neon(&clog_key(), &mut page, &rec),
        Err(WalRedoError::InvalidRecord)
    );
    assert_eq!(page, before);
}

#[test]
fn clog_record_needs_clog_key() {
    let mut page = vec![0u8; BLCKSZ];
    let rec = NeonWalRecord::ClogSetAborted { xids: vec![1] };
    assert_eq!(
        apply_record_neon(&vm_key(0), &mut page, &rec),
        Err(WalRedoError::InvalidRecord)
    );
}

#[test]
fn clear_visibility_map_flags_clears_bits() {
    let mut page = vec![0xFFu8; BLCKSZ];
    let rec = NeonWalRecord::ClearVisibilityMapFlags {
        new_heap_blkno: Some(1),
        old_heap_blkno: None,
        flags: 0x03,
    };
    apply_record_neon(&vm_key(0), &mut page, &rec).unwrap();
    // Heap block 1 sits in map byte 0, bits 2..4.
    assert_eq!(page[PAGE_HEADER_SIZE], 0xF3);
    assert_eq!(page.len(), BLCKSZ);
}

#[test]
fn clear_visibility_map_flags_same_block_twice_equals_once() {
    let mut both = vec![0xFFu8; BLCKSZ];
    apply_record_neon(
        &vm_key(0),
        &mut both,
        &NeonWalRecord::ClearVisibilityMapFlags {
            new_heap_blkno: Some(7),
            old_heap_blkno: Some(7),
            flags: 0x01,
        },
    )
    .unwrap();
    let mut single = vec![0xFFu8; BLCKSZ];
    apply_record_neon(
        &vm_key(0),
        &mut single,
        &NeonWalRecord::ClearVisibilityMapFlags {
            new_heap_blkno: Some(7),
            old_heap_blkno: None,
            flags: 0x01,
        },
    )
    .unwrap();
    assert_eq!(both, single);
}

#[test]
fn clear_visibility_map_flags_needs_vm_fork() {
    let mut page = vec![0u8; BLCKSZ];
    let key = Key::Rel {
        rel: RelTag {
            forknum: 0,
            spcnode: 1,
            dbnode: 2,
            relnode: 3,
        },
        blknum: 0,
    };
    let rec = NeonWalRecord::ClearVisibilityMapFlags {
        new_heap_blkno: Some(0),
        old_heap_blkno: None,
        flags: 0x01,
    };
    assert_eq!(
        apply_record_neon(&key, &mut page, &rec),
        Err(WalRedoError::InvalidRecord)
    );
}

#[test]
fn multixact_offset_create_writes_entry() {
    let mut page = vec![0u8; BLCKSZ];
    let key = Key::Slru {
        kind: SlruKind::MultiXactOffsets,
        segno: 0,
        blknum: 0,
    };
    let rec = NeonWalRecord::MultixactOffsetCreate {
        mid: 5,
        moff: 0xAABBCCDD,
    };
    apply_record_neon(&key, &mut page, &rec).unwrap();
    // Entry 5: four little-endian bytes at offset 20.
    assert_eq!(&page[20..24], &[0xDD, 0xCC, 0xBB, 0xAA]);
}

#[test]
fn multixact_members_create_writes_flags_and_xid() {
    let mut page = vec![0u8; BLCKSZ];
    let key = Key::Slru {
        kind: SlruKind::MultiXactMembers,
        segno: 0,
        blknum: 0,
    };
    let rec = NeonWalRecord::MultixactMembersCreate {
        moff: 3,
        members: vec![MultiXactMember { xid: 7, status: 0x55 }],
    };
    apply_record_neon(&key, &mut page, &rec).unwrap();
    // Member offset 3: flags word of group 0 gets 0x55 in bits 24..32,
    // and the xid lands in the fourth member slot of the group.
    assert_eq!(&page[0..4], &[0x00, 0x00, 0x00, 0x55]);
    assert_eq!(&page[16..20], &[7, 0, 0, 0]);
}

#[test]
fn opaque_record_is_refused_in_process() {
    let mut page = vec![0u8; BLCKSZ];
    let rec = NeonWalRecord::Postgres {
        will_init: true,
        rec: vec![1, 2, 3],
    };
    assert_eq!(
        apply_record_neon(&vm_key(0), &mut page, &rec),
        Err(WalRedoError::InvalidRequest)
    );
}

#[test]
fn empty_records_rejected_before_anything_happens() {
    let r = RedoRequest::new(vm_key(0), Some(vec![0u8; BLCKSZ]), Vec::new());
    assert!(matches!(r, Err(WalRedoError::InvalidRequest)));
}

#[test]
fn structured_records_without_base_image_rejected() {
    let records = vec![(
        Lsn(1),
        NeonWalRecord::ClearVisibilityMapFlags {
            new_heap_blkno: Some(0),
            old_heap_blkno: None,
            flags: 0x01,
        },
    )];
    assert_eq!(
        request_redo_neon(vm_key(0), None, records),
        Err(WalRedoError::InvalidRequest)
    );
}

#[test]
fn all_in_process_records_reconstruct_page() {
    let base = vec![0xFFu8; BLCKSZ];
    let records = vec![
        (
            Lsn(1),
            NeonWalRecord::ClearVisibilityMapFlags {
                new_heap_blkno: Some(0),
                old_heap_blkno: None,
                flags: 0x01,
            },
        ),
        (
            Lsn(2),
            NeonWalRecord::ClearVisibilityMapFlags {
                new_heap_blkno: Some(1),
                old_heap_blkno: None,
                flags: 0x02,
            },
        ),
    ];
    let page = request_redo_neon(vm_key(0), Some(base), records).unwrap();
    // Block 0 lost bit 0, block 1 lost bit 3 (flag 0x02 shifted by 2).
    assert_eq!(page[PAGE_HEADER_SIZE], 0xFE & !(0x02 << 2));
    assert_eq!(page.len(), BLCKSZ);
}

#[test]
fn mixed_batch_runs_the_replayer_exactly_once() {
    // Two structured records, one opaque record, one structured record:
    // three runs, of which only the middle one goes to the replayer.
    let base = vec![0xFFu8; BLCKSZ];
    let structured_a = NeonWalRecord::ClearVisibilityMapFlags {
        new_heap_blkno: Some(0),
        old_heap_blkno: None,
        flags: 0x01,
    };
    let structured_b = NeonWalRecord::ClearVisibilityMapFlags {
        new_heap_blkno: Some(0),
        old_heap_blkno: None,
        flags: 0x02,
    };
    let opaque_c = NeonWalRecord::Postgres {
        will_init: false,
        rec: vec![0xCA, 0xFE],
    };
    let structured_d = NeonWalRecord::ClearVisibilityMapFlags {
        new_heap_blkno: Some(0),
        old_heap_blkno: None,
        flags: 0x04,
    };
    let records = vec![
        (Lsn(10), structured_a),
        (Lsn(20), structured_b),
        (Lsn(30), opaque_c),
        (Lsn(40), structured_d),
    ];

    let mut rr = RedoRequest::new(vm_key(0), Some(base), records).unwrap();

    // First run: in process, covering both structured records.
    assert!(!rr.is_done());
    assert!(rr.run_is_neon());
    assert_eq!(rr.run_end(), 2);
    rr.apply_neon_run().unwrap();

    // Second run: the single opaque record, handed to the replayer. Its
    // request carries the page produced by the first run as base image.
    assert!(!rr.is_done());
    assert!(!rr.run_is_neon());
    assert_eq!(rr.run_end(), 3);
    let request = rr.postgres_request().unwrap();
    assert_eq!(request[0], b'B');
    // The pushed image starts after the begin message (22 bytes) and the
    // push-page header (1 tag + 4 length + 17 buffer-tag bytes).
    let image_start = 22 + 1 + 4 + 17;
    assert_eq!(request[image_start + PAGE_HEADER_SIZE], 0xFF & !0x01 & !0x02);
    // After the 8 KiB image follows the record message for the opaque record.
    let apply_start = image_start + BLCKSZ;
    assert_eq!(request[apply_start], b'A');
    assert_eq!(
        &request[apply_start + 1..apply_start + 5],
        &[0, 0, 0, 14],
        "the length field counts itself, the position and the payload"
    );
    assert_eq!(
        &request[apply_start + 5..apply_start + 13],
        &[0, 0, 0, 0, 0, 0, 0, 30]
    );
    assert_eq!(&request[apply_start + 13..apply_start + 15], &[0xCA, 0xFE]);
    assert_eq!(request[apply_start + 15], b'G');
    assert_eq!(request.len(), apply_start + 15 + 22);

    // The replayer answers with a page; it becomes the next base image.
    let replayed = vec![0xF0u8; BLCKSZ];
    rr.complete_postgres_run(replayed);

    // Third run: in process again; no further replayer involvement.
    assert!(!rr.is_done());
    assert!(rr.run_is_neon());
    assert_eq!(rr.run_end(), 4);
    rr.apply_neon_run().unwrap();
    assert!(rr.is_done());

    let page = rr.into_page();
    assert_eq!(page[PAGE_HEADER_SIZE], 0xF0 & !0x04);
    assert_eq!(page[0], 0xF0);
}
