use walcore::bytecodec::{put_u32_be, put_u64_be, put_u8, read_u32_le, write_u32_le};
use walcore::key::RelTag;
use walcore::lsn::Lsn;
use walcore::redo_proto::{
    build_apply_record_msg, build_begin_redo_for_block_msg, build_get_page_msg,
    build_push_page_msg, BufferTag,
};

fn tag() -> BufferTag {
    BufferTag {
        rel: RelTag {
            forknum: 1,
            spcnode: 2,
            dbnode: 3,
            relnode: 4,
        },
        blknum: 5,
    }
}

#[test]
fn little_endian_round_trip() {
    let mut buf = vec![0u8; 8];
    write_u32_le(&mut buf, 2, 0xAABBCCDD);
    assert_eq!(buf, vec![0, 0, 0xDD, 0xCC, 0xBB, 0xAA, 0, 0]);
    assert_eq!(read_u32_le(&buf, 2), 0xAABBCCDD);
}

#[test]
fn big_endian_appends() {
    let mut buf = Vec::new();
    put_u8(&mut buf, 0x7F);
    put_u32_be(&mut buf, 0x01020304);
    put_u64_be(&mut buf, 0x1122334455667788);
    assert_eq!(
        buf,
        vec![0x7F, 1, 2, 3, 4, 0x11, 0x22, 0x33, 0x44, 0x55, 0x66, 0x77, 0x88]
    );
}

#[test]
fn begin_redo_message_layout() {
    let mut buf = Vec::new();
    build_begin_redo_for_block_msg(&tag(), &mut buf);
    assert_eq!(
        buf,
        vec![
            b'B', 0, 0, 0, 21, // length counts itself and the tag
            1, // fork number
            0, 0, 0, 2, 0, 0, 0, 3, 0, 0, 0, 4, // relation, big-endian
            0, 0, 0, 5, // block number
        ]
    );
}

#[test]
fn get_page_message_layout() {
    let mut buf = Vec::new();
    build_get_page_msg(&tag(), &mut buf);
    assert_eq!(buf[0], b'G');
    assert_eq!(&buf[1..5], &[0, 0, 0, 21]);
    assert_eq!(buf.len(), 22);
}

#[test]
fn push_page_message_layout() {
    let img = vec![0xABu8; 8192];
    let mut buf = Vec::new();
    build_push_page_msg(&tag(), &img, &mut buf);
    assert_eq!(buf[0], b'P');
    // 4 length bytes + 17 tag bytes + 8192 image bytes = 8213.
    assert_eq!(&buf[1..5], &[0, 0, 0x20, 0x15]);
    assert_eq!(buf.len(), 1 + 4 + 17 + 8192);
    assert_eq!(&buf[22..], &img[..]);
}

#[test]
fn apply_record_message_layout() {
    let mut buf = Vec::new();
    build_apply_record_msg(Lsn(0x1122334455667788), &vec![9, 8], &mut buf);
    assert_eq!(
        buf,
        vec![
            b'A', 0, 0, 0, 14, // length: 4 + 8 + payload
            0x11, 0x22, 0x33, 0x44, 0x55, 0x66, 0x77, 0x88, // end position
            9, 8,
        ]
    );
}

#[test]
fn lsn_alignment_and_validity() {
    assert!(!Lsn(0).is_valid());
    assert!(Lsn(1).is_valid());
    assert_eq!(Lsn(100_000).align(), Lsn(100_000));
    assert_eq!(Lsn(100_100).align(), Lsn(100_104));
    assert_eq!(Lsn(1).align(), Lsn(8));
}
