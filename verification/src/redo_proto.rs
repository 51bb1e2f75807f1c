//! The framed request sent to the external replay process: a `BEGIN_REDO`
//! header, an optional `PUSH_PAGE` with the base image, one `APPLY_RECORD`
//! per opaque record, and a closing `GET_PAGE`. Each message starts with a
//! one-byte tag and a big-endian length that counts itself and everything
//! after it.

use vstd::prelude::*;

use crate::bytecodec::{be32_bytes, be64_bytes, put_bytes, put_u32_be, put_u64_be, put_u8};
use crate::key::RelTag;
use crate::lsn::Lsn;
use crate::walrecord::NeonWalRecord;
use crate::walredo::BLCKSZ;

verus! {

/// Identifies one 8 KiB page: the relation fork plus the block number.
/// Serialized big-endian at the head of every redo message.
#[derive(Clone, Copy, Debug, PartialEq, Eq, Structural)]
pub struct BufferTag {
    pub rel: RelTag,
    pub blknum: u32,
}

/// Message tag of `BEGIN_REDO` (ASCII 'B').
pub const MSG_BEGIN_REDO: u8 = 66;

/// Message tag of `PUSH_PAGE` (ASCII 'P').
pub const MSG_PUSH_PAGE: u8 = 80;

/// Message tag of `APPLY_RECORD` (ASCII 'A').
pub const MSG_APPLY_RECORD: u8 = 65;

/// Message tag of `GET_PAGE` (ASCII 'G').
pub const MSG_GET_PAGE: u8 = 71;

/// The seventeen serialized bytes of a buffer tag.
pub open spec fn buffer_tag_bytes(tag: BufferTag) -> Seq<u8> {
    seq![tag.rel.forknum] + be32_bytes(tag.rel.spcnode) + be32_bytes(tag.rel.dbnode) + be32_bytes(
        tag.rel.relnode,
    ) + be32_bytes(tag.blknum)
}

/// `BEGIN_REDO`: tag byte, length 21, buffer tag.
pub open spec fn begin_redo_msg(tag: BufferTag) -> Seq<u8> {
    seq![MSG_BEGIN_REDO] + be32_bytes(21) + buffer_tag_bytes(tag)
}

/// `PUSH_PAGE`: tag byte, length, buffer tag, the full page image.
pub open spec fn push_page_msg(tag: BufferTag, img: Seq<u8>) -> Seq<u8> {
    seq![MSG_PUSH_PAGE] + be32_bytes((4 + 17 + img.len()) as u32) + buffer_tag_bytes(tag) + img
}

/// `APPLY_RECORD`: tag byte, length, the record's end position, its payload.
pub open spec fn apply_record_msg(end_lsn: u64, rec: Seq<u8>) -> Seq<u8> {
    seq![MSG_APPLY_RECORD] + be32_bytes((4 + 8 + rec.len()) as u32) + be64_bytes(end_lsn) + rec
}

/// `GET_PAGE`: tag byte, length 21, buffer tag.
pub open spec fn get_page_msg(tag: BufferTag) -> Seq<u8> {
    seq![MSG_GET_PAGE] + be32_bytes(21) + buffer_tag_bytes(tag)
}

/// The opaque payload of a Postgres record.
pub open spec fn postgres_payload(rec: NeonWalRecord) -> Seq<u8> {
    rec->Postgres_rec@
}

/// Whether a run of records can be framed: each one is opaque and its
/// payload fits the message's four-byte length field.
pub open spec fn framable_run(records: Seq<(Lsn, NeonWalRecord)>) -> bool {
    forall|i: int|
        0 <= i < records.len() ==> (#[trigger] records[i]).1 is Postgres && postgres_payload(
            records[i].1,
        ).len() + 12 <= u32::MAX
}

/// The concatenated `APPLY_RECORD` messages of a run, in record order.
pub open spec fn apply_msgs(records: Seq<(Lsn, NeonWalRecord)>) -> Seq<u8>
    decreases records.len(),
{
    if records.len() == 0 {
        Seq::empty()
    } else {
        apply_record_msg(records[0].0.0, postgres_payload(records[0].1)) + apply_msgs(
            records.drop_first(),
        )
    }
}

/// The whole request written to the replay process for one run.
pub open spec fn redo_request_bytes(
    tag: BufferTag,
    img: Option<Seq<u8>>,
    records: Seq<(Lsn, NeonWalRecord)>,
) -> Seq<u8> {
    begin_redo_msg(tag) + (match img {
        Some(p) => push_page_msg(tag, p),
        None => Seq::empty(),
    }) + apply_msgs(records) + get_page_msg(tag)
}

proof fn lemma_apply_msgs_push(records: Seq<(Lsn, NeonWalRecord)>, p: (Lsn, NeonWalRecord))
    ensures
        apply_msgs(records.push(p)) == apply_msgs(records) + apply_record_msg(
            p.0.0,
            postgres_payload(p.1),
        ),
    decreases records.len(),
{
    if records.len() == 0 {
        assert(records.push(p).drop_first() =~= records);
        assert(apply_msgs(records) + apply_record_msg(p.0.0, postgres_payload(p.1))
            =~= apply_record_msg(p.0.0, postgres_payload(p.1)) + Seq::<u8>::empty());
    } else {
        assert(records.push(p).drop_first() =~= records.drop_first().push(p));
        lemma_apply_msgs_push(records.drop_first(), p);
        assert(apply_msgs(records.push(p)) =~= apply_msgs(records) + apply_record_msg(
            p.0.0,
            postgres_payload(p.1),
        ));
    }
}

/// Append the serialized buffer tag.
fn put_buffer_tag(buf: &mut Vec<u8>, tag: &BufferTag)
    ensures
        final(buf)@ == old(buf)@ + buffer_tag_bytes(*tag),
{
    put_u8(buf, tag.rel.forknum);
    put_u32_be(buf, tag.rel.spcnode);
    put_u32_be(buf, tag.rel.dbnode);
    put_u32_be(buf, tag.rel.relnode);
    put_u32_be(buf, tag.blknum);
    proof {
        assert(buf@ =~= old(buf)@ + buffer_tag_bytes(*tag));
    }
}

/// Append a `BEGIN_REDO` message for the block.
pub fn build_begin_redo_for_block_msg(tag: &BufferTag, buf: &mut Vec<u8>)
    ensures
        final(buf)@ == old(buf)@ + begin_redo_msg(*tag),
{
    put_u8(buf, MSG_BEGIN_REDO);
    // Four length bytes, one fork byte, four four-byte fields.
    put_u32_be(buf, 4 + 1 + 4 * 4);
    put_buffer_tag(buf, tag);
    proof {
        assert(buf@ =~= old(buf)@ + begin_redo_msg(*tag));
    }
}

/// Append a `PUSH_PAGE` message carrying the base image.
pub fn build_push_page_msg(tag: &BufferTag, base_img: &Vec<u8>, buf: &mut Vec<u8>)
    requires
        base_img@.len() == BLCKSZ,
    ensures
        final(buf)@ == old(buf)@ + push_page_msg(*tag, base_img@),
{
    put_u8(buf, MSG_PUSH_PAGE);
    put_u32_be(buf, 4 + 1 + 4 * 4 + 8192);
    put_buffer_tag(buf, tag);
    put_bytes(buf, base_img);
    proof {
        assert(buf@ =~= old(buf)@ + push_page_msg(*tag, base_img@));
    }
}

/// Append an `APPLY_RECORD` message for one opaque record.
pub fn build_apply_record_msg(end_lsn: Lsn, rec: &Vec<u8>, buf: &mut Vec<u8>)
    requires
        rec@.len() + 12 <= u32::MAX,
    ensures
        final(buf)@ == old(buf)@ + apply_record_msg(end_lsn.0, rec@),
{
    put_u8(buf, MSG_APPLY_RECORD);
    put_u32_be(buf, 4 + 8 + rec.len() as u32);
    put_u64_be(buf, end_lsn.0);
    put_bytes(buf, rec);
    proof {
        assert(buf@ =~= old(buf)@ + apply_record_msg(end_lsn.0, rec@));
    }
}

/// Append a `GET_PAGE` message for the block.
pub fn build_get_page_msg(tag: &BufferTag, buf: &mut Vec<u8>)
    ensures
        final(buf)@ == old(buf)@ + get_page_msg(*tag),
{
    put_u8(buf, MSG_GET_PAGE);
    put_u32_be(buf, 4 + 1 + 4 * 4);
    put_buffer_tag(buf, tag);
    proof {
        assert(buf@ =~= old(buf)@ + get_page_msg(*tag));
    }
}

/// Build the whole request for the run `records[start..end]`: begin, the
/// optional base image, every record in order, then the page request.
#[verifier::loop_isolation(false)]
pub fn build_redo_request(
    tag: &BufferTag,
    img: Option<&Vec<u8>>,
    records: &Vec<(Lsn, NeonWalRecord)>,
    start: usize,
    end: usize,
) -> (r: Vec<u8>)
    requires
        start <= end <= records@.len(),
        img matches Some(p) ==> p@.len() == BLCKSZ,
        framable_run(records@.subrange(start as int, end as int)),
    ensures
        r@ == redo_request_bytes(
            *tag,
            match img {
                Some(p) => Some(p@),
                None => None,
            },
            records@.subrange(start as int, end as int),
        ),
{
    let mut buf: Vec<u8> = Vec::new();
    build_begin_redo_for_block_msg(tag, &mut buf);
    if let Some(p) = img {
        build_push_page_msg(tag, p, &mut buf);
    }
    let ghost head = buf@;
    let ghost run = records@.subrange(start as int, end as int);
    let mut i: usize = start;
    while i < end
        invariant
            start <= i <= end,
            buf@ == head + apply_msgs(records@.subrange(start as int, i as int)),
        decreases end - i,
    {
        proof {
            assert(run[i - start] == records@[i as int]);
            assert(records@[i as int].1 is Postgres);
            assert(postgres_payload(records@[i as int].1).len() + 12 <= u32::MAX);
        }
        let (lsn, rec) = &records[i];
        match rec {
            NeonWalRecord::Postgres { rec: payload, .. } => {
                build_apply_record_msg(*lsn, payload, &mut buf);
            },
            _ => {
                // Unreachable: the run is all opaque records.
                proof {
                    assert(false);
                }
            },
        }
        proof {
            lemma_apply_msgs_push(
                records@.subrange(start as int, i as int),
                records@[i as int],
            );
            assert(records@.subrange(start as int, i as int).push(records@[i as int])
                =~= records@.subrange(start as int, i as int + 1));
            assert(buf@ =~= head + apply_msgs(records@.subrange(start as int, i as int + 1)));
        }
        i = i + 1;
    }
    build_get_page_msg(tag, &mut buf);
    proof {
        assert(buf@ =~= redo_request_bytes(
            *tag,
            match img {
                Some(p) => Some(p@),
                None => None,
            },
            run,
        ));
    }
    buf
}

} // verus!
