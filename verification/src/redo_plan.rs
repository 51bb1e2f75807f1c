//! The redo request driver: splits the record list into maximal runs of
//! equal polarity (in-process vs. external) and applies them in order, each
//! run's output feeding the next run's base image.
//!
//! In-process runs are applied here, fully verified. For an external run the
//! driver hands out the framed request bytes and takes the replayer's 8 KiB
//! answer back; the process and pipe work happens outside this crate.

use vstd::prelude::*;

use crate::key::{key_to_rel_block, Key};
use crate::lsn::Lsn;
use crate::redo_proto::{build_redo_request, framable_run, redo_request_bytes, BufferTag};
use crate::walrecord::{can_apply_in_neon, can_apply_in_neon_spec, NeonWalRecord};
use crate::walredo::{
    apply_batch_neon, apply_batch_spec, batch_records, page_len_ok, record_bounds_ok, WalRedoError,
    BLCKSZ,
};

verus! {

/// Machine bounds every record of a request must meet: multixact member
/// offsets fit in `u32`, and an opaque payload fits its message frame.
pub open spec fn records_bounds_ok(records: Seq<(Lsn, NeonWalRecord)>) -> bool {
    forall|i: int|
        0 <= i < records.len() ==> record_bounds_ok((#[trigger] records[i]).1) && (records[i].1
            matches NeonWalRecord::Postgres { rec, .. } ==> rec@.len() + 12 <= u32::MAX)
}

/// Where the maximal run that starts at `pos` ends: the first later index
/// whose polarity differs, or the end of the list.
pub open spec fn run_end_spec(records: Seq<(Lsn, NeonWalRecord)>, pos: int) -> int
    decreases records.len() - pos,
{
    if pos < 0 || pos >= records.len() {
        pos
    } else if pos + 1 < records.len() && can_apply_in_neon_spec(records[pos + 1].1)
        == can_apply_in_neon_spec(records[pos].1) {
        run_end_spec(records, pos + 1)
    } else {
        pos + 1
    }
}

/// The run starting at `pos` is non-empty, uniform in polarity, and maximal.
pub proof fn lemma_run_end_props(records: Seq<(Lsn, NeonWalRecord)>, pos: int)
    requires
        0 <= pos < records.len(),
    ensures
        pos < run_end_spec(records, pos) <= records.len(),
        forall|i: int|
            pos <= i < run_end_spec(records, pos) ==> can_apply_in_neon_spec(
                (#[trigger] records[i]).1,
            ) == can_apply_in_neon_spec(records[pos].1),
        run_end_spec(records, pos) < records.len() ==> can_apply_in_neon_spec(
            records[run_end_spec(records, pos)].1,
        ) != can_apply_in_neon_spec(records[pos].1),
    decreases records.len() - pos,
{
    if pos + 1 < records.len() && can_apply_in_neon_spec(records[pos + 1].1)
        == can_apply_in_neon_spec(records[pos].1) {
        lemma_run_end_props(records, pos + 1);
    }
}

/// One redo request in flight: the records, the key they address, the page
/// image as reconstructed so far, and how many records have been applied.
pub struct RedoRequest {
    pub key: Key,
    pub records: Vec<(Lsn, NeonWalRecord)>,
    pub img: Option<Vec<u8>>,
    pub pos: usize,
}

impl RedoRequest {
    /// Internal consistency of a request in flight.
    pub open spec fn wf(&self) -> bool {
        &&& self.pos <= self.records@.len()
        &&& self.records@.len() >= 1
        &&& records_bounds_ok(self.records@)
        &&& (self.img matches Some(v) ==> page_len_ok(v@.len() as int))
        &&& (self.pos > 0 ==> self.img is Some)
    }

    /// All records applied.
    pub open spec fn done_spec(&self) -> bool {
        self.pos == self.records@.len()
    }

    /// Whether the run at the current position is applied in process.
    pub open spec fn run_is_neon_spec(&self) -> bool {
        can_apply_in_neon_spec(self.records@[self.pos as int].1)
    }

    /// Where the current run ends.
    pub open spec fn run_end_of(&self) -> int {
        run_end_spec(self.records@, self.pos as int)
    }

    /// Start a redo request. A request without records is refused outright,
    /// before anything else happens.
    pub fn new(key: Key, base_img: Option<Vec<u8>>, records: Vec<(Lsn, NeonWalRecord)>) -> (r:
        Result<RedoRequest, WalRedoError>)
        requires
            base_img matches Some(v) ==> page_len_ok(v@.len() as int),
            records_bounds_ok(records@),
        ensures
            records@.len() == 0 ==> r == Err::<RedoRequest, WalRedoError>(
                WalRedoError::InvalidRequest,
            ),
            records@.len() >= 1 ==> (r matches Ok(rr) && rr == (RedoRequest {
                key,
                records,
                img: base_img,
                pos: 0,
            }) && rr.wf()),
    {
        if records.is_empty() {
            return Err(WalRedoError::InvalidRequest);
        }
        Ok(RedoRequest { key, records, img: base_img, pos: 0 })
    }

    /// All records applied; the reconstructed page can be taken.
    pub fn is_done(&self) -> (r: bool)
        requires
            self.wf(),
        ensures
            r == self.done_spec(),
    {
        self.pos == self.records.len()
    }

    /// Does the current run apply in process?
    pub fn run_is_neon(&self) -> (r: bool)
        requires
            self.wf(),
            !self.done_spec(),
        ensures
            r == self.run_is_neon_spec(),
    {
        can_apply_in_neon(&self.records[self.pos].1)
    }

    /// Where the current maximal run ends.
    #[verifier::loop_isolation(false)]
    pub fn run_end(&self) -> (r: usize)
        requires
            self.wf(),
            !self.done_spec(),
        ensures
            r == self.run_end_of(),
            self.pos < r <= self.records@.len(),
    {
        proof {
            lemma_run_end_props(self.records@, self.pos as int);
        }
        let first_neon = can_apply_in_neon(&self.records[self.pos].1);
        let n = self.records.len();
        let mut i: usize = self.pos;
        while i + 1 < n && can_apply_in_neon(&self.records[i + 1].1) == first_neon
            invariant
                self.wf(),
                !self.done_spec(),
                n == self.records@.len(),
                self.pos <= i < self.records@.len(),
                first_neon == self.run_is_neon_spec(),
                run_end_spec(self.records@, i as int) == self.run_end_of(),
                can_apply_in_neon_spec(self.records@[i as int].1) == first_neon,
            decreases self.records@.len() - i,
        {
            i = i + 1;
        }
        i + 1
    }

    /// Apply the current in-process run over the page image. Structured
    /// records need a base image: without one the request is rejected with
    /// `InvalidRequest` and the state is unchanged, as it is on a record
    /// error.
    pub fn apply_neon_run(&mut self) -> (r: Result<(), WalRedoError>)
        requires
            old(self).wf(),
            !old(self).done_spec(),
            old(self).run_is_neon_spec(),
        ensures
            final(self).wf(),
            final(self).key == old(self).key,
            final(self).records == old(self).records,
            match apply_batch_spec(
                old(self).key,
                match old(self).img {
                    Some(v) => Some(v@),
                    None => None,
                },
                batch_records(old(self).records@, old(self).pos as int, old(self).run_end_of()),
            ) {
                Ok(p) => r is Ok && final(self).pos == old(self).run_end_of() && (final(self).img
                    matches Some(v) && v@ == p),
                Err(e) => r == Err::<(), WalRedoError>(e) && final(self).pos == old(self).pos
                    && final(self).img == old(self).img,
            },
    {
        let end = self.run_end();
        let img = match &self.img {
            Some(v) => Some(v),
            None => None,
        };
        match apply_batch_neon(&self.key, img, &self.records, self.pos, end) {
            Ok(page) => {
                self.img = Some(page);
                self.pos = end;
                Ok(())
            },
            Err(e) => Err(e),
        }
    }

    /// The framed request for the current external run, to be written to the
    /// replay process: begin, the base image if one is held, one message per
    /// record of the run, then the page request.
    pub fn postgres_request(&self) -> (r: Result<Vec<u8>, WalRedoError>)
        requires
            self.wf(),
            !self.done_spec(),
            !self.run_is_neon_spec(),
            self.img matches Some(v) ==> v@.len() == BLCKSZ,
        ensures
            match key_to_rel_block_spec(self.key) {
                Some((rel, blknum)) => r matches Ok(buf) && buf@ == redo_request_bytes(
                    (BufferTag { rel, blknum }),
                    match self.img {
                        Some(v) => Some(v@),
                        None => None,
                    },
                    self.records@.subrange(self.pos as int, self.run_end_of()),
                ),
                None => r == Err::<Vec<u8>, WalRedoError>(WalRedoError::InvalidRecord),
            },
    {
        let (rel, blknum) = match key_to_rel_block(&self.key) {
            Some(rb) => rb,
            None => {
                return Err(WalRedoError::InvalidRecord);
            },
        };
        let tag = BufferTag { rel, blknum };
        let end = self.run_end();
        proof {
            lemma_run_end_props(self.records@, self.pos as int);
            let run = self.records@.subrange(self.pos as int, self.run_end_of());
            assert forall|i: int| 0 <= i < run.len() implies (#[trigger] run[i]).1 is Postgres
                && run[i].1->Postgres_rec@.len() + 12 <= u32::MAX by {
                assert(run[i] == self.records@[self.pos + i]);
                assert(can_apply_in_neon_spec(self.records@[self.pos + i].1)
                    == can_apply_in_neon_spec(self.records@[self.pos as int].1));
            }
        }
        let buf = build_redo_request(
            &tag,
            match &self.img {
                Some(v) => Some(v),
                None => None,
            },
            &self.records,
            self.pos,
            end,
        );
        Ok(buf)
    }

    /// Take in the page the external replayer produced for the current run:
    /// it becomes the image, and the run counts as applied.
    pub fn complete_postgres_run(&mut self, page: Vec<u8>)
        requires
            old(self).wf(),
            !old(self).done_spec(),
            !old(self).run_is_neon_spec(),
            page@.len() == BLCKSZ,
        ensures
            final(self).wf(),
            final(self).key == old(self).key,
            final(self).records == old(self).records,
            final(self).pos == old(self).run_end_of(),
            final(self).img == Some(page),
    {
        let end = self.run_end();
        self.img = Some(page);
        self.pos = end;
    }

    /// The reconstructed page of a finished request.
    pub fn into_page(self) -> (r: Vec<u8>)
        requires
            self.wf(),
            self.done_spec(),
        ensures
            Some(r) == self.img,
    {
        match self.img {
            Some(page) => page,
            None => {
                // Unreachable: a finished request has applied at least one
                // run, and every run leaves an image.
                proof {
                    assert(false);
                }
                Vec::new()
            },
        }
    }
}

/// Spec view of `key_to_rel_block`.
pub open spec fn key_to_rel_block_spec(key: Key) -> Option<(crate::key::RelTag, u32)> {
    match key {
        Key::Rel { rel, blknum } => Some((rel, blknum)),
        _ => None,
    }
}

/// No record of the list is opaque.
pub open spec fn all_neon(records: Seq<(Lsn, NeonWalRecord)>) -> bool {
    forall|i: int| 0 <= i < records.len() ==> can_apply_in_neon_spec((#[trigger] records[i]).1)
}

/// A record list without opaque entries never reaches the external replayer:
/// wherever the driver stands, the current run applies in process, and that
/// run runs to the end of the list, finishing the request in one in-process
/// application.
pub proof fn lemma_all_neon_no_external(rr: RedoRequest)
    requires
        rr.wf(),
        all_neon(rr.records@),
        !rr.done_spec(),
    ensures
        rr.run_is_neon_spec(),
        rr.run_end_of() == rr.records@.len(),
{
    lemma_run_end_props(rr.records@, rr.pos as int);
}

/// A request whose first run is structured is rejected with `InvalidRequest`
/// when no base image was given: the very first in-process application
/// produces that error (`apply_neon_run`'s contract then returns it and
/// leaves the request untouched).
pub proof fn lemma_structured_first_run_needs_base(rr: RedoRequest)
    requires
        rr.wf(),
        rr.pos == 0,
        rr.img is None,
        rr.records@.len() >= 1,
        can_apply_in_neon_spec(rr.records@[0].1),
    ensures
        rr.run_is_neon_spec(),
        apply_batch_spec(
            rr.key,
            match rr.img {
                Some(v) => Some(v@),
                None => None,
            },
            batch_records(rr.records@, 0, rr.run_end_of()),
        ) == Err::<Seq<u8>, WalRedoError>(WalRedoError::InvalidRequest),
{
}

/// What a redo of a list without opaque records produces.
pub open spec fn neon_redo_spec(
    key: Key,
    img: Option<Seq<u8>>,
    records: Seq<(Lsn, NeonWalRecord)>,
) -> Result<Seq<u8>, WalRedoError> {
    if records.len() == 0 {
        Err(WalRedoError::InvalidRequest)
    } else {
        apply_batch_spec(key, img, batch_records(records, 0, records.len() as int))
    }
}

/// Reconstruct a page from records that all apply in process. The external
/// replayer plays no part: the whole computation happens here, writing only
/// to a fresh page buffer.
pub fn request_redo_neon(
    key: Key,
    base_img: Option<Vec<u8>>,
    records: Vec<(Lsn, NeonWalRecord)>,
) -> (r: Result<Vec<u8>, WalRedoError>)
    requires
        base_img matches Some(v) ==> page_len_ok(v@.len() as int),
        records_bounds_ok(records@),
        all_neon(records@),
    ensures
        match neon_redo_spec(
            key,
            match base_img {
                Some(v) => Some(v@),
                None => None,
            },
            records@,
        ) {
            Ok(p) => r matches Ok(v) && v@ == p,
            Err(e) => r == Err::<Vec<u8>, WalRedoError>(e),
        },
{
    let mut rr = match RedoRequest::new(key, base_img, records) {
        Ok(rr) => rr,
        Err(e) => {
            return Err(e);
        },
    };
    proof {
        lemma_all_neon_no_external(rr);
        assert(batch_records(rr.records@, 0, rr.run_end_of()) == batch_records(
            rr.records@,
            0,
            rr.records@.len() as int,
        ));
    }
    match rr.apply_neon_run() {
        Ok(()) => {},
        Err(e) => {
            return Err(e);
        },
    }
    Ok(rr.into_page())
}

} // verus!
