//! Per-transfer receive logic: one reassembly buffer plus the sliding-window
//! acknowledgment summary derived from it.

use vstd::prelude::*;

verus! {

use crate::protocol::{
    AckChunkData, ReceiverToSenderCommands, SenderToReceiverCommands, SetChunkData,
};
use crate::{
    fresh_blob_state, spec_chunk_count, spec_set_chunk, BlobError, BlobState, BlobStreamIn,
};

/// Index of the first chunk not yet received, scanning upward from `from`;
/// the length itself when every chunk from `from` on is there.
pub open spec fn first_missing_from(received: Seq<bool>, from: int) -> int
    decreases received.len() - from
    when 0 <= from <= received.len()
{
    if from >= received.len() {
        from
    } else if !received[from] {
        from
    } else {
        first_missing_from(received, from + 1)
    }
}

/// Smallest chunk index not yet received, or the chunk count once complete.
pub open spec fn first_missing(received: Seq<bool>) -> int {
    first_missing_from(received, 0)
}

/// Bit `i` of a 64-bit mask.
pub open spec fn u64_bit(m: u64, i: int) -> bool {
    (m >> (i as u64)) & 1u64 == 1u64
}

/// Whether `idx` names a chunk that has been received; indices past the end
/// count as not received.
pub open spec fn mask_slot(received: Seq<bool>, idx: int) -> bool {
    0 <= idx < received.len() && received[idx]
}

/// What a correct acknowledgment summary says of a buffer state: the waiting
/// index is the first gap, and mask bit `i` reports the chunk at
/// `waiting + 1 + i`, with bits past the chunk count clear.
pub open spec fn is_ack_for(a: AckChunkData, st: BlobState) -> bool {
    let w = first_missing(st.received);
    &&& a.waiting_for_chunk_index == w
    &&& forall|i: int|
        0 <= i < 64 ==> (u64_bit(a.receive_mask_after_last, i) <==> mask_slot(
            st.received,
            w + 1 + i,
        ))
}

/// `first_missing` is the index right after a received prefix whose
/// follower, if any, is missing.
pub proof fn lemma_first_missing_at(received: Seq<bool>, w: int)
    requires
        0 <= w <= received.len(),
        forall|k: int| 0 <= k < w ==> received[k],
        w < received.len() ==> !received[w],
    ensures
        first_missing(received) == w,
{
    lemma_first_missing_from_at(received, 0, w);
}

proof fn lemma_first_missing_from_at(received: Seq<bool>, from: int, w: int)
    requires
        0 <= from <= w <= received.len(),
        forall|k: int| from <= k < w ==> received[k],
        w < received.len() ==> !received[w],
    ensures
        first_missing_from(received, from) == w,
    decreases w - from,
{
    if from < w {
        lemma_first_missing_from_at(received, from + 1, w);
    }
}

/// Receive logic for a single transfer: accepts chunks and summarizes the
/// receive state on demand.
pub struct InLogic {
    in_stream: BlobStreamIn,
}

impl View for InLogic {
    type V = BlobState;

    closed spec fn view(&self) -> BlobState {
        self.in_stream@
    }
}

impl InLogic {
    /// Well-formed, with a chunk count the 32-bit waiting index can report.
    pub open spec fn wf(&self) -> bool {
        &&& self@.wf()
        &&& self@.chunk_count() <= u32::MAX
    }

    /// Creates the receive logic for a blob of `octet_count` bytes in chunks
    /// of `fixed_chunk_size` bytes.
    pub fn new(octet_count: usize, fixed_chunk_size: usize) -> (r: Self)
        requires
            octet_count > 0,
            fixed_chunk_size > 0,
            spec_chunk_count(octet_count as nat, fixed_chunk_size as nat) <= u32::MAX,
        ensures
            r.wf(),
            r@ == fresh_blob_state(octet_count as nat, fixed_chunk_size as nat),
    {
        Self { in_stream: BlobStreamIn::new(octet_count, fixed_chunk_size) }
    }

    /// Stores one chunk and reports the acknowledgment summary afterwards.
    /// A duplicate with identical contents counts as success, since that
    /// data is already acknowledged; every other rejection is surfaced.
    pub fn update(&mut self, chunk_data: &SetChunkData) -> (r: Result<AckChunkData, BlobError>)
        requires
            old(self).wf(),
        ensures
            final(self).wf(),
            ({
                let (res, st1) = spec_set_chunk(
                    old(self)@,
                    chunk_data.chunk_index as usize,
                    chunk_data.payload@,
                );
                match res {
                    Ok(()) => final(self)@ == st1 && (r matches Ok(a) && is_ack_for(a, st1)),
                    Err(e) => final(self)@ == old(self)@ && if e is RedundantSameContents {
                        r matches Ok(a) && is_ack_for(a, old(self)@)
                    } else {
                        r == Err::<AckChunkData, BlobError>(e)
                    },
                }
            }),
    {
        let index = chunk_data.chunk_index as usize;
        match self.in_stream.set_chunk(index, chunk_data.payload.as_slice()) {
            Ok(()) => Ok(self.ack()),
            Err(BlobError::RedundantSameContents(_)) => Ok(self.ack()),
            Err(e) => Err(e),
        }
    }

    /// Applies one sender command to the stream.
    pub fn receive(&mut self, command: SenderToReceiverCommands) -> (r: Result<(), BlobError>)
        requires
            old(self).wf(),
        ensures
            final(self).wf(),
            ({
                let SenderToReceiverCommands::SetChunk(d) = command;
                let (res, st1) = spec_set_chunk(
                    old(self)@,
                    d.chunk_index as usize,
                    d.payload@,
                );
                match res {
                    Ok(()) => final(self)@ == st1 && r is Ok,
                    Err(e) => final(self)@ == old(self)@ && if e is RedundantSameContents {
                        r is Ok
                    } else {
                        r == Err::<(), BlobError>(e)
                    },
                }
            }),
    {
        match command {
            SenderToReceiverCommands::SetChunk(chunk_data) => {
                match self.update(&chunk_data) {
                    Ok(_) => Ok(()),
                    Err(e) => Err(e),
                }
            },
        }
    }

    /// Computes the acknowledgment summary: the first gap, then one mask bit
    /// per chunk in the 64-chunk window after it. Pure: callable any number
    /// of times without changing the state.
    pub fn ack(&self) -> (r: AckChunkData)
        requires
            self.wf(),
        ensures
            is_ack_for(r, self@),
    {
        let chunk_count = self.in_stream.chunk_count();
        let mut w: usize = 0;
        while w < chunk_count && self.in_stream.is_received(w)
            invariant
                self.wf(),
                chunk_count == self@.chunk_count(),
                w <= chunk_count,
                forall|k: int| 0 <= k < w ==> self@.received[k],
            decreases chunk_count - w,
        {
            w += 1;
        }
        proof {
            lemma_first_missing_at(self@.received, w as int);
        }
        let mut mask: u64 = 0;
        proof {
            assert forall|j: int| 0 <= j < 64 implies !u64_bit(0u64, j) by {
                let jj = j as u64;
                assert((0u64 >> jj) & 1u64 != 1u64) by (bit_vector);
            }
        }
        let mut i: u64 = 0;
        while i < 64
            invariant
                self.wf(),
                chunk_count == self@.chunk_count(),
                w <= chunk_count,
                w == first_missing(self@.received),
                i <= 64,
                forall|j: int|
                    0 <= j < i ==> (u64_bit(mask, j) <==> mask_slot(
                        self@.received,
                        w + 1 + j,
                    )),
                forall|j: int| i <= j < 64 ==> !u64_bit(mask, j),
            decreases 64 - i,
        {
            let idx: u64 = w as u64 + 1 + i;
            let ghost prev_mask = mask;
            let slot_received = idx < chunk_count as u64 && self.in_stream.is_received(
                idx as usize,
            );
            if slot_received {
                mask = mask | (1u64 << i);
            }
            proof {
                let ii = i;
                if slot_received {
                    assert(((prev_mask | (1u64 << ii)) >> ii) & 1u64 == 1u64) by (bit_vector)
                        requires
                            ii < 64,
                    ;
                    assert forall|j: int| 0 <= j < 64 && j != ii implies (u64_bit(mask, j)
                        <==> u64_bit(prev_mask, j)) by {
                        let jj = j as u64;
                        assert(((prev_mask | (1u64 << ii)) >> jj) & 1u64 == (prev_mask >> jj)
                            & 1u64) by (bit_vector)
                            requires
                                jj < 64,
                                ii < 64,
                                jj != ii,
                        ;
                        assert(mask == prev_mask | (1u64 << ii));
                    }
                    assert(u64_bit(mask, ii as int));
                    assert(mask_slot(self@.received, w + 1 + ii as int));
                } else {
                    assert(!u64_bit(mask, ii as int));
                    assert(!mask_slot(self@.received, w + 1 + ii as int));
                }
            }
            i += 1;
        }
        AckChunkData { waiting_for_chunk_index: w as u32, receive_mask_after_last: mask }
    }

    /// The acknowledgment summary wrapped as the wire command.
    pub fn send(&self) -> (r: ReceiverToSenderCommands)
        requires
            self.wf(),
        ensures
            r matches ReceiverToSenderCommands::AckChunk(a) && is_ack_for(a, self@),
    {
        ReceiverToSenderCommands::AckChunk(self.ack())
    }

    /// Total number of chunks of this transfer.
    pub fn chunk_count(&self) -> (r: usize)
        requires
            self.wf(),
        ensures
            r == self@.chunk_count(),
    {
        self.in_stream.chunk_count()
    }

    /// True once every chunk has been received.
    pub fn is_complete(&self) -> (r: bool)
        requires
            self.wf(),
        ensures
            r == self@.is_complete(),
    {
        self.in_stream.is_complete()
    }

    /// The complete blob, available exactly when every chunk has arrived.
    pub fn blob(&self) -> (r: Option<&Vec<u8>>)
        requires
            self.wf(),
        ensures
            match r {
                Some(b) => self@.is_complete() && b@ == self@.data,
                None => !self@.is_complete(),
            },
    {
        self.in_stream.blob()
    }
}

} // verus!
