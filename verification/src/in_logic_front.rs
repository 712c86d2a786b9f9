//! Multi-transfer front: routes incoming commands to the session of their
//! transfer identifier, creating sessions lazily and never resetting an
//! existing one.

use vstd::prelude::*;

use std::collections::HashMap;

verus! {

broadcast use vstd::std_specs::hash::group_hash_axioms;

use crate::in_logic::{is_ack_for, InLogic};
use crate::protocol_front::{
    AckChunkFrontData, ReceiverToSenderFrontCommands, SenderToReceiverFrontCommands, TransferId,
};
use crate::{fresh_blob_state, lemma_chunk_count_facts, spec_set_chunk, BlobError, BlobState};

/// Why the front rejected a command.
#[derive(Debug, Clone, Copy, PartialEq, Eq, Structural)]
pub enum FrontError {
    /// A chunk arrived for a transfer identifier with no active session; no
    /// session is created for it.
    UnknownTransfer(u16),
    /// The addressed session rejected the chunk.
    Blob(BlobError),
}

/// Commands a well-formed `StartTransfer` announcement may carry: the blob
/// is not empty and the chunk size is not zero.
pub open spec fn front_cmd_ok(command: SenderToReceiverFrontCommands) -> bool {
    match command {
        SenderToReceiverFrontCommands::StartTransfer(d) => d.total_octet_size > 0 && d.chunk_size
            > 0,
        SenderToReceiverFrontCommands::SetChunk(_) => true,
    }
}

/// The transfer identifier an outgoing command is addressed to.
pub open spec fn ack_transfer_id(c: ReceiverToSenderFrontCommands) -> u16 {
    match c {
        ReceiverToSenderFrontCommands::AckStart(id) => id,
        ReceiverToSenderFrontCommands::AckChunk(a) => a.transfer_id.0,
    }
}

/// Handles the logic for receiving and processing chunks across concurrent
/// transfers, one session per transfer identifier. The identifiers of the
/// active sessions are also kept as a list, so acknowledgments can be
/// collected across all of them.
pub struct InLogicFront {
    transfers: HashMap<u16, InLogic>,
    ids: Vec<u16>,
}

impl InLogicFront {
    /// The active sessions, each modeled by its buffer state.
    pub closed spec fn sessions(&self) -> Map<u16, BlobState> {
        Map::new(
            |k: u16| self.transfers@.contains_key(k),
            |k: u16| self.transfers@[k]@,
        )
    }

    pub closed spec fn wf(&self) -> bool {
        &&& forall|k: u16| #[trigger]
            self.transfers@.contains_key(k) ==> self.transfers@[k].wf()
        &&& self.ids@.no_duplicates()
        &&& forall|k: u16| self.transfers@.contains_key(k) <==> #[trigger] self.ids@.contains(k)
    }

    /// Creates a front with no active transfers.
    pub fn new() -> (r: Self)
        ensures
            r.wf(),
            r.sessions() == Map::<u16, BlobState>::empty(),
    {
        let r = Self { transfers: HashMap::new(), ids: Vec::new() };
        proof {
            assert(r.sessions() =~= Map::<u16, BlobState>::empty());
        }
        r
    }

    /// Processes one sender command.
    ///
    /// `StartTransfer` creates and initializes a session when the identifier
    /// is new and leaves an existing session untouched, so a repeated
    /// announcement never resets progress; either way it is acknowledged.
    /// `SetChunk` is routed to the session of its identifier and answered
    /// with that session's current acknowledgment summary; a chunk for an
    /// unknown identifier is rejected without creating a session, and a
    /// duplicate chunk with identical contents counts as success.
    pub fn update(&mut self, command: SenderToReceiverFrontCommands) -> (r: Result<
        ReceiverToSenderFrontCommands,
        FrontError,
    >)
        requires
            old(self).wf(),
            front_cmd_ok(command),
        ensures
            final(self).wf(),
            match command {
                SenderToReceiverFrontCommands::StartTransfer(d) => {
                    &&& r == Ok::<ReceiverToSenderFrontCommands, FrontError>(
                        ReceiverToSenderFrontCommands::AckStart(d.transfer_id),
                    )
                    &&& final(self).sessions() == if old(self).sessions().contains_key(
                        d.transfer_id,
                    ) {
                        old(self).sessions()
                    } else {
                        old(self).sessions().insert(
                            d.transfer_id,
                            fresh_blob_state(d.total_octet_size as nat, d.chunk_size as nat),
                        )
                    }
                },
                SenderToReceiverFrontCommands::SetChunk(f) => {
                    let id = f.transfer_id.0;
                    if !old(self).sessions().contains_key(id) {
                        &&& r == Err::<ReceiverToSenderFrontCommands, FrontError>(
                            FrontError::UnknownTransfer(id),
                        )
                        &&& final(self).sessions() == old(self).sessions()
                    } else {
                        let st0 = old(self).sessions()[id];
                        let (res, st1) = spec_set_chunk(
                            st0,
                            f.data.chunk_index as usize,
                            f.data.payload@,
                        );
                        match res {
                            Ok(()) => {
                                &&& final(self).sessions() == old(self).sessions().insert(
                                    id,
                                    st1,
                                )
                                &&& r matches Ok(
                                    ReceiverToSenderFrontCommands::AckChunk(a),
                                ) && a.transfer_id == f.transfer_id && is_ack_for(a.data, st1)
                            },
                            Err(e) => {
                                &&& final(self).sessions() == old(self).sessions()
                                &&& if e is RedundantSameContents {
                                    r matches Ok(
                                        ReceiverToSenderFrontCommands::AckChunk(a),
                                    ) && a.transfer_id == f.transfer_id && is_ack_for(
                                        a.data,
                                        st0,
                                    )
                                } else {
                                    r == Err::<ReceiverToSenderFrontCommands, FrontError>(
                                        FrontError::Blob(e),
                                    )
                                }
                            },
                        }
                    }
                },
            },
    {
        match command {
            SenderToReceiverFrontCommands::StartTransfer(start_transfer_data) => {
                let id = start_transfer_data.transfer_id;
                if !self.transfers.contains_key(&id) {
                    proof {
                        lemma_chunk_count_facts(
                            start_transfer_data.total_octet_size as nat,
                            start_transfer_data.chunk_size as nat,
                        );
                    }
                    let logic = InLogic::new(
                        start_transfer_data.total_octet_size as usize,
                        start_transfer_data.chunk_size as usize,
                    );
                    self.transfers.insert(id, logic);
                    self.ids.push(id);
                    proof {
                        let ids0 = old(self).ids@;
                        assert(!ids0.contains(id));
                        assert forall|i: int, j: int|
                            0 <= i < self.ids@.len() && 0 <= j < self.ids@.len() && i
                                != j implies self.ids@[i] != self.ids@[j] by {
                            if i < ids0.len() && j < ids0.len() {
                            } else if i == ids0.len() && ids0[j] == id {
                                assert(ids0.contains(id));
                            } else if j == ids0.len() && ids0[i] == id {
                                assert(ids0.contains(id));
                            }
                        }
                        assert forall|k: u16|
                            self.transfers@.contains_key(k) implies self.ids@.contains(k) by {
                            if k == id {
                                assert(self.ids@[ids0.len() as int] == id);
                            } else {
                                assert(ids0.contains(k));
                                let i = choose|i: int| 0 <= i < ids0.len() && ids0[i] == k;
                                assert(self.ids@[i] == k);
                            }
                        }
                        assert forall|k: u16|
                            self.ids@.contains(k) implies self.transfers@.contains_key(k) by {
                            let i = choose|i: int|
                                0 <= i < self.ids@.len() && self.ids@[i] == k;
                            if i < ids0.len() {
                                assert(ids0[i] == k);
                                assert(ids0.contains(k));
                            }
                        }
                        assert(self.sessions() =~= old(self).sessions().insert(
                            id,
                            fresh_blob_state(
                                start_transfer_data.total_octet_size as nat,
                                start_transfer_data.chunk_size as nat,
                            ),
                        ));
                    }
                }
                Ok(ReceiverToSenderFrontCommands::AckStart(id))
            },
            SenderToReceiverFrontCommands::SetChunk(chunk_data) => {
                let id = chunk_data.transfer_id.0;
                match self.transfers.remove(&id) {
                    Some(mut logic) => {
                        let res = logic.update(&chunk_data.data);
                        self.transfers.insert(id, logic);
                        proof {
                            assert(self.transfers@.dom() =~= old(self).transfers@.dom());
                            assert forall|k: u16|
                                self.transfers@.contains_key(k) <==> #[trigger] self.ids@.contains(
                                    k,
                                ) by {
                                assert(old(self).transfers@.contains_key(k)
                                    <==> old(self).ids@.contains(k));
                            }
                            let st0 = old(self).sessions()[id];
                            let st1 = spec_set_chunk(
                                st0,
                                chunk_data.data.chunk_index as usize,
                                chunk_data.data.payload@,
                            ).1;
                            if res is Ok {
                                assert(self.sessions() =~= old(self).sessions().insert(
                                    id,
                                    logic@,
                                ));
                            }
                            if logic@ == st0 {
                                assert(old(self).sessions().insert(id, st0) =~= old(
                                    self,
                                ).sessions());
                            }
                        }
                        match res {
                            Ok(ack) => Ok(
                                ReceiverToSenderFrontCommands::AckChunk(
                                    AckChunkFrontData {
                                        transfer_id: chunk_data.transfer_id,
                                        data: ack,
                                    },
                                ),
                            ),
                            Err(e) => Err(FrontError::Blob(e)),
                        }
                    },
                    None => {
                        proof {
                            assert(self.sessions() =~= old(self).sessions());
                        }
                        Err(FrontError::UnknownTransfer(id))
                    },
                }
            },
        }
    }

    /// One acknowledgment per active session, each carrying that session's
    /// current summary: every command is an ack-chunk for an active
    /// identifier, every active identifier appears, and none appears twice.
    /// The order is unspecified. Used when acknowledgments go out on a
    /// cadence of their own rather than one per arriving chunk.
    pub fn collect_acks(&self) -> (r: Vec<ReceiverToSenderFrontCommands>)
        requires
            self.wf(),
        ensures
            forall|j: int|
                0 <= j < r@.len() ==> match #[trigger] r@[j] {
                    ReceiverToSenderFrontCommands::AckChunk(a) => self.sessions().contains_key(
                        a.transfer_id.0,
                    ) && is_ack_for(a.data, self.sessions()[a.transfer_id.0]),
                    ReceiverToSenderFrontCommands::AckStart(_) => false,
                },
            forall|k: u16| #[trigger]
                self.sessions().contains_key(k) ==> exists|j: int|
                    0 <= j < r@.len() && ack_transfer_id(#[trigger] r@[j]) == k,
            forall|j1: int, j2: int|
                0 <= j1 < j2 < r@.len() ==> ack_transfer_id(r@[j1]) != ack_transfer_id(r@[j2]),
    {
        let mut out: Vec<ReceiverToSenderFrontCommands> = Vec::new();
        let count = self.ids.len();
        let mut j: usize = 0;
        while j < count
            invariant
                self.wf(),
                count == self.ids@.len(),
                j <= count,
                out@.len() == j,
                forall|jj: int|
                    0 <= jj < j ==> match #[trigger] out@[jj] {
                        ReceiverToSenderFrontCommands::AckChunk(a) => {
                            &&& a.transfer_id.0 == self.ids@[jj]
                            &&& self.sessions().contains_key(a.transfer_id.0)
                            &&& is_ack_for(a.data, self.sessions()[a.transfer_id.0])
                        },
                        ReceiverToSenderFrontCommands::AckStart(_) => false,
                    },
            decreases count - j,
        {
            let id = self.ids[j];
            proof {
                assert(self.ids@[j as int] == id);
                assert(self.ids@.contains(id));
            }
            match self.transfers.get(&id) {
                Some(logic) => {
                    let ack = logic.ack();
                    out.push(
                        ReceiverToSenderFrontCommands::AckChunk(
                            AckChunkFrontData { transfer_id: TransferId(id), data: ack },
                        ),
                    );
                },
                None => {
                    proof {
                        assert(false);
                    }
                },
            }
            j += 1;
        }
        proof {
            assert forall|k: u16| #[trigger]
                self.sessions().contains_key(k) implies exists|j2: int|
                0 <= j2 < out@.len() && ack_transfer_id(#[trigger] out@[j2]) == k by {
                assert(self.ids@.contains(k));
                let i = choose|i: int| 0 <= i < self.ids@.len() && self.ids@[i] == k;
                assert(ack_transfer_id(out@[i]) == k);
            }
        }
        out
    }

    /// The complete blob of one transfer, available exactly when a session
    /// for the identifier exists and every chunk of it has arrived.
    pub fn blob(&self, transfer_id: u16) -> (r: Option<&Vec<u8>>)
        requires
            self.wf(),
        ensures
            match r {
                Some(b) => self.sessions().contains_key(transfer_id)
                    && self.sessions()[transfer_id].is_complete()
                    && b@ == self.sessions()[transfer_id].data,
                None => !self.sessions().contains_key(transfer_id)
                    || !self.sessions()[transfer_id].is_complete(),
            },
    {
        match self.transfers.get(&transfer_id) {
            Some(logic) => logic.blob(),
            None => None,
        }
    }
}

} // verus!
