//! Wire encoding of the front-layer commands: the same layout as the
//! single-transfer commands, with each command scoped by a 16-bit transfer
//! identifier.

use vstd::prelude::*;

use flood_rs::prelude::{InOctetStream, OutOctetStream};

verus! {

use crate::octets::{
    be16, be32, in_octets, lemma_u16_be_round, lemma_u32_be_round, out_octets, read_u16,
    read_u32, read_u8, u16_from_be, u32_from_be, write_u16, write_u32, write_u8,
};
use crate::protocol::{
    spec_ack_chunk_bytes, spec_decode_ack_chunk, spec_decode_set_chunk, spec_set_chunk_bytes,
    lemma_ack_chunk_round_trip, lemma_set_chunk_round_trip, set_chunk_data_wf, AckChunkData,
    SetChunkData, SetChunkView, StreamError,
};

/// Tag octet that leads a front-layer `StartTransfer` command.
pub const START_TRANSFER_TAG: u8 = 0x01;

/// Tag octet that leads a front-layer `SetChunk` command.
pub const SET_CHUNK_FRONT_TAG: u8 = 0x02;

/// Tag octet that leads a front-layer `AckStart` command.
pub const ACK_START_TAG: u8 = 0x01;

/// Tag octet that leads a front-layer `AckChunk` command.
pub const ACK_CHUNK_FRONT_TAG: u8 = 0x02;

/// Identifier scoping one blob transfer, chosen by the sender.
#[derive(Debug, Clone, Copy, PartialEq, Eq, Structural)]
pub struct TransferId(pub u16);

/// Announcement of a transfer: its identifier, the blob size and the chunk
/// size.
#[derive(Debug, Clone, Copy, PartialEq, Eq, Structural)]
pub struct StartTransferData {
    pub transfer_id: u16,
    pub total_octet_size: u32,
    pub chunk_size: u16,
}

/// One chunk addressed to a transfer.
#[derive(Debug, Clone, PartialEq, Eq)]
pub struct SetChunkFrontData {
    pub transfer_id: TransferId,
    pub data: SetChunkData,
}

/// Model of [`SetChunkFrontData`].
#[verifier::ext_equal]
pub struct SetChunkFrontView {
    pub transfer_id: u16,
    pub data: SetChunkView,
}

impl View for SetChunkFrontData {
    type V = SetChunkFrontView;

    open spec fn view(&self) -> SetChunkFrontView {
        SetChunkFrontView { transfer_id: self.transfer_id.0, data: self.data@ }
    }
}

/// One acknowledgment addressed to a transfer.
#[derive(Debug, Clone, Copy, PartialEq, Eq, Structural)]
pub struct AckChunkFrontData {
    pub transfer_id: TransferId,
    pub data: AckChunkData,
}

/// Commands a sender issues across transfers.
#[derive(Debug, Clone, PartialEq, Eq)]
pub enum SenderToReceiverFrontCommands {
    StartTransfer(StartTransferData),
    SetChunk(SetChunkFrontData),
}

/// Model of [`SenderToReceiverFrontCommands`].
#[verifier::ext_equal]
pub enum FrontSenderView {
    StartTransfer(StartTransferData),
    SetChunk(SetChunkFrontView),
}

impl View for SenderToReceiverFrontCommands {
    type V = FrontSenderView;

    open spec fn view(&self) -> FrontSenderView {
        match self {
            SenderToReceiverFrontCommands::StartTransfer(d) => FrontSenderView::StartTransfer(*d),
            SenderToReceiverFrontCommands::SetChunk(f) => FrontSenderView::SetChunk(f@),
        }
    }
}

/// Commands a receiver issues across transfers.
#[derive(Debug, Clone, Copy, PartialEq, Eq, Structural)]
pub enum ReceiverToSenderFrontCommands {
    AckStart(u16),
    AckChunk(AckChunkFrontData),
}

pub open spec fn front_sender_cmd_wf(c: FrontSenderView) -> bool {
    match c {
        FrontSenderView::StartTransfer(_) => true,
        FrontSenderView::SetChunk(f) => set_chunk_data_wf(f.data),
    }
}

/// Field encoding of a transfer announcement: identifier, total size, chunk
/// size.
pub open spec fn spec_start_transfer_bytes(d: StartTransferData) -> Seq<u8> {
    be16(d.transfer_id) + be32(d.total_octet_size) + be16(d.chunk_size)
}

/// Decodes a transfer announcement; returns it and the leftover bytes.
pub open spec fn spec_decode_start_transfer(b: Seq<u8>) -> Option<(StartTransferData, Seq<u8>)> {
    if b.len() < 2 {
        None
    } else {
        let id = u16_from_be(b[0], b[1]);
        let b1 = b.skip(2);
        if b1.len() < 4 {
            None
        } else {
            let total = u32_from_be(b1[0], b1[1], b1[2], b1[3]);
            let b2 = b1.skip(4);
            if b2.len() < 2 {
                None
            } else {
                Some(
                    (
                        StartTransferData {
                            transfer_id: id,
                            total_octet_size: total,
                            chunk_size: u16_from_be(b2[0], b2[1]),
                        },
                        b2.skip(2),
                    ),
                )
            }
        }
    }
}

/// Field encoding of an addressed chunk: identifier, then the chunk fields.
pub open spec fn spec_set_chunk_front_bytes(f: SetChunkFrontView) -> Seq<u8> {
    be16(f.transfer_id) + spec_set_chunk_bytes(f.data)
}

/// Decodes an addressed chunk; returns it and the leftover bytes.
pub open spec fn spec_decode_set_chunk_front(b: Seq<u8>) -> Option<(SetChunkFrontView, Seq<u8>)> {
    if b.len() < 2 {
        None
    } else {
        let id = u16_from_be(b[0], b[1]);
        match spec_decode_set_chunk(b.skip(2)) {
            Some((d, rest)) => Some((SetChunkFrontView { transfer_id: id, data: d }, rest)),
            None => None,
        }
    }
}

/// Field encoding of an addressed acknowledgment: identifier, then the
/// acknowledgment fields.
pub open spec fn spec_ack_chunk_front_bytes(a: AckChunkFrontData) -> Seq<u8> {
    be16(a.transfer_id.0) + spec_ack_chunk_bytes(a.data)
}

/// Decodes an addressed acknowledgment; returns it and the leftover bytes.
pub open spec fn spec_decode_ack_chunk_front(b: Seq<u8>) -> Option<(AckChunkFrontData, Seq<u8>)> {
    if b.len() < 2 {
        None
    } else {
        let id = u16_from_be(b[0], b[1]);
        match spec_decode_ack_chunk(b.skip(2)) {
            Some((d, rest)) => Some(
                (AckChunkFrontData { transfer_id: TransferId(id), data: d }, rest),
            ),
            None => None,
        }
    }
}

pub open spec fn spec_front_sender_tag(c: FrontSenderView) -> u8 {
    match c {
        FrontSenderView::StartTransfer(_) => START_TRANSFER_TAG,
        FrontSenderView::SetChunk(_) => SET_CHUNK_FRONT_TAG,
    }
}

/// Full encoding of a front sender command: tag octet, then the fields.
pub open spec fn spec_front_sender_bytes(c: FrontSenderView) -> Seq<u8> {
    match c {
        FrontSenderView::StartTransfer(d) => seq![START_TRANSFER_TAG]
            + spec_start_transfer_bytes(d),
        FrontSenderView::SetChunk(f) => seq![SET_CHUNK_FRONT_TAG] + spec_set_chunk_front_bytes(f),
    }
}

/// Decodes one front sender command; returns it and the leftover bytes.
pub open spec fn spec_decode_front_sender(b: Seq<u8>) -> Option<(FrontSenderView, Seq<u8>)> {
    if b.len() < 1 {
        None
    } else if b[0] == START_TRANSFER_TAG {
        match spec_decode_start_transfer(b.skip(1)) {
            Some((d, rest)) => Some((FrontSenderView::StartTransfer(d), rest)),
            None => None,
        }
    } else if b[0] == SET_CHUNK_FRONT_TAG {
        match spec_decode_set_chunk_front(b.skip(1)) {
            Some((f, rest)) => Some((FrontSenderView::SetChunk(f), rest)),
            None => None,
        }
    } else {
        None
    }
}

/// The error reported when no front sender command can be decoded.
pub open spec fn spec_decode_front_sender_err(b: Seq<u8>) -> StreamError {
    if b.len() >= 1 && b[0] != START_TRANSFER_TAG && b[0] != SET_CHUNK_FRONT_TAG {
        StreamError::UnknownCommand(b[0])
    } else {
        StreamError::Truncated
    }
}

pub open spec fn spec_front_receiver_tag(c: ReceiverToSenderFrontCommands) -> u8 {
    match c {
        ReceiverToSenderFrontCommands::AckStart(_) => ACK_START_TAG,
        ReceiverToSenderFrontCommands::AckChunk(_) => ACK_CHUNK_FRONT_TAG,
    }
}

/// Full encoding of a front receiver command: tag octet, then the fields.
pub open spec fn spec_front_receiver_bytes(c: ReceiverToSenderFrontCommands) -> Seq<u8> {
    match c {
        ReceiverToSenderFrontCommands::AckStart(id) => seq![ACK_START_TAG] + be16(id),
        ReceiverToSenderFrontCommands::AckChunk(a) => seq![ACK_CHUNK_FRONT_TAG]
            + spec_ack_chunk_front_bytes(a),
    }
}

/// Decodes one front receiver command; returns it and the leftover bytes.
pub open spec fn spec_decode_front_receiver(b: Seq<u8>) -> Option<
    (ReceiverToSenderFrontCommands, Seq<u8>),
> {
    if b.len() < 1 {
        None
    } else if b[0] == ACK_START_TAG {
        let b1 = b.skip(1);
        if b1.len() < 2 {
            None
        } else {
            Some(
                (
                    ReceiverToSenderFrontCommands::AckStart(u16_from_be(b1[0], b1[1])),
                    b1.skip(2),
                ),
            )
        }
    } else if b[0] == ACK_CHUNK_FRONT_TAG {
        match spec_decode_ack_chunk_front(b.skip(1)) {
            Some((a, rest)) => Some((ReceiverToSenderFrontCommands::AckChunk(a), rest)),
            None => None,
        }
    } else {
        None
    }
}

/// The error reported when no front receiver command can be decoded.
pub open spec fn spec_decode_front_receiver_err(b: Seq<u8>) -> StreamError {
    if b.len() >= 1 && b[0] != ACK_START_TAG && b[0] != ACK_CHUNK_FRONT_TAG {
        StreamError::UnknownCommand(b[0])
    } else {
        StreamError::Truncated
    }
}

impl StartTransferData {
    /// Writes the announcement fields; writing to the in-memory stream
    /// always succeeds.
    pub fn to_stream(&self, stream: &mut OutOctetStream) -> (r: Result<(), StreamError>)
        ensures
            r is Ok,
            out_octets(*final(stream)) == out_octets(*old(stream)) + spec_start_transfer_bytes(
                *self,
            ),
    {
        write_u16(stream, self.transfer_id);
        write_u32(stream, self.total_octet_size);
        write_u16(stream, self.chunk_size);
        proof {
            assert(out_octets(*stream) =~= out_octets(*old(stream))
                + spec_start_transfer_bytes(*self));
        }
        Ok(())
    }

    /// Reads the announcement fields, consuming exactly the bytes
    /// [`spec_decode_start_transfer`] describes.
    pub fn from_stream(stream: &mut InOctetStream) -> (r: Result<Self, StreamError>)
        ensures
            match spec_decode_start_transfer(in_octets(*old(stream))) {
                Some((v, rest)) => r matches Ok(d) && d == v && in_octets(*final(stream))
                    == rest,
                None => r == Err::<Self, StreamError>(StreamError::Truncated),
            },
    {
        let transfer_id = match read_u16(stream) {
            Ok(v) => v,
            Err(e) => { return Err(e) },
        };
        let total_octet_size = match read_u32(stream) {
            Ok(v) => v,
            Err(e) => { return Err(e) },
        };
        let chunk_size = match read_u16(stream) {
            Ok(v) => v,
            Err(e) => { return Err(e) },
        };
        Ok(Self { transfer_id, total_octet_size, chunk_size })
    }
}

impl SetChunkFrontData {
    /// Writes the addressed chunk fields; writing to the in-memory stream
    /// always succeeds.
    pub fn to_stream(&self, stream: &mut OutOctetStream) -> (r: Result<(), StreamError>)
        requires
            set_chunk_data_wf(self@.data),
        ensures
            r is Ok,
            out_octets(*final(stream)) == out_octets(*old(stream)) + spec_set_chunk_front_bytes(
                self@,
            ),
    {
        write_u16(stream, self.transfer_id.0);
        let r = self.data.to_stream(stream);
        proof {
            assert(out_octets(*stream) =~= out_octets(*old(stream))
                + spec_set_chunk_front_bytes(self@));
        }
        r
    }

    /// Reads the addressed chunk fields, consuming exactly the bytes
    /// [`spec_decode_set_chunk_front`] describes.
    pub fn from_stream(stream: &mut InOctetStream) -> (r: Result<Self, StreamError>)
        ensures
            match spec_decode_set_chunk_front(in_octets(*old(stream))) {
                Some((v, rest)) => r matches Ok(f) && f@ == v && in_octets(*final(stream))
                    == rest,
                None => r == Err::<Self, StreamError>(StreamError::Truncated),
            },
    {
        let transfer_id = match read_u16(stream) {
            Ok(v) => v,
            Err(e) => { return Err(e) },
        };
        let data = match SetChunkData::from_stream(stream) {
            Ok(v) => v,
            Err(e) => { return Err(e) },
        };
        Ok(Self { transfer_id: TransferId(transfer_id), data })
    }
}

impl AckChunkFrontData {
    /// Writes the addressed acknowledgment fields; writing to the in-memory
    /// stream always succeeds.
    pub fn to_stream(&self, stream: &mut OutOctetStream) -> (r: Result<(), StreamError>)
        ensures
            r is Ok,
            out_octets(*final(stream)) == out_octets(*old(stream)) + spec_ack_chunk_front_bytes(
                *self,
            ),
    {
        write_u16(stream, self.transfer_id.0);
        let r = self.data.to_stream(stream);
        proof {
            assert(out_octets(*stream) =~= out_octets(*old(stream))
                + spec_ack_chunk_front_bytes(*self));
        }
        r
    }

    /// Reads the addressed acknowledgment fields, consuming exactly the
    /// bytes [`spec_decode_ack_chunk_front`] describes.
    pub fn from_stream(stream: &mut InOctetStream) -> (r: Result<Self, StreamError>)
        ensures
            match spec_decode_ack_chunk_front(in_octets(*old(stream))) {
                Some((v, rest)) => r matches Ok(a) && a == v && in_octets(*final(stream))
                    == rest,
                None => r == Err::<Self, StreamError>(StreamError::Truncated),
            },
    {
        let transfer_id = match read_u16(stream) {
            Ok(v) => v,
            Err(e) => { return Err(e) },
        };
        let data = match AckChunkData::from_stream(stream) {
            Ok(v) => v,
            Err(e) => { return Err(e) },
        };
        Ok(Self { transfer_id: TransferId(transfer_id), data })
    }
}

impl SenderToReceiverFrontCommands {
    /// The tag octet that leads this command on the wire.
    pub fn to_octet(&self) -> (r: u8)
        ensures
            r == spec_front_sender_tag(self@),
    {
        match self {
            Self::StartTransfer(_) => START_TRANSFER_TAG,
            Self::SetChunk(_) => SET_CHUNK_FRONT_TAG,
        }
    }

    /// Writes the command to the stream; writing to the in-memory stream
    /// always succeeds.
    pub fn to_stream(&self, stream: &mut OutOctetStream) -> (r: Result<(), StreamError>)
        requires
            front_sender_cmd_wf(self@),
        ensures
            r is Ok,
            out_octets(*final(stream)) == out_octets(*old(stream)) + spec_front_sender_bytes(
                self@,
            ),
    {
        write_u8(stream, self.to_octet());
        let r = match self {
            Self::StartTransfer(d) => d.to_stream(stream),
            Self::SetChunk(f) => f.to_stream(stream),
        };
        proof {
            assert(out_octets(*stream) =~= out_octets(*old(stream)) + spec_front_sender_bytes(
                self@,
            ));
        }
        r
    }

    /// Reads one command from the stream, consuming exactly the bytes
    /// [`spec_decode_front_sender`] describes; on failure the error is
    /// [`spec_decode_front_sender_err`].
    pub fn from_stream(stream: &mut InOctetStream) -> (r: Result<Self, StreamError>)
        ensures
            match spec_decode_front_sender(in_octets(*old(stream))) {
                Some((v, rest)) => r matches Ok(c) && c@ == v && in_octets(*final(stream))
                    == rest,
                None => r == Err::<Self, StreamError>(
                    spec_decode_front_sender_err(in_octets(*old(stream))),
                ),
            },
    {
        let command_value = match read_u8(stream) {
            Ok(v) => v,
            Err(e) => { return Err(e) },
        };
        if command_value == START_TRANSFER_TAG {
            match StartTransferData::from_stream(stream) {
                Ok(d) => Ok(Self::StartTransfer(d)),
                Err(e) => Err(e),
            }
        } else if command_value == SET_CHUNK_FRONT_TAG {
            match SetChunkFrontData::from_stream(stream) {
                Ok(f) => Ok(Self::SetChunk(f)),
                Err(e) => Err(e),
            }
        } else {
            Err(StreamError::UnknownCommand(command_value))
        }
    }
}

impl ReceiverToSenderFrontCommands {
    /// The tag octet that leads this command on the wire.
    pub fn to_octet(&self) -> (r: u8)
        ensures
            r == spec_front_receiver_tag(*self),
    {
        match self {
            Self::AckStart(_) => ACK_START_TAG,
            Self::AckChunk(_) => ACK_CHUNK_FRONT_TAG,
        }
    }

    /// Writes the command to the stream; writing to the in-memory stream
    /// always succeeds.
    pub fn to_stream(&self, stream: &mut OutOctetStream) -> (r: Result<(), StreamError>)
        ensures
            r is Ok,
            out_octets(*final(stream)) == out_octets(*old(stream)) + spec_front_receiver_bytes(
                *self,
            ),
    {
        write_u8(stream, self.to_octet());
        let r = match self {
            Self::AckStart(id) => {
                write_u16(stream, *id);
                Ok(())
            },
            Self::AckChunk(a) => a.to_stream(stream),
        };
        proof {
            assert(out_octets(*stream) =~= out_octets(*old(stream))
                + spec_front_receiver_bytes(*self));
        }
        r
    }

    /// Reads one command from the stream, consuming exactly the bytes
    /// [`spec_decode_front_receiver`] describes; on failure the error is
    /// [`spec_decode_front_receiver_err`].
    pub fn from_stream(stream: &mut InOctetStream) -> (r: Result<Self, StreamError>)
        ensures
            match spec_decode_front_receiver(in_octets(*old(stream))) {
                Some((v, rest)) => r matches Ok(c) && c == v && in_octets(*final(stream))
                    == rest,
                None => r == Err::<Self, StreamError>(
                    spec_decode_front_receiver_err(in_octets(*old(stream))),
                ),
            },
    {
        let command_value = match read_u8(stream) {
            Ok(v) => v,
            Err(e) => { return Err(e) },
        };
        if command_value == ACK_START_TAG {
            match read_u16(stream) {
                Ok(id) => Ok(Self::AckStart(id)),
                Err(e) => Err(e),
            }
        } else if command_value == ACK_CHUNK_FRONT_TAG {
            match AckChunkFrontData::from_stream(stream) {
                Ok(a) => Ok(Self::AckChunk(a)),
                Err(e) => Err(e),
            }
        } else {
            Err(StreamError::UnknownCommand(command_value))
        }
    }
}

/// Round trip for a transfer announcement.
pub proof fn lemma_start_transfer_round_trip(d: StartTransferData, rest: Seq<u8>)
    ensures
        spec_decode_start_transfer(spec_start_transfer_bytes(d) + rest) == Some((d, rest)),
{
    let b = spec_start_transfer_bytes(d) + rest;
    lemma_u16_be_round(d.transfer_id);
    lemma_u32_be_round(d.total_octet_size);
    lemma_u16_be_round(d.chunk_size);
    let b1 = b.skip(2);
    assert(b1 =~= be32(d.total_octet_size) + be16(d.chunk_size) + rest);
    let b2 = b1.skip(4);
    assert(b2 =~= be16(d.chunk_size) + rest);
    assert(b2.skip(2) =~= rest);
}

/// Round trip for an addressed chunk.
pub proof fn lemma_set_chunk_front_round_trip(f: SetChunkFrontView, rest: Seq<u8>)
    requires
        set_chunk_data_wf(f.data),
    ensures
        spec_decode_set_chunk_front(spec_set_chunk_front_bytes(f) + rest) == Some((f, rest)),
{
    let b = spec_set_chunk_front_bytes(f) + rest;
    lemma_u16_be_round(f.transfer_id);
    assert(b.skip(2) =~= spec_set_chunk_bytes(f.data) + rest);
    lemma_set_chunk_round_trip(f.data, rest);
    assert(spec_decode_set_chunk_front(b) matches Some((v, r2)) && v =~= f && r2 == rest);
}

/// Round trip for an addressed acknowledgment.
pub proof fn lemma_ack_chunk_front_round_trip(a: AckChunkFrontData, rest: Seq<u8>)
    ensures
        spec_decode_ack_chunk_front(spec_ack_chunk_front_bytes(a) + rest) == Some((a, rest)),
{
    let b = spec_ack_chunk_front_bytes(a) + rest;
    lemma_u16_be_round(a.transfer_id.0);
    assert(b.skip(2) =~= spec_ack_chunk_bytes(a.data) + rest);
    lemma_ack_chunk_round_trip(a.data, rest);
}

/// Round trip for a front sender command: for every command whose payload
/// fits the length field, decoding its encoding gives the command back and
/// leaves exactly the trailing bytes.
pub proof fn lemma_front_sender_round_trip(c: FrontSenderView, rest: Seq<u8>)
    requires
        front_sender_cmd_wf(c),
    ensures
        spec_decode_front_sender(spec_front_sender_bytes(c) + rest) == Some((c, rest)),
{
    let b = spec_front_sender_bytes(c) + rest;
    match c {
        FrontSenderView::StartTransfer(d) => {
            assert(b.skip(1) =~= spec_start_transfer_bytes(d) + rest);
            lemma_start_transfer_round_trip(d, rest);
        },
        FrontSenderView::SetChunk(f) => {
            assert(b.skip(1) =~= spec_set_chunk_front_bytes(f) + rest);
            lemma_set_chunk_front_round_trip(f, rest);
            assert(spec_decode_front_sender(b) matches Some((v, r2)) && v =~= c && r2 == rest);
        },
    }
}

/// Round trip for a front receiver command: decoding its encoding gives the
/// command back and leaves exactly the trailing bytes.
pub proof fn lemma_front_receiver_round_trip(c: ReceiverToSenderFrontCommands, rest: Seq<u8>)
    ensures
        spec_decode_front_receiver(spec_front_receiver_bytes(c) + rest) == Some((c, rest)),
{
    let b = spec_front_receiver_bytes(c) + rest;
    match c {
        ReceiverToSenderFrontCommands::AckStart(id) => {
            lemma_u16_be_round(id);
            assert(b.skip(1) =~= be16(id) + rest);
            assert(b.skip(1).skip(2) =~= rest);
        },
        ReceiverToSenderFrontCommands::AckChunk(a) => {
            assert(b.skip(1) =~= spec_ack_chunk_front_bytes(a) + rest);
            lemma_ack_chunk_front_round_trip(a, rest);
        },
    }
}

} // verus!
