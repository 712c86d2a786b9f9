//! Wire encoding of the commands exchanged for one transfer: one tag octet,
//! then fixed-width big-endian fields. Encoding and decoding are exact
//! inverses, stated by the round-trip lemmas below.

use vstd::prelude::*;

use flood_rs::prelude::{InOctetStream, OutOctetStream};

verus! {

use crate::octets::{
    be16, be32, be64, in_octets, lemma_u16_be_round, lemma_u32_be_round, lemma_u64_be_round,
    out_octets, read_octets, read_u16, read_u32, read_u64, read_u8, u16_from_be, u32_from_be,
    u64_from_be, write_octets, write_u16, write_u32, write_u64, write_u8,
};

/// Tag octet that leads a `SetChunk` command.
pub const SET_CHUNK_TAG: u8 = 0x01;

/// Tag octet that leads an `AckChunk` command.
pub const ACK_CHUNK_TAG: u8 = 0x02;

/// Why a command could not be decoded.
#[derive(Debug, Clone, Copy, PartialEq, Eq, Structural)]
pub enum StreamError {
    /// The stream ended before the command did.
    Truncated,
    /// The leading tag octet is not a known command.
    UnknownCommand(u8),
}

/// One chunk on the wire: its index and its bytes.
#[derive(Debug, Clone, PartialEq, Eq)]
pub struct SetChunkData {
    pub chunk_index: u32,
    pub payload: Vec<u8>,
}

/// Model of [`SetChunkData`].
#[verifier::ext_equal]
pub struct SetChunkView {
    pub chunk_index: u32,
    pub payload: Seq<u8>,
}

impl View for SetChunkData {
    type V = SetChunkView;

    open spec fn view(&self) -> SetChunkView {
        SetChunkView { chunk_index: self.chunk_index, payload: self.payload@ }
    }
}

/// The payload length must fit the 16-bit length field.
pub open spec fn set_chunk_data_wf(d: SetChunkView) -> bool {
    d.payload.len() <= u16::MAX
}

/// Field encoding of a chunk: index, payload length, payload.
pub open spec fn spec_set_chunk_bytes(d: SetChunkView) -> Seq<u8> {
    be32(d.chunk_index) + be16(d.payload.len() as u16) + d.payload
}

/// Decodes the fields of a chunk; returns the chunk and the leftover bytes.
pub open spec fn spec_decode_set_chunk(b: Seq<u8>) -> Option<(SetChunkView, Seq<u8>)> {
    if b.len() < 4 {
        None
    } else {
        let idx = u32_from_be(b[0], b[1], b[2], b[3]);
        let b1 = b.skip(4);
        if b1.len() < 2 {
            None
        } else {
            let n = u16_from_be(b1[0], b1[1]) as int;
            let b2 = b1.skip(2);
            if b2.len() < n {
                None
            } else {
                Some((SetChunkView { chunk_index: idx, payload: b2.take(n) }, b2.skip(n)))
            }
        }
    }
}

impl SetChunkData {
    /// Writes the chunk fields to the stream; writing to the in-memory
    /// stream always succeeds.
    pub fn to_stream(&self, stream: &mut OutOctetStream) -> (r: Result<(), StreamError>)
        requires
            set_chunk_data_wf(self@),
        ensures
            r is Ok,
            out_octets(*final(stream)) == out_octets(*old(stream)) + spec_set_chunk_bytes(self@),
    {
        write_u32(stream, self.chunk_index);
        write_u16(stream, self.payload.len() as u16);
        write_octets(stream, self.payload.as_slice());
        proof {
            assert(out_octets(*stream) =~= out_octets(*old(stream)) + spec_set_chunk_bytes(
                self@,
            ));
        }
        Ok(())
    }

    /// Reads the chunk fields from the stream, consuming exactly the bytes
    /// [`spec_decode_set_chunk`] describes.
    pub fn from_stream(stream: &mut InOctetStream) -> (r: Result<Self, StreamError>)
        ensures
            match spec_decode_set_chunk(in_octets(*old(stream))) {
                Some((v, rest)) => r matches Ok(d) && d@ == v && in_octets(*final(stream))
                    == rest,
                None => r == Err::<Self, StreamError>(StreamError::Truncated),
            },
    {
        let chunk_index = match read_u32(stream) {
            Ok(v) => v,
            Err(e) => { return Err(e) },
        };
        let octet_length = match read_u16(stream) {
            Ok(v) => v,
            Err(e) => { return Err(e) },
        };
        let payload = match read_octets(stream, octet_length as usize) {
            Ok(v) => v,
            Err(e) => { return Err(e) },
        };
        Ok(Self { chunk_index, payload })
    }
}

/// Commands a sender issues for one transfer.
#[derive(Debug, Clone, PartialEq, Eq)]
pub enum SenderToReceiverCommands {
    SetChunk(SetChunkData),
}

/// Model of [`SenderToReceiverCommands`].
#[verifier::ext_equal]
pub enum SenderCmdView {
    SetChunk(SetChunkView),
}

impl View for SenderToReceiverCommands {
    type V = SenderCmdView;

    open spec fn view(&self) -> SenderCmdView {
        match self {
            SenderToReceiverCommands::SetChunk(d) => SenderCmdView::SetChunk(d@),
        }
    }
}

pub open spec fn sender_cmd_wf(c: SenderCmdView) -> bool {
    match c {
        SenderCmdView::SetChunk(d) => set_chunk_data_wf(d),
    }
}

pub open spec fn spec_sender_tag(c: SenderCmdView) -> u8 {
    match c {
        SenderCmdView::SetChunk(_) => SET_CHUNK_TAG,
    }
}

/// Full encoding of a sender command: tag octet, then the fields.
pub open spec fn spec_sender_bytes(c: SenderCmdView) -> Seq<u8> {
    match c {
        SenderCmdView::SetChunk(d) => seq![SET_CHUNK_TAG] + spec_set_chunk_bytes(d),
    }
}

/// Decodes one sender command; returns it and the leftover bytes.
pub open spec fn spec_decode_sender(b: Seq<u8>) -> Option<(SenderCmdView, Seq<u8>)> {
    if b.len() < 1 {
        None
    } else if b[0] == SET_CHUNK_TAG {
        match spec_decode_set_chunk(b.skip(1)) {
            Some((d, rest)) => Some((SenderCmdView::SetChunk(d), rest)),
            None => None,
        }
    } else {
        None
    }
}

/// The error reported when no sender command can be decoded: an unknown tag
/// is named, anything else is truncation.
pub open spec fn spec_decode_sender_err(b: Seq<u8>) -> StreamError {
    if b.len() >= 1 && b[0] != SET_CHUNK_TAG {
        StreamError::UnknownCommand(b[0])
    } else {
        StreamError::Truncated
    }
}

impl SenderToReceiverCommands {
    /// The tag octet that leads this command on the wire.
    pub fn to_octet(&self) -> (r: u8)
        ensures
            r == spec_sender_tag(self@),
    {
        match self {
            Self::SetChunk(_) => SET_CHUNK_TAG,
        }
    }

    /// Writes the command to the stream; writing to the in-memory stream
    /// always succeeds.
    pub fn to_stream(&self, stream: &mut OutOctetStream) -> (r: Result<(), StreamError>)
        requires
            sender_cmd_wf(self@),
        ensures
            r is Ok,
            out_octets(*final(stream)) == out_octets(*old(stream)) + spec_sender_bytes(self@),
    {
        write_u8(stream, self.to_octet());
        let r = match self {
            Self::SetChunk(set_chunk_header) => set_chunk_header.to_stream(stream),
        };
        proof {
            assert(out_octets(*stream) =~= out_octets(*old(stream)) + spec_sender_bytes(self@));
        }
        r
    }

    /// Reads one command from the stream, consuming exactly the bytes
    /// [`spec_decode_sender`] describes; on failure the error is
    /// [`spec_decode_sender_err`].
    pub fn from_stream(stream: &mut InOctetStream) -> (r: Result<Self, StreamError>)
        ensures
            match spec_decode_sender(in_octets(*old(stream))) {
                Some((v, rest)) => r matches Ok(c) && c@ == v && in_octets(*final(stream))
                    == rest,
                None => r == Err::<Self, StreamError>(
                    spec_decode_sender_err(in_octets(*old(stream))),
                ),
            },
    {
        let command_value = match read_u8(stream) {
            Ok(v) => v,
            Err(e) => { return Err(e) },
        };
        if command_value != SET_CHUNK_TAG {
            return Err(StreamError::UnknownCommand(command_value));
        }
        match SetChunkData::from_stream(stream) {
            Ok(d) => Ok(Self::SetChunk(d)),
            Err(e) => Err(e),
        }
    }
}

/// One acknowledgment on the wire: the first missing chunk index and the
/// receive mask for the chunks after it.
#[derive(Debug, Clone, Copy, PartialEq, Eq, Structural)]
pub struct AckChunkData {
    pub waiting_for_chunk_index: u32,
    pub receive_mask_after_last: u64,
}

/// Field encoding of an acknowledgment: waiting index, then mask.
pub open spec fn spec_ack_chunk_bytes(d: AckChunkData) -> Seq<u8> {
    be32(d.waiting_for_chunk_index) + be64(d.receive_mask_after_last)
}

/// Decodes the fields of an acknowledgment; returns it and the leftover
/// bytes.
pub open spec fn spec_decode_ack_chunk(b: Seq<u8>) -> Option<(AckChunkData, Seq<u8>)> {
    if b.len() < 4 {
        None
    } else {
        let w = u32_from_be(b[0], b[1], b[2], b[3]);
        let b1 = b.skip(4);
        if b1.len() < 8 {
            None
        } else {
            Some(
                (
                    AckChunkData {
                        waiting_for_chunk_index: w,
                        receive_mask_after_last: u64_from_be(
                            b1[0],
                            b1[1],
                            b1[2],
                            b1[3],
                            b1[4],
                            b1[5],
                            b1[6],
                            b1[7],
                        ),
                    },
                    b1.skip(8),
                ),
            )
        }
    }
}

impl AckChunkData {
    /// Writes the acknowledgment fields to the stream; writing to the
    /// in-memory stream always succeeds.
    pub fn to_stream(&self, stream: &mut OutOctetStream) -> (r: Result<(), StreamError>)
        ensures
            r is Ok,
            out_octets(*final(stream)) == out_octets(*old(stream)) + spec_ack_chunk_bytes(*self),
    {
        write_u32(stream, self.waiting_for_chunk_index);
        write_u64(stream, self.receive_mask_after_last);
        proof {
            assert(out_octets(*stream) =~= out_octets(*old(stream)) + spec_ack_chunk_bytes(
                *self,
            ));
        }
        Ok(())
    }

    /// Reads the acknowledgment fields from the stream, consuming exactly
    /// the bytes [`spec_decode_ack_chunk`] describes.
    pub fn from_stream(stream: &mut InOctetStream) -> (r: Result<Self, StreamError>)
        ensures
            match spec_decode_ack_chunk(in_octets(*old(stream))) {
                Some((v, rest)) => r matches Ok(d) && d == v && in_octets(*final(stream))
                    == rest,
                None => r == Err::<Self, StreamError>(StreamError::Truncated),
            },
    {
        let waiting_for_chunk_index = match read_u32(stream) {
            Ok(v) => v,
            Err(e) => { return Err(e) },
        };
        let receive_mask_after_last = match read_u64(stream) {
            Ok(v) => v,
            Err(e) => { return Err(e) },
        };
        Ok(Self { waiting_for_chunk_index, receive_mask_after_last })
    }
}

/// Commands a receiver issues for one transfer.
#[derive(Debug, Clone, PartialEq, Eq, Structural)]
pub enum ReceiverToSenderCommands {
    AckChunk(AckChunkData),
}

pub open spec fn spec_receiver_tag(c: ReceiverToSenderCommands) -> u8 {
    match c {
        ReceiverToSenderCommands::AckChunk(_) => ACK_CHUNK_TAG,
    }
}

/// Full encoding of a receiver command: tag octet, then the fields.
pub open spec fn spec_receiver_bytes(c: ReceiverToSenderCommands) -> Seq<u8> {
    match c {
        ReceiverToSenderCommands::AckChunk(d) => seq![ACK_CHUNK_TAG] + spec_ack_chunk_bytes(d),
    }
}

/// Decodes one receiver command; returns it and the leftover bytes.
pub open spec fn spec_decode_receiver(b: Seq<u8>) -> Option<(ReceiverToSenderCommands, Seq<u8>)> {
    if b.len() < 1 {
        None
    } else if b[0] == ACK_CHUNK_TAG {
        match spec_decode_ack_chunk(b.skip(1)) {
            Some((d, rest)) => Some((ReceiverToSenderCommands::AckChunk(d), rest)),
            None => None,
        }
    } else {
        None
    }
}

/// The error reported when no receiver command can be decoded: an unknown
/// tag is named, anything else is truncation.
pub open spec fn spec_decode_receiver_err(b: Seq<u8>) -> StreamError {
    if b.len() >= 1 && b[0] != ACK_CHUNK_TAG {
        StreamError::UnknownCommand(b[0])
    } else {
        StreamError::Truncated
    }
}

impl ReceiverToSenderCommands {
    /// The tag octet that leads this command on the wire.
    pub fn to_octet(&self) -> (r: u8)
        ensures
            r == spec_receiver_tag(*self),
    {
        match self {
            Self::AckChunk(_) => ACK_CHUNK_TAG,
        }
    }

    /// Writes the command to the stream; writing to the in-memory stream
    /// always succeeds.
    pub fn to_stream(&self, stream: &mut OutOctetStream) -> (r: Result<(), StreamError>)
        ensures
            r is Ok,
            out_octets(*final(stream)) == out_octets(*old(stream)) + spec_receiver_bytes(*self),
    {
        write_u8(stream, self.to_octet());
        let r = match self {
            Self::AckChunk(ack) => ack.to_stream(stream),
        };
        proof {
            assert(out_octets(*stream) =~= out_octets(*old(stream)) + spec_receiver_bytes(
                *self,
            ));
        }
        r
    }

    /// Reads one command from the stream, consuming exactly the bytes
    /// [`spec_decode_receiver`] describes; on failure the error is
    /// [`spec_decode_receiver_err`].
    pub fn from_stream(stream: &mut InOctetStream) -> (r: Result<Self, StreamError>)
        ensures
            match spec_decode_receiver(in_octets(*old(stream))) {
                Some((v, rest)) => r matches Ok(c) && c == v && in_octets(*final(stream))
                    == rest,
                None => r == Err::<Self, StreamError>(
                    spec_decode_receiver_err(in_octets(*old(stream))),
                ),
            },
    {
        let command_value = match read_u8(stream) {
            Ok(v) => v,
            Err(e) => { return Err(e) },
        };
        if command_value != ACK_CHUNK_TAG {
            return Err(StreamError::UnknownCommand(command_value));
        }
        match AckChunkData::from_stream(stream) {
            Ok(d) => Ok(Self::AckChunk(d)),
            Err(e) => Err(e),
        }
    }
}

/// Round trip for chunk fields: decoding the encoding of a chunk gives the
/// chunk back and leaves exactly the trailing bytes.
pub proof fn lemma_set_chunk_round_trip(d: SetChunkView, rest: Seq<u8>)
    requires
        set_chunk_data_wf(d),
    ensures
        spec_decode_set_chunk(spec_set_chunk_bytes(d) + rest) == Some((d, rest)),
{
    let b = spec_set_chunk_bytes(d) + rest;
    lemma_u32_be_round(d.chunk_index);
    lemma_u16_be_round(d.payload.len() as u16);
    let b1 = b.skip(4);
    assert(b1 =~= be16(d.payload.len() as u16) + d.payload + rest);
    let b2 = b1.skip(2);
    assert(b2 =~= d.payload + rest);
    let n = u16_from_be(b1[0], b1[1]) as int;
    assert(n == d.payload.len());
    assert(b2.take(n) =~= d.payload);
    assert(b2.skip(n) =~= rest);
    assert(spec_decode_set_chunk(b) matches Some((v, r2)) && v =~= d && r2 == rest);
}

/// Round trip for a sender command: for every command whose payload fits the
/// length field, decoding its encoding gives the command back and leaves
/// exactly the trailing bytes.
pub proof fn lemma_sender_round_trip(c: SenderCmdView, rest: Seq<u8>)
    requires
        sender_cmd_wf(c),
    ensures
        spec_decode_sender(spec_sender_bytes(c) + rest) == Some((c, rest)),
{
    let b = spec_sender_bytes(c) + rest;
    match c {
        SenderCmdView::SetChunk(d) => {
            assert(b.skip(1) =~= spec_set_chunk_bytes(d) + rest);
            lemma_set_chunk_round_trip(d, rest);
            assert(spec_decode_sender(b) matches Some((v, r2)) && v =~= c && r2 == rest);
        },
    }
}

/// Round trip for acknowledgment fields: decoding the encoding of an
/// acknowledgment gives it back and leaves exactly the trailing bytes.
pub proof fn lemma_ack_chunk_round_trip(d: AckChunkData, rest: Seq<u8>)
    ensures
        spec_decode_ack_chunk(spec_ack_chunk_bytes(d) + rest) == Some((d, rest)),
{
    let b = spec_ack_chunk_bytes(d) + rest;
    lemma_u32_be_round(d.waiting_for_chunk_index);
    lemma_u64_be_round(d.receive_mask_after_last);
    let b1 = b.skip(4);
    assert(b1 =~= be64(d.receive_mask_after_last) + rest);
    assert(b1.skip(8) =~= rest);
}

/// Round trip for a receiver command: decoding its encoding gives the
/// command back and leaves exactly the trailing bytes.
pub proof fn lemma_receiver_round_trip(c: ReceiverToSenderCommands, rest: Seq<u8>)
    ensures
        spec_decode_receiver(spec_receiver_bytes(c) + rest) == Some((c, rest)),
{
    let b = spec_receiver_bytes(c) + rest;
    match c {
        ReceiverToSenderCommands::AckChunk(d) => {
            assert(b.skip(1) =~= spec_ack_chunk_bytes(d) + rest);
            lemma_ack_chunk_round_trip(d, rest);
        },
    }
}

} // verus!
