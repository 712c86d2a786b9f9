use blob_stream::protocol::{
    AckChunkData, ReceiverToSenderCommands, SenderToReceiverCommands, SetChunkData, StreamError,
};
use blob_stream::protocol_front::{
    AckChunkFrontData, ReceiverToSenderFrontCommands, SenderToReceiverFrontCommands,
    SetChunkFrontData, StartTransferData, TransferId,
};
use flood_rs::prelude::{InOctetStream, OutOctetStream};

fn encode_sender(command: &SenderToReceiverCommands) -> Vec<u8> {
    let mut out = OutOctetStream::new();
    command.to_stream(&mut out).expect("encoding cannot fail");
    out.octets()
}

fn encode_receiver(command: &ReceiverToSenderCommands) -> Vec<u8> {
    let mut out = OutOctetStream::new();
    command.to_stream(&mut out).expect("encoding cannot fail");
    out.octets()
}

fn encode_front_sender(command: &SenderToReceiverFrontCommands) -> Vec<u8> {
    let mut out = OutOctetStream::new();
    command.to_stream(&mut out).expect("encoding cannot fail");
    out.octets()
}

fn encode_front_receiver(command: &ReceiverToSenderFrontCommands) -> Vec<u8> {
    let mut out = OutOctetStream::new();
    command.to_stream(&mut out).expect("encoding cannot fail");
    out.octets()
}

#[test]
fn set_chunk_round_trip() {
    let command = SenderToReceiverCommands::SetChunk(SetChunkData {
        chunk_index: 0x01020304,
        payload: vec![0xde, 0xad, 0xbe, 0xef],
    });
    let bytes = encode_sender(&command);
    let mut input = InOctetStream::new(&bytes);
    let decoded = SenderToReceiverCommands::from_stream(&mut input).expect("decodes");
    assert_eq!(decoded, command);
}

#[test]
fn set_chunk_exact_layout() {
    let command = SenderToReceiverCommands::SetChunk(SetChunkData {
        chunk_index: 7,
        payload: vec![0xaa, 0xbb],
    });
    assert_eq!(command.to_octet(), 0x01);
    assert_eq!(
        encode_sender(&command),
        vec![0x01, 0, 0, 0, 7, 0, 2, 0xaa, 0xbb],
        "tag, chunk index, payload length, payload, all big-endian"
    );
}

#[test]
fn ack_chunk_round_trip() {
    let command = ReceiverToSenderCommands::AckChunk(AckChunkData {
        waiting_for_chunk_index: 3,
        receive_mask_after_last: 0b1011,
    });
    let bytes = encode_receiver(&command);
    let mut input = InOctetStream::new(&bytes);
    let decoded = ReceiverToSenderCommands::from_stream(&mut input).expect("decodes");
    assert_eq!(decoded, command);
}

#[test]
fn ack_chunk_exact_layout() {
    let command = ReceiverToSenderCommands::AckChunk(AckChunkData {
        waiting_for_chunk_index: 0x0102,
        receive_mask_after_last: 0x0a0b,
    });
    assert_eq!(command.to_octet(), 0x02);
    assert_eq!(
        encode_receiver(&command),
        vec![0x02, 0, 0, 1, 2, 0, 0, 0, 0, 0, 0, 0x0a, 0x0b],
        "tag, waiting index, receive mask, all big-endian"
    );
}

#[test]
fn start_transfer_round_trip() {
    let command = SenderToReceiverFrontCommands::StartTransfer(StartTransferData {
        transfer_id: 0x3211,
        total_octet_size: 0x00aabbcc,
        chunk_size: 0x0400,
    });
    let bytes = encode_front_sender(&command);
    let mut input = InOctetStream::new(&bytes);
    let decoded = SenderToReceiverFrontCommands::from_stream(&mut input).expect("decodes");
    assert_eq!(decoded, command);
}

#[test]
fn set_chunk_front_round_trip() {
    let command = SenderToReceiverFrontCommands::SetChunk(SetChunkFrontData {
        transfer_id: TransferId(9),
        data: SetChunkData {
            chunk_index: 2,
            payload: vec![1, 2, 3],
        },
    });
    let bytes = encode_front_sender(&command);
    let mut input = InOctetStream::new(&bytes);
    let decoded = SenderToReceiverFrontCommands::from_stream(&mut input).expect("decodes");
    assert_eq!(decoded, command);
}

#[test]
fn ack_start_round_trip() {
    let command = ReceiverToSenderFrontCommands::AckStart(0x3211);
    let bytes = encode_front_receiver(&command);
    let mut input = InOctetStream::new(&bytes);
    let decoded = ReceiverToSenderFrontCommands::from_stream(&mut input).expect("decodes");
    assert_eq!(decoded, command);
}

#[test]
fn ack_chunk_front_round_trip() {
    let command = ReceiverToSenderFrontCommands::AckChunk(AckChunkFrontData {
        transfer_id: TransferId(0x0102),
        data: AckChunkData {
            waiting_for_chunk_index: 1,
            receive_mask_after_last: u64::MAX,
        },
    });
    let bytes = encode_front_receiver(&command);
    let mut input = InOctetStream::new(&bytes);
    let decoded = ReceiverToSenderFrontCommands::from_stream(&mut input).expect("decodes");
    assert_eq!(decoded, command);
}

#[test]
fn empty_payload_round_trip() {
    let command = SenderToReceiverCommands::SetChunk(SetChunkData {
        chunk_index: 0,
        payload: vec![],
    });
    let bytes = encode_sender(&command);
    let mut input = InOctetStream::new(&bytes);
    let decoded = SenderToReceiverCommands::from_stream(&mut input).expect("decodes");
    assert_eq!(decoded, command);
}

#[test]
fn unknown_tag_is_rejected_with_the_offending_byte() {
    let mut input = InOctetStream::new(&[0x7f, 0, 0]);
    let err = SenderToReceiverCommands::from_stream(&mut input).expect_err("unknown tag");
    assert_eq!(err, StreamError::UnknownCommand(0x7f));

    let mut input = InOctetStream::new(&[0x7f]);
    let err = ReceiverToSenderCommands::from_stream(&mut input).expect_err("unknown tag");
    assert_eq!(err, StreamError::UnknownCommand(0x7f));

    let mut input = InOctetStream::new(&[0x7f]);
    let err = SenderToReceiverFrontCommands::from_stream(&mut input).expect_err("unknown tag");
    assert_eq!(err, StreamError::UnknownCommand(0x7f));

    let mut input = InOctetStream::new(&[0x7f]);
    let err = ReceiverToSenderFrontCommands::from_stream(&mut input).expect_err("unknown tag");
    assert_eq!(err, StreamError::UnknownCommand(0x7f));
}

#[test]
fn truncated_streams_are_rejected() {
    // An empty stream has no tag at all.
    let mut input = InOctetStream::new(&[]);
    let err = SenderToReceiverCommands::from_stream(&mut input).expect_err("no tag");
    assert_eq!(err, StreamError::Truncated);

    // The declared payload length promises more bytes than the stream holds.
    let mut input = InOctetStream::new(&[0x01, 0, 0, 0, 0, 0, 4, 0xaa]);
    let err = SenderToReceiverCommands::from_stream(&mut input).expect_err("short payload");
    assert_eq!(err, StreamError::Truncated);

    // An acknowledgment cut off in the middle of the mask.
    let mut input = InOctetStream::new(&[0x02, 0, 0, 0, 1, 0, 0]);
    let err = ReceiverToSenderCommands::from_stream(&mut input).expect_err("short mask");
    assert_eq!(err, StreamError::Truncated);
}

#[test]
fn decoding_leaves_trailing_bytes_unread() {
    let command = SenderToReceiverCommands::SetChunk(SetChunkData {
        chunk_index: 1,
        payload: vec![0x42],
    });
    let mut bytes = encode_sender(&command);
    bytes.push(0x99);
    let mut input = InOctetStream::new(&bytes);
    let decoded = SenderToReceiverCommands::from_stream(&mut input).expect("decodes");
    assert_eq!(decoded, command);
    let trailing = flood_rs::ReadOctetStream::read_u8(&mut input).expect("one byte left");
    assert_eq!(trailing, 0x99);
}
