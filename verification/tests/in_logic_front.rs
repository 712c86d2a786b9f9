use blob_stream::in_logic_front::{FrontError, InLogicFront};
use blob_stream::protocol::SetChunkData;
use blob_stream::protocol_front::{
    ReceiverToSenderFrontCommands, SenderToReceiverFrontCommands, SetChunkFrontData,
    StartTransferData, TransferId,
};

#[test]
fn start_transfer() {
    let start_transfer = SenderToReceiverFrontCommands::StartTransfer(StartTransferData {
        transfer_id: 1,
        total_octet_size: 8,
        chunk_size: 2,
    });

    let mut logic = InLogicFront::new();

    let answer = logic
        .update(start_transfer)
        .expect("start transfer should work");

    let expected_answer = ReceiverToSenderFrontCommands::AckStart(1);

    assert_eq!(answer, expected_answer);
}

#[test]
fn drop_previous_transfer() {
    let start_transfer = SenderToReceiverFrontCommands::StartTransfer(StartTransferData {
        transfer_id: 1,
        total_octet_size: 8,
        chunk_size: 2,
    });

    let mut logic = InLogicFront::new();

    {
        let answer = logic
            .update(start_transfer)
            .expect("start transfer should work");

        let expected_answer = ReceiverToSenderFrontCommands::AckStart(1);

        assert_eq!(answer, expected_answer);
    }

    {
        let new_transfer = SenderToReceiverFrontCommands::StartTransfer(StartTransferData {
            transfer_id: 2,
            total_octet_size: 8,
            chunk_size: 2,
        });

        let answer = logic
            .update(new_transfer)
            .expect("it should accept new transfer");

        let expected_answer = ReceiverToSenderFrontCommands::AckStart(2);

        assert_eq!(answer, expected_answer);
    }
}

fn set_chunk_and_check(
    logic: &mut InLogicFront,
    transfer_id: u16,
    chunk_index: u32,
    payload: &[u8],
    waiting: u32,
    receive_mask: u64,
) {
    let set_chunk_data = SetChunkData {
        chunk_index,
        payload: payload.to_vec(),
    };
    let set_chunk_front = SetChunkFrontData {
        transfer_id: TransferId(transfer_id),
        data: set_chunk_data,
    };
    let set_chunk_command = SenderToReceiverFrontCommands::SetChunk(set_chunk_front);

    let ack = logic.update(set_chunk_command).expect("update should work");
    match ack {
        ReceiverToSenderFrontCommands::AckChunk(ack) => {
            assert_eq!(ack.transfer_id.0, transfer_id);
            assert_eq!(ack.data.waiting_for_chunk_index, waiting);
            assert_eq!(ack.data.receive_mask_after_last, receive_mask);
        }
        _ => panic!("unexpected response"),
    }
}

#[test]
fn complete_transfer() {
    const TRANSFER_ID_VALUE: u16 = 0x3211;
    const TRANSFER_ID: TransferId = TransferId(TRANSFER_ID_VALUE);
    let start_transfer = SenderToReceiverFrontCommands::StartTransfer(StartTransferData {
        transfer_id: TRANSFER_ID.0,
        total_octet_size: 9,
        chunk_size: 4,
    });

    let mut logic = InLogicFront::new();

    {
        let answer = logic
            .update(start_transfer)
            .expect("start transfer should work");

        let expected_answer = ReceiverToSenderFrontCommands::AckStart(TRANSFER_ID_VALUE);

        assert_eq!(answer, expected_answer);
    }

    set_chunk_and_check(
        &mut logic,
        TRANSFER_ID_VALUE,
        1,
        &[0xff, 0x11, 0xfe, 0x22],
        0,
        0b1,
    );
    set_chunk_and_check(
        &mut logic,
        TRANSFER_ID_VALUE,
        0,
        &[0xba, 0xbc, 0xbd, 0xbe],
        2,
        0b0,
    );
    set_chunk_and_check(&mut logic, TRANSFER_ID_VALUE, 2, &[0x42], 3, 0b0);

    assert_eq!(
        *logic
            .blob(TRANSFER_ID_VALUE)
            .expect("blob should be ready after receiving three chunks"),
        vec![0xba, 0xbc, 0xbd, 0xbe, 0xff, 0x11, 0xfe, 0x22, 0x42]
    );
}

#[test]
fn unknown_transfer_is_rejected() {
    let mut logic = InLogicFront::new();
    let start = SenderToReceiverFrontCommands::StartTransfer(StartTransferData {
        transfer_id: 1,
        total_octet_size: 8,
        chunk_size: 2,
    });
    assert_eq!(
        logic.update(start).expect("start transfer should work"),
        ReceiverToSenderFrontCommands::AckStart(1)
    );

    let stray = SenderToReceiverFrontCommands::SetChunk(SetChunkFrontData {
        transfer_id: TransferId(7),
        data: SetChunkData {
            chunk_index: 0,
            payload: vec![0, 0],
        },
    });
    let err = logic.update(stray).expect_err("chunk for unknown id must fail");
    assert_eq!(err, FrontError::UnknownTransfer(7));
}

#[test]
fn transfers_are_independent() {
    let mut logic = InLogicFront::new();
    for id in [1u16, 2u16] {
        let start = SenderToReceiverFrontCommands::StartTransfer(StartTransferData {
            transfer_id: id,
            total_octet_size: 4,
            chunk_size: 2,
        });
        logic.update(start).expect("start transfer should work");
    }

    // Progress on transfer 1 must not show up in transfer 2's ack state.
    set_chunk_and_check(&mut logic, 1, 1, &[0xaa, 0xbb], 0, 0b1);
    set_chunk_and_check(&mut logic, 2, 0, &[0xcc, 0xdd], 1, 0b0);
    set_chunk_and_check(&mut logic, 1, 0, &[0x01, 0x02], 2, 0b0);

    assert_eq!(*logic.blob(1).expect("transfer 1 complete"), vec![0x01, 0x02, 0xaa, 0xbb]);
    assert!(logic.blob(2).is_none(), "transfer 2 is still missing a chunk");
}

#[test]
fn repeated_start_keeps_progress() {
    let mut logic = InLogicFront::new();
    let start = SenderToReceiverFrontCommands::StartTransfer(StartTransferData {
        transfer_id: 5,
        total_octet_size: 4,
        chunk_size: 2,
    });
    logic.update(start.clone()).expect("start transfer should work");

    set_chunk_and_check(&mut logic, 5, 0, &[0x10, 0x20], 1, 0b0);
    set_chunk_and_check(&mut logic, 5, 1, &[0x30, 0x40], 2, 0b0);

    // A re-sent announcement with the same id and parameters must not reset
    // the finished transfer.
    assert_eq!(
        logic.update(start).expect("repeated start should work"),
        ReceiverToSenderFrontCommands::AckStart(5)
    );
    assert_eq!(*logic.blob(5).expect("progress kept"), vec![0x10, 0x20, 0x30, 0x40]);
}

#[test]
fn collect_acks_reports_every_transfer() {
    let mut logic = InLogicFront::new();
    for id in [3u16, 9u16] {
        let start = SenderToReceiverFrontCommands::StartTransfer(StartTransferData {
            transfer_id: id,
            total_octet_size: 4,
            chunk_size: 2,
        });
        logic.update(start).expect("start transfer should work");
    }
    set_chunk_and_check(&mut logic, 9, 1, &[0x55, 0x66], 0, 0b1);

    let acks = logic.collect_acks();
    assert_eq!(acks.len(), 2);
    let mut seen_3 = false;
    let mut seen_9 = false;
    for command in acks {
        match command {
            ReceiverToSenderFrontCommands::AckChunk(a) => match a.transfer_id.0 {
                3 => {
                    seen_3 = true;
                    assert_eq!(a.data.waiting_for_chunk_index, 0);
                    assert_eq!(a.data.receive_mask_after_last, 0b0);
                }
                9 => {
                    seen_9 = true;
                    assert_eq!(a.data.waiting_for_chunk_index, 0);
                    assert_eq!(a.data.receive_mask_after_last, 0b1);
                }
                other => panic!("unexpected transfer id {other}"),
            },
            _ => panic!("unexpected response"),
        }
    }
    assert!(seen_3 && seen_9);
}
