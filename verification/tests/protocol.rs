use etherage::can::{
    download_segment_step, upload_segment_step, first_segment_len, SdoSegmentHeader,
    SDO_SEGMENT_MAX_SIZE, SDO_DOWNLOAD_MAX_SIZE,
};
use etherage::mailbox::{MAILBOX_MAX_SIZE, MAILBOX_HEADER_SIZE};
use etherage::rawmaster::{send_decision, SendAction};
use etherage::rawmaster::{
    SlaveAddress, PduCommand, PduAnswer, SendState, StackOutcome, Delivery, TokenPool, TOKENS,
    pdu_target, read_command, write_command, exchange_command, multiple_command, pdu_receive, frame_content,
    MAX_ETHERCAT_FRAME,
};
use etherage::mailbox::{
    MailboxType, MailboxError, MailboxHeader, Direction, write_frame, check_mail_start, write_only_start,
};
use etherage::can::{
    CanError, SdoAbortCode, SdoCommandResponse, upload_request, upload_segment_request, download_request,
    download_segment_request, check_sdo_response, check_sdo_segment, upload_start, segment_take,
};
use etherage::registers::{SyncDirection, sync_manager_interface};
use etherage::data::PduData;
use etherage::EthercatError;

#[test]
fn test_pdu_target() {
    assert_eq!(pdu_target(SlaveAddress::Fixed(0x1001), 0x0130), 0x0130_1001);
    assert_eq!(pdu_target(SlaveAddress::Broadcast, 0x0130), 0x0130_0000);
    // auto-incremented addresses count down from zero
    assert_eq!(pdu_target(SlaveAddress::AutoIncremented(0), 0x0010), 0x0010_0000);
    assert_eq!(pdu_target(SlaveAddress::AutoIncremented(2), 0x0010), 0x0010_fffe);
    // only the logical memory takes the whole address
    assert_eq!(pdu_target(SlaveAddress::Logical, 0x1234_5678), 0x1234_5678);
    // physical memory addresses are truncated to 16 bits
    assert_eq!(pdu_target(SlaveAddress::Fixed(1), 0x1_0002), 0x0002_0001);
}

#[test]
fn test_commands() {
    assert_eq!(read_command(SlaveAddress::Fixed(1)), PduCommand::FPRD);
    assert_eq!(read_command(SlaveAddress::Broadcast), PduCommand::BRD);
    assert_eq!(write_command(SlaveAddress::AutoIncremented(1)), PduCommand::APWR);
    assert_eq!(write_command(SlaveAddress::Logical), PduCommand::LWR);
    assert_eq!(exchange_command(SlaveAddress::Logical), PduCommand::LRW);
    assert_eq!(multiple_command(SlaveAddress::Fixed(3)), PduCommand::FRMW);
    assert_eq!(multiple_command(SlaveAddress::AutoIncremented(3)), PduCommand::ARMW);
    // command codes roundtrip
    assert_eq!(PduCommand::FPRD.code(), 0x04);
    assert_eq!(PduCommand::LRW.code(), 0x0c);
    assert_eq!(PduCommand::from_code(PduCommand::ARMW.code()), PduCommand::ARMW);
}

#[test]
fn test_pdu_answer() {
    let answer = PduAnswer::<u16> { answers: 1, data: [0x34, 0x12] };
    assert_eq!(answer.value().unwrap(), 0x1234);
    assert_eq!(answer.exact(1).unwrap(), 0x1234);
    assert_eq!(answer.any().unwrap(), 0x1234);
    assert!(matches!(answer.exact(2), Err(EthercatError::Protocol("to few slaves answered"))));
    assert_eq!(answer.one().unwrap(), 0x1234);
    let none = PduAnswer::<u16> { answers: 0, data: [0, 0] };
    assert!(matches!(none.exact(1), Err(EthercatError::Protocol("no slave answered"))));
    assert!(matches!(none.any(), Err(EthercatError::Protocol(_))));
    let many = PduAnswer::<u16> { answers: 3, data: [0, 0] };
    assert!(matches!(many.one(), Err(EthercatError::Protocol("to much slaves answered"))));
}

#[test]
fn test_stack_and_receive() {
    let mut state = SendState::new();
    assert_eq!(state.stack(MAX_ETHERCAT_FRAME, PduCommand::FPRD, 3, pdu_target(SlaveAddress::Fixed(0x1001), 0x0130), &[0, 0]), StackOutcome::Stacked);
    assert_eq!(state.last_end, 16);
    assert_eq!(&state.send[2 .. 16], &[0x04, 3, 0x01, 0x10, 0x30, 0x01, 2, 0x00, 0, 0, 0, 0, 0, 0]);
    assert_eq!(state.stack(MAX_ETHERCAT_FRAME, PduCommand::BWR, 5, pdu_target(SlaveAddress::Broadcast, 0x0120), &[0x08]), StackOutcome::Stacked);
    // the first PDU is now followed by an other
    assert_eq!(state.send[9], 0x80);
    assert_eq!(state.last_start, 16);
    assert_eq!(state.last_end, 29);
    assert!(state.flush());
    // nothing can be stacked in a frame waiting for sending
    assert_eq!(state.stack(MAX_ETHERCAT_FRAME, PduCommand::BRD, 6, 0, &[0]), StackOutcome::Busy);
    let size = state.finish();
    assert_eq!(size, 29);
    // the ethercat header announces the 27 bytes of PDUs, of type PDU
    assert_eq!(&state.send[0 .. 2], &[27, 0x10]);

    // the frame comes back with working counters set
    let mut frame = state.send[.. size].to_vec();
    frame[14] = 1;
    frame[27] = 2;
    let (header, len) = frame_content(&frame).unwrap();
    assert_eq!(len, 27);
    assert_eq!(header.ty, 1);
    let mut pending = vec![false; TOKENS];
    pending[3] = true;
    pending[5] = true;
    let (deliveries, status) = pdu_receive(&pending, &frame[2 .. 2 + len]);
    assert!(status.is_ok());
    assert_eq!(deliveries, vec![
        Delivery { token: 3, start: 10, len: 2, ready: 2 },
        Delivery { token: 5, start: 24, len: 1, ready: 3 },
    ]);
    // an answer for a token nobody waits for is not delivered; its data is not skipped, so the header
    // of the next PDU is looked for right after its header
    pending[3] = false;
    let (deliveries, status) = pdu_receive(&pending, &frame[2 .. 2 + len]);
    assert!(status.is_ok());
    assert_eq!(deliveries, vec![]);

    state.sent();
    assert!(!state.ready);
    assert_eq!(state.last_end, 0);
}

#[test]
fn test_stack_full() {
    let mut state = SendState::new();
    // a frame limited to 20 bytes does not take 10 bytes of data
    assert_eq!(state.stack(20, PduCommand::LRW, 1, 0, &[0; 10]), StackOutcome::Full);
    assert!(state.ready);
    assert!(!state.flush());
}

#[test]
fn test_receive_errors() {
    let pending = vec![true; TOKENS];
    let (deliveries, status) = pdu_receive(&pending, &[0x04, 1, 0, 0]);
    assert!(deliveries.is_empty());
    assert!(matches!(status, Err(EthercatError::Protocol("unable to unpack PDU header, skiping all remaning PDUs in frame"))));
    // a header announcing more data than the frame holds
    let (_, status) = pdu_receive(&pending, &[0x04, 1, 0, 0, 0, 0, 8, 0, 0, 0, 1, 2]);
    assert!(matches!(status, Err(EthercatError::Protocol("PDU size mismatch"))));
    // a token out of the pool
    let (_, status) = pdu_receive(&pending, &[0x04, 200, 0, 0, 0, 0, 0, 0, 0, 0, 0, 0]);
    assert!(matches!(status, Err(EthercatError::Protocol("received inconsistent PDU token"))));
    assert!(matches!(frame_content(&[0x20]), Err(EthercatError::Protocol(_))));
    assert!(matches!(frame_content(&[0x20, 0x10, 0]), Err(EthercatError::Protocol("received frame header has inconsistent length"))));
}

#[test]
fn test_token_pool() {
    let mut pool = TokenPool::new();
    let mut taken = Vec::new();
    while let Some(token) = pool.reserve() {
        assert!(token < TOKENS);
        assert!(!taken.contains(&token));
        taken.push(token);
    }
    assert_eq!(taken.len(), TOKENS);
    pool.release(taken[4]);
    assert_eq!(pool.reserve(), Some(taken[4]));
    assert_eq!(pool.reserve(), None);
}

#[test]
fn test_mailbox_frame() {
    let frame = write_frame(MailboxType::Can, 1, 2, &[1, 2, 3], 16).unwrap();
    assert_eq!(frame, vec![3, 0, 0, 0, 0x40, 0x23, 1, 2, 3, 0, 0, 0, 0, 0, 0, 0]);
    assert!(matches!(write_frame(MailboxType::Can, 0, 1, &[0; 11], 16), Err(EthercatError::Master("data too big for mailbox buffer"))));
    assert!(write_only_start(128, 10));
    assert!(!write_only_start(40, 10));
}

#[test]
fn test_mailbox_header() {
    let header = MailboxHeader { length: 10, address: 0, channel: 0, priority: 3, ty: MailboxType::Can.code(), count: 7, reserved: false };
    let mut buf = [0u8; 6];
    header.pack(&mut buf).unwrap();
    assert_eq!(buf, [10, 0, 0, 0, 0xc0, 0x73]);
    assert_eq!(MailboxHeader::unpack(&buf).unwrap(), header);
}

#[test]
fn test_mail_start() {
    let start = check_mail_start(MailboxType::Can, &[10, 0, 0, 0, 0, 0x13], 64, 128).unwrap();
    assert_eq!(start.size, 10);
    assert!(!start.more);
    assert!(start.acknowledge);
    let start = check_mail_start(MailboxType::Can, &[30, 0, 0, 0, 0, 0x13], 64, 30).unwrap();
    assert!(start.more);
    assert!(!start.acknowledge);
    // an exception frame reports the slave's mailbox error
    assert!(matches!(
        check_mail_start(MailboxType::Can, &[4, 0, 0, 0, 0, 0x10, 1, 0, 2, 0], 64, 128),
        Err(EthercatError::Slave(MailboxError::UnsupportedProtocol))));
    assert!(matches!(check_mail_start(MailboxType::Can, &[4, 0, 0, 0, 0, 0x10, 1, 0], 64, 128), Err(EthercatError::Protocol(_))));
    assert!(matches!(check_mail_start(MailboxType::Can, &[4, 0, 0, 0, 0, 0x14], 64, 128),
        Err(EthercatError::Protocol("received unexpected mailbox frame type"))));
    assert!(matches!(check_mail_start(MailboxType::Can, &[100, 0, 0, 0, 0, 0x13], 64, 128),
        Err(EthercatError::Master("read buffer is too small for the mailbox data"))));
    assert!(matches!(check_mail_start(MailboxType::Can, &[1, 0, 0], 64, 128),
        Err(EthercatError::Protocol("unable to unpack mailbox header"))));
}

#[test]
fn test_mailbox_direction() {
    let mut direction = Direction::new(sync_manager_interface().mailbox_write(), 0x1800, 0x1900);
    assert_eq!(direction.max, 0x100);
    let counts: Vec<u8> = (0 .. 9).map(|_| direction.next()).collect();
    // the counter rolls from 1 to 7
    assert_eq!(counts, vec![1, 2, 3, 4, 5, 6, 7, 1, 2]);
    let config = direction.sync_config(SyncDirection::Write);
    let mut buf = [0u8; 8];
    config.pack(&mut buf).unwrap();
    // mailbox mode, written by the master, with dls user event, enabled
    assert_eq!(buf, [0x00, 0x18, 0x00, 0x01, 0x26, 0x00, 0x01, 0x00]);
}

#[test]
fn test_sdo_requests() {
    assert_eq!(upload_request(0x1234, false, 5), vec![0x00, 0x20, 0x40, 0x34, 0x12, 0x05, 0, 0, 0, 0]);
    // complete access
    assert_eq!(upload_request(0x1c12, true, 0)[2], 0x50);
    assert_eq!(upload_segment_request(true), vec![0x00, 0x20, 0x70, 0, 0, 0, 0, 0, 0, 0]);
    // expedited download of 2 bytes
    assert_eq!(download_request(0x6040, false, 0, &[0x0f, 0x00]), vec![0x00, 0x20, 0x2b, 0x40, 0x60, 0x00, 0x0f, 0x00, 0x00, 0x00]);
    // download of 6 bytes: size then data
    assert_eq!(download_request(0x2000, false, 1, &[1, 2, 3, 4, 5, 6]),
        vec![0x00, 0x20, 0x21, 0x00, 0x20, 0x01, 6, 0, 0, 0, 1, 2, 3, 4, 5, 6]);
    let segment = download_segment_request(true, &[1, 2, 3]);
    assert_eq!(&segment[.. 3], &[0x00, 0x20, 0x11]);
    assert_eq!(&segment[3 .. 6], &[1, 2, 3]);
}

#[test]
fn test_sdo_response() {
    // upload response, expedited, 2 bytes
    let frame = [0x00, 0x30, 0x4b, 0x41, 0x60, 0x00, 0x37, 0x02, 0, 0];
    let header = check_sdo_response(&frame, SdoCommandResponse::Upload, 0x6041, 0).unwrap();
    assert!(header.expedited);
    assert!(header.sized);
    let start = upload_start(header, &frame[6 ..], 8).unwrap();
    assert_eq!((start.total, start.start, start.received), (2, 0, 2));
    assert!(matches!(upload_start(header, &frame[6 ..], 1), Err(EthercatError::Master("data buffer is too small for requested SDO"))));

    assert!(matches!(check_sdo_response(&frame, SdoCommandResponse::Upload, 0x6040, 0),
        Err(EthercatError::Protocol("slave answered about wrong item"))));
    assert!(matches!(check_sdo_response(&frame, SdoCommandResponse::Upload, 0x6041, 1),
        Err(EthercatError::Protocol("slave answered about wrong subitem"))));
    assert!(matches!(check_sdo_response(&frame, SdoCommandResponse::Download, 0x6041, 0),
        Err(EthercatError::Protocol("slave answered with wrong operation"))));
    assert!(matches!(check_sdo_response(&frame[.. 1], SdoCommandResponse::Upload, 0x6041, 0),
        Err(EthercatError::Protocol("unable to unpack COE frame header"))));
    // abort from the slave
    let abort = [0x00, 0x20, 0x80, 0x41, 0x60, 0x00, 0x00, 0x00, 0x02, 0x06];
    assert!(matches!(check_sdo_response(&abort, SdoCommandResponse::Upload, 0x6041, 0),
        Err(EthercatError::Slave(CanError::Sdo(SdoAbortCode::InvalidIndex)))));
}

#[test]
fn test_sdo_segments() {
    // normal upload answer announcing 10 bytes, holding 3
    let rest = [10, 0, 0, 0, 1, 2, 3];
    let frame = [0x00, 0x30, 0x41, 0x00, 0x20, 0x00];
    let header = check_sdo_response(&frame, SdoCommandResponse::Upload, 0x2000, 0).unwrap();
    let start = upload_start(header, &rest, 16).unwrap();
    assert_eq!((start.total, start.start, start.received), (10, 4, 3));
    assert!(matches!(upload_start(header, &rest, 8), Err(EthercatError::Master("read buffer is too small for requested SDO"))));
    assert!(matches!(upload_start(header, &[2, 0, 0, 0, 1, 2, 3], 16), Err(EthercatError::Protocol("received more data than declared from SDO"))));
    // a segment with the toggle bit set
    let segment = [0x00, 0x30, 0x10, 4, 5, 6, 7, 8, 9, 10];
    let header = check_sdo_segment(&segment, SdoCommandResponse::UploadSegment, true).unwrap();
    assert!(header.toggle);
    assert!(matches!(check_sdo_segment(&segment, SdoCommandResponse::UploadSegment, false),
        Err(EthercatError::Protocol("bad toggle bit in segment received"))));
    assert_eq!(segment_take(7, 7), 7);
    assert_eq!(segment_take(3, 7), 3);
}

#[test]
fn test_abort_codes() {
    assert_eq!(SdoAbortCode::InvalidIndex.code(), 0x0602_0000);
    assert!(SdoAbortCode::InvalidIndex.object_related());
    assert!(!SdoAbortCode::BadToggle.object_related());
    assert!(SdoAbortCode::BadToggle.protocol_related());
    assert_eq!(SdoAbortCode::from_code(0x0503_0000), Some(SdoAbortCode::BadToggle));
    assert_eq!(SdoAbortCode::from_code(0x1234_5678), None);
    assert!(matches!(CanError::from(MailboxError::Syntax), CanError::Mailbox(MailboxError::Syntax)));
}

#[test]
fn test_send_decision() {
    assert_eq!(send_decision(false, true, true), SendAction::Wait);
    // a frame with PDUs waits for more of them, until flushed or until the merge delay elapses
    assert_eq!(send_decision(true, false, false), SendAction::Merge);
    assert_eq!(send_decision(true, true, false), SendAction::Send);
    assert_eq!(send_decision(true, false, true), SendAction::Send);
}

#[test]
fn big_sdo_requests_fit_the_mailbox() {
    // the first request of a big download carries as much data as fits a mailbox, and no more
    let data = vec![0xa5u8; 1100];
    let request = download_request(0x2000, false, 1, &data);
    assert_eq!(request.len(), MAILBOX_MAX_SIZE - MAILBOX_HEADER_SIZE);
    assert_eq!(&request[6 .. 10], &1100u32.to_le_bytes());
    assert_eq!(request.len() - 10, SDO_DOWNLOAD_MAX_SIZE);
    assert_eq!(SDO_DOWNLOAD_MAX_SIZE, 1008);
    let segment = download_segment_request(true, &data[.. SDO_SEGMENT_MAX_SIZE]);
    assert_eq!(segment.len(), MAILBOX_MAX_SIZE - MAILBOX_HEADER_SIZE);
}

#[test]
fn test_sdo_segment_steps() {
    // a download of a first request and 3 segments: the segments follow each other with alternating toggles
    let len = SDO_DOWNLOAD_MAX_SIZE + 2 * SDO_SEGMENT_MAX_SIZE + 5;
    let mut sent = first_segment_len(len);
    assert_eq!(sent, SDO_DOWNLOAD_MAX_SIZE);
    let mut toggle = false;
    let mut segments = Vec::new();
    while let Some((start, end, t)) = download_segment_step(len, sent, toggle) {
        assert_eq!(start, sent);
        segments.push((start, end, t));
        sent = end;
        toggle = !t;
    }
    let first = SDO_DOWNLOAD_MAX_SIZE;
    assert_eq!(segments, vec![
        (first, first + SDO_SEGMENT_MAX_SIZE, false),
        (first + SDO_SEGMENT_MAX_SIZE, first + 2 * SDO_SEGMENT_MAX_SIZE, true),
        (first + 2 * SDO_SEGMENT_MAX_SIZE, len, false),
    ]);
    assert_eq!(download_segment_step(4, 4, false), None);
    // an upload segment gives what is still expected, and ends the upload when nothing more is announced
    let more = SdoSegmentHeader { more: true, size: 0, toggle: false, command: 0 };
    let last = SdoSegmentHeader { more: false, size: 0, toggle: true, command: 0 };
    assert_eq!(upload_segment_step(100, 10, false, more, 50), (50, true, false));
    assert_eq!(upload_segment_step(100, 60, true, more, 50), (40, false, true));
    assert_eq!(upload_segment_step(100, 60, true, last, 7), (7, false, true));
}
