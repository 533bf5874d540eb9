use firmware_common::console::programs::{
    BenchmarkFlash, ChunkedTransfer, ConsoleProgram, DeviceModel, Hello, ReadNyoom, WhoAmI,
    WriteFile,
};
use firmware_common::console::rpc::{
    frame_intact, is_reset_reply, rpc_checksum, seal_frame, RpcClientError,
};
use firmware_common::console::server::{
    list_step, listed_file_step, open_file_status, open_step, OpenStep, read_file_result, DeviceType, ListReply,
    ListRequest, ListState, ListStep, OpenFileStatus, OpenOutcome, ReadOutcome,
};

#[test]
fn program_ids() {
    assert_eq!(ReadNyoom::new().id(), 1);
    assert_eq!(WriteFile::new().id(), 0);
    assert_eq!(WhoAmI::new().id(), 0);
    let bench = BenchmarkFlash::new();
    assert_eq!(bench.id(), 2);
    assert_eq!(bench.rounds() * bench.chunk_len(), 640_000);
    let hello: Hello<u8> = Hello::new();
    assert_eq!(hello.name(), "hello");
    assert_eq!(hello.greeting(), b"Hello, world!\r\n");
}

#[test]
fn chunked_transfer_covers_the_total() {
    let mut t = ChunkedTransfer::new(150, 64);
    assert_eq!(t.next_chunk(), Some(64));
    assert_eq!(t.next_chunk(), Some(64));
    assert_eq!(t.next_chunk(), Some(22));
    assert_eq!(t.next_chunk(), None);
    assert_eq!(t.next_chunk(), None);

    let mut t = ChunkedTransfer::new(128, 64);
    assert_eq!(t.next_chunk(), Some(64));
    assert_eq!(t.next_chunk(), Some(64));
    assert_eq!(t.next_chunk(), None);

    let mut t = ChunkedTransfer::new(0, 64);
    assert_eq!(t.next_chunk(), None);
}

#[test]
fn request_parsing() {
    assert_eq!(
        ReadNyoom::file_id(&[0, 0, 0, 0, 0, 0, 0x12, 0x34]),
        0x1234
    );
    assert_eq!(
        WriteFile::parse_request(&[0x00, 0x05, 0x00, 0x01, 0x00, 0x00]),
        (5, 65536)
    );
    assert_eq!(ReadNyoom::new().end_marker(), [0u8; 4]);
    assert_eq!(ReadNyoom::new().chunk_capacity(), 64);
    assert_eq!(WriteFile::new().chunk_capacity(), 64);
}

#[test]
fn who_am_i_answer() {
    let r = WhoAmI::new().response();
    assert_eq!(&r.name[..5], b"VLF4\0");
    assert!(r.name[5..].iter().all(|b| *b == 0));
    assert_eq!(r.model, DeviceModel::VLF4);
    assert_eq!(r.serial_number, [0u8; 12]);
}

#[test]
fn crc8_smbus_check_value() {
    assert_eq!(rpc_checksum(b"123456789"), 0xF4);
    assert_eq!(rpc_checksum(&[]), 0x00);
    assert_eq!(rpc_checksum(&[0x01]), 0x07);
}

#[test]
fn sealed_frames_pass_the_check() {
    let mut frame = vec![2u8, 10, 20, 30];
    seal_frame(&mut frame);
    assert_eq!(frame.len(), 5);
    assert!(frame_intact(&frame));
    frame[4] ^= 1;
    assert!(!frame_intact(&frame));
    assert!(!frame_intact(&[]));
    assert!(frame_intact(&[0]));
}

#[test]
fn reset_reply() {
    assert!(is_reset_reply([255, 0x69]));
    assert!(!is_reset_reply([255, 0x68]));
    assert!(!is_reset_reply([254, 0x69]));
}

#[test]
fn rpc_client_error_from_read_exact() {
    assert!(matches!(
        RpcClientError::<u8>::from_read_exact(Some(7)),
        RpcClientError::Serial(7)
    ));
    assert!(matches!(
        RpcClientError::<u8>::from_read_exact(None),
        RpcClientError::UnexpectedEof
    ));
    assert!(matches!(RpcClientError::<u8>::Timeout, RpcClientError::Timeout));
}

#[test]
fn read_file_answers() {
    let mut data = [0u8; 128];
    data[0] = 42;
    let r = read_file_result(ReadOutcome::NoFile, data);
    assert_eq!((r.length, r.corrupted, r.data[0]), (0, false, 0));
    let r = read_file_result(ReadOutcome::Failed, data);
    assert_eq!((r.length, r.corrupted, r.data[0]), (0, true, 42));
    let r = read_file_result(
        ReadOutcome::Read {
            len: 128,
            corrupted: false,
        },
        data,
    );
    assert_eq!((r.length, r.corrupted, r.data[0]), (128, false, 42));
    let r = read_file_result(
        ReadOutcome::Read {
            len: 3,
            corrupted: true,
        },
        data,
    );
    assert_eq!((r.length, r.corrupted), (3, true));
}

#[test]
fn listing_files_of_a_type() {
    assert_eq!(listed_file_step(4, Some((11, 4))), ListStep::Found(11));
    assert_eq!(listed_file_step(4, Some((12, 5))), ListStep::Skip);
    assert_eq!(listed_file_step(4, None), ListStep::End);
    assert_ne!(DeviceType::VoidLake, DeviceType::OZYS);
    assert_ne!(OpenFileStatus::Sucess, OpenFileStatus::Error);
}

#[test]
fn open_outcomes_map_to_statuses() {
    assert_eq!(open_file_status(OpenOutcome::Opened), OpenFileStatus::Sucess);
    assert_eq!(
        open_file_status(OpenOutcome::DoesNotExist),
        OpenFileStatus::DoesNotExist
    );
    assert_eq!(open_file_status(OpenOutcome::Failed), OpenFileStatus::Error);
}

#[test]
fn listing_session() {
    // a request for the next file before any listing answers no file
    assert_eq!(
        list_step(ListState::Idle, ListRequest::Get),
        (ListState::Idle, ListReply::NoFile)
    );
    let (state, reply) = list_step(ListState::Idle, ListRequest::Start(4));
    assert_eq!(state, ListState::Listing { file_type: 4 });
    assert_eq!(reply, ListReply::Started);
    assert_eq!(list_step(state, ListRequest::Get), (state, ListReply::ScanFor(4)));
    // a new start switches the type
    assert_eq!(
        list_step(state, ListRequest::Start(7)),
        (ListState::Listing { file_type: 7 }, ListReply::Started)
    );
}

#[test]
fn opening_replaces_the_open_file() {
    assert_eq!(
        open_step(true, OpenOutcome::Opened),
        OpenStep {
            status: OpenFileStatus::Sucess,
            make_current: true,
            close_previous: true,
        }
    );
    assert_eq!(
        open_step(false, OpenOutcome::Opened),
        OpenStep {
            status: OpenFileStatus::Sucess,
            make_current: true,
            close_previous: false,
        }
    );
    assert_eq!(
        open_step(true, OpenOutcome::DoesNotExist),
        OpenStep {
            status: OpenFileStatus::DoesNotExist,
            make_current: false,
            close_previous: false,
        }
    );
    assert_eq!(
        open_step(true, OpenOutcome::Failed),
        OpenStep {
            status: OpenFileStatus::Error,
            make_current: false,
            close_previous: false,
        }
    );
}
