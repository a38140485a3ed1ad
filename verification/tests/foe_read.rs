//! FoE read transfers.

use ethercrab::error::FoeError;
use ethercrab::foe::read::{FoeRead, Progress};
use ethercrab::foe::{FoeHeader, FoeOpcode, FOE_HEADER_LEN, MAX_BUSY_REPLIES};
use ethercrab::wire::WireWrite;

/// One mailbox holds 506 payload bytes, so 500 file bytes per `Data`.
const PAYLOAD: usize = 506;
const PER_PACKET: usize = PAYLOAD - FOE_HEADER_LEN;

fn reply(opcode: FoeOpcode, argument: u32, tail: &[u8]) -> Vec<u8> {
    let mut header = [0u8; FOE_HEADER_LEN];
    FoeHeader { opcode, argument }
        .pack_to_slice(&mut header)
        .unwrap();

    let mut frame = Vec::new();
    frame.extend_from_slice(&header);
    frame.extend_from_slice(tail);
    frame
}

fn data(packet: u32, len: usize) -> Vec<u8> {
    let tail = [0xAB; PER_PACKET];
    reply(FoeOpcode::Data, packet, &tail[..len])
}

fn transfer() -> FoeRead<'static> {
    FoeRead::new(".hardware_description", 0, PAYLOAD).unwrap()
}

#[test]
fn read_the_first_request_names_the_file() {
    let read = transfer();
    assert_eq!(read.frame().header.opcode, FoeOpcode::ReadRequest);
    assert_eq!(read.frame().body, b".hardware_description");
}

#[test]
fn a_full_packet_is_not_the_last_one() {
    let mut read = transfer();
    assert_eq!(
        read.advance(&data(1, PER_PACKET)).unwrap(),
        Progress::Chunk(&[0xAB; PER_PACKET][..])
    );
}

#[test]
fn a_short_packet_ends_the_transfer() {
    let mut read = transfer();
    assert_eq!(
        read.advance(&data(1, 10)).unwrap(),
        Progress::Last(&[0xAB; 10][..])
    );
}

/// A file that is an exact multiple of the packet size ends with an empty `Data`, not with the
/// last full one - the case that decides whether the transfer hangs waiting for a packet that
/// never comes.
#[test]
fn read_an_exact_multiple_ends_on_an_empty_packet() {
    let mut read = transfer();
    assert!(matches!(
        read.advance(&data(1, PER_PACKET)).unwrap(),
        Progress::Chunk(_)
    ));
    assert_eq!(read.advance(&data(2, 0)).unwrap(), Progress::Last(&[][..]));
}

#[test]
fn each_packet_is_acknowledged_by_number() {
    let mut read = transfer();
    let _ = read.advance(&data(1, PER_PACKET)).unwrap();

    assert_eq!(read.frame().header.opcode, FoeOpcode::Ack);
    assert_eq!(read.frame().header.argument, 1);
}

#[test]
fn a_skipped_packet_is_refused_rather_than_stitched_over() {
    let mut read = transfer();
    let _ = read.advance(&data(1, PER_PACKET)).unwrap();

    assert_eq!(
        read.advance(&data(3, 10)),
        Err(FoeError::PacketOutOfOrder {
            expected: 2,
            got: 3
        })
    );
}

#[test]
fn busy_asks_the_caller_to_try_again() {
    let mut read = transfer();
    assert_eq!(
        read.advance(&reply(FoeOpcode::Busy, 0, &[])).unwrap(),
        Progress::Busy
    );
    // The frame to resend is still the read request.
    assert_eq!(read.frame().header.opcode, FoeOpcode::ReadRequest);
}

#[test]
fn read_endless_busy_gives_up() {
    let mut read = transfer();
    for _ in 0..MAX_BUSY_REPLIES {
        assert_eq!(
            read.advance(&reply(FoeOpcode::Busy, 0, &[])).unwrap(),
            Progress::Busy
        );
    }
    assert!(matches!(
        read.advance(&reply(FoeOpcode::Busy, 0, &[])),
        Err(FoeError::BusyTimeout { .. })
    ));
}

/// Busy is transient: a `Data` after one clears the count, so a long transfer that pauses
/// repeatedly is not killed by the total.
#[test]
fn busy_resets_once_data_arrives() {
    let mut read = transfer();
    for _ in 0..MAX_BUSY_REPLIES {
        let _ = read.advance(&reply(FoeOpcode::Busy, 0, &[])).unwrap();
    }
    let _ = read.advance(&data(1, PER_PACKET)).unwrap();

    assert_eq!(
        read.advance(&reply(FoeOpcode::Busy, 0, &[])).unwrap(),
        Progress::Busy
    );
}

#[test]
fn an_error_reply_carries_the_subdevices_code() {
    let mut read = transfer();
    assert_eq!(
        read.advance(&reply(FoeOpcode::Error, 0x8001, b"not found\0")),
        Err(FoeError::Refused { code: 0x8001 })
    );
}

#[test]
fn a_reply_too_short_for_a_header_is_refused() {
    let mut read = transfer();
    assert_eq!(read.advance(&[3, 0]), Err(FoeError::Truncated { len: 2 }));
}

#[test]
fn read_a_file_name_that_cannot_fit_the_mailbox_is_refused_up_front() {
    let name = "x".repeat(600);
    assert!(matches!(
        FoeRead::new(&name, 0, PAYLOAD),
        Err(FoeError::FileNameTooLong { .. })
    ));
}

/// A mailbox too small to hold even an FoE header must be refused, not underflowed into a
/// nonsense capacity.
#[test]
fn a_mailbox_smaller_than_a_header_is_refused() {
    assert!(matches!(
        FoeRead::new(".hardware_description", 0, 4),
        Err(FoeError::FileNameTooLong { .. })
    ));
}

#[test]
fn a_data_reply_before_any_request_number_matches_packet_one() {
    // The first Data must be packet 1; packet 2 up front is out of order.
    let mut read = transfer();
    assert_eq!(
        read.advance(&data(2, 4)),
        Err(FoeError::PacketOutOfOrder {
            expected: 1,
            got: 2
        })
    );
}

#[test]
fn a_read_request_carries_the_password_and_the_name() {
    let read = FoeRead::new("a.txt", 0x0403_0201, PAYLOAD).unwrap();
    let mut buf = [0u8; 16];
    assert_eq!(
        read.frame().pack_to_slice(&mut buf).unwrap(),
        b"\x01\0\x01\x02\x03\x04a.txt"
    );
}

#[test]
fn an_acknowledgement_has_no_body() {
    let mut read = transfer();
    let _ = read.advance(&data(1, PER_PACKET)).unwrap();
    let _ = read.advance(&data(2, 3)).unwrap();
    let mut buf = [0u8; 16];
    assert_eq!(
        read.frame().pack_to_slice(&mut buf).unwrap(),
        &[4, 0, 2, 0, 0, 0]
    );
}

#[test]
fn the_error_of_a_read_name_too_long_says_by_how_much() {
    assert_eq!(
        FoeRead::new("abcdef", 0, 11).err(),
        Some(FoeError::FileNameTooLong {
            len: 6,
            capacity: 5
        })
    );
    assert!(FoeRead::new("abcde", 0, 11).is_ok());
    assert_eq!(
        FoeRead::new("a", 0, 5).err(),
        Some(FoeError::FileNameTooLong {
            len: 1,
            capacity: 0
        })
    );
    // The length is counted in bytes, not in characters.
    assert_eq!(
        FoeRead::new("\u{e4}", 0, 7).err(),
        Some(FoeError::FileNameTooLong {
            len: 2,
            capacity: 1
        })
    );
}

#[test]
fn a_refused_reply_leaves_a_read_as_it_was() {
    let mut read = transfer();
    let _ = read.advance(&data(1, PER_PACKET)).unwrap();
    for opcode in [
        FoeOpcode::ReadRequest,
        FoeOpcode::WriteRequest,
        FoeOpcode::Ack,
    ] {
        assert_eq!(
            read.advance(&reply(opcode, 2, &[])),
            Err(FoeError::UnexpectedOpcode(opcode))
        );
    }
    assert!(read.advance(&reply(FoeOpcode::Error, 1, &[])).is_err());
    assert!(read.advance(&data(1, 4)).is_err());
    assert_eq!(
        read.advance(&[9, 0, 0, 0, 0, 0, 0]),
        Err(FoeError::Truncated { len: 7 })
    );
    assert_eq!(read.frame().header.opcode, FoeOpcode::Ack);
    assert_eq!(read.frame().header.argument, 1);
    assert_eq!(
        read.advance(&data(2, 4)).unwrap(),
        Progress::Last(&[0xAB; 4][..])
    );
}

#[test]
fn a_read_timeout_counts_the_busy_replies() {
    let mut read = transfer();
    let busy = reply(FoeOpcode::Busy, 0, &[]);
    for _ in 0..100 {
        assert_eq!(read.advance(&busy), Ok(Progress::Busy));
    }
    assert_eq!(
        read.advance(&busy),
        Err(FoeError::BusyTimeout { replies: 101 })
    );
    assert_eq!(
        read.advance(&busy),
        Err(FoeError::BusyTimeout { replies: 102 })
    );
    assert!(read.has_room(&busy));
    assert!(read.has_room(&data(1, 1)));
    // A packet is still taken, and ends the count.
    assert!(read.advance(&data(1, PER_PACKET)).is_ok());
    assert_eq!(read.advance(&busy), Ok(Progress::Busy));
}

/// Not even an empty name makes a mailbox without room for a header usable.
#[test]
fn a_read_needs_room_for_a_header_whatever_the_name() {
    for payload in 0..6 {
        assert_eq!(
            FoeRead::new("", 0, payload).err(),
            Some(FoeError::FileNameTooLong {
                len: 0,
                capacity: 0
            })
        );
    }
    let read = FoeRead::new("", 0, 6).unwrap();
    let mut buf = [0u8; 6];
    assert_eq!(
        read.frame().pack_to_slice(&mut buf).unwrap(),
        &[1, 0, 0, 0, 0, 0]
    );
}
