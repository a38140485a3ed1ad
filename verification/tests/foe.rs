//! Wire layout of FoE headers and frames.

use ethercrab::foe::{FoeFrame, FoeHeader, FoeOpcode, FOE_HEADER_LEN, MAX_BUSY_REPLIES};
use ethercrab::raw_mailbox::parse_frame;
use ethercrab::wire::{CodecError, WireRead, WireWrite};
use ethercrab::{MailboxFrame, MailboxHeader, MailboxType, Priority};

#[test]
fn mod_header_is_six_bytes() {
    assert_eq!(FoeHeader::PACKED_LEN, 6);
}

#[test]
fn read_request_header_layout() {
    let header = FoeHeader {
        opcode: FoeOpcode::ReadRequest,
        argument: 0xDEAD_BEEF,
    };

    let mut buf = [0u8; 6];
    header.pack_to_slice(&mut buf).unwrap();

    assert_eq!(buf[0], 1);
    // Byte 1 is reserved and must be written as zero.
    assert_eq!(buf[1], 0);
    assert_eq!(&buf[2..], &0xDEAD_BEEFu32.to_le_bytes());

    assert_eq!(FoeHeader::unpack_from_slice(&buf).unwrap(), header);
}

#[test]
fn unknown_opcode_is_refused() {
    // 0 and 7 are not opcodes; decoding either must fail rather than guess.
    assert!(FoeHeader::unpack_from_slice(&[0u8, 0, 0, 0, 0, 0]).is_err());
    assert!(FoeHeader::unpack_from_slice(&[7u8, 0, 0, 0, 0, 0]).is_err());
}

#[test]
fn constants_are_those_of_the_protocol() {
    assert_eq!(FOE_HEADER_LEN, 6);
    assert_eq!(MAX_BUSY_REPLIES, 100);
}

#[test]
fn a_header_names_what_is_wrong_with_it() {
    assert_eq!(
        FoeHeader::unpack_from_slice(&[7u8, 0, 0, 0, 0, 0]),
        Err(CodecError::InvalidValue)
    );
    assert_eq!(
        FoeHeader::unpack_from_slice(&[3u8, 0, 0, 0, 0]),
        Err(CodecError::ReadBufferTooShort)
    );
}

#[test]
fn the_reserved_byte_is_not_read_and_is_written_as_zero() {
    let header = FoeHeader::unpack_from_slice(&[4, 0x77, 0x01, 0x02, 0x03, 0x84, 0xff]).unwrap();
    assert_eq!(
        header,
        FoeHeader {
            opcode: FoeOpcode::Ack,
            argument: 0x8403_0201,
        }
    );
    let mut buf = [0xffu8; 8];
    assert_eq!(
        header.pack_to_slice(&mut buf).unwrap(),
        &[4, 0, 0x01, 0x02, 0x03, 0x84]
    );
    assert_eq!(buf, [4, 0, 0x01, 0x02, 0x03, 0x84, 0xff, 0xff]);
    assert_eq!(header.packed_len(), 6);
}

#[test]
fn every_opcode_survives_the_wire() {
    let opcodes = [
        (FoeOpcode::ReadRequest, 1u8),
        (FoeOpcode::WriteRequest, 2),
        (FoeOpcode::Data, 3),
        (FoeOpcode::Ack, 4),
        (FoeOpcode::Error, 5),
        (FoeOpcode::Busy, 6),
    ];
    for (opcode, code) in opcodes {
        let mut buf = [0u8; 1];
        assert_eq!(opcode.pack_to_slice(&mut buf).unwrap(), &[code]);
        assert_eq!(opcode.packed_len(), 1);
        assert_eq!(FoeOpcode::unpack_from_slice(&buf), Ok(opcode));
        assert_eq!(FoeOpcode::from_wire_code(code), Ok(opcode));
    }
    assert_eq!(
        FoeOpcode::unpack_from_slice(&[]),
        Err(CodecError::ReadBufferTooShort)
    );
}

#[test]
fn a_frame_is_its_header_followed_by_its_body() {
    let frame = FoeFrame {
        header: FoeHeader {
            opcode: FoeOpcode::Data,
            argument: 2,
        },
        body: b"abc",
    };
    assert_eq!(frame.packed_len(), 9);
    let mut buf = [0xffu8; 11];
    assert_eq!(
        frame.pack_to_slice(&mut buf).unwrap(),
        &[3, 0, 2, 0, 0, 0, b'a', b'b', b'c']
    );
    assert_eq!(&buf[9..], &[0xff, 0xff]);

    let mut short = [0xffu8; 8];
    assert_eq!(
        frame.pack_to_slice(&mut short),
        Err(CodecError::WriteBufferTooShort)
    );
    assert_eq!(short, [0xff; 8]);
}

#[test]
fn a_foe_frame_is_found_in_the_mailbox_it_travels_in() {
    let foe = FoeFrame {
        header: FoeHeader {
            opcode: FoeOpcode::Data,
            argument: 0x0102_0304,
        },
        body: &[0xab, 0xcd],
    };
    let frame = MailboxFrame {
        header: MailboxHeader {
            length: foe.packed_len() as u16,
            priority: Priority::Lowest,
            mailbox_type: MailboxType::Foe,
            counter: 4,
        },
        body: foe,
    };
    assert_eq!(frame.packed_len(), 14);
    let mut window = [0x99u8; 20];
    assert_eq!(
        frame.pack_to_slice(&mut window).unwrap(),
        &[8, 0, 0, 0, 0, 0x44, 3, 0, 4, 3, 2, 1, 0xab, 0xcd]
    );
    let (header, body) = parse_frame(&window).unwrap();
    assert_eq!(header, frame.header);
    assert_eq!(FoeHeader::unpack_from_slice(body), Ok(foe.header));
    assert_eq!(&body[FOE_HEADER_LEN..], foe.body);
}
