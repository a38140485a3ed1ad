//! Round-trip and wire-layout tests for the raw ETG.1000.4 mailbox frame codec.

use ethercrab::error::{Error, MailboxError};
use ethercrab::raw_mailbox::parse_frame;
use ethercrab::wire::{CodecError, WireRead, WireWrite};
use ethercrab::{MailboxFrame, MailboxHeader, MailboxMessage, MailboxType, Priority};

#[test]
fn raw_mailbox_header_is_six_bytes() {
    assert_eq!(MailboxHeader::PACKED_LEN, 6);
}

#[test]
fn header_roundtrip_and_layout() {
    let header = MailboxHeader {
        length: 0x0140,
        priority: Priority::Lowest,
        mailbox_type: MailboxType::VendorSpecific,
        counter: 5,
    };

    let mut buf = [0u8; 6];
    header.pack_to_slice(&mut buf).unwrap();

    // length little-endian in bytes 0..2, address bytes 2..4 zero.
    assert_eq!(&buf[0..4], &[0x40, 0x01, 0x00, 0x00]);
    // byte 5: type 0x0f in low nibble, counter 5 in bits 4..7, so 0x5f.
    assert_eq!(buf[5], 0x5f);

    assert_eq!(MailboxHeader::unpack_from_slice(&buf).unwrap(), header);
}

#[test]
fn frame_packs_header_then_body() {
    let data = [0xde, 0xad, 0xbe, 0xef, 0x01, 0x02, 0x03];
    let frame = MailboxFrame {
        header: MailboxHeader {
            length: data.len() as u16,
            priority: Priority::Lowest,
            mailbox_type: MailboxType::Foe,
            counter: 3,
        },
        body: &data,
    };

    assert_eq!(frame.packed_len(), 6 + data.len());

    let mut window = [0u8; 64]; // oversized window, as the ESC SM would be
    let packed = frame.pack_to_slice(&mut window).unwrap();
    assert_eq!(packed.len(), 6 + data.len());

    // The packed frame round-trips through the parser.
    let (header, body) = parse_frame(&window).unwrap();
    assert_eq!(header.counter, 3);
    assert_eq!(header.mailbox_type, MailboxType::Foe);
    assert_eq!(header.length as usize, data.len());
    assert_eq!(body, &data[..]);
}

#[test]
fn parse_ignores_window_padding_past_declared_length() {
    // A short body in a big window: trailing window bytes are not part of the message.
    let data = [0xaa, 0xbb];
    let frame = MailboxFrame {
        header: MailboxHeader {
            length: data.len() as u16,
            priority: Priority::Lowest,
            mailbox_type: MailboxType::VendorSpecific,
            counter: 1,
        },
        body: &data,
    };

    let mut window = [0xffu8; 32];
    frame.pack_to_slice(&mut window).unwrap();

    let (_header, body) = parse_frame(&window).unwrap();
    assert_eq!(body, &data[..]);
}

#[test]
fn parse_rejects_window_shorter_than_declared_body() {
    // Header claims a 100-byte body but only 8 bytes of window are present.
    let header = MailboxHeader {
        length: 100,
        priority: Priority::Lowest,
        mailbox_type: MailboxType::Foe,
        counter: 1,
    };
    let mut window = [0u8; 8];
    header.pack_to_slice(&mut window[..6]).unwrap();

    assert!(parse_frame(&window).is_err());
}

#[test]
fn frame_pack_rejects_buffer_too_short_for_frame() {
    let data = [0u8; 60];
    let frame = MailboxFrame {
        header: MailboxHeader {
            length: data.len() as u16,
            priority: Priority::Lowest,
            mailbox_type: MailboxType::Foe,
            counter: 1,
        },
        body: &data,
    };

    // Buffer smaller than header + body must fail rather than truncate.
    let mut too_small = [0u8; 32];
    assert!(frame.pack_to_slice(&mut too_small).is_err());
}

const TOO_LONG: Error = Error::Mailbox(MailboxError::TooLong {
    address: 0,
    sub_index: 0,
});

#[test]
fn a_frame_is_packed_byte_for_byte_and_leaves_the_rest_alone() {
    let frame = MailboxFrame {
        header: MailboxHeader {
            length: 0x0203,
            priority: Priority::Highest,
            mailbox_type: MailboxType::Coe,
            counter: 7,
        },
        body: &[0x11u8, 0x22][..],
    };
    let mut window = [0xeeu8; 10];
    let written = frame.pack_to_slice(&mut window).unwrap().to_vec();
    assert_eq!(written, [0x03, 0x02, 0, 0, 0xc0, 0x73, 0x11, 0x22]);
    assert_eq!(
        window,
        [0x03, 0x02, 0, 0, 0xc0, 0x73, 0x11, 0x22, 0xee, 0xee]
    );
}

#[test]
fn a_buffer_that_is_too_short_stays_untouched() {
    let header = MailboxHeader {
        length: 1,
        priority: Priority::Low,
        mailbox_type: MailboxType::Eoe,
        counter: 2,
    };
    let mut buf = [0x55u8; 5];
    assert_eq!(
        header.pack_to_slice(&mut buf),
        Err(CodecError::WriteBufferTooShort)
    );
    assert_eq!(buf, [0x55; 5]);
}

#[test]
fn only_three_bits_of_the_counter_travel() {
    let header = MailboxHeader {
        length: 0,
        priority: Priority::High,
        mailbox_type: MailboxType::Aoe,
        counter: 0xfd,
    };
    let mut buf = [0u8; 6];
    header.pack_to_slice(&mut buf).unwrap();
    assert_eq!(buf, [0, 0, 0, 0, 0x80, 0x51]);
    assert_eq!(
        MailboxHeader::unpack_from_slice(&buf),
        Ok(MailboxHeader {
            counter: 5,
            ..header
        })
    );
}

#[test]
fn address_channel_and_reserved_bit_are_not_read() {
    let header = MailboxHeader::unpack_from_slice(&[0x34, 0x12, 0xaa, 0xbb, 0x7f, 0xa4]).unwrap();
    assert_eq!(
        header,
        MailboxHeader {
            length: 0x1234,
            priority: Priority::Low,
            mailbox_type: MailboxType::Foe,
            counter: 2,
        }
    );
    // Writing the header back zeroes what was not read.
    let mut buf = [0u8; 6];
    header.pack_to_slice(&mut buf).unwrap();
    assert_eq!(buf, [0x34, 0x12, 0, 0, 0x40, 0x24]);
}

#[test]
fn a_reserved_mailbox_type_is_refused() {
    for code in 0x06..=0x0eu8 {
        let window = [0, 0, 0, 0, 0, code];
        assert_eq!(
            MailboxHeader::unpack_from_slice(&window),
            Err(CodecError::InvalidValue)
        );
        assert_eq!(
            parse_frame(&window),
            Err(Error::Wire(CodecError::InvalidValue))
        );
        assert_eq!(
            MailboxType::from_wire_code(code),
            Err(CodecError::InvalidValue)
        );
    }
}

#[test]
fn a_window_without_room_for_header_or_body_is_refused() {
    assert_eq!(parse_frame(&[0u8; 5]), Err(TOO_LONG));
    assert_eq!(parse_frame(&[3, 0, 0, 0, 0, 4, 1, 2]), Err(TOO_LONG));
    assert_eq!(
        MailboxHeader::unpack_from_slice(&[0u8; 5]),
        Err(CodecError::ReadBufferTooShort)
    );
    assert!(parse_frame(&[2, 0, 0, 0, 0, 4, 1, 2]).is_ok());
}

#[test]
fn a_wire_error_becomes_an_error() {
    assert_eq!(
        Error::from(CodecError::ReadBufferTooShort),
        Error::Wire(CodecError::ReadBufferTooShort)
    );
}

#[test]
fn a_message_gives_its_header_and_body() {
    let window = [3, 0, 0, 0, 0x40, 0x64, 0xa1, 0xa2, 0xa3, 0xff, 0xff];
    let message = MailboxMessage::parse(&window).unwrap();
    assert_eq!(
        *message.header(),
        MailboxHeader {
            length: 3,
            priority: Priority::Low,
            mailbox_type: MailboxType::Foe,
            counter: 6,
        }
    );
    assert_eq!(message.mailbox_type(), MailboxType::Foe);
    assert_eq!(message.counter(), 6);
    assert_eq!(message.body(), &[0xa1, 0xa2, 0xa3]);

    assert_eq!(MailboxMessage::parse(&window[..8]).err(), Some(TOO_LONG));
    assert_eq!(
        MailboxMessage::parse(&[0, 0, 0, 0, 0, 0x0e]).err(),
        Some(Error::Wire(CodecError::InvalidValue))
    );
}

#[test]
fn every_priority_and_type_survives_the_wire() {
    let priorities = [
        (Priority::Lowest, 0u8),
        (Priority::Low, 1),
        (Priority::High, 2),
        (Priority::Highest, 3),
    ];
    for (priority, code) in priorities {
        let mut buf = [0xffu8; 2];
        assert_eq!(priority.pack_to_slice(&mut buf).unwrap(), &[code]);
        assert_eq!(buf, [code, 0xff]);
        assert_eq!(priority.packed_len(), 1);
        assert_eq!(Priority::unpack_from_slice(&buf), Ok(priority));
    }
    // A code that stands for no priority counts as the lowest.
    assert_eq!(Priority::unpack_from_slice(&[9]), Ok(Priority::Lowest));
    assert_eq!(
        Priority::unpack_from_slice(&[]),
        Err(CodecError::ReadBufferTooShort)
    );
    assert_eq!(Priority::default(), Priority::Lowest);

    let types = [
        (MailboxType::Error, 0x00u8),
        (MailboxType::Aoe, 0x01),
        (MailboxType::Eoe, 0x02),
        (MailboxType::Coe, 0x03),
        (MailboxType::Foe, 0x04),
        (MailboxType::Soe, 0x05),
        (MailboxType::VendorSpecific, 0x0f),
    ];
    for (mailbox_type, code) in types {
        let mut buf = [0u8; 1];
        assert_eq!(mailbox_type.pack_to_slice(&mut buf).unwrap(), &[code]);
        assert_eq!(MailboxType::unpack_from_slice(&buf), Ok(mailbox_type));
        assert_eq!(mailbox_type.packed_len(), 1);
    }
    assert_eq!(
        MailboxType::unpack_from_slice(&[]),
        Err(CodecError::ReadBufferTooShort)
    );
}

#[test]
fn raw_bytes_are_their_own_wire_form() {
    let bytes: &[u8] = &[1, 2, 3];
    let mut buf = [9u8; 5];
    assert_eq!(bytes.pack_to_slice(&mut buf).unwrap(), &[1, 2, 3]);
    assert_eq!(buf, [1, 2, 3, 9, 9]);
    assert_eq!(WireWrite::packed_len(&bytes), 3);

    let mut short = [9u8; 2];
    assert_eq!(
        [4u8, 5, 6].pack_to_slice(&mut short),
        Err(CodecError::WriteBufferTooShort)
    );
    assert_eq!(short, [9, 9]);
}
