//! Raw ETG.1000.4 mailbox channel: a framed, protocol-agnostic byte pipe over the mailbox
//! SyncManagers, independent of CoE/SDO.
//!
//! [`MailboxHeader`] is the pure ETG.1000.4 mailbox header, so every byte after it is caller-owned
//! payload. Both directions work in place: an outgoing [`MailboxFrame`] packs its header and body
//! straight into the send buffer, and an incoming [`MailboxMessage`] borrows the received window
//! rather than copying it out.

use crate::error::{Error, MailboxError};
use crate::mailbox::{MailboxType, Priority};
use crate::wire::{le_u16, pack_u16, u16_le, unpack_u16, CodecError, WireRead, WireWrite};
use vstd::prelude::*;

verus! {

/// The 6-byte ETG.1000.4 mailbox header (ETG.1000.4 §5.6). The payload following it belongs
/// entirely to the mailbox protocol chosen by [`mailbox_type`](Self::mailbox_type).
#[derive(Clone, Copy, Debug, PartialEq, Eq, Structural)]
pub struct MailboxHeader {
    /// Length in bytes of the mailbox data that follows this header.
    pub length: u16,
    /// Mailbox priority (rarely meaningful for a single-mailbox device; sent as
    /// [`Priority::Lowest`]).
    pub priority: Priority,
    /// Which mailbox protocol the body carries.
    pub mailbox_type: MailboxType,
    /// Cyclic mailbox counter, 1..=7. Retransmits reuse the value so the SubDevice can dedup. Only
    /// its low three bits go on the wire.
    pub counter: u8,
}

impl MailboxHeader {
    /// Bytes of a packed mailbox header.
    pub const PACKED_LEN: usize = 6;
}

impl WireRead for MailboxHeader {
    /// Bytes 0 and 1 hold the length. The address in bytes 2 and 3, the channel in the low six bits
    /// of byte 4 and the top bit of byte 5 are not looked at.
    open spec fn unpacked(buf: Seq<u8>) -> Result<Self, CodecError> {
        if buf.len() < MailboxHeader::PACKED_LEN {
            Err(CodecError::ReadBufferTooShort)
        } else {
            match MailboxType::of_code(buf[5] % 16) {
                Ok(mailbox_type) => Ok(
                    MailboxHeader {
                        length: le_u16(buf),
                        priority: Priority::of_code(buf[4] / 64),
                        mailbox_type,
                        counter: buf[5] / 16 % 8,
                    },
                ),
                Err(e) => Err(e),
            }
        }
    }

    fn unpack_from_slice(buf: &[u8]) -> (r: Result<Self, CodecError>) {
        if buf.len() < MailboxHeader::PACKED_LEN {
            return Err(CodecError::ReadBufferTooShort);
        }
        let length: u16 = match unpack_u16(&buf[0..2]) {
            Ok(length) => length,
            Err(_) => return Err(CodecError::ReadBufferTooShort),
        };
        let b4: u8 = buf[4];
        let b5: u8 = buf[5];
        assert((b4 & 0b1100_0000) >> 6 == b4 / 64) by (bit_vector);
        assert(b5 & 0b0000_1111 == b5 % 16) by (bit_vector);
        assert((b5 & 0b0111_0000) >> 4 == b5 / 16 % 8) by (bit_vector);
        let mailbox_type = match MailboxType::from_wire_code(b5 & 0b0000_1111) {
            Ok(mailbox_type) => mailbox_type,
            Err(e) => return Err(e),
        };
        Ok(
            MailboxHeader {
                length,
                priority: Priority::from_wire_code((b4 & 0b1100_0000) >> 6),
                mailbox_type,
                counter: (b5 & 0b0111_0000) >> 4,
            },
        )
    }
}

impl WireWrite for MailboxHeader {
    /// Length, two address bytes of zero, priority in the top two bits of byte 4, then type and
    /// counter in byte 5.
    open spec fn packed(&self) -> Seq<u8> {
        u16_le(self.length) + seq![
            0u8,
            0u8,
            (64 * self.priority.code()) as u8,
            (self.mailbox_type.code() + 16 * (self.counter % 8)) as u8,
        ]
    }

    fn packed_len(&self) -> (len: usize) {
        MailboxHeader::PACKED_LEN
    }

    fn pack_to_slice_unchecked<'buf>(&self, buf: &'buf mut [u8]) -> (out: &'buf [u8]) {
        let (head, _rest) = buf.split_at_mut(MailboxHeader::PACKED_LEN);
        let priority: u8 = self.priority.wire_code();
        let mailbox_type: u8 = self.mailbox_type.wire_code();
        let counter: u8 = self.counter;
        assert((priority << 6) & 0b1100_0000 == 64 * priority) by (bit_vector)
            requires
                priority < 4,
        ;
        assert((mailbox_type & 0b0000_1111) | ((counter << 4) & 0b0111_0000) == mailbox_type + 16 * (
        counter % 8)) by (bit_vector)
            requires
                mailbox_type < 16,
        ;
        head[2] = 0;
        head[3] = 0;
        head[4] = (priority << 6) & 0b1100_0000;
        head[5] = (mailbox_type & 0b0000_1111) | ((counter << 4) & 0b0111_0000);
        pack_u16(self.length, head);
        assert(head@ == self.packed());
        head
    }
}

/// An outgoing mailbox frame: a header plus a body, packed in place into the send buffer.
///
/// The body is anything that can be written to the wire: a raw `&[u8]`, or a typed protocol frame
/// (e.g. an FoE frame) that itself packs a sub-header plus payload.
#[derive(Clone, Copy, Debug)]
pub struct MailboxFrame<B> {
    /// The 6-byte header. `header.length` must equal the body's packed length.
    pub header: MailboxHeader,
    /// The mailbox body (bytes after the header).
    pub body: B,
}

impl<B: WireWrite> WireWrite for MailboxFrame<B> {
    open spec fn packed(&self) -> Seq<u8> {
        self.header.packed() + self.body.packed()
    }

    fn packed_len(&self) -> (len: usize) {
        MailboxHeader::PACKED_LEN + self.body.packed_len()
    }

    fn pack_to_slice_unchecked<'buf>(&self, buf: &'buf mut [u8]) -> (out: &'buf [u8]) {
        let header_len: usize = MailboxHeader::PACKED_LEN;
        let (head, tail) = buf.split_at_mut(header_len);
        self.header.pack_to_slice_unchecked(head);
        let body_len: usize = self.body.pack_to_slice_unchecked(tail).len();
        assert(buf@ == self.packed() + old(buf)@.skip(self.packed().len() as int));
        assert(header_len + body_len <= buf.len());
        let out = &buf[0..header_len + body_len];
        assert(out@ == self.packed());
        out
    }
}

/// What a mailbox window holds: the header at its beginning, and the body, which is as many of the
/// bytes after the header as the header declares. The rest of the window is padding.
pub open spec fn parsed_frame(window: Seq<u8>) -> Result<(MailboxHeader, Seq<u8>), Error> {
    let start = MailboxHeader::PACKED_LEN as int;
    if window.len() < start {
        Err(Error::Mailbox(MailboxError::TooLong { address: 0, sub_index: 0 }))
    } else {
        match MailboxHeader::unpacked(window) {
            Err(e) => Err(Error::Wire(e)),
            Ok(header) => if window.len() < start + header.length {
                Err(Error::Mailbox(MailboxError::TooLong { address: 0, sub_index: 0 }))
            } else {
                Ok((header, window.subrange(start, start + header.length)))
            },
        }
    }
}

/// A received mailbox message: the parsed [`MailboxHeader`] and a zero-copy view of its body.
///
/// Holds the window the frame arrived in, so [`body`](Self::body) borrows that directly.
pub struct MailboxMessage<'sto> {
    header: MailboxHeader,
    pdu: &'sto [u8],
}

impl<'sto> View for MailboxMessage<'sto> {
    type V = (MailboxHeader, Seq<u8>);

    /// The header and the body of the message.
    closed spec fn view(&self) -> (MailboxHeader, Seq<u8>) {
        (
            self.header,
            self.pdu@.subrange(
                MailboxHeader::PACKED_LEN as int,
                MailboxHeader::PACKED_LEN + self.header.length,
            ),
        )
    }
}

impl<'sto> MailboxMessage<'sto> {
    /// The declared body lies within the window.
    #[verifier::type_invariant]
    spec fn wf(self) -> bool {
        MailboxHeader::PACKED_LEN + self.header.length <= self.pdu@.len()
    }

    /// Parse a mailbox frame read out of a mailbox SM window, validating that the declared body
    /// length fits within the received frame.
    pub fn parse(pdu: &'sto [u8]) -> (r: Result<Self, Error>)
        ensures
            match r {
                Ok(message) => parsed_frame(pdu@) == Ok::<(MailboxHeader, Seq<u8>), Error>(
                    message@,
                ),
                Err(e) => parsed_frame(pdu@) == Err::<(MailboxHeader, Seq<u8>), Error>(e),
            },
    {
        match parse_frame(pdu) {
            Ok((header, _body)) => Ok(MailboxMessage { header, pdu }),
            Err(e) => Err(e),
        }
    }

    /// The parsed 6-byte mailbox header.
    pub fn header(&self) -> (r: &MailboxHeader)
        ensures
            *r == self@.0,
    {
        &self.header
    }

    /// The mailbox protocol this message carries.
    pub fn mailbox_type(&self) -> (r: MailboxType)
        ensures
            r == self@.0.mailbox_type,
    {
        self.header.mailbox_type
    }

    /// The cyclic mailbox counter this message arrived with.
    pub fn counter(&self) -> (r: u8)
        ensures
            r == self@.0.counter,
    {
        self.header.counter
    }

    /// The mailbox body: the bytes after the header, trimmed to the header's declared length.
    pub fn body(&self) -> (r: &[u8])
        ensures
            r@ == self@.1,
            r@.len() == self@.0.length,
    {
        proof {
            use_type_invariant(self);
        }
        let start: usize = MailboxHeader::PACKED_LEN;
        let end: usize = start + self.header.length as usize;

        &self.pdu[start..end]
    }
}

/// A frame and its window that do not fit together. The address and sub-index have no meaning for
/// a raw frame, so they are zeroed.
fn too_long() -> (r: Error)
    ensures
        r == Error::Mailbox(MailboxError::TooLong { address: 0, sub_index: 0 }),
{
    Error::Mailbox(MailboxError::TooLong { address: 0, sub_index: 0 })
}

/// Parse a mailbox `window`, returning the header and a borrowed body slice trimmed to the header's
/// declared length. Trailing window padding past that length is not part of the message.
pub fn parse_frame(window: &[u8]) -> (r: Result<(MailboxHeader, &[u8]), Error>)
    ensures
        match r {
            Ok((header, body)) => parsed_frame(window@) == Ok::<(MailboxHeader, Seq<u8>), Error>(
                (header, body@),
            ),
            Err(e) => parsed_frame(window@) == Err::<(MailboxHeader, Seq<u8>), Error>(e),
        },
{
    let start: usize = MailboxHeader::PACKED_LEN;
    if window.len() < start {
        return Err(too_long());
    }
    let header = match MailboxHeader::unpack_from_slice(&window[0..start]) {
        Ok(header) => header,
        Err(e) => return Err(Error::from(e)),
    };
    let end: usize = start + header.length as usize;
    if window.len() < end {
        return Err(too_long());
    }
    Ok((header, &window[start..end]))
}

/// A header read back from its wire form is the same header, with the counter cut down to the three
/// bits it has there. In particular a header with a counter of at most 7 survives unchanged.
pub proof fn law_mailbox_header_roundtrip(header: MailboxHeader, rest: Seq<u8>)
    ensures
        header.packed().len() == MailboxHeader::PACKED_LEN,
        MailboxHeader::unpacked(header.packed() + rest) == Ok::<MailboxHeader, CodecError>(
            MailboxHeader { counter: header.counter % 8, ..header },
        ),
        header.counter <= 7 ==> MailboxHeader::unpacked(header.packed() + rest) == Ok::<
            MailboxHeader,
            CodecError,
        >(header),
{
}

/// Writing back a header that was read gives the bytes it was read from, with the address, the
/// channel and the reserved bit zeroed.
pub proof fn law_mailbox_header_rewrite(buf: Seq<u8>)
    ensures
        MailboxHeader::unpacked(buf) matches Ok(header) ==> header.packed() == seq![
            buf[0],
            buf[1],
            0u8,
            0u8,
            (buf[4] / 64 * 64) as u8,
            (buf[5] % 128) as u8,
        ],
{
}

/// A header is refused exactly where there are fewer than six bytes, or where the type is one of
/// the reserved codes.
pub proof fn law_mailbox_header_refused(buf: Seq<u8>)
    ensures
        MailboxHeader::unpacked(buf) == Err::<MailboxHeader, CodecError>(
            CodecError::ReadBufferTooShort,
        ) <==> buf.len() < MailboxHeader::PACKED_LEN,
        MailboxHeader::unpacked(buf) == Err::<MailboxHeader, CodecError>(CodecError::InvalidValue)
            <==> buf.len() >= MailboxHeader::PACKED_LEN && 0x06 <= buf[5] % 16 <= 0x0e,
{
}

/// A frame packed into the beginning of a window is found there again: its header, and as body
/// exactly the bytes the body packed to, whatever padding fills the rest of the window.
pub proof fn law_frame_roundtrip<B: WireWrite>(frame: MailboxFrame<B>, padding: Seq<u8>)
    requires
        frame.header.length == frame.body.packed().len(),
        frame.header.counter <= 7,
    ensures
        parsed_frame(frame.packed() + padding) == Ok::<(MailboxHeader, Seq<u8>), Error>(
            (frame.header, frame.body.packed()),
        ),
{
    let window = frame.packed() + padding;
    let rest = frame.body.packed() + padding;
    law_mailbox_header_roundtrip(frame.header, rest);
    assert(window == frame.header.packed() + rest);
    assert(window.subrange(6, 6 + frame.header.length) == frame.body.packed());
}

/// Padding after a message does not change how it is read.
pub proof fn law_padding_is_ignored(window: Seq<u8>, padding: Seq<u8>)
    requires
        parsed_frame(window) is Ok,
    ensures
        parsed_frame(window + padding) == parsed_frame(window),
{
    let header = MailboxHeader::unpacked(window)->Ok_0;
    assert((window + padding).subrange(6, 6 + header.length) == window.subrange(
        6,
        6 + header.length,
    ));
}

/// Where the fields of a mailbox header lie, byte by byte: the length in bytes 0 and 1 with its low
/// byte first, zeroes in bytes 2 and 3, the priority in the two top bits of byte 4, the type in the
/// low half of byte 5 and the counter in the three bits above it.
pub proof fn law_mailbox_header_layout(header: MailboxHeader)
    ensures
        MailboxHeader::PACKED_LEN == 6,
        header.packed().len() == 6,
        header.packed()[0] == header.length % 256,
        header.packed()[1] == header.length / 256,
        header.packed()[2] == 0,
        header.packed()[3] == 0,
        header.packed()[4] == 64 * header.priority.code(),
        header.packed()[5] == header.mailbox_type.code() + 16 * (header.counter % 8),
{
}

/// What each field of a header that was read says of the bytes it was read from, and which six
/// bytes are a header at all.
pub proof fn law_mailbox_header_fields(buf: Seq<u8>)
    ensures
        MailboxHeader::unpacked(buf) is Ok <==> buf.len() >= 6 && (buf[5] % 16 <= 5 || buf[5] % 16
            == 15),
        MailboxHeader::unpacked(buf) matches Ok(header) ==> {
            &&& header.length == buf[0] + 256 * buf[1]
            &&& header.priority.code() == buf[4] / 64
            &&& header.mailbox_type.code() == buf[5] % 16
            &&& header.counter == buf[5] / 16 % 8
        },
{
}

/// The bytes of a frame are the six of its header and then those of its body.
pub proof fn law_frame_layout<B: WireWrite>(frame: MailboxFrame<B>)
    ensures
        frame.packed().len() == 6 + frame.body.packed().len(),
        forall|i: int| 0 <= i < 6 ==> frame.packed()[i] == frame.header.packed()[i],
        forall|i: int|
            0 <= i < frame.body.packed().len() ==> frame.packed()[6 + i]
                == #[trigger] frame.body.packed()[i],
{
}

/// A window holds a message exactly where it is long enough for a header, the header's type is not
/// a reserved one, and all of the body that the header declares is there. The body is then the
/// bytes after the header, as many as are declared.
pub proof fn law_message_in_window(window: Seq<u8>)
    ensures
        ({
            let too_long = Err::<(MailboxHeader, Seq<u8>), Error>(
                Error::Mailbox(MailboxError::TooLong { address: 0, sub_index: 0 }),
            );
            let reserved = Err::<(MailboxHeader, Seq<u8>), Error>(
                Error::Wire(CodecError::InvalidValue),
            );
            let length = window[0] + 256 * window[1];
            let code = window[5] % 16;
            &&& window.len() < 6 ==> parsed_frame(window) == too_long
            &&& window.len() >= 6 && 5 < code < 15 ==> parsed_frame(window) == reserved
            &&& 6 <= window.len() < 6 + length && !(5 < code < 15) ==> parsed_frame(window)
                == too_long
            &&& window.len() >= 6 + length && !(5 < code < 15) ==> {
                &&& parsed_frame(window) matches Ok((header, body))
                &&& header.length == length
                &&& header.priority.code() == window[4] / 64
                &&& header.mailbox_type.code() == code
                &&& header.counter == window[5] / 16 % 8
                &&& body.len() == length
                &&& forall|i: int| 0 <= i < length ==> #[trigger] body[i] == window[6 + i]
            }
        }),
{
    law_mailbox_header_fields(window);
}

} // verus!
