//! File over EtherCAT (FoE), ETG.1000.6 §5.5.
//!
//! FoE is a lock-step, MainDevice-driven file transfer over the mailbox SyncManagers. This module
//! holds the wire types ([`FoeHeader`], [`FoeOpcode`]) and two pure, no-I/O state machines:
//! [`read::FoeRead`] (upload, SubDevice to MainDevice) and [`write::FoeWrite`] (download,
//! MainDevice to SubDevice). Each is fed one mailbox reply at a time and stages the next frame to
//! send; every transport detail (sync managers, polling, the mailbox counter) belongs to the
//! caller.

use crate::wire::{
    le_u32, pack_bytes, pack_u32, u32_le, unpack_u32, CodecError, WireRead, WireWrite,
};
use vstd::prelude::*;

pub mod exchange;
pub mod read;
pub mod write;

verus! {

/// Bytes of FoE header ahead of every FoE payload.
pub const FOE_HEADER_LEN: usize = FoeHeader::PACKED_LEN;

/// Consecutive `Busy` replies tolerated before giving up. A SubDevice sends one while it is still
/// working, so a few are ordinary; this many means it never intends to answer.
pub const MAX_BUSY_REPLIES: u32 = 100;

/// Bytes a mailbox payload has left once the FoE header is in it: what a file name or one packet of
/// file content has to fit into.
pub open spec fn capacity(mailbox_payload: usize) -> nat {
    if mailbox_payload >= FOE_HEADER_LEN {
        (mailbox_payload - FOE_HEADER_LEN) as nat
    } else {
        0
    }
}

/// FoE opcode (ETG.1000.6 §5.5, Table 96).
///
/// Its number on the wire is what [`wire_code`](Self::wire_code) gives, not what a cast gives.
#[derive(Clone, Copy, Debug, PartialEq, Eq, Structural)]
pub enum FoeOpcode {
    /// Read request (RRQ): MainDevice asks to upload a file.
    ReadRequest,
    /// Write request (WRQ): MainDevice asks to download a file.
    WriteRequest,
    /// Data (DATA): one numbered chunk of file content.
    Data,
    /// Acknowledgement (ACK): confirms a numbered packet.
    Ack,
    /// Error (ERR): the transfer is refused or aborted.
    Error,
    /// Busy (BUSY): the SubDevice is still working; retry.
    Busy,
}

impl FoeOpcode {
    /// Bytes of a packed opcode.
    pub const PACKED_LEN: usize = 1;

    /// The code of this opcode on the wire.
    pub open spec fn code(self) -> u8 {
        match self {
            FoeOpcode::ReadRequest => 1,
            FoeOpcode::WriteRequest => 2,
            FoeOpcode::Data => 3,
            FoeOpcode::Ack => 4,
            FoeOpcode::Error => 5,
            FoeOpcode::Busy => 6,
        }
    }

    /// The code of this opcode on the wire.
    pub fn wire_code(self) -> (r: u8)
        ensures
            r == self.code(),
    {
        match self {
            FoeOpcode::ReadRequest => 1,
            FoeOpcode::WriteRequest => 2,
            FoeOpcode::Data => 3,
            FoeOpcode::Ack => 4,
            FoeOpcode::Error => 5,
            FoeOpcode::Busy => 6,
        }
    }

    /// The opcode with the given code.
    pub open spec fn of_code(code: u8) -> Result<Self, CodecError> {
        match code {
            1 => Ok(FoeOpcode::ReadRequest),
            2 => Ok(FoeOpcode::WriteRequest),
            3 => Ok(FoeOpcode::Data),
            4 => Ok(FoeOpcode::Ack),
            5 => Ok(FoeOpcode::Error),
            6 => Ok(FoeOpcode::Busy),
            _ => Err(CodecError::InvalidValue),
        }
    }

    /// The opcode with the given code.
    pub fn from_wire_code(code: u8) -> (r: Result<Self, CodecError>)
        ensures
            r == FoeOpcode::of_code(code),
    {
        match code {
            1 => Ok(FoeOpcode::ReadRequest),
            2 => Ok(FoeOpcode::WriteRequest),
            3 => Ok(FoeOpcode::Data),
            4 => Ok(FoeOpcode::Ack),
            5 => Ok(FoeOpcode::Error),
            6 => Ok(FoeOpcode::Busy),
            _ => Err(CodecError::InvalidValue),
        }
    }
}

impl WireRead for FoeOpcode {
    open spec fn unpacked(buf: Seq<u8>) -> Result<Self, CodecError> {
        if buf.len() >= 1 {
            FoeOpcode::of_code(buf[0])
        } else {
            Err(CodecError::ReadBufferTooShort)
        }
    }

    fn unpack_from_slice(buf: &[u8]) -> (r: Result<Self, CodecError>) {
        if buf.len() < 1 {
            return Err(CodecError::ReadBufferTooShort);
        }
        FoeOpcode::from_wire_code(buf[0])
    }
}

impl WireWrite for FoeOpcode {
    open spec fn packed(&self) -> Seq<u8> {
        seq![self.code()]
    }

    fn packed_len(&self) -> (len: usize) {
        FoeOpcode::PACKED_LEN
    }

    fn pack_to_slice_unchecked<'buf>(&self, buf: &'buf mut [u8]) -> (out: &'buf [u8]) {
        let code = [self.wire_code()];
        assert(code@ == self.packed());
        code.pack_to_slice_unchecked(buf)
    }
}

/// The six bytes ahead of every FoE payload (ETG.1000.6 §5.5).
#[derive(Clone, Copy, Debug, PartialEq, Eq, Structural)]
pub struct FoeHeader {
    /// The opcode identifying this frame.
    pub opcode: FoeOpcode,
    /// Password on a read/write request, packet number on data and ack, error code on an error,
    /// and the completed-byte count on busy.
    pub argument: u32,
}

impl FoeHeader {
    /// Bytes of a packed FoE header.
    pub const PACKED_LEN: usize = 6;
}

impl WireRead for FoeHeader {
    /// Byte 0 holds the opcode and bytes 2 to 5 the argument. Byte 1 is not looked at.
    open spec fn unpacked(buf: Seq<u8>) -> Result<Self, CodecError> {
        if buf.len() < FoeHeader::PACKED_LEN {
            Err(CodecError::ReadBufferTooShort)
        } else {
            match FoeOpcode::of_code(buf[0]) {
                Ok(opcode) => Ok(FoeHeader { opcode, argument: le_u32(buf.skip(2)) }),
                Err(e) => Err(e),
            }
        }
    }

    fn unpack_from_slice(buf: &[u8]) -> (r: Result<Self, CodecError>) {
        if buf.len() < FoeHeader::PACKED_LEN {
            return Err(CodecError::ReadBufferTooShort);
        }
        let opcode = match FoeOpcode::from_wire_code(buf[0]) {
            Ok(opcode) => opcode,
            Err(e) => return Err(e),
        };
        match unpack_u32(&buf[2..6]) {
            Ok(argument) => Ok(FoeHeader { opcode, argument }),
            Err(_) => Err(CodecError::ReadBufferTooShort),
        }
    }
}

impl WireWrite for FoeHeader {
    /// Opcode, a reserved byte that is always zero, then the argument.
    open spec fn packed(&self) -> Seq<u8> {
        seq![self.opcode.code(), 0u8] + u32_le(self.argument)
    }

    fn packed_len(&self) -> (len: usize) {
        FoeHeader::PACKED_LEN
    }

    fn pack_to_slice_unchecked<'buf>(&self, buf: &'buf mut [u8]) -> (out: &'buf [u8]) {
        let (head, _rest) = buf.split_at_mut(FoeHeader::PACKED_LEN);
        let (start, argument) = head.split_at_mut(2);
        start[0] = self.opcode.wire_code();
        start[1] = 0;
        pack_u32(self.argument, argument);
        assert(head@ == self.packed());
        head
    }
}

/// An FoE frame ready to send: the FoE header plus a borrowed body, packed in place.
///
/// Used as the body of a [`MailboxFrame`](crate::MailboxFrame), so the mailbox header, FoE header
/// and a borrowed file chunk all pack straight into the send buffer.
#[derive(Clone, Copy, Debug)]
pub struct FoeFrame<'a> {
    /// The 6-byte FoE header.
    pub header: FoeHeader,
    /// The FoE payload: a file name (RRQ/WRQ), a file chunk (DATA), or empty (ACK).
    pub body: &'a [u8],
}

impl<'a> WireWrite for FoeFrame<'a> {
    open spec fn packed(&self) -> Seq<u8> {
        self.header.packed() + self.body@
    }

    fn packed_len(&self) -> (len: usize) {
        FOE_HEADER_LEN + self.body.len()
    }

    fn pack_to_slice_unchecked<'buf>(&self, buf: &'buf mut [u8]) -> (out: &'buf [u8]) {
        let header_len: usize = FOE_HEADER_LEN;
        let (head, tail) = buf.split_at_mut(header_len);
        self.header.pack_to_slice_unchecked(head);
        pack_bytes(self.body, tail);
        assert(buf@ == self.packed() + old(buf)@.skip(self.packed().len() as int));
        assert(header_len + self.body.len() <= buf.len());
        let out = &buf[0..header_len + self.body.len()];
        assert(out@ == self.packed());
        out
    }
}

/// The reply is a `Busy`.
pub open spec fn is_busy(reply: Seq<u8>) -> bool {
    FoeHeader::unpacked(reply) matches Ok(header) && header.opcode == FoeOpcode::Busy
}

/// Every opcode read back from its wire form is the same opcode.
pub proof fn law_foe_opcode_roundtrip(opcode: FoeOpcode, rest: Seq<u8>)
    ensures
        FoeOpcode::unpacked(opcode.packed() + rest) == Ok::<FoeOpcode, CodecError>(opcode),
{
}

/// Every FoE header read back from its wire form is the same header, whatever follows it.
pub proof fn law_foe_header_roundtrip(header: FoeHeader, rest: Seq<u8>)
    ensures
        header.packed().len() == FoeHeader::PACKED_LEN,
        FoeHeader::unpacked(header.packed() + rest) == Ok::<FoeHeader, CodecError>(header),
{
}

/// Writing back an FoE header that was read gives the bytes it was read from, with the reserved
/// byte zeroed.
pub proof fn law_foe_header_rewrite(buf: Seq<u8>)
    ensures
        FoeHeader::unpacked(buf) matches Ok(header) ==> header.packed() == seq![
            buf[0],
            0u8,
            buf[2],
            buf[3],
            buf[4],
            buf[5],
        ],
{
}

/// An FoE header is refused exactly where there are fewer than six bytes, or where the first byte
/// is no opcode.
pub proof fn law_foe_header_refused(buf: Seq<u8>)
    ensures
        FoeHeader::unpacked(buf) == Err::<FoeHeader, CodecError>(CodecError::ReadBufferTooShort)
            <==> buf.len() < FoeHeader::PACKED_LEN,
        FoeHeader::unpacked(buf) == Err::<FoeHeader, CodecError>(CodecError::InvalidValue)
            <==> buf.len() >= FoeHeader::PACKED_LEN && !(1 <= buf[0] <= 6),
{
}

/// Every FoE frame spends six bytes on its header, and what it has left of a mailbox payload is the
/// rest. The hundredth `Busy` in a row is the last one tolerated.
pub proof fn law_sizes(mailbox_payload: usize)
    ensures
        FOE_HEADER_LEN == 6,
        FoeHeader::PACKED_LEN == 6,
        MAX_BUSY_REPLIES == 100,
        mailbox_payload >= 6 ==> capacity(mailbox_payload) + 6 == mailbox_payload,
        mailbox_payload < 6 ==> capacity(mailbox_payload) == 0,
{
}

/// The opcodes are numbered from 1 to 6, in one byte. No other number stands for one.
pub proof fn law_foe_opcode_codes(opcode: FoeOpcode, code: u8, buf: Seq<u8>)
    ensures
        FoeOpcode::PACKED_LEN == 1,
        opcode.packed().len() == 1,
        opcode.packed()[0] == opcode.code(),
        opcode.code() == 1 <==> opcode == FoeOpcode::ReadRequest,
        opcode.code() == 2 <==> opcode == FoeOpcode::WriteRequest,
        opcode.code() == 3 <==> opcode == FoeOpcode::Data,
        opcode.code() == 4 <==> opcode == FoeOpcode::Ack,
        opcode.code() == 5 <==> opcode == FoeOpcode::Error,
        opcode.code() == 6 <==> opcode == FoeOpcode::Busy,
        1 <= code <= 6 ==> (FoeOpcode::of_code(code) matches Ok(o) && o.code() == code),
        code < 1 || 6 < code ==> FoeOpcode::of_code(code) == Err::<FoeOpcode, CodecError>(
            CodecError::InvalidValue,
        ),
        buf.len() == 0 ==> FoeOpcode::unpacked(buf) == Err::<FoeOpcode, CodecError>(
            CodecError::ReadBufferTooShort,
        ),
        buf.len() > 0 && 1 <= buf[0] <= 6 ==> (FoeOpcode::unpacked(buf) matches Ok(o) && o.code()
            == buf[0]),
        buf.len() > 0 && !(1 <= buf[0] <= 6) ==> FoeOpcode::unpacked(buf) == Err::<
            FoeOpcode,
            CodecError,
        >(CodecError::InvalidValue),
{
}

/// Where the fields of an FoE header lie, byte by byte: the opcode in byte 0, a zero in byte 1, the
/// argument in bytes 2 to 5 with its low byte first.
pub proof fn law_foe_header_layout(header: FoeHeader)
    ensures
        header.packed().len() == 6,
        header.packed()[0] == header.opcode.code(),
        header.packed()[1] == 0,
        header.packed()[2] == header.argument % 256,
        header.packed()[3] == header.argument / 256 % 256,
        header.packed()[4] == header.argument / 65536 % 256,
        header.packed()[5] == header.argument / 16777216,
{
}

/// What each field of a header that was read says of the bytes it was read from, and which bytes
/// are a header at all.
pub proof fn law_foe_header_fields(buf: Seq<u8>)
    ensures
        FoeHeader::unpacked(buf) is Ok <==> buf.len() >= 6 && 1 <= buf[0] <= 6,
        FoeHeader::unpacked(buf) matches Ok(header) ==> {
            &&& header.opcode.code() == buf[0]
            &&& header.argument == buf[2] + 256 * buf[3] + 65536 * buf[4] + 16777216 * buf[5]
        },
        is_busy(buf) <==> buf.len() >= 6 && buf[0] == 6,
{
}

/// The bytes of a frame are the six of its header and then its body.
pub proof fn law_foe_frame_layout<'a>(frame: FoeFrame<'a>)
    ensures
        frame.packed().len() == 6 + frame.body@.len(),
        forall|i: int| 0 <= i < 6 ==> frame.packed()[i] == frame.header.packed()[i],
        forall|i: int|
            0 <= i < frame.body@.len() ==> frame.packed()[6 + i] == #[trigger] frame.body@[i],
{
}

} // verus!
