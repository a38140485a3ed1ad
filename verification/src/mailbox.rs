//! The fields of a mailbox header that are drawn from a fixed list of codes (ETG.1000.4).

use crate::wire::{CodecError, WireRead, WireWrite};
use vstd::prelude::*;

verus! {

/// Mailbox message priority (ETG.1000.4).
#[derive(Clone, Copy, Debug, PartialEq, Eq, Structural)]
pub enum Priority {
    /// Lowest priority.
    Lowest,
    /// Low priority.
    Low,
    /// High priority.
    High,
    /// Highest priority.
    Highest,
}

impl Priority {
    /// Bytes of a packed priority.
    pub const PACKED_LEN: usize = 1;

    /// The code of this priority on the wire.
    pub fn wire_code(self) -> (r: u8)
        ensures
            r == self.code(),
    {
        match self {
            Priority::Lowest => 0,
            Priority::Low => 1,
            Priority::High => 2,
            Priority::Highest => 3,
        }
    }

    /// The code of this priority on the wire.
    pub open spec fn code(self) -> u8 {
        match self {
            Priority::Lowest => 0,
            Priority::Low => 1,
            Priority::High => 2,
            Priority::Highest => 3,
        }
    }

    /// The priority with the given code; a code without one counts as the lowest.
    pub open spec fn of_code(code: u8) -> Self {
        match code {
            1 => Priority::Low,
            2 => Priority::High,
            3 => Priority::Highest,
            _ => Priority::Lowest,
        }
    }

    /// The priority with the given code; a code without one counts as the lowest.
    pub fn from_wire_code(code: u8) -> (r: Self)
        ensures
            r == Priority::of_code(code),
    {
        match code {
            1 => Priority::Low,
            2 => Priority::High,
            3 => Priority::Highest,
            _ => Priority::Lowest,
        }
    }
}

impl Default for Priority {
    fn default() -> (r: Self)
        ensures
            r == Priority::Lowest,
    {
        Priority::Lowest
    }
}

impl WireRead for Priority {
    open spec fn unpacked(buf: Seq<u8>) -> Result<Self, CodecError> {
        if buf.len() >= 1 {
            Ok(Priority::of_code(buf[0]))
        } else {
            Err(CodecError::ReadBufferTooShort)
        }
    }

    fn unpack_from_slice(buf: &[u8]) -> (r: Result<Self, CodecError>) {
        if buf.len() < 1 {
            return Err(CodecError::ReadBufferTooShort);
        }
        Ok(Priority::from_wire_code(buf[0]))
    }
}

impl WireWrite for Priority {
    open spec fn packed(&self) -> Seq<u8> {
        seq![self.code()]
    }

    fn packed_len(&self) -> (len: usize) {
        Priority::PACKED_LEN
    }

    fn pack_to_slice_unchecked<'buf>(&self, buf: &'buf mut [u8]) -> (out: &'buf [u8]) {
        let code = [self.wire_code()];
        assert(code@ == self.packed());
        code.pack_to_slice_unchecked(buf)
    }
}

/// Mailbox protocol carried in the mailbox data (ETG.1000.4 mailbox type).
///
/// Its number on the wire is what [`wire_code`](Self::wire_code) gives, not what a cast gives.
#[derive(Clone, Copy, Debug, PartialEq, Eq, Structural)]
pub enum MailboxType {
    /// error (ERR)
    Error,
    /// ADS over EtherCAT (AoE)
    Aoe,
    /// Ethernet over EtherCAT (EoE)
    Eoe,
    /// CAN application protocol over EtherCAT (CoE)
    Coe,
    /// File Access over EtherCAT (FoE)
    Foe,
    /// Servo profile over EtherCAT (SoE)
    Soe,
    /// Vendor specific
    VendorSpecific,
}

impl MailboxType {
    /// Bytes of a packed mailbox type.
    pub const PACKED_LEN: usize = 1;

    /// The code of this protocol on the wire.
    pub fn wire_code(self) -> (r: u8)
        ensures
            r == self.code(),
    {
        match self {
            MailboxType::Error => 0x00,
            MailboxType::Aoe => 0x01,
            MailboxType::Eoe => 0x02,
            MailboxType::Coe => 0x03,
            MailboxType::Foe => 0x04,
            MailboxType::Soe => 0x05,
            MailboxType::VendorSpecific => 0x0f,
        }
    }

    /// The code of this protocol on the wire.
    pub open spec fn code(self) -> u8 {
        match self {
            MailboxType::Error => 0x00,
            MailboxType::Aoe => 0x01,
            MailboxType::Eoe => 0x02,
            MailboxType::Coe => 0x03,
            MailboxType::Foe => 0x04,
            MailboxType::Soe => 0x05,
            MailboxType::VendorSpecific => 0x0f,
        }
    }

    /// The protocol with the given code. The codes from 0x06 to 0x0e are reserved.
    pub open spec fn of_code(code: u8) -> Result<Self, CodecError> {
        match code {
            0x00 => Ok(MailboxType::Error),
            0x01 => Ok(MailboxType::Aoe),
            0x02 => Ok(MailboxType::Eoe),
            0x03 => Ok(MailboxType::Coe),
            0x04 => Ok(MailboxType::Foe),
            0x05 => Ok(MailboxType::Soe),
            0x0f => Ok(MailboxType::VendorSpecific),
            _ => Err(CodecError::InvalidValue),
        }
    }

    /// The protocol with the given code. The codes from 0x06 to 0x0e are reserved.
    pub fn from_wire_code(code: u8) -> (r: Result<Self, CodecError>)
        ensures
            r == MailboxType::of_code(code),
    {
        match code {
            0x00 => Ok(MailboxType::Error),
            0x01 => Ok(MailboxType::Aoe),
            0x02 => Ok(MailboxType::Eoe),
            0x03 => Ok(MailboxType::Coe),
            0x04 => Ok(MailboxType::Foe),
            0x05 => Ok(MailboxType::Soe),
            0x0f => Ok(MailboxType::VendorSpecific),
            _ => Err(CodecError::InvalidValue),
        }
    }
}

impl WireRead for MailboxType {
    open spec fn unpacked(buf: Seq<u8>) -> Result<Self, CodecError> {
        if buf.len() >= 1 {
            MailboxType::of_code(buf[0])
        } else {
            Err(CodecError::ReadBufferTooShort)
        }
    }

    fn unpack_from_slice(buf: &[u8]) -> (r: Result<Self, CodecError>) {
        if buf.len() < 1 {
            return Err(CodecError::ReadBufferTooShort);
        }
        MailboxType::from_wire_code(buf[0])
    }
}

impl WireWrite for MailboxType {
    open spec fn packed(&self) -> Seq<u8> {
        seq![self.code()]
    }

    fn packed_len(&self) -> (len: usize) {
        MailboxType::PACKED_LEN
    }

    fn pack_to_slice_unchecked<'buf>(&self, buf: &'buf mut [u8]) -> (out: &'buf [u8]) {
        let code = [self.wire_code()];
        assert(code@ == self.packed());
        code.pack_to_slice_unchecked(buf)
    }
}

/// Every priority read back from its wire form is the same priority.
pub proof fn law_priority_roundtrip(priority: Priority, rest: Seq<u8>)
    ensures
        Priority::unpacked(priority.packed() + rest) == Ok::<Priority, CodecError>(priority),
{
}

/// Every mailbox type read back from its wire form is the same mailbox type.
pub proof fn law_mailbox_type_roundtrip(mailbox_type: MailboxType, rest: Seq<u8>)
    ensures
        MailboxType::unpacked(mailbox_type.packed() + rest) == Ok::<MailboxType, CodecError>(
            mailbox_type,
        ),
{
}

/// The priorities are numbered from 0 to 3 in rising order, in one byte. Any other number is read as
/// the lowest.
pub proof fn law_priority_codes(priority: Priority, code: u8, buf: Seq<u8>)
    ensures
        Priority::PACKED_LEN == 1,
        priority.packed().len() == 1,
        priority.packed()[0] == priority.code(),
        priority.code() == 0 <==> priority == Priority::Lowest,
        priority.code() == 1 <==> priority == Priority::Low,
        priority.code() == 2 <==> priority == Priority::High,
        priority.code() == 3 <==> priority == Priority::Highest,
        Priority::of_code(code) == Priority::Lowest <==> code == 0 || code > 3,
        Priority::of_code(code) == Priority::Low <==> code == 1,
        Priority::of_code(code) == Priority::High <==> code == 2,
        Priority::of_code(code) == Priority::Highest <==> code == 3,
        buf.len() == 0 ==> Priority::unpacked(buf) == Err::<Priority, CodecError>(
            CodecError::ReadBufferTooShort,
        ),
        buf.len() > 0 && buf[0] <= 3 ==> (Priority::unpacked(buf) matches Ok(p) && p.code()
            == buf[0]),
        buf.len() > 0 && buf[0] > 3 ==> Priority::unpacked(buf) == Ok::<Priority, CodecError>(
            Priority::Lowest,
        ),
{
}

/// The protocols have the numbers 0 to 5 and 15, in one byte. No other number stands for one.
pub proof fn law_mailbox_type_codes(mailbox_type: MailboxType, code: u8, buf: Seq<u8>)
    ensures
        MailboxType::PACKED_LEN == 1,
        mailbox_type.packed().len() == 1,
        mailbox_type.packed()[0] == mailbox_type.code(),
        mailbox_type.code() == 0 <==> mailbox_type == MailboxType::Error,
        mailbox_type.code() == 1 <==> mailbox_type == MailboxType::Aoe,
        mailbox_type.code() == 2 <==> mailbox_type == MailboxType::Eoe,
        mailbox_type.code() == 3 <==> mailbox_type == MailboxType::Coe,
        mailbox_type.code() == 4 <==> mailbox_type == MailboxType::Foe,
        mailbox_type.code() == 5 <==> mailbox_type == MailboxType::Soe,
        mailbox_type.code() == 15 <==> mailbox_type == MailboxType::VendorSpecific,
        code <= 5 || code == 15 ==> (MailboxType::of_code(code) matches Ok(t) && t.code() == code),
        5 < code < 15 || 15 < code ==> MailboxType::of_code(code) == Err::<MailboxType, CodecError>(
            CodecError::InvalidValue,
        ),
        buf.len() == 0 ==> MailboxType::unpacked(buf) == Err::<MailboxType, CodecError>(
            CodecError::ReadBufferTooShort,
        ),
        buf.len() > 0 && (buf[0] <= 5 || buf[0] == 15) ==> (MailboxType::unpacked(buf) matches Ok(t)
            && t.code() == buf[0]),
        buf.len() > 0 && (5 < buf[0] < 15 || 15 < buf[0]) ==> MailboxType::unpacked(buf) == Err::<
            MailboxType,
            CodecError,
        >(CodecError::InvalidValue),
{
}

} // verus!
