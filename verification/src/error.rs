//! Errors of the mailbox channel and of FoE transfers.

use crate::foe::FoeOpcode;
use crate::wire::CodecError;
use vstd::prelude::*;

verus! {

/// A mailbox frame could not be read.
#[derive(Clone, Copy, Debug, PartialEq, Eq)]
pub enum Error {
    /// The mailbox window and the frame in it do not fit together.
    Mailbox(MailboxError),
    /// The bytes on the wire do not encode the value that was asked for.
    Wire(CodecError),
}

impl From<CodecError> for Error {
    fn from(value: CodecError) -> (ret: Self) {
        Error::Wire(value)
    }
}

impl vstd::std_specs::convert::FromSpecImpl<CodecError> for Error {
    open spec fn obeys_from_spec() -> bool {
        true
    }

    open spec fn from_spec(value: CodecError) -> Self {
        Error::Wire(value)
    }
}

/// What is wrong with a mailbox exchange.
#[derive(Clone, Copy, Debug, PartialEq, Eq)]
pub enum MailboxError {
    /// The data is longer than the buffer meant to hold it.
    TooLong {
        /// Address of the object that was transferred; zero for a raw frame.
        address: u16,
        /// Sub-index of the object that was transferred; zero for a raw frame.
        sub_index: u8,
    },
}

/// Why an FoE transfer cannot start or go on.
#[derive(Clone, Copy, Debug, PartialEq, Eq)]
pub enum FoeError {
    /// The SubDevice's mailbox has no room for the file name, or for the transfer at all.
    FileNameTooLong {
        /// Length of the file name in bytes.
        len: usize,
        /// Bytes the mailbox has left for it.
        capacity: usize,
    },
    /// The reply does not begin with an FoE header.
    Truncated {
        /// Length of the reply in bytes.
        len: usize,
    },
    /// The SubDevice answered `Busy` too many times in a row.
    BusyTimeout {
        /// Number of `Busy` replies in a row, this one counted.
        replies: u32,
    },
    /// The SubDevice refused or aborted the transfer.
    Refused {
        /// The SubDevice's error code.
        code: u32,
    },
    /// The reply bears another packet number than the one whose turn it is.
    PacketOutOfOrder {
        /// The packet number whose turn it is.
        expected: u32,
        /// The packet number received.
        got: u32,
    },
    /// The reply is of a kind that has no place in this transfer.
    UnexpectedOpcode(FoeOpcode),
}

/// A wire error is passed on as it is.
pub proof fn law_wire_error_is_kept(e: CodecError)
    ensures
        <Error as vstd::std_specs::convert::FromSpec<CodecError>>::from_spec(e) == Error::Wire(e),
{
}

} // verus!
