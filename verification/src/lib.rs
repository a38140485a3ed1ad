//! The EtherCAT mailbox channel and File over EtherCAT (FoE), with every function proved against
//! its contract, save for the few in [`wire`] that call `ethercrab-wire`: what those state of it is
//! believed.

pub mod error;
pub mod foe;
pub mod mailbox;
pub mod raw_mailbox;
pub mod wire;

pub use mailbox::{MailboxType, Priority};
pub use raw_mailbox::{MailboxFrame, MailboxHeader, MailboxMessage};
