//! What the two ends of a transfer, and the mailbox between them, amount to together.

use crate::error::{Error, FoeError};
use crate::foe::read::{Event, ReadState};
use crate::foe::write::{
    law_only_final_packet_is_short, law_packets_are_the_file, Progress, WriteState,
};
use crate::foe::{law_foe_header_roundtrip, FoeFrame, FoeHeader, FOE_HEADER_LEN};
use crate::raw_mailbox::{law_frame_roundtrip, parsed_frame, MailboxFrame, MailboxHeader};
use crate::wire::{CodecError, WireRead, WireWrite};
use vstd::prelude::*;

verus! {

/// An FoE frame that travels as the body of a mailbox frame is found in the window it arrives in:
/// the mailbox header, then in the body the FoE header and all of the FoE payload.
pub proof fn law_foe_frame_in_mailbox<'a>(frame: MailboxFrame<FoeFrame<'a>>, padding: Seq<u8>)
    requires
        frame.header.length == frame.body.packed().len(),
        frame.header.counter <= 7,
    ensures
        parsed_frame(frame.packed() + padding) == Ok::<(MailboxHeader, Seq<u8>), Error>(
            (frame.header, frame.body.packed()),
        ),
        FoeHeader::unpacked(frame.body.packed()) == Ok::<FoeHeader, CodecError>(frame.body.header),
        frame.body.packed().skip(FOE_HEADER_LEN as int) == frame.body.body@,
{
    law_frame_roundtrip(frame, padding);
    law_foe_header_roundtrip(frame.body.header, frame.body.body@);
}

/// Each packet of a write, fed to a read of the same capacity whose turn it is, is taken for what
/// it is: content with more to come, or the end of the file if it is the final packet. The frame
/// that the read then sends, fed back to the write, acknowledges that packet.
pub proof fn law_lockstep(write: WriteState, read: ReadState)
    requires
        write.wf(),
        read.wf(),
        write.capacity == read.capacity,
        write.capacity > 0,
        0 < write.sent <= write.packets(),
        write.sent == read.received + 1,
    ensures
        write.sent < write.packets() ==> read.outcome(write.frame()) == Ok::<Event, FoeError>(
            Event::Chunk(write.chunk(write.sent)),
        ),
        write.sent == write.packets() ==> read.outcome(write.frame()) == Ok::<Event, FoeError>(
            Event::Last(write.chunk(write.sent)),
        ),
        read.after(write.frame()) == (ReadState { received: write.sent, busy: 0, ..read }),
        ({
            let answer = read.after(write.frame()).frame();
            &&& write.is_ack(answer)
            &&& write.sent < write.packets() ==> {
                &&& write.outcome(answer) == Ok::<Progress, FoeError>(Progress::More)
                &&& write.after(answer) == WriteState { sent: write.sent + 1, busy: 0, ..write }
            }
            &&& write.sent == write.packets() ==> write.outcome(answer) == Ok::<
                Progress,
                FoeError,
            >(Progress::Done)
        }),
{
    law_only_final_packet_is_short(write, write.sent);
    law_foe_header_roundtrip(write.frame_header(), write.frame_body());
    assert(write.frame().skip(FOE_HEADER_LEN as int) == write.chunk(write.sent));
    let next = read.after(write.frame());
    law_foe_header_roundtrip(next.frame_header(), next.frame_body());
}

/// The frames of the first `packets` packets of a write.
pub open spec fn data_frames(write: WriteState, packets: nat) -> Seq<Seq<u8>> {
    Seq::new(packets, |i: int| (WriteState { sent: (i + 1) as nat, ..write }).frame())
}

/// What a read has collected after the first packets of a write is their content.
proof fn lemma_collected(write: WriteState, read: ReadState, packets: nat)
    requires
        write.capacity == read.capacity,
        write.capacity > 0,
        read.received == 0,
        packets <= write.packets(),
        packets < u32::MAX,
    ensures
        read.run(data_frames(write, packets)).received == packets,
        read.run(data_frames(write, packets)).capacity == read.capacity,
        read.collected(data_frames(write, packets)) == write.content(packets),
    decreases packets,
{
    if packets > 0 {
        let before = (packets - 1) as nat;
        lemma_collected(write, read, before);
        let frames = data_frames(write, packets);
        let staged = WriteState { sent: packets, ..write };
        assert(frames.drop_last() == data_frames(write, before));
        assert(frames.last() == staged.frame());
        law_foe_header_roundtrip(staged.frame_header(), staged.frame_body());
        assert(staged.frame().skip(FOE_HEADER_LEN as int) == staged.chunk(packets));
        assert(staged.chunk(packets) == write.chunk(packets));
    }
}

/// A read fed the packets of a write of the same capacity collects the file that was written.
pub proof fn law_file_arrives(write: WriteState, read: ReadState)
    requires
        write.capacity == read.capacity,
        write.capacity > 0,
        read.received == 0,
        write.packets() < u32::MAX,
    ensures
        read.collected(data_frames(write, write.packets())) == write.data,
{
    lemma_collected(write, read, write.packets());
    law_packets_are_the_file(write);
}

} // verus!
