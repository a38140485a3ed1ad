//! The FoE write (download) transfer: a state machine with no I/O.
//!
//! Fed one mailbox reply at a time, it stages the next frame to send in [`FoeWrite::frame`]. Every
//! transport detail (sync managers, polling, the mailbox counter) belongs to the caller. Nothing
//! is buffered: the request frame borrows the file name and each DATA frame borrows a slice of the
//! caller's data.
//!
//! The exchange is WRQ, ACK(0), DATA(1), ACK(1) and so on to DATA(n), ACK(n), where the final DATA
//! is shorter than a full packet. A file that is an exact multiple of the packet size therefore
//! ends with an empty DATA, so the SubDevice can always tell the last packet from a full one.

use crate::error::FoeError;
use crate::foe::{
    capacity, is_busy, law_foe_header_fields, law_foe_header_layout, law_foe_header_rewrite,
    law_foe_header_roundtrip, FoeFrame, FoeHeader, FoeOpcode, FOE_HEADER_LEN, MAX_BUSY_REPLIES,
};
use crate::wire::{WireRead, WireWrite};
use vstd::prelude::*;
use vstd::string::StringSliceAdditionalSpecFns;

verus! {

/// What one reply advanced the transfer to.
#[derive(Clone, Copy, Debug, PartialEq, Eq)]
pub enum Progress {
    /// Send [`FoeWrite::frame`] (the next DATA packet), then read the next reply.
    More,
    /// The final packet was acknowledged; the download is complete. Stop.
    Done,
    /// The SubDevice is still working; resend [`FoeWrite::frame`].
    Busy,
}

/// How far a write has got.
pub struct WriteState {
    /// The bytes of the file name.
    pub name: Seq<u8>,
    /// The password sent with the request.
    pub password: u32,
    /// The content of the file.
    pub data: Seq<u8>,
    /// File bytes one `Data` frame can carry.
    pub capacity: nat,
    /// Packets staged so far; the last of them bears this number.
    pub sent: nat,
    /// `Busy` replies since the last acknowledgement.
    pub busy: nat,
}

impl WriteState {
    /// A write that has only just begun.
    pub open spec fn begin(name: Seq<u8>, password: u32, data: Seq<u8>, capacity: nat) -> Self {
        WriteState { name, password, data, capacity, sent: 0, busy: 0 }
    }

    /// The name fits the mailbox, content comes in packets that can hold some of it, only full
    /// packets come before the one staged last, and the counters fit in 32 bits with the number of
    /// the next packet.
    pub open spec fn wf(self) -> bool {
        &&& self.name.len() <= self.capacity
        &&& self.data.len() > 0 ==> self.capacity > 0
        &&& self.sent > 0 ==> (self.sent - 1) * self.capacity <= self.data.len()
        &&& self.sent < u32::MAX
        &&& self.busy <= u32::MAX
    }

    /// Where in the file the first `packets` packets end.
    pub open spec fn end_of(self, packets: nat) -> int {
        if packets * self.capacity <= self.data.len() {
            packets * self.capacity as int
        } else {
            self.data.len() as int
        }
    }

    /// The content of the packet with the given number.
    pub open spec fn chunk(self, packet: nat) -> Seq<u8>
        recommends
            packet > 0,
    {
        self.data.subrange(self.end_of((packet - 1) as nat), self.end_of(packet))
    }

    /// The header of the frame to send: the write request before the first packet, then that of the
    /// packet staged last.
    pub open spec fn frame_header(self) -> FoeHeader {
        if self.sent == 0 {
            FoeHeader { opcode: FoeOpcode::WriteRequest, argument: self.password }
        } else {
            FoeHeader { opcode: FoeOpcode::Data, argument: self.sent as u32 }
        }
    }

    /// The body of the frame to send: the file name in the request, then the content of the packet
    /// staged last.
    pub open spec fn frame_body(self) -> Seq<u8> {
        if self.sent == 0 {
            self.name
        } else {
            self.chunk(self.sent)
        }
    }

    /// The bytes of the frame to send.
    pub open spec fn frame(self) -> Seq<u8> {
        self.frame_header().packed() + self.frame_body()
    }

    /// The packet staged last is shorter than a full one, which makes it the final one. The request
    /// is never final.
    pub open spec fn is_final(self) -> bool {
        self.sent > 0 && self.chunk(self.sent).len() < self.capacity
    }

    /// The reply acknowledges the frame that was sent; the request counts as packet zero.
    pub open spec fn is_ack(self, reply: Seq<u8>) -> bool {
        acknowledges(reply, self.sent)
    }

    /// Counting the reply does not take a 32 bit counter past its end.
    pub open spec fn has_room_for(self, reply: Seq<u8>) -> bool {
        &&& is_busy(reply) ==> self.busy < u32::MAX
        &&& self.is_ack(reply) && !self.is_final() ==> self.sent + 2 <= u32::MAX
    }

    /// The state that the reply leads to.
    pub open spec fn after(self, reply: Seq<u8>) -> Self {
        if is_busy(reply) {
            WriteState { busy: self.busy + 1, ..self }
        } else if self.is_ack(reply) {
            if self.is_final() {
                WriteState { busy: 0, ..self }
            } else {
                WriteState { sent: self.sent + 1, busy: 0, ..self }
            }
        } else {
            self
        }
    }

    /// What the caller is told of the reply.
    pub open spec fn outcome(self, reply: Seq<u8>) -> Result<Progress, FoeError> {
        match FoeHeader::unpacked(reply) {
            Err(_) => Err(FoeError::Truncated { len: reply.len() as usize }),
            Ok(header) => match header.opcode {
                FoeOpcode::Busy => if self.busy < MAX_BUSY_REPLIES {
                    Ok(Progress::Busy)
                } else {
                    Err(FoeError::BusyTimeout { replies: (self.busy + 1) as u32 })
                },
                FoeOpcode::Error => Err(FoeError::Refused { code: header.argument }),
                FoeOpcode::Ack => if header.argument != self.sent {
                    Err(
                        FoeError::PacketOutOfOrder {
                            expected: self.sent as u32,
                            got: header.argument,
                        },
                    )
                } else if self.is_final() {
                    Ok(Progress::Done)
                } else {
                    Ok(Progress::More)
                },
                _ => Err(FoeError::UnexpectedOpcode(header.opcode)),
            },
        }
    }
}

impl WriteState {
    /// The state that a series of replies leads to.
    pub open spec fn run(self, replies: Seq<Seq<u8>>) -> Self
        decreases replies.len(),
    {
        if replies.len() == 0 {
            self
        } else {
            self.run(replies.drop_last()).after(replies.last())
        }
    }

    /// The number of packets the file takes: as many as its content fills, and a final one that is
    /// not full.
    pub open spec fn packets(self) -> nat
        recommends
            self.capacity > 0,
    {
        self.data.len() / self.capacity + 1
    }

    /// The content of the first `packets` packets, put together.
    pub open spec fn content(self, packets: nat) -> Seq<u8>
        decreases packets,
    {
        if packets == 0 {
            Seq::empty()
        } else {
            self.content((packets - 1) as nat) + self.chunk(packets)
        }
    }
}

/// The reply acknowledges the packet with the given number, whatever else it holds.
pub open spec fn acknowledges(reply: Seq<u8>, packet: nat) -> bool {
    FoeHeader::unpacked(reply) matches Ok(header) && header.opcode == FoeOpcode::Ack
        && header.argument == packet
}

/// The acknowledgement of the packet with the given number.
pub open spec fn ack(packet: nat) -> Seq<u8> {
    FoeHeader { opcode: FoeOpcode::Ack, argument: packet as u32 }.packed()
}

/// The acknowledgements of the request and of every packet before the one with the given number.
pub open spec fn acks_before(packet: nat) -> Seq<Seq<u8>> {
    Seq::new(packet, |i: int| ack(i as nat))
}

/// Where the packets of a file begin and end.
proof fn lemma_packet_bounds(state: WriteState, packet: nat)
    requires
        state.capacity > 0,
    ensures
        packet < state.packets() <==> packet * state.capacity <= state.data.len(),
        packet > 0 ==> packet * state.capacity == (packet - 1) * state.capacity + state.capacity,
        state.data.len() == (state.packets() - 1) * state.capacity + state.data.len()
            % state.capacity,
{
    let len = state.data.len() as int;
    let cap = state.capacity as int;
    let full = len / cap;
    let k = packet as int;
    vstd::arithmetic::div_mod::lemma_fundamental_div_mod(len, cap);
    assert(full * cap == cap * full) by (nonlinear_arith);
    assert(k * cap == (k - 1) * cap + cap) by (nonlinear_arith);
    if k <= full {
        assert(k * cap <= full * cap) by (nonlinear_arith)
            requires
                k <= full,
                cap > 0,
        ;
    } else {
        assert(k * cap >= full * cap + cap) by (nonlinear_arith)
            requires
                k >= full + 1,
                cap > 0,
        ;
    }
}

/// Every packet of a file but the final one is full, and the final one is not: it holds what is
/// left, which is nothing where the file is an exact multiple of the packet size.
pub proof fn law_only_final_packet_is_short(state: WriteState, packet: nat)
    requires
        state.capacity > 0,
        0 < packet <= state.packets(),
    ensures
        packet < state.packets() ==> state.chunk(packet).len() == state.capacity,
        packet == state.packets() ==> state.chunk(packet).len() == state.data.len()
            % state.capacity,
        state.chunk(state.packets()).len() < state.capacity,
{
    lemma_packet_bounds(state, packet);
    lemma_packet_bounds(state, (packet - 1) as nat);
    lemma_packet_bounds(state, state.packets());
    lemma_packet_bounds(state, (state.packets() - 1) as nat);
}

/// The first packets together hold the beginning of the file.
proof fn lemma_content_is_prefix(state: WriteState, packets: nat)
    requires
        state.capacity > 0,
    ensures
        0 <= state.end_of(packets) <= state.data.len(),
        state.content(packets) == state.data.subrange(0, state.end_of(packets)),
    decreases packets,
{
    if packets > 0 {
        lemma_content_is_prefix(state, (packets - 1) as nat);
        lemma_packet_bounds(state, packets);
    }
}

/// The packets put together are the file.
pub proof fn law_packets_are_the_file(state: WriteState)
    requires
        state.capacity > 0,
    ensures
        state.content(state.packets()) == state.data,
{
    lemma_content_is_prefix(state, state.packets());
    lemma_packet_bounds(state, state.packets());
}

/// The exchange: answered by an acknowledgement of each frame in turn, a write sends the request
/// and then its packets by number, and after the acknowledgement of the final packet it is done.
/// What the replies hold besides their opcode and number makes no difference.
pub proof fn law_exchange_with_any_acks(state: WriteState, acks: Seq<Seq<u8>>, next: Seq<u8>)
    requires
        state.wf(),
        state.sent == 0,
        state.busy == 0,
        state.capacity > 0,
        acks.len() <= state.packets(),
        state.packets() < u32::MAX,
        forall|i: int| 0 <= i < acks.len() ==> acknowledges(#[trigger] acks[i], i as nat),
        acknowledges(next, acks.len()),
    ensures
        ({
            let staged = state.run(acks);
            &&& staged == WriteState { sent: acks.len(), ..state }
            &&& staged.wf()
            &&& staged.has_room_for(next)
            &&& acks.len() < state.packets() ==> staged.outcome(next) == Ok::<Progress, FoeError>(
                Progress::More,
            )
            &&& acks.len() == state.packets() ==> staged.outcome(next) == Ok::<Progress, FoeError>(
                Progress::Done,
            )
        }),
    decreases acks.len(),
{
    let packet = acks.len();
    let staged = WriteState { sent: packet, ..state };
    if packet > 0 {
        let before = (packet - 1) as nat;
        let earlier = acks.drop_last();
        assert(acknowledges(acks[before as int], before));
        assert forall|i: int| 0 <= i < earlier.len() implies acknowledges(
            #[trigger] earlier[i],
            i as nat,
        ) by {
            assert(acknowledges(acks[i], i as nat));
        }
        law_exchange_with_any_acks(state, earlier, acks.last());
        law_only_final_packet_is_short(state, packet);
        lemma_packet_bounds(state, before);
        assert(staged.chunk(packet) == state.chunk(packet));
        assert(staged.chunk(before) == state.chunk(before));
        if before > 0 {
            law_only_final_packet_is_short(state, before);
        }
    }
}

/// The exchange with the plainest acknowledgements, which are a header and nothing more.
pub proof fn law_exchange(state: WriteState, packet: nat)
    requires
        state.wf(),
        state.sent == 0,
        state.busy == 0,
        state.capacity > 0,
        packet <= state.packets(),
        state.packets() < u32::MAX,
    ensures
        ({
            let staged = state.run(acks_before(packet));
            &&& staged == WriteState { sent: packet, ..state }
            &&& staged.wf()
            &&& staged.has_room_for(ack(packet))
            &&& packet < state.packets() ==> staged.outcome(ack(packet)) == Ok::<
                Progress,
                FoeError,
            >(Progress::More)
            &&& packet == state.packets() ==> staged.outcome(ack(packet)) == Ok::<
                Progress,
                FoeError,
            >(Progress::Done)
        }),
{
    assert forall|i: nat| i <= packet implies acknowledges(#[trigger] ack(i), i) by {
        let header = FoeHeader { opcode: FoeOpcode::Ack, argument: i as u32 };
        law_foe_header_roundtrip(header, Seq::empty());
        assert(header.packed() + Seq::empty() == header.packed());
    }
    law_exchange_with_any_acks(state, acks_before(packet), ack(packet));
}

/// A write is done only once its packets, put together, are the whole file.
pub proof fn law_done_means_all_sent(state: WriteState, reply: Seq<u8>)
    requires
        state.wf(),
        state.capacity > 0,
        state.outcome(reply) == Ok::<Progress, FoeError>(Progress::Done),
    ensures
        state.sent == state.packets(),
        state.content(state.sent) == state.data,
        state.is_ack(reply),
{
    lemma_packet_bounds(state, state.sent);
    lemma_packet_bounds(state, (state.sent - 1) as nat);
    law_packets_are_the_file(state);
}

/// Only the acknowledgement of the frame that was sent moves the write on, and then by one packet,
/// or to its end; and it ends the count of `Busy` replies.
pub proof fn law_acks_in_order(state: WriteState, reply: Seq<u8>)
    ensures
        state.is_ack(reply) <==> (state.outcome(reply) matches Ok(progress) && progress
            != Progress::Busy),
        state.is_ack(reply) ==> {
            let next = state.after(reply);
            &&& next.busy == 0
            &&& state.is_final() ==> next.sent == state.sent
            &&& !state.is_final() ==> next.sent == state.sent + 1
        },
{
}

/// A reply that moves nothing on, be it a `Busy` or one that is refused, leaves the frame to send
/// as it was; and unless it is a `Busy`, it leaves everything as it was.
pub proof fn law_no_ack_same_frame(state: WriteState, reply: Seq<u8>)
    requires
        !state.is_ack(reply),
    ensures
        state.after(reply).frame_header() == state.frame_header(),
        state.after(reply).frame_body() == state.frame_body(),
        !is_busy(reply) ==> state.outcome(reply) is Err && state.after(reply) == state,
{
}

/// Every frame to send fits a mailbox payload that an FoE header fits.
pub proof fn law_frame_fits(state: WriteState, mailbox_payload: usize)
    requires
        state.wf(),
        state.capacity == capacity(mailbox_payload),
        mailbox_payload >= FOE_HEADER_LEN,
    ensures
        FOE_HEADER_LEN + state.frame_body().len() <= mailbox_payload,
{
    if state.sent > 0 {
        let before = state.sent - 1;
        let cap = state.capacity as int;
        assert(before * cap + cap == (before + 1) * cap) by (nonlinear_arith);
    }
}

/// `Busy` replies in a row are tolerated up to [`MAX_BUSY_REPLIES`] of them; the one after that is
/// reported as a timeout.
pub proof fn law_busy_limit(state: WriteState, replies: Seq<Seq<u8>>, next: Seq<u8>)
    requires
        state.busy == 0,
        forall|i: int| 0 <= i < replies.len() ==> is_busy(#[trigger] replies[i]),
        is_busy(next),
    ensures
        state.run(replies) == (WriteState { busy: replies.len(), ..state }),
        state.run(replies).outcome(next) == if replies.len() < MAX_BUSY_REPLIES {
            Ok::<Progress, FoeError>(Progress::Busy)
        } else {
            Err(FoeError::BusyTimeout { replies: (replies.len() + 1) as u32 })
        },
    decreases replies.len(),
{
    if replies.len() > 0 {
        let last = replies.last();
        assert(is_busy(last));
        assert forall|i: int| 0 <= i < replies.drop_last().len() implies is_busy(
            #[trigger] replies.drop_last()[i],
        ) by {
            assert(is_busy(replies[i]));
        }
        law_busy_limit(state, replies.drop_last(), last);
    }
}

/// A reply for which there is room keeps a write well formed.
proof fn lemma_after_wf(state: WriteState, reply: Seq<u8>)
    requires
        state.wf(),
        state.has_room_for(reply),
    ensures
        state.after(reply).wf(),
{
    let sent = state.sent as int;
    let cap = state.capacity as int;
    assert(0 * cap == 0) by (nonlinear_arith);
    assert((sent - 1) * cap + cap == sent * cap) by (nonlinear_arith);
}

/// A series of replies changes no more than the counters, and moves each on by at most one per
/// reply.
proof fn lemma_run_bounds(state: WriteState, replies: Seq<Seq<u8>>)
    requires
        state.wf(),
        state.sent + replies.len() < u32::MAX,
        state.busy + replies.len() <= u32::MAX,
    ensures
        ({
            let end = state.run(replies);
            &&& end.wf()
            &&& end == WriteState { sent: end.sent, busy: end.busy, ..state }
            &&& end.sent <= state.sent + replies.len()
            &&& end.busy <= state.busy + replies.len()
        }),
    decreases replies.len(),
{
    if replies.len() > 0 {
        lemma_run_bounds(state, replies.drop_last());
        lemma_after_wf(state.run(replies.drop_last()), replies.last());
    }
}

/// A write can be fed any replies at all, as long as there are fewer than 2^32 - 2 of them.
pub proof fn law_room_for_replies(
    name: Seq<u8>,
    password: u32,
    data: Seq<u8>,
    capacity: nat,
    replies: Seq<Seq<u8>>,
    next: Seq<u8>,
)
    requires
        name.len() <= capacity,
        data.len() > 0 ==> capacity > 0,
        replies.len() + 2 <= u32::MAX,
    ensures
        WriteState::begin(name, password, data, capacity).run(replies).wf(),
        WriteState::begin(name, password, data, capacity).run(replies).has_room_for(next),
{
    lemma_run_bounds(WriteState::begin(name, password, data, capacity), replies);
}

/// The frame [`FoeWrite`] wants to send next.
#[derive(Clone, Copy, Debug, PartialEq, Eq)]
enum Phase {
    /// The initial write request (names the file); the SubDevice acknowledges it as packet 0.
    Request,
    /// A data packet carrying `data[start..end]` as the given packet number.
    Data { packet: u32, start: usize, end: usize },
}

/// One FoE write (download) in progress.
pub struct FoeWrite<'file, 'data> {
    file: &'file str,
    password: u32,
    data: &'data [u8],
    /// File bytes one `Data` frame can carry. A shorter frame is the last one.
    max_data: usize,
    /// Bytes of `data` already staged into sent DATA frames.
    offset: usize,
    next_packet: u32,
    busy_replies: u32,
    phase: Phase,
}

impl<'file, 'data> View for FoeWrite<'file, 'data> {
    type V = WriteState;

    closed spec fn view(&self) -> WriteState {
        WriteState {
            name: self.file.spec_bytes(),
            password: self.password,
            data: self.data@,
            capacity: self.max_data as nat,
            sent: (self.next_packet - 1) as nat,
            busy: self.busy_replies as nat,
        }
    }
}

impl<'file, 'data> FoeWrite<'file, 'data> {
    /// The staged frame holds the packet before the next, which follows on from full packets and
    /// takes all that it can of the rest.
    #[verifier::type_invariant]
    spec fn inv(self) -> bool {
        &&& self.file.spec_bytes().len() <= self.max_data
        &&& self.data@.len() > 0 ==> self.max_data > 0
        &&& self.next_packet >= 1
        &&& self.offset <= self.data@.len()
        &&& match self.phase {
            Phase::Request => self.next_packet == 1 && self.offset == 0,
            Phase::Data { packet, start, end } => {
                &&& packet >= 1
                &&& packet + 1 == self.next_packet
                &&& start == (packet - 1) * self.max_data
                &&& start <= self.data@.len()
                &&& end == self.offset
                &&& end == if start + self.max_data <= self.data@.len() {
                    start + self.max_data
                } else {
                    self.data@.len() as int
                }
            },
        }
    }

    /// In the state that the staged packet stands for, its bounds are those of its content.
    proof fn lemma_staged(self)
        requires
            self.inv(),
        ensures
            self@.wf(),
            match self.phase {
                Phase::Request => self@.sent == 0,
                Phase::Data { packet, start, end } => {
                    &&& self@.sent == packet
                    &&& self@.end_of((packet - 1) as nat) == start
                    &&& self@.end_of(packet as nat) == end
                },
            },
    {
        if let Phase::Data { packet, start, end } = self.phase {
            let max = self.max_data as int;
            assert((packet - 1) * max + max == packet * max) by (nonlinear_arith);
        }
    }

    /// Begin a write of `data` to `file`. `mailbox_payload` is the largest FoE service payload the
    /// SubDevice's mailbox carries: its sync-manager window less the 6-byte mailbox header.
    pub fn new(
        file: &'file str,
        password: u32,
        data: &'data [u8],
        mailbox_payload: usize,
    ) -> (r: Result<Self, FoeError>)
        ensures
            file.spec_bytes().len() <= capacity(mailbox_payload) && (data@.len() > 0 ==> capacity(
                mailbox_payload,
            ) > 0) ==> {
                &&& r matches Ok(write)
                &&& write@ == WriteState::begin(
                    file.spec_bytes(),
                    password,
                    data@,
                    capacity(mailbox_payload),
                )
                &&& write@.wf()
                &&& write@.name == file.spec_bytes()
                &&& write@.password == password
                &&& write@.data == data@
                &&& mailbox_payload >= FOE_HEADER_LEN ==> FOE_HEADER_LEN + write@.capacity
                    == mailbox_payload
                &&& mailbox_payload < FOE_HEADER_LEN ==> write@.capacity == 0
                &&& write@.sent == 0
                &&& write@.busy == 0
            },
            !(file.spec_bytes().len() <= capacity(mailbox_payload) && (data@.len() > 0 ==> capacity(
                mailbox_payload,
            ) > 0)) ==> r == Err::<Self, FoeError>(
                FoeError::FileNameTooLong {
                    len: file.spec_bytes().len() as usize,
                    capacity: capacity(mailbox_payload) as usize,
                },
            ),
    {
        let capacity: usize = mailbox_payload.saturating_sub(FOE_HEADER_LEN);
        let len: usize = file.as_bytes().len();
        // A zero payload capacity can make no progress on a non-empty file; the file-name check
        // rejects it for any real transfer (FoE always names a file), and this covers the rest.
        if len > capacity || (capacity == 0 && !data.is_empty()) {
            return Err(FoeError::FileNameTooLong { len, capacity });
        }
        Ok(
            FoeWrite {
                file,
                password,
                data,
                max_data: capacity,
                offset: 0,
                next_packet: 1,
                busy_replies: 0,
                phase: Phase::Request,
            },
        )
    }

    /// The frame to send next: the write request before the first reply, then each data packet.
    pub fn frame(&self) -> (r: FoeFrame<'_>)
        ensures
            r.header == self@.frame_header(),
            r.body@ == self@.frame_body(),
            r.packed() == self@.frame(),
            self@.sent == 0 ==> r.body@ == self@.name && r.header.argument == self@.password,
            self@.sent > 0 ==> r.header.argument == self@.sent && r.body@.len()
                <= self@.capacity,
    {
        proof {
            use_type_invariant(self);
            self.lemma_staged();
        }
        match self.phase {
            Phase::Request => FoeFrame {
                header: FoeHeader { opcode: FoeOpcode::WriteRequest, argument: self.password },
                body: self.file.as_bytes(),
            },
            Phase::Data { packet, start, end } => FoeFrame {
                header: FoeHeader { opcode: FoeOpcode::Data, argument: packet },
                body: &self.data[start..end],
            },
        }
    }

    /// Whether the 32 bit counters have room for the reply, so that [`advance`](Self::advance) may
    /// be called with it. They have for the first 2^32 - 2 replies, whatever these are.
    pub fn has_room(&self, reply: &[u8]) -> (r: bool)
        ensures
            r == self@.has_room_for(reply@),
    {
        proof {
            use_type_invariant(self);
            self.lemma_staged();
        }
        match FoeHeader::unpack_from_slice(reply) {
            Ok(header) => match header.opcode {
                FoeOpcode::Busy => self.busy_replies < u32::MAX,
                FoeOpcode::Ack => match self.phase {
                    Phase::Request => true,
                    Phase::Data { packet, start, end } => header.argument != packet || end - start
                        < self.max_data || self.next_packet < u32::MAX,
                },
                _ => true,
            },
            Err(_) => true,
        }
    }

    /// Feed one mailbox FoE payload. A well-behaved SubDevice answers each sent frame with an `Ack`
    /// carrying the same packet number (the write request is packet 0).
    pub fn advance(&mut self, reply: &[u8]) -> (r: Result<Progress, FoeError>)
        requires
            old(self)@.has_room_for(reply@),
        ensures
            final(self)@ == old(self)@.after(reply@),
            r == old(self)@.outcome(reply@),
            final(self)@.wf(),
    {
        proof {
            use_type_invariant(&*self);
            self.lemma_staged();
        }
        let header = match FoeHeader::unpack_from_slice(reply) {
            Ok(header) => header,
            Err(_) => return Err(FoeError::Truncated { len: reply.len() }),
        };

        match header.opcode {
            FoeOpcode::Busy => {
                self.busy_replies = self.busy_replies + 1;
                if self.busy_replies > MAX_BUSY_REPLIES {
                    return Err(FoeError::BusyTimeout { replies: self.busy_replies });
                }
                Ok(Progress::Busy)
            },
            FoeOpcode::Error => Err(FoeError::Refused { code: header.argument }),
            FoeOpcode::Ack => {
                let expected: u32 = match self.phase {
                    Phase::Request => 0,
                    Phase::Data { packet, .. } => packet,
                };
                if header.argument != expected {
                    return Err(
                        FoeError::PacketOutOfOrder { expected, got: header.argument },
                    );
                }
                self.busy_replies = 0;

                // The last DATA is the one shorter than a full packet; the write request is never
                // terminal (there is always at least one DATA, empty for an empty file).
                let was_terminal = match self.phase {
                    Phase::Request => false,
                    Phase::Data { start, end, .. } => end - start < self.max_data,
                };
                if was_terminal {
                    return Ok(Progress::Done);
                }
                let start: usize = self.offset;
                let rest: usize = self.data.len() - start;
                let end: usize = if rest < self.max_data {
                    start + rest
                } else {
                    start + self.max_data
                };
                let packet: u32 = self.next_packet;
                proof {
                    let max = self.max_data as int;
                    assert((packet - 2) * max + max == (packet - 1) * max) by (nonlinear_arith);
                }
                *self = FoeWrite {
                    file: self.file,
                    password: self.password,
                    data: self.data,
                    max_data: self.max_data,
                    offset: end,
                    next_packet: packet + 1,
                    busy_replies: self.busy_replies,
                    phase: Phase::Data { packet, start, end },
                };
                proof {
                    self.lemma_staged();
                }
                Ok(Progress::More)
            },
            FoeOpcode::ReadRequest | FoeOpcode::WriteRequest | FoeOpcode::Data => Err(
                FoeError::UnexpectedOpcode(header.opcode),
            ),
        }
    }
}

/// A write begins with what it was asked for, all of the data and nothing sent. Its request is the
/// bytes 2 and 0, the password with its low byte first, and every byte of the name.
pub proof fn law_request_names_the_file(
    name: Seq<u8>,
    password: u32,
    data: Seq<u8>,
    capacity: nat,
)
    ensures
        ({
            let state = WriteState::begin(name, password, data, capacity);
            let request = state.frame();
            &&& state.name == name
            &&& state.password == password
            &&& state.data == data
            &&& state.capacity == capacity
            &&& state.sent == 0
            &&& state.busy == 0
            &&& request.len() == 6 + name.len()
            &&& request[0] == 2
            &&& request[1] == 0
            &&& password == request[2] + 256 * request[3] + 65536 * request[4] + 16777216
                * request[5]
            &&& request.skip(6) == name
        }),
{
    let state = WriteState::begin(name, password, data, capacity);
    assert(state.frame().skip(6) == name);
}

/// Until a packet has been staged the frame to send is the request, however often the SubDevice was
/// busy. After that it is the bytes 3 and 0, the number of the packet, and the file's bytes from
/// where the full packets before it end: as many as a packet can carry, or as many as are left.
pub proof fn law_frame_by_packets_sent(state: WriteState)
    requires
        state.sent <= u32::MAX,
        state.sent > 0 ==> (state.sent - 1) * state.capacity <= state.data.len(),
    ensures
        state.sent == 0 ==> state.frame() == WriteState::begin(
            state.name,
            state.password,
            state.data,
            state.capacity,
        ).frame(),
        state.sent > 0 ==> {
            let frame = state.frame();
            let start = (state.sent - 1) * state.capacity;
            let left = state.data.len() - start;
            &&& frame[0] == 3
            &&& frame[1] == 0
            &&& state.sent == frame[2] + 256 * frame[3] + 65536 * frame[4] + 16777216 * frame[5]
            &&& left >= state.capacity ==> frame.len() == 6 + state.capacity
            &&& left < state.capacity ==> frame.len() == 6 + left
            &&& forall|i: int|
                6 <= i < frame.len() ==> #[trigger] frame[i] == state.data[start + i - 6]
        },
{
    if state.sent > 0 {
        let before = state.sent - 1;
        let cap = state.capacity as int;
        assert(before * cap + cap == (before + 1) * cap) by (nonlinear_arith);
        law_foe_header_layout(state.frame_header());
    }
}

/// Every byte of the file is sent: the one at `position` travels in the packet whose number is one
/// more than the full packets before it, as far behind the header as it is into that packet.
pub proof fn law_every_byte_travels(state: WriteState, position: nat)
    requires
        state.capacity > 0,
        position < state.data.len(),
        state.data.len() / state.capacity + 1 < u32::MAX,
    ensures
        ({
            let packet = position / state.capacity + 1;
            let at = 6 + position % state.capacity;
            let frame = (WriteState { sent: packet, ..state }).frame();
            &&& packet <= state.packets()
            &&& at < frame.len()
            &&& frame[at as int] == state.data[position as int]
        }),
{
    let cap = state.capacity as int;
    let full = position as int / cap;
    let packet = position / state.capacity + 1;
    let staged = WriteState { sent: packet, ..state };
    vstd::arithmetic::div_mod::lemma_fundamental_div_mod(position as int, cap);
    vstd::arithmetic::div_mod::lemma_div_is_ordered(
        position as int,
        state.data.len() as int,
        cap,
    );
    assert(cap * full == full * cap) by (nonlinear_arith);
    assert(0 <= position % state.capacity < state.capacity);
    law_frame_by_packets_sent(staged);
}

/// The write moves on exactly for a reply that begins with the byte 4 and bears the number of the
/// frame that was sent, zero for the request. It is done where the packet sent was short of a full
/// one, that is where the packets so far reach past the end of the file; otherwise one more packet
/// is staged. The data, the name and the rest stay as they were.
pub proof fn law_ack_by_bytes(state: WriteState, reply: Seq<u8>)
    requires
        state.sent > 0 ==> (state.sent - 1) * state.capacity <= state.data.len(),
    ensures
        ({
            let number = reply[2] + 256 * reply[3] + 65536 * reply[4] + 16777216 * reply[5];
            let in_turn = reply.len() >= 6 && reply[0] == 4 && number == state.sent;
            let finished = state.sent > 0 && state.sent * state.capacity > state.data.len();
            let outcome = state.outcome(reply);
            let next = state.after(reply);
            &&& outcome == Ok::<Progress, FoeError>(Progress::Done) <==> in_turn && finished
            &&& outcome == Ok::<Progress, FoeError>(Progress::More) <==> in_turn && !finished
            &&& in_turn ==> {
                &&& next.name == state.name
                &&& next.password == state.password
                &&& next.data == state.data
                &&& next.capacity == state.capacity
                &&& next.busy == 0
                &&& finished ==> next.sent == state.sent
                &&& !finished ==> next.sent == state.sent + 1
            }
        }),
{
    law_foe_header_fields(reply);
    if state.sent > 0 {
        let before = state.sent - 1;
        let cap = state.capacity as int;
        assert(before * cap + cap == (before + 1) * cap) by (nonlinear_arith);
    }
}

/// A reply that moves the write on after a packet bears the very number bytes of that packet's
/// frame.
pub proof fn law_ack_echoes_the_number(state: WriteState, reply: Seq<u8>)
    requires
        0 < state.sent <= u32::MAX,
        state.outcome(reply) == Ok::<Progress, FoeError>(Progress::More) || state.outcome(reply)
            == Ok::<Progress, FoeError>(Progress::Done),
    ensures
        reply.len() >= 6,
        reply[0] == 4,
        reply.subrange(2, 6) == state.frame().subrange(2, 6),
{
    law_foe_header_rewrite(reply);
    let answer = FoeHeader::unpacked(reply)->Ok_0;
    let header = state.frame_header();
    assert(answer.opcode.code() == 4);
    assert(answer.argument == header.argument);
    assert(forall|i: int| 2 <= i < 6 ==> answer.packed()[i] == header.packed()[i]);
}

/// An acknowledgement of any other packet than the one that was sent is refused with both numbers,
/// and changes nothing.
pub proof fn law_other_ack_is_refused(state: WriteState, reply: Seq<u8>)
    requires
        state.sent <= u32::MAX,
        reply.len() >= 6,
        reply[0] == 4,
    ensures
        ({
            let number = reply[2] + 256 * reply[3] + 65536 * reply[4] + 16777216 * reply[5];
            number != state.sent ==> {
                &&& state.outcome(reply) matches Err(FoeError::PacketOutOfOrder { expected, got })
                &&& expected == state.sent
                &&& got == number
                &&& state.after(reply) == state
            }
        }),
{
    law_foe_header_fields(reply);
}

/// A reply that begins with the byte 6 is counted and changes nothing else. It is tolerated where
/// fewer than a hundred came before it since the last acknowledgement, and otherwise reported with
/// the count.
pub proof fn law_busy_by_bytes(state: WriteState, reply: Seq<u8>)
    requires
        state.busy < u32::MAX,
        reply.len() >= 6,
        reply[0] == 6,
    ensures
        state.busy < 100 ==> state.outcome(reply) == Ok::<Progress, FoeError>(Progress::Busy),
        state.busy >= 100 ==> (state.outcome(reply) matches Err(FoeError::BusyTimeout { replies })
            && replies == state.busy + 1),
        state.after(reply).name == state.name,
        state.after(reply).password == state.password,
        state.after(reply).data == state.data,
        state.after(reply).capacity == state.capacity,
        state.after(reply).sent == state.sent,
        state.after(reply).busy == state.busy + 1,
        state.after(reply).frame() == state.frame(),
{
    law_foe_header_fields(reply);
}

/// Every other reply is refused for what its first byte is and changes nothing: 5 carries the
/// SubDevice's code, 1, 2 and 3 have no place in a write, and anything else, or fewer than six
/// bytes, is no FoE payload.
pub proof fn law_refusal_by_bytes(state: WriteState, reply: Seq<u8>)
    requires
        reply.len() <= usize::MAX,
    ensures
        ({
            let number = reply[2] + 256 * reply[3] + 65536 * reply[4] + 16777216 * reply[5];
            let outcome = state.outcome(reply);
            let whole = reply.len() >= 6;
            &&& whole && reply[0] == 5 ==> {
                &&& outcome matches Err(FoeError::Refused { code })
                &&& code == number
                &&& state.after(reply) == state
            }
            &&& whole && 1 <= reply[0] <= 3 ==> {
                &&& outcome matches Err(FoeError::UnexpectedOpcode(opcode))
                &&& opcode.code() == reply[0]
                &&& state.after(reply) == state
            }
            &&& !whole || reply[0] == 0 || reply[0] > 6 ==> {
                &&& outcome matches Err(FoeError::Truncated { len })
                &&& len == reply.len()
                &&& state.after(reply) == state
            }
        }),
{
    law_foe_header_fields(reply);
}

/// There is room for every reply but a `Busy` whose count would not fit in 32 bits, and an
/// acknowledgement in turn after which the number of the packet to come would not.
pub proof fn law_room_by_bytes(state: WriteState, reply: Seq<u8>)
    requires
        state.sent > 0 ==> (state.sent - 1) * state.capacity <= state.data.len(),
    ensures
        ({
            let number = reply[2] + 256 * reply[3] + 65536 * reply[4] + 16777216 * reply[5];
            let busy = reply.len() >= 6 && reply[0] == 6;
            let in_turn = reply.len() >= 6 && reply[0] == 4 && number == state.sent;
            let finished = state.sent > 0 && state.sent * state.capacity > state.data.len();
            state.has_room_for(reply) <==> !(busy && state.busy + 1 > u32::MAX) && !(in_turn
                && !finished && state.sent + 2 > u32::MAX)
        }),
{
    law_foe_header_fields(reply);
    law_ack_by_bytes(state, reply);
}

/// A write of `data` takes one packet more than its content fills, and those packets put together
/// are `data`, however it is named. They are all staged by the time the acknowledgements of the
/// request and of each packet in turn have come, whatever else these replies hold.
pub proof fn law_write_sends_the_data(
    name: Seq<u8>,
    password: u32,
    data: Seq<u8>,
    capacity: nat,
    acks: Seq<Seq<u8>>,
)
    requires
        name.len() <= capacity,
        capacity > 0,
        data.len() / capacity + 1 < u32::MAX,
        acks.len() == data.len() / capacity + 1,
        forall|i: int|
            0 <= i < acks.len() ==> {
                let reply = #[trigger] acks[i];
                &&& reply.len() >= 6
                &&& reply[0] == 4
                &&& i == reply[2] + 256 * reply[3] + 65536 * reply[4] + 16777216 * reply[5]
            },
    ensures
        ({
            let state = WriteState::begin(name, password, data, capacity);
            let end = state.run(acks);
            &&& end.sent == data.len() / capacity + 1
            &&& end.data == data
            &&& end.content(end.sent) == data
            &&& end.frame().len() == 6 + data.len() % capacity
        }),
{
    let state = WriteState::begin(name, password, data, capacity);
    assert(0 * capacity == 0) by (nonlinear_arith);
    assert forall|i: int| 0 <= i < acks.len() implies acknowledges(
        #[trigger] acks[i],
        i as nat,
    ) by {
        law_foe_header_fields(acks[i]);
    }
    let next = ack(acks.len());
    let header = FoeHeader { opcode: FoeOpcode::Ack, argument: acks.len() as u32 };
    law_foe_header_roundtrip(header, Seq::empty());
    assert(header.packed() + Seq::empty() == header.packed());
    law_exchange_with_any_acks(state, acks, next);
    let end = state.run(acks);
    law_packets_are_the_file(end);
    law_only_final_packet_is_short(end, end.sent);
}

} // verus!
