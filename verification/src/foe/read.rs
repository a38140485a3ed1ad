//! The FoE read (upload) transfer: a state machine with no I/O.
//!
//! Fed one mailbox reply at a time, it yields file content and leaves the next frame to send in
//! [`FoeRead::frame`]. Every transport detail (sync managers, polling, the mailbox counter)
//! belongs to the caller. Nothing is buffered: the request frame borrows the file name, and each
//! reply's content is borrowed straight out of the reply.

use crate::error::FoeError;
use crate::foe::{
    capacity, is_busy, law_foe_header_fields, law_foe_header_rewrite, FoeFrame, FoeHeader,
    FoeOpcode, FOE_HEADER_LEN, MAX_BUSY_REPLIES,
};
use crate::wire::{WireRead, WireWrite};
use vstd::prelude::*;
use vstd::string::StringSliceAdditionalSpecFns;

verus! {

/// What one reply advanced the transfer to. In every case the caller sends [`FoeRead::frame`] next;
/// only [`Progress::Last`] means stop afterwards.
#[derive(Clone, Copy, Debug, PartialEq, Eq)]
pub enum Progress<'reply> {
    /// File content, with more to come.
    Chunk(&'reply [u8]),
    /// The content completing the file. Send the frame once more to acknowledge it, then stop.
    Last(&'reply [u8]),
    /// The SubDevice is still working; nothing was transferred.
    Busy,
}

/// A [`Progress`] with its content as a sequence of bytes.
pub enum Event {
    /// File content, with more to come.
    Chunk(Seq<u8>),
    /// The content completing the file.
    Last(Seq<u8>),
    /// Nothing was transferred.
    Busy,
}

impl<'reply> View for Progress<'reply> {
    type V = Event;

    open spec fn view(&self) -> Event {
        match *self {
            Progress::Chunk(content) => Event::Chunk(content@),
            Progress::Last(content) => Event::Last(content@),
            Progress::Busy => Event::Busy,
        }
    }
}

/// How far a read has got.
pub struct ReadState {
    /// The bytes of the file name.
    pub name: Seq<u8>,
    /// The password sent with the request.
    pub password: u32,
    /// File bytes one `Data` frame can carry.
    pub capacity: nat,
    /// Packets received so far; the last of them bears this number.
    pub received: nat,
    /// `Busy` replies since the last packet.
    pub busy: nat,
}

impl ReadState {
    /// A read that has only just begun.
    pub open spec fn begin(name: Seq<u8>, password: u32, capacity: nat) -> Self {
        ReadState { name, password, capacity, received: 0, busy: 0 }
    }

    /// The name fits the mailbox, and both counters fit in 32 bits with the number of the next
    /// packet.
    pub open spec fn wf(self) -> bool {
        &&& self.name.len() <= self.capacity
        &&& self.received < u32::MAX
        &&& self.busy <= u32::MAX
    }

    /// The header of the frame to send: the read request before the first packet, the
    /// acknowledgement of the most recent packet after it.
    pub open spec fn frame_header(self) -> FoeHeader {
        if self.received == 0 {
            FoeHeader { opcode: FoeOpcode::ReadRequest, argument: self.password }
        } else {
            FoeHeader { opcode: FoeOpcode::Ack, argument: self.received as u32 }
        }
    }

    /// The body of the frame to send: the file name in a request, nothing in an acknowledgement.
    pub open spec fn frame_body(self) -> Seq<u8> {
        if self.received == 0 {
            self.name
        } else {
            Seq::empty()
        }
    }

    /// The bytes of the frame to send.
    pub open spec fn frame(self) -> Seq<u8> {
        self.frame_header().packed() + self.frame_body()
    }

    /// The reply is the packet whose turn it is.
    pub open spec fn is_next_packet(self, reply: Seq<u8>) -> bool {
        FoeHeader::unpacked(reply) matches Ok(header) && header.opcode == FoeOpcode::Data
            && header.argument == self.received + 1
    }

    /// Counting the reply does not take a 32 bit counter past its end.
    pub open spec fn has_room_for(self, reply: Seq<u8>) -> bool {
        &&& is_busy(reply) ==> self.busy < u32::MAX
        &&& self.is_next_packet(reply) ==> self.received + 2 <= u32::MAX
    }

    /// The state that the reply leads to.
    pub open spec fn after(self, reply: Seq<u8>) -> Self {
        if is_busy(reply) {
            ReadState { busy: self.busy + 1, ..self }
        } else if self.is_next_packet(reply) {
            ReadState { received: self.received + 1, busy: 0, ..self }
        } else {
            self
        }
    }

    /// What the caller is told of the reply.
    pub open spec fn outcome(self, reply: Seq<u8>) -> Result<Event, FoeError> {
        let content = reply.skip(FOE_HEADER_LEN as int);
        match FoeHeader::unpacked(reply) {
            Err(_) => Err(FoeError::Truncated { len: reply.len() as usize }),
            Ok(header) => match header.opcode {
                FoeOpcode::Busy => if self.busy < MAX_BUSY_REPLIES {
                    Ok(Event::Busy)
                } else {
                    Err(FoeError::BusyTimeout { replies: (self.busy + 1) as u32 })
                },
                FoeOpcode::Error => Err(FoeError::Refused { code: header.argument }),
                FoeOpcode::Data => if header.argument != self.received + 1 {
                    Err(
                        FoeError::PacketOutOfOrder {
                            expected: (self.received + 1) as u32,
                            got: header.argument,
                        },
                    )
                } else if content.len() < self.capacity {
                    Ok(Event::Last(content))
                } else {
                    Ok(Event::Chunk(content))
                },
                _ => Err(FoeError::UnexpectedOpcode(header.opcode)),
            },
        }
    }
}

impl ReadState {
    /// The state that a series of replies leads to.
    pub open spec fn run(self, replies: Seq<Seq<u8>>) -> Self
        decreases replies.len(),
    {
        if replies.len() == 0 {
            self
        } else {
            self.run(replies.drop_last()).after(replies.last())
        }
    }

    /// The file content that the reply brings.
    pub open spec fn content(self, reply: Seq<u8>) -> Seq<u8> {
        match self.outcome(reply) {
            Ok(Event::Chunk(content)) => content,
            Ok(Event::Last(content)) => content,
            _ => Seq::empty(),
        }
    }

    /// The file content that a series of replies brings, put together.
    pub open spec fn collected(self, replies: Seq<Seq<u8>>) -> Seq<u8>
        decreases replies.len(),
    {
        if replies.len() == 0 {
            Seq::empty()
        } else {
            self.collected(replies.drop_last()) + self.run(replies.drop_last()).content(
                replies.last(),
            )
        }
    }
}

/// Content comes from the packet whose turn it is and from no other reply. That packet is
/// acknowledged by its number in the next frame, and ends the count of `Busy` replies.
pub proof fn law_packets_in_order(state: ReadState, reply: Seq<u8>)
    requires
        state.wf(),
    ensures
        state.is_next_packet(reply) <==> (state.outcome(reply) matches Ok(event) && event
            != Event::Busy),
        state.is_next_packet(reply) ==> {
            let next = state.after(reply);
            &&& next.received == state.received + 1
            &&& next.busy == 0
            &&& next.frame_header() == FoeHeader {
                opcode: FoeOpcode::Ack,
                argument: (state.received + 1) as u32,
            }
            &&& next.frame_body() == Seq::<u8>::empty()
        },
        !state.is_next_packet(reply) ==> state.after(reply).received == state.received,
{
}

/// A packet completes the file exactly where it is shorter than a full one, and either way yields
/// all that follows its header.
pub proof fn law_short_packet_is_last(state: ReadState, reply: Seq<u8>)
    requires
        state.is_next_packet(reply),
    ensures
        state.outcome(reply) == Ok::<Event, FoeError>(
            Event::Last(reply.skip(FOE_HEADER_LEN as int)),
        ) <==> reply.len() < FOE_HEADER_LEN + state.capacity,
        state.outcome(reply) == Ok::<Event, FoeError>(
            Event::Chunk(reply.skip(FOE_HEADER_LEN as int)),
        ) <==> reply.len() >= FOE_HEADER_LEN + state.capacity,
{
}

/// A reply that brings no content, be it a `Busy` or one that is refused, leaves the frame to send
/// as it was; and unless it is a `Busy`, it leaves everything as it was.
pub proof fn law_no_content_same_frame(state: ReadState, reply: Seq<u8>)
    requires
        !state.is_next_packet(reply),
    ensures
        state.after(reply).frame_header() == state.frame_header(),
        state.after(reply).frame_body() == state.frame_body(),
        !is_busy(reply) ==> state.outcome(reply) is Err && state.after(reply) == state,
{
}

/// Every frame to send fits the mailbox payload that the read was begun with.
pub proof fn law_frame_fits(state: ReadState, mailbox_payload: usize)
    requires
        state.wf(),
        mailbox_payload == FOE_HEADER_LEN + state.capacity,
    ensures
        FOE_HEADER_LEN + state.frame_body().len() <= mailbox_payload,
{
}

/// `Busy` replies in a row are tolerated up to [`MAX_BUSY_REPLIES`] of them; the one after that is
/// reported as a timeout.
pub proof fn law_busy_limit(state: ReadState, replies: Seq<Seq<u8>>, next: Seq<u8>)
    requires
        state.busy == 0,
        forall|i: int| 0 <= i < replies.len() ==> is_busy(#[trigger] replies[i]),
        is_busy(next),
    ensures
        state.run(replies) == (ReadState { busy: replies.len(), ..state }),
        state.run(replies).outcome(next) == if replies.len() < MAX_BUSY_REPLIES {
            Ok::<Event, FoeError>(Event::Busy)
        } else {
            Err(FoeError::BusyTimeout { replies: (replies.len() + 1) as u32 })
        },
    decreases replies.len(),
{
    if replies.len() > 0 {
        let last = replies.last();
        assert(is_busy(last));
        assert forall|i: int| 0 <= i < replies.drop_last().len() implies is_busy(
            #[trigger] replies.drop_last()[i],
        ) by {
            assert(is_busy(replies[i]));
        }
        law_busy_limit(state, replies.drop_last(), last);
    }
}

/// A series of replies changes no more than the counters, and moves each on by at most one per
/// reply.
proof fn lemma_run_bounds(state: ReadState, replies: Seq<Seq<u8>>)
    ensures
        ({
            let end = state.run(replies);
            &&& end == ReadState { received: end.received, busy: end.busy, ..state }
            &&& end.received <= state.received + replies.len()
            &&& end.busy <= state.busy + replies.len()
        }),
    decreases replies.len(),
{
    if replies.len() > 0 {
        lemma_run_bounds(state, replies.drop_last());
    }
}

/// A read can be fed any replies at all, as long as there are fewer than 2^32 - 2 of them.
pub proof fn law_room_for_replies(
    name: Seq<u8>,
    password: u32,
    capacity: nat,
    replies: Seq<Seq<u8>>,
    next: Seq<u8>,
)
    requires
        name.len() <= capacity,
        replies.len() + 2 <= u32::MAX,
    ensures
        ReadState::begin(name, password, capacity).run(replies).wf(),
        ReadState::begin(name, password, capacity).run(replies).has_room_for(next),
{
    lemma_run_bounds(ReadState::begin(name, password, capacity), replies);
}

/// The frame [`FoeRead`] wants to send next.
#[derive(Clone, Copy, Debug, PartialEq, Eq)]
enum Phase {
    /// The initial read request (names the file).
    Request,
    /// An acknowledgement of the packet whose number is carried alongside.
    Ack(u32),
}

/// One FoE read (upload) in progress.
pub struct FoeRead<'file> {
    file: &'file str,
    password: u32,
    /// File bytes one `Data` frame can carry. A shorter frame is the last one.
    max_data: usize,
    next_packet: u32,
    busy_replies: u32,
    phase: Phase,
}

impl<'file> View for FoeRead<'file> {
    type V = ReadState;

    closed spec fn view(&self) -> ReadState {
        ReadState {
            name: self.file.spec_bytes(),
            password: self.password,
            capacity: self.max_data as nat,
            received: (self.next_packet - 1) as nat,
            busy: self.busy_replies as nat,
        }
    }
}

impl<'file> FoeRead<'file> {
    /// The file name fits a frame, and the staged frame acknowledges the packet before the next.
    #[verifier::type_invariant]
    spec fn inv(self) -> bool {
        &&& self.file.spec_bytes().len() <= self.max_data
        &&& self.next_packet >= 1
        &&& match self.phase {
            Phase::Request => self.next_packet == 1,
            Phase::Ack(packet) => packet >= 1 && packet + 1 == self.next_packet,
        }
    }

    /// Begin a read of `file`. `mailbox_payload` is the largest FoE service payload the SubDevice's
    /// mailbox carries (its sync-manager window less the 6-byte mailbox header) and is what makes a
    /// short `Data` recognisable as the last one. A mailbox too small for even an FoE header is
    /// refused, whatever the name.
    pub fn new(file: &'file str, password: u32, mailbox_payload: usize) -> (r: Result<
        Self,
        FoeError,
    >)
        ensures
            mailbox_payload >= FOE_HEADER_LEN && file.spec_bytes().len() <= capacity(
                mailbox_payload,
            ) ==> {
                &&& r matches Ok(read)
                &&& read@ == ReadState::begin(
                    file.spec_bytes(),
                    password,
                    capacity(mailbox_payload),
                )
                &&& read@.wf()
                &&& mailbox_payload == FOE_HEADER_LEN + read@.capacity
                &&& read@.name == file.spec_bytes()
                &&& read@.password == password
                &&& read@.received == 0
                &&& read@.busy == 0
            },
            !(mailbox_payload >= FOE_HEADER_LEN && file.spec_bytes().len() <= capacity(
                mailbox_payload,
            )) ==> r == Err::<Self, FoeError>(
                FoeError::FileNameTooLong {
                    len: file.spec_bytes().len() as usize,
                    capacity: capacity(mailbox_payload) as usize,
                },
            ),
    {
        let capacity: usize = mailbox_payload.saturating_sub(FOE_HEADER_LEN);
        let len: usize = file.as_bytes().len();
        if mailbox_payload < FOE_HEADER_LEN || len > capacity {
            return Err(FoeError::FileNameTooLong { len, capacity });
        }
        Ok(
            FoeRead {
                file,
                password,
                max_data: capacity,
                next_packet: 1,
                busy_replies: 0,
                phase: Phase::Request,
            },
        )
    }

    /// The frame to send next: the read request before the first reply, and the acknowledgement of
    /// the most recent packet after each one.
    pub fn frame(&self) -> (r: FoeFrame<'_>)
        ensures
            r.header == self@.frame_header(),
            r.body@ == self@.frame_body(),
            r.packed() == self@.frame(),
            self@.received == 0 ==> r.body@ == self@.name && r.header.argument == self@.password,
            self@.received > 0 ==> r.body@.len() == 0 && r.header.argument == self@.received,
    {
        proof {
            use_type_invariant(self);
        }
        match self.phase {
            Phase::Request => FoeFrame {
                header: FoeHeader { opcode: FoeOpcode::ReadRequest, argument: self.password },
                body: self.file.as_bytes(),
            },
            Phase::Ack(packet) => FoeFrame {
                header: FoeHeader { opcode: FoeOpcode::Ack, argument: packet },
                body: &[],
            },
        }
    }

    /// Whether the 32 bit counters have room for the reply, so that [`advance`](Self::advance) may
    /// be called with it. They have for the first 2^32 - 2 replies, whatever these are.
    pub fn has_room(&self, reply: &[u8]) -> (r: bool)
        ensures
            r == self@.has_room_for(reply@),
    {
        proof {
            use_type_invariant(self);
        }
        match FoeHeader::unpack_from_slice(reply) {
            Ok(header) => match header.opcode {
                FoeOpcode::Busy => self.busy_replies < u32::MAX,
                FoeOpcode::Data => header.argument != self.next_packet || self.next_packet
                    < u32::MAX,
                _ => true,
            },
            Err(_) => true,
        }
    }

    /// Feed one mailbox FoE payload, trimmed to the length its mailbox header declared. An untrimmed
    /// reply makes every packet look full and the transfer never ends.
    pub fn advance<'reply>(&mut self, reply: &'reply [u8]) -> (r: Result<
        Progress<'reply>,
        FoeError,
    >)
        requires
            old(self)@.has_room_for(reply@),
        ensures
            final(self)@ == old(self)@.after(reply@),
            match r {
                Ok(progress) => old(self)@.outcome(reply@) == Ok::<Event, FoeError>(progress@),
                Err(e) => old(self)@.outcome(reply@) == Err::<Event, FoeError>(e),
            },
            match r {
                Ok(Progress::Chunk(content)) => {
                    &&& content@ == reply@.skip(FOE_HEADER_LEN as int)
                    &&& content@.len() >= old(self)@.capacity
                },
                Ok(Progress::Last(content)) => {
                    &&& content@ == reply@.skip(FOE_HEADER_LEN as int)
                    &&& content@.len() < old(self)@.capacity
                },
                _ => true,
            },
            final(self)@.wf(),
    {
        proof {
            use_type_invariant(&*self);
        }
        let header = match FoeHeader::unpack_from_slice(reply) {
            Ok(header) => header,
            Err(_) => return Err(FoeError::Truncated { len: reply.len() }),
        };
        let payload = &reply[FOE_HEADER_LEN..reply.len()];

        match header.opcode {
            FoeOpcode::Busy => {
                self.busy_replies = self.busy_replies + 1;
                if self.busy_replies > MAX_BUSY_REPLIES {
                    return Err(FoeError::BusyTimeout { replies: self.busy_replies });
                }
                Ok(Progress::Busy)
            },
            FoeOpcode::Error => Err(FoeError::Refused { code: header.argument }),
            FoeOpcode::Data => {
                if header.argument != self.next_packet {
                    return Err(
                        FoeError::PacketOutOfOrder {
                            expected: self.next_packet,
                            got: header.argument,
                        },
                    );
                }
                *self = FoeRead {
                    file: self.file,
                    password: self.password,
                    max_data: self.max_data,
                    next_packet: self.next_packet + 1,
                    busy_replies: 0,
                    phase: Phase::Ack(header.argument),
                };

                if payload.len() < self.max_data {
                    Ok(Progress::Last(payload))
                } else {
                    Ok(Progress::Chunk(payload))
                }
            },
            FoeOpcode::ReadRequest | FoeOpcode::WriteRequest | FoeOpcode::Ack => Err(
                FoeError::UnexpectedOpcode(header.opcode),
            ),
        }
    }
}

/// A read begins with what it was asked for and nothing received. Its request is the bytes 1 and 0,
/// the password with its low byte first, and every byte of the name.
pub proof fn law_request_asks_for_the_file(name: Seq<u8>, password: u32, capacity: nat)
    ensures
        ({
            let state = ReadState::begin(name, password, capacity);
            let request = state.frame();
            &&& state.name == name
            &&& state.password == password
            &&& state.capacity == capacity
            &&& state.received == 0
            &&& state.busy == 0
            &&& request.len() == 6 + name.len()
            &&& request[0] == 1
            &&& request[1] == 0
            &&& password == request[2] + 256 * request[3] + 65536 * request[4] + 16777216
                * request[5]
            &&& request.skip(6) == name
        }),
{
    let state = ReadState::begin(name, password, capacity);
    assert(state.frame().skip(6) == name);
}

/// Until a packet has been received the frame to send is the request, however often the SubDevice
/// was busy. After that it is six bytes: 4, 0, and the number of packets received.
pub proof fn law_frame_by_packets_received(state: ReadState)
    requires
        state.received <= u32::MAX,
    ensures
        state.received == 0 ==> state.frame() == ReadState::begin(
            state.name,
            state.password,
            state.capacity,
        ).frame(),
        state.received > 0 ==> {
            let frame = state.frame();
            &&& frame.len() == 6
            &&& frame[0] == 4
            &&& frame[1] == 0
            &&& state.received == frame[2] + 256 * frame[3] + 65536 * frame[4] + 16777216 * frame[5]
        },
{
}

/// Content is yielded exactly for a reply that begins with the byte 3 and bears the number after
/// that of the last packet received. All that follows the six header bytes is the content, and it
/// ends the file exactly where it is less than a packet can carry.
pub proof fn law_content_by_bytes(state: ReadState, reply: Seq<u8>)
    requires
        state.received < u32::MAX,
    ensures
        ({
            let number = reply[2] + 256 * reply[3] + 65536 * reply[4] + 16777216 * reply[5];
            let in_turn = reply.len() >= 6 && reply[0] == 3 && number == state.received + 1;
            let outcome = state.outcome(reply);
            let next = state.after(reply);
            &&& in_turn <==> (outcome is Ok && outcome != Ok::<Event, FoeError>(Event::Busy))
            &&& in_turn ==> {
                &&& reply.len() < 6 + state.capacity ==> outcome == Ok::<Event, FoeError>(
                    Event::Last(reply.skip(6)),
                )
                &&& reply.len() >= 6 + state.capacity ==> outcome == Ok::<Event, FoeError>(
                    Event::Chunk(reply.skip(6)),
                )
                &&& next.name == state.name
                &&& next.password == state.password
                &&& next.capacity == state.capacity
                &&& next.received == state.received + 1
                &&& next.busy == 0
            }
        }),
{
    law_foe_header_fields(reply);
}

/// The frame after a packet that yields content answers it: six bytes, 4 and 0 and then the very
/// number bytes of the packet.
pub proof fn law_answer_echoes_the_number(state: ReadState, reply: Seq<u8>)
    requires
        state.received < u32::MAX,
        state.outcome(reply) is Ok,
        state.outcome(reply) != Ok::<Event, FoeError>(Event::Busy),
    ensures
        state.after(reply).frame() == seq![4u8, 0u8] + reply.subrange(2, 6),
{
    law_foe_header_rewrite(reply);
    let header = FoeHeader::unpacked(reply)->Ok_0;
    let answer = state.after(reply).frame_header();
    assert(answer.argument == header.argument);
    assert(forall|i: int| 2 <= i < 6 ==> answer.packed()[i] == header.packed()[i]);
}

/// A packet that bears any other number than the one after the last received is refused with both
/// numbers, and changes nothing: no packet can be skipped, and none taken twice.
pub proof fn law_other_packet_is_refused(state: ReadState, reply: Seq<u8>)
    requires
        state.received < u32::MAX,
        reply.len() >= 6,
        reply[0] == 3,
    ensures
        ({
            let number = reply[2] + 256 * reply[3] + 65536 * reply[4] + 16777216 * reply[5];
            number != state.received + 1 ==> {
                &&& state.outcome(reply) matches Err(FoeError::PacketOutOfOrder { expected, got })
                &&& expected == state.received + 1
                &&& got == number
                &&& state.after(reply) == state
            }
        }),
{
    law_foe_header_fields(reply);
}

/// A reply that begins with the byte 6 is counted and changes nothing else. It is tolerated where
/// fewer than a hundred came before it since the last packet, and otherwise reported with the count.
pub proof fn law_busy_by_bytes(state: ReadState, reply: Seq<u8>)
    requires
        state.busy < u32::MAX,
        reply.len() >= 6,
        reply[0] == 6,
    ensures
        state.busy < 100 ==> state.outcome(reply) == Ok::<Event, FoeError>(Event::Busy),
        state.busy >= 100 ==> (state.outcome(reply) matches Err(FoeError::BusyTimeout { replies })
            && replies == state.busy + 1),
        state.after(reply).name == state.name,
        state.after(reply).password == state.password,
        state.after(reply).capacity == state.capacity,
        state.after(reply).received == state.received,
        state.after(reply).busy == state.busy + 1,
        state.after(reply).frame() == state.frame(),
{
    law_foe_header_fields(reply);
}

/// Every other reply is refused for what its first byte is and changes nothing: 5 carries the
/// SubDevice's code, 1, 2 and 4 have no place in a read, and anything else, or fewer than six bytes,
/// is no FoE payload.
pub proof fn law_refusal_by_bytes(state: ReadState, reply: Seq<u8>)
    requires
        reply.len() <= usize::MAX,
    ensures
        ({
            let number = reply[2] + 256 * reply[3] + 65536 * reply[4] + 16777216 * reply[5];
            let outcome = state.outcome(reply);
            let whole = reply.len() >= 6;
            &&& whole && reply[0] == 5 ==> {
                &&& outcome matches Err(FoeError::Refused { code })
                &&& code == number
                &&& state.after(reply) == state
            }
            &&& whole && (reply[0] == 1 || reply[0] == 2 || reply[0] == 4) ==> {
                &&& outcome matches Err(FoeError::UnexpectedOpcode(opcode))
                &&& opcode.code() == reply[0]
                &&& state.after(reply) == state
            }
            &&& !whole || reply[0] == 0 || reply[0] > 6 ==> {
                &&& outcome matches Err(FoeError::Truncated { len })
                &&& len == reply.len()
                &&& state.after(reply) == state
            }
        }),
{
    law_foe_header_fields(reply);
}

/// There is room for every reply but a `Busy` or a packet in turn whose count would not fit in 32
/// bits.
pub proof fn law_room_by_bytes(state: ReadState, reply: Seq<u8>)
    ensures
        ({
            let number = reply[2] + 256 * reply[3] + 65536 * reply[4] + 16777216 * reply[5];
            let busy = reply.len() >= 6 && reply[0] == 6;
            let in_turn = reply.len() >= 6 && reply[0] == 3 && number == state.received + 1;
            state.has_room_for(reply) <==> !(busy && state.busy + 1 > u32::MAX) && !(in_turn
                && state.received + 2 > u32::MAX)
        }),
{
    law_foe_header_fields(reply);
}

/// What the caller is handed is the event with the same name and the same bytes.
pub proof fn law_progress_is_the_event<'reply>(content: &'reply [u8])
    ensures
        Progress::Chunk(content)@ == Event::Chunk(content@),
        Progress::Last(content)@ == Event::Last(content@),
        Progress::Busy@ == Event::Busy,
{
}

} // verus!
