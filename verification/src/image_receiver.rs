//! Receiving a new image over the serial link.
//!
//! A frame on the wire is
//!
//! ```text
//! STX | TYPE | PAYLOAD | ETX | BCC
//! ```
//!
//! where `TYPE` is `INIT` (22 bytes of payload: the header of the image),
//! `DATA` (128 bytes of payload) or `END` (no payload), and `BCC` is the
//! XOR of every byte from `TYPE` to `ETX`. The header is the update record
//! of the image: five magic bytes, the version byte, and four big-endian
//! 32-bit numbers (staging address, length, target address, checksum).
//!
//! The receiver is a state machine that is handed the bytes of the link one
//! at a time and answers with the byte to send back, if any. Waiting for a
//! byte is left to the caller.

use vstd::prelude::*;
use crate::{Flasher, kept_outside, stored};
use crate::crc::check_crc;
use crate::descriptor::{update_info, UPDATE_INFO_SIZE};
use crate::session::{
    lemma_run_fits_prefix, lemma_run_push, lemma_step_but_address, replies_follow, run, run_fits,
    same_but_address,
};

verus! {

/// Start of a frame.
pub const STX: u8 = 0x02;

/// End of a frame's type and payload; the block check character follows.
pub const ETX: u8 = 0x03;

/// Frame type: the header of a new image.
pub const INIT: u8 = 0x16;

/// Frame type: 128 bytes of the image.
pub const DATA: u8 = 0x01;

/// Frame type: the image is complete.
pub const END: u8 = 0x04;

/// Reply: the frame was refused.
pub const NAK: u8 = 0x15;

/// Reply: the frame was accepted and carried out.
pub const ACK: u8 = 0x06;

/// The payload bytes of an `INIT` frame.
pub const INIT_PAYLOAD_SIZE: usize = 22;

/// The payload bytes of a `DATA` frame.
pub const DATA_PAYLOAD_SIZE: usize = 128;

/// The unsigned 32-bit number that the four bytes of `bytes` from `at`
/// spell, most significant byte first.
pub open spec fn be32(bytes: Seq<u8>, at: int) -> int {
    bytes[at] * 0x100_0000 + bytes[at + 1] * 0x1_0000 + bytes[at + 2] * 0x100 + bytes[at + 3]
}

/// The four bytes that spell `value`, most significant byte first.
pub open spec fn be32_bytes(value: int) -> Seq<u8> {
    seq![
        (value / 0x100_0000 % 0x100) as u8,
        (value / 0x1_0000 % 0x100) as u8,
        (value / 0x100 % 0x100) as u8,
        (value % 0x100) as u8,
    ]
}

/// Reading back the four bytes of a 32-bit number gives the number.
pub proof fn lemma_be32_round_trip(value: int)
    requires
        0 <= value < 0x1_0000_0000,
    ensures
        be32_bytes(value).len() == 4,
        be32(be32_bytes(value), 0) == value,
{
}

/// Reads the big-endian 32-bit field of `packet_data` at `index`.
pub fn usize_from_packet(packet_data: &[u8], index: usize) -> (value: usize)
    requires
        index + 4 <= packet_data@.len(),
    ensures
        value == be32(packet_data@, index as int),
{
    let b0: u8 = packet_data[index];
    let b1: u8 = packet_data[index + 1];
    let b2: u8 = packet_data[index + 2];
    let b3: u8 = packet_data[index + 3];
    let word: u32 = (b0 as u32) << 24 | (b1 as u32) << 16 | (b2 as u32) << 8 | (b3 as u32);
    assert(word == b0 * 0x100_0000 + b1 * 0x1_0000 + b2 * 0x100 + b3) by (bit_vector)
        requires
            word == (b0 as u32) << 24 | (b1 as u32) << 16 | (b2 as u32) << 8 | (b3 as u32),
    ;
    word as usize
}

/// Where the receiver stands within a frame: which byte it expects next.
#[derive(Debug, Clone, Copy)]
pub enum Phase {
    /// Outside a frame, waiting for `STX`.
    Idle,
    /// The type byte.
    Type,
    /// A payload byte.
    Payload,
    /// `ETX`.
    Etx,
    /// The block check character.
    Bcc,
}

/// What a byte meant for the frame in progress.
#[derive(Debug, Clone, Copy)]
pub enum FrameVerdict {
    /// Nothing to report: the byte was skipped or the frame goes on.
    Pending,
    /// The frame was malformed (no `ETX` where one was due) and is dropped.
    Dropped,
    /// The frame ended with a wrong block check character and is dropped.
    BadChecksum,
    /// The frame is complete and its block check character is right.
    Complete,
}

/// The state of a reception session.
pub struct ReceiverState {
    pub phase: Phase,
    /// The type of the frame in progress, or of the last one.
    pub kind: u8,
    /// The XOR of the bytes of the frame in progress, from its type on.
    pub bcc: u8,
    /// The payload bytes of the frame in progress, or of the last one.
    pub received: Seq<u8>,
    /// Whether an `END` frame has been carried out.
    pub done: bool,
    /// Where the next `DATA` payload goes.
    pub current_address: usize,
    /// The update announced by the last `INIT` frame.
    pub image_info: Option<update_info>,
}

/// What a byte did to a session and to storage, and the reply to it.
pub struct Step {
    pub state: ReceiverState,
    pub mem: Seq<u8>,
    pub reply: Option<u8>,
}

/// How many payload bytes a frame of type `kind` carries.
pub open spec fn payload_len(kind: u8) -> nat {
    if kind == INIT {
        22
    } else if kind == DATA {
        128
    } else {
        0
    }
}

impl ReceiverState {
    /// The state of a session that has received nothing.
    pub open spec fn initial() -> ReceiverState {
        ReceiverState {
            phase: Phase::Idle,
            kind: 0,
            bcc: 0,
            received: Seq::empty(),
            done: false,
            current_address: 0,
            image_info: None,
        }
    }

    /// Whether the payload collected so far fits the phase: incomplete
    /// while payload bytes are expected, complete otherwise.
    pub open spec fn wf(self) -> bool {
        if self.phase is Payload {
            self.received.len() < payload_len(self.kind)
        } else {
            self.received.len() == payload_len(self.kind)
        }
    }

    /// The framing layer: what `byte` does to the frame in progress.
    ///
    /// Outside a frame every byte but `STX` is skipped. The byte after
    /// `STX` is the type, whatever its value. A byte other than `ETX`
    /// where `ETX` is due drops the frame, and so does a wrong block check
    /// character; in both cases the byte itself is used up.
    pub open spec fn frame_step(self, byte: u8) -> (ReceiverState, FrameVerdict) {
        match self.phase {
            Phase::Idle => (
                if byte == STX {
                    ReceiverState { phase: Phase::Type, ..self }
                } else {
                    self
                },
                FrameVerdict::Pending,
            ),
            Phase::Type => (
                ReceiverState {
                    phase: if payload_len(byte) > 0 {
                        Phase::Payload
                    } else {
                        Phase::Etx
                    },
                    kind: byte,
                    bcc: byte,
                    received: Seq::empty(),
                    ..self
                },
                FrameVerdict::Pending,
            ),
            Phase::Payload => (
                ReceiverState {
                    phase: if self.received.len() + 1 >= payload_len(self.kind) {
                        Phase::Etx
                    } else {
                        Phase::Payload
                    },
                    bcc: self.bcc ^ byte,
                    received: self.received.push(byte),
                    ..self
                },
                FrameVerdict::Pending,
            ),
            Phase::Etx => if byte == ETX {
                (
                    ReceiverState { phase: Phase::Bcc, bcc: self.bcc ^ ETX, ..self },
                    FrameVerdict::Pending,
                )
            } else {
                (ReceiverState { phase: Phase::Idle, ..self }, FrameVerdict::Dropped)
            },
            Phase::Bcc => (
                ReceiverState { phase: Phase::Idle, ..self },
                if byte == self.bcc {
                    FrameVerdict::Complete
                } else {
                    FrameVerdict::BadChecksum
                },
            ),
        }
    }

    /// Whether the complete frame held by this state is carried out when
    /// storage raises no objection: `INIT` and `END` always, `DATA` if its
    /// 128 bytes end at an address that exists, any other type never.
    pub open spec fn acceptable(self) -> bool {
        ||| self.kind == INIT
        ||| self.kind == END
        ||| self.kind == DATA && self.current_address + DATA_PAYLOAD_SIZE <= usize::MAX
    }

    /// Whether the session has what it takes for its update record to be
    /// committed: it is finished, and has announced an update whose payload
    /// is staged in `mem` with the announced checksum.
    pub open spec fn ready_to_commit(self, mem: Seq<u8>) -> bool {
        self.done && (self.image_info matches Some(info) && info.staged_in(mem))
    }

    /// Whether the update record is committed at `address` on storage that
    /// delivers and holds `mem`: the session is ready for it, the staging
    /// range ends at an address, and the record lies inside storage.
    pub open spec fn commits_on(self, mem: Seq<u8>, address: int) -> bool {
        &&& self.ready_to_commit(mem)
        &&& self.image_info->Some_0.update_start + self.image_info->Some_0.update_len
            <= usize::MAX
        &&& address + UPDATE_INFO_SIZE <= mem.len()
    }

    /// Whether carrying out the complete frame held by this state calls on
    /// storage: a `DATA` frame that can be placed is written, an `END`
    /// frame has storage flushed.
    pub open spec fn calls_storage(self) -> bool {
        self.kind == END || (self.kind == DATA && self.acceptable())
    }

    /// The session after the complete frame held by this state has been
    /// carried out.
    ///
    /// `INIT` records the announced update and points the write address at
    /// its staging range; the magic bytes of the header are not examined.
    /// `DATA` moves the write address past the payload. `END` finishes the
    /// session.
    pub open spec fn dispatched(self) -> ReceiverState {
        if self.kind == INIT {
            let info = update_info::from_header(self.received);
            ReceiverState { image_info: Some(info), current_address: info.update_start, ..self }
        } else if self.kind == DATA {
            ReceiverState {
                current_address: (self.current_address + DATA_PAYLOAD_SIZE) as usize,
                ..self
            }
        } else if self.kind == END {
            ReceiverState { done: true, ..self }
        } else {
            self
        }
    }

    /// Whether the payload that `byte` has stored, if it completes a `DATA`
    /// frame, lies inside `mem`. A byte that has nothing stored fits.
    pub open spec fn step_fits(self, mem: Seq<u8>, byte: u8) -> bool {
        let (framed, verdict) = self.frame_step(byte);
        !self.done && verdict is Complete && framed.kind == DATA ==> framed.current_address
            + DATA_PAYLOAD_SIZE <= mem.len()
    }

    /// What `byte` does to the session and to the storage contents `mem`
    /// when storage raises no objection, and the reply to send.
    ///
    /// A frame with a wrong block check character is answered with `NAK`;
    /// a malformed frame is not answered. A complete frame is carried out
    /// and answered with `ACK` if it is acceptable, and otherwise left
    /// alone and answered with `NAK`. Only an accepted `DATA` frame changes
    /// storage: its payload is stored at the write address. A finished
    /// session ignores every byte.
    pub open spec fn step(self, mem: Seq<u8>, byte: u8) -> Step {
        let (framed, verdict) = self.frame_step(byte);
        if self.done {
            Step { state: self, mem, reply: None }
        } else {
            match verdict {
                FrameVerdict::Pending | FrameVerdict::Dropped => Step {
                    state: framed,
                    mem,
                    reply: None,
                },
                FrameVerdict::BadChecksum => Step { state: framed, mem, reply: Some(NAK) },
                FrameVerdict::Complete => if framed.acceptable() {
                    Step {
                        state: framed.dispatched(),
                        mem: if framed.kind == DATA {
                            stored(mem, framed.current_address as int, framed.received)
                        } else {
                            mem
                        },
                        reply: Some(ACK),
                    }
                } else {
                    Step { state: framed, mem, reply: Some(NAK) }
                },
            }
        }
    }
}

/// What a session that was run in one go came to.
#[derive(Debug)]
pub struct SessionReport {
    /// The replies to send, in order.
    pub replies: Vec<u8>,
    /// Whether an `END` frame was carried out.
    pub finished: bool,
    /// Whether the update record was written.
    pub committed: bool,
}

/// Receives a new image: the state of one reception session.
pub struct ImageReceiver {
    phase: Phase,
    packet_type: u8,
    bcc: u8,
    filled: usize,
    payload: [u8; 128],
    done: bool,
    current_address: usize,
    image_info: Option<update_info>,
}

impl View for ImageReceiver {
    type V = ReceiverState;

    closed spec fn view(&self) -> ReceiverState {
        ReceiverState {
            phase: self.phase,
            kind: self.packet_type,
            bcc: self.bcc,
            received: self.payload@.take(self.filled as int),
            done: self.done,
            current_address: self.current_address,
            image_info: self.image_info,
        }
    }
}

impl ImageReceiver {
    #[verifier::type_invariant]
    spec fn well_formed(&self) -> bool {
        &&& self.filled <= DATA_PAYLOAD_SIZE
        &&& self@.wf()
        &&& self.image_info matches Some(info) ==> info.fits_record()
    }

    /// Starts a session: nothing received, nothing announced.
    pub fn new() -> (receiver: Self)
        ensures
            receiver@ == ReceiverState::initial(),
    {
        let receiver = ImageReceiver {
            phase: Phase::Idle,
            packet_type: 0,
            bcc: 0,
            filled: 0,
            payload: [0u8; 128],
            done: false,
            current_address: 0,
            image_info: None,
        };
        assert(receiver.payload@.take(0) == Seq::<u8>::empty());
        receiver
    }

    /// Whether an `END` frame has been carried out.
    pub fn is_done(&self) -> (done: bool)
        ensures
            done == self@.done,
    {
        self.done
    }

    /// The update announced by the last `INIT` frame.
    pub fn image_info(&self) -> (info: Option<update_info>)
        ensures
            info == self@.image_info,
    {
        self.image_info
    }

    /// Where the next `DATA` payload goes.
    pub fn current_address(&self) -> (address: usize)
        ensures
            address == self@.current_address,
    {
        self.current_address
    }

    /// Takes the next byte of the link into the frame in progress.
    fn accept_byte(&mut self, byte: u8) -> (verdict: FrameVerdict)
        ensures
            (final(self)@, verdict) == old(self)@.frame_step(byte),
    {
        proof {
            use_type_invariant(&*self);
        }
        match self.phase {
            Phase::Idle => {
                if byte == STX {
                    self.phase = Phase::Type;
                }
                FrameVerdict::Pending
            },
            Phase::Type => {
                let next = if byte == INIT || byte == DATA {
                    Phase::Payload
                } else {
                    Phase::Etx
                };
                *self = ImageReceiver {
                    phase: next,
                    packet_type: byte,
                    bcc: byte,
                    filled: 0,
                    payload: self.payload,
                    done: self.done,
                    current_address: self.current_address,
                    image_info: self.image_info,
                };
                assert(self.payload@.take(0) == Seq::<u8>::empty());
                FrameVerdict::Pending
            },
            Phase::Payload => {
                let expected = if self.packet_type == INIT {
                    INIT_PAYLOAD_SIZE
                } else {
                    DATA_PAYLOAD_SIZE
                };
                let mut payload = self.payload;
                payload[self.filled] = byte;
                let filled = self.filled + 1;
                let next = if filled >= expected {
                    Phase::Etx
                } else {
                    Phase::Payload
                };
                assert(payload@.take(filled as int) == self.payload@.take(
                    self.filled as int,
                ).push(byte));
                *self = ImageReceiver {
                    phase: next,
                    packet_type: self.packet_type,
                    bcc: self.bcc ^ byte,
                    filled,
                    payload,
                    done: self.done,
                    current_address: self.current_address,
                    image_info: self.image_info,
                };
                FrameVerdict::Pending
            },
            Phase::Etx => {
                if byte == ETX {
                    self.bcc = self.bcc ^ ETX;
                    self.phase = Phase::Bcc;
                    FrameVerdict::Pending
                } else {
                    self.phase = Phase::Idle;
                    FrameVerdict::Dropped
                }
            },
            Phase::Bcc => {
                self.phase = Phase::Idle;
                if byte == self.bcc {
                    FrameVerdict::Complete
                } else {
                    FrameVerdict::BadChecksum
                }
            },
        }
    }

    /// Carries out the complete frame held by the receiver and reports
    /// whether it was accepted.
    fn dispatch_packet<T>(&mut self, flasher: &mut T) -> (accepted: bool) where T: Flasher
        requires
            old(self)@.phase is Idle,
        ensures
            accepted ==> {
                &&& old(self)@.acceptable()
                &&& final(self)@ == old(self)@.dispatched()
                &&& final(flasher).contents() == if old(self)@.kind == DATA {
                    stored(
                        old(flasher).contents(),
                        old(self)@.current_address as int,
                        old(self)@.received,
                    )
                } else {
                    old(flasher).contents()
                }
            },
            !accepted ==> final(self)@ == old(self)@,
            !accepted ==> old(self)@.kind == DATA || !old(self)@.acceptable(),
            !old(self)@.acceptable() ==> final(flasher).contents() == old(flasher).contents(),
            accepted && old(self)@.kind == END ==> final(flasher).committed(),
            !old(self)@.calls_storage() ==> final(flasher).committed() == old(
                flasher,
            ).committed(),
            old(self)@.kind == DATA ==> kept_outside(
                final(flasher).contents(),
                old(flasher).contents(),
                old(self)@.current_address as int,
                DATA_PAYLOAD_SIZE as int,
            ),
            accepted && old(self)@.kind == DATA ==> old(self)@.current_address
                + DATA_PAYLOAD_SIZE <= old(flasher).contents().len(),
            final(flasher).delivers() == old(flasher).delivers(),
            old(flasher).delivers() && old(self)@.acceptable() && (old(self)@.kind == DATA
                ==> old(self)@.current_address + DATA_PAYLOAD_SIZE <= old(
                flasher,
            ).contents().len()) ==> accepted,
    {
        proof {
            use_type_invariant(&*self);
        }
        if self.packet_type == INIT {
            self.init_update()
        } else if self.packet_type == DATA {
            self.flash_data(flasher).is_ok()
        } else if self.packet_type == END {
            self.end_update(flasher)
        } else {
            false
        }
    }

    /// Carries out an `INIT` frame: records the announced update and
    /// points the write address at its staging range.
    fn init_update(&mut self) -> (accepted: bool)
        requires
            old(self)@.phase is Idle,
            old(self)@.kind == INIT,
        ensures
            accepted,
            final(self)@ == old(self)@.dispatched(),
    {
        proof {
            use_type_invariant(&*self);
        }
        let payload = self.payload.as_slice();
        let info = update_info {
            magic: [0x4D, 0x55, 0x55, 0x50, 0x44],
            struct_ver: payload[5],
            update_start: usize_from_packet(payload, 6),
            update_len: usize_from_packet(payload, 10),
            target_adress: usize_from_packet(payload, 14),
            checksum: usize_from_packet(payload, 18),
        };
        self.image_info = Some(info);
        self.current_address = info.update_start;
        true
    }

    /// Carries out a `DATA` frame: stores the payload at the write address
    /// and, if storage took it, moves the write address past it.
    fn flash_data<T>(&mut self, flasher: &mut T) -> (result: Result<(), crate::WriteError>) where
        T: Flasher,

        requires
            old(self)@.phase is Idle,
            old(self)@.kind == DATA,
        ensures
            result is Ok ==> {
                &&& old(self)@.acceptable()
                &&& final(self)@ == old(self)@.dispatched()
                &&& final(flasher).contents() == stored(
                    old(flasher).contents(),
                    old(self)@.current_address as int,
                    old(self)@.received,
                )
            },
            result is Ok ==> old(self)@.current_address + DATA_PAYLOAD_SIZE <= old(
                flasher,
            ).contents().len(),
            result is Err ==> final(self)@ == old(self)@,
            !old(self)@.acceptable() ==> result is Err,
            !old(self)@.acceptable() ==> final(flasher).contents() == old(flasher).contents(),
            !old(self)@.acceptable() ==> final(flasher).committed() == old(flasher).committed(),
            kept_outside(
                final(flasher).contents(),
                old(flasher).contents(),
                old(self)@.current_address as int,
                DATA_PAYLOAD_SIZE as int,
            ),
            final(flasher).delivers() == old(flasher).delivers(),
            old(flasher).delivers() && old(self)@.acceptable() && old(self)@.current_address
                + DATA_PAYLOAD_SIZE <= old(flasher).contents().len() ==> result is Ok,
    {
        proof {
            use_type_invariant(&*self);
        }
        if self.current_address > usize::MAX - DATA_PAYLOAD_SIZE {
            return Err(crate::WriteError::AddressOutOfRange);
        }
        let result = flasher.write(self.current_address, self.payload.as_slice());
        if result.is_ok() {
            self.current_address = self.current_address + DATA_PAYLOAD_SIZE;
        }
        result
    }

    /// Carries out an `END` frame: flushes storage and finishes the
    /// session.
    fn end_update<T>(&mut self, flasher: &mut T) -> (accepted: bool) where T: Flasher
        requires
            old(self)@.kind == END,
        ensures
            accepted,
            final(self)@ == old(self)@.dispatched(),
            final(flasher).contents() == old(flasher).contents(),
            final(flasher).committed(),
            final(flasher).delivers() == old(flasher).delivers(),
    {
        proof {
            use_type_invariant(&*self);
        }
        flasher.flush();
        self.done = true;
        true
    }

    /// Handles the next byte of the link and returns the reply to send,
    /// if there is one.
    ///
    /// The outcome is that of [`ReceiverState::step`], with one exception:
    /// when storage refuses the payload of a `DATA` frame, the reply is
    /// `NAK`, the session is as it was when the frame was complete (the
    /// write address has not moved), and nothing is known about the
    /// range of storage that the payload was meant for; every other byte of
    /// storage is as before. An accepted payload lies inside storage. The
    /// byte that finishes the session has storage flushed; a byte that
    /// carries out neither a `DATA` nor an `END` frame leaves storage
    /// alone. Storage that delivers refuses no payload that lies inside it
    /// ([`ReceiverState::step_fits`]): the outcome is then that of `step`.
    pub fn handle_byte<T>(&mut self, byte: u8, flasher: &mut T) -> (reply: Option<u8>) where
        T: Flasher,

        ensures
            ({
                let model = old(self)@.step(old(flasher).contents(), byte);
                let framed = old(self)@.frame_step(byte).0;
                &&& reply == model.reply ==> final(self)@ == model.state
                &&& reply == model.reply ==> final(flasher).contents() == model.mem
                &&& reply != model.reply ==> {
                    &&& reply == Some(NAK)
                    &&& model.reply == Some(ACK)
                    &&& framed.kind == DATA
                    &&& final(self)@ == framed
                    &&& kept_outside(
                        final(flasher).contents(),
                        old(flasher).contents(),
                        framed.current_address as int,
                        DATA_PAYLOAD_SIZE as int,
                    )
                }
                &&& reply == Some(ACK) && framed.kind == DATA ==> framed.current_address
                    + DATA_PAYLOAD_SIZE <= old(flasher).contents().len()
                &&& old(self)@.done || !(old(self)@.frame_step(byte).1 is Complete)
                    || !framed.calls_storage() ==> final(flasher).committed() == old(
                    flasher,
                ).committed()
                &&& old(flasher).delivers() && old(self)@.step_fits(
                    old(flasher).contents(),
                    byte,
                ) ==> reply == model.reply
            }),
            !old(self)@.done && final(self)@.done ==> final(flasher).committed(),
            final(flasher).delivers() == old(flasher).delivers(),
    {
        if self.done {
            return None;
        }
        match self.accept_byte(byte) {
            FrameVerdict::Pending => None,
            FrameVerdict::Dropped => None,
            FrameVerdict::BadChecksum => Some(NAK),
            FrameVerdict::Complete => {
                if self.dispatch_packet(flasher) {
                    Some(ACK)
                } else {
                    Some(NAK)
                }
            },
        }
    }

    /// Handles a block of bytes of the link, in order, and returns the
    /// replies to send, in order.
    ///
    /// This is [`handle_byte`](Self::handle_byte) once per byte. Set beside
    /// [`run`], the same bytes handled on storage that raises no objection:
    ///
    /// - there is one reply for each reply of `run`, and it is the same
    ///   unless it answers a `DATA` frame; the first one that differs is a
    ///   `NAK` for a payload that storage refused
    ///   ([`replies_follow`]);
    /// - whether the session is finished, the update announced and the
    ///   place within a frame are those of `run`; only the write address
    ///   may differ, after a refusal;
    /// - if no reply differs, session and storage are those of `run`;
    /// - no reply differs on storage that delivers, if every payload lies
    ///   inside it ([`run_fits`]);
    /// - storage has been flushed if the bytes finished the session.
    pub fn handle_bytes<T>(&mut self, bytes: &[u8], flasher: &mut T) -> (replies: Vec<u8>) where
        T: Flasher,

        ensures
            ({
                let model = run(old(self)@, old(flasher).contents(), bytes@);
                &&& replies_follow(replies@, model)
                &&& same_but_address(final(self)@, model.state)
                &&& replies@ == model.replies ==> final(self)@ == model.state
                &&& replies@ == model.replies ==> final(flasher).contents() == model.mem
                &&& old(flasher).delivers() && run_fits(
                    old(self)@,
                    old(flasher).contents(),
                    bytes@,
                ) ==> replies@ == model.replies
            }),
            replies@.len() <= bytes@.len(),
            final(flasher).contents().len() == old(flasher).contents().len(),
            !old(self)@.done && final(self)@.done ==> final(flasher).committed(),
            final(flasher).delivers() == old(flasher).delivers(),
    {
        let ghost start = self@;
        let ghost mem = flasher.contents();
        let ghost mut in_step = true;
        let ghost mut differs_at = 0int;
        let mut replies: Vec<u8> = Vec::new();
        let mut i: usize = 0;
        while i < bytes.len()
            invariant
                i <= bytes@.len(),
                start == old(self)@,
                mem == old(flasher).contents(),
                flasher.contents().len() == mem.len(),
                flasher.delivers() == old(flasher).delivers(),
                old(flasher).delivers() && run_fits(start, mem, bytes@) ==> in_step,
                !start.done && self@.done ==> flasher.committed(),
                ({
                    let model = run(start, mem, bytes@.take(i as int));
                    &&& replies@.len() == model.replies.len()
                    &&& replies@.len() == model.kinds.len()
                    &&& replies@.len() <= i
                    &&& same_but_address(self@, model.state)
                    &&& forall|k: int|
                        0 <= k < replies@.len() && #[trigger] replies@[k] != model.replies[k]
                            ==> model.kinds[k] == DATA
                    &&& in_step ==> {
                        &&& self@ == model.state
                        &&& flasher.contents() == model.mem
                        &&& replies@ == model.replies
                    }
                    &&& !in_step ==> {
                        &&& 0 <= differs_at < replies@.len()
                        &&& replies@[differs_at] == NAK
                        &&& model.replies[differs_at] == ACK
                        &&& replies@.take(differs_at) == model.replies.take(differs_at)
                    }
                }),
            decreases bytes@.len() - i,
        {
            let ghost before = run(start, mem, bytes@.take(i as int));
            let ghost sent = replies@;
            let ghost session = self@;
            let ghost contents = flasher.contents();
            proof {
                lemma_run_push(start, mem, bytes@.take(i as int), bytes@[i as int]);
                assert(bytes@.take(i as int).push(bytes@[i as int]) == bytes@.take(i + 1));
                lemma_step_but_address(session, before.state, contents, before.mem, bytes@[i as int]);
                if run_fits(start, mem, bytes@) {
                    lemma_run_fits_prefix(start, mem, bytes@, i + 1);
                    assert(bytes@.take(i + 1).drop_last() == bytes@.take(i as int));
                }
            }
            let reply = self.handle_byte(bytes[i], flasher);
            proof {
                let after = run(start, mem, bytes@.take(i + 1));
                let step = before.state.step(before.mem, bytes@[i as int]);
                if in_step && reply != step.reply {
                    in_step = false;
                    differs_at = sent.len() as int;
                    assert(sent.take(differs_at) == sent);
                    assert(before.replies.take(differs_at) == before.replies);
                }
                if !in_step && step.reply is Some {
                    assert(after.replies.take(differs_at) == before.replies.take(differs_at));
                }
            }
            match reply {
                Some(byte) => {
                    replies.push(byte);
                    assert(!in_step ==> replies@.take(differs_at) == sent.take(differs_at));
                },
                None => {},
            }
            i = i + 1;
        }
        proof {
            assert(bytes@.take(i as int) == bytes@);
            let model = run(start, mem, bytes@);
            assert forall|k: int|
                0 <= k < replies@.len() && #[trigger] replies@[k] != model.replies[k]
                    && replies@.take(k) == model.replies.take(k) implies replies@[k] == NAK
                && model.replies[k] == ACK by {
                if k > differs_at {
                    assert(replies@.take(k)[differs_at] == model.replies.take(k)[differs_at]);
                }
                if k < differs_at {
                    assert(replies@.take(differs_at)[k] == model.replies.take(differs_at)[k]);
                }
            }
        }
        replies
    }

    /// Ends the session: if it is finished and announced an update whose
    /// staged payload verifies, writes the update record at
    /// `update_info_address`, where the next boot looks for it.
    ///
    /// Returns whether the record was written; it then lies inside storage.
    /// Nothing is written, and storage is left alone, for an unfinished
    /// session, without an announced update, or when the staged payload
    /// does not verify. Whether the payload can be read and the record
    /// written is for storage to decide; in no case is a byte outside the
    /// record's range changed. On storage that delivers, the record is
    /// written exactly if [`ReceiverState::commits_on`] says so.
    pub fn commit<T>(&self, update_info_address: usize, flasher: &mut T) -> (committed: bool) where
        T: Flasher,

        ensures
            committed ==> {
                &&& self@.done
                &&& self@.image_info matches Some(info)
                &&& info.fits_record()
                &&& info.staged_in(old(flasher).contents())
                &&& update_info_address + UPDATE_INFO_SIZE <= old(flasher).contents().len()
                &&& final(flasher).contents() == stored(
                    old(flasher).contents(),
                    update_info_address as int,
                    info.record(),
                )
            },
            !self@.done || self@.image_info is None ==> !committed,
            !self@.done || !(self@.image_info matches Some(info) && info.staged_in(
                old(flasher).contents(),
            )) ==> final(flasher).contents() == old(flasher).contents(),
            !self@.done || !(self@.image_info matches Some(info) && info.staged_in(
                old(flasher).contents(),
            )) ==> final(flasher).committed() == old(flasher).committed(),
            kept_outside(
                final(flasher).contents(),
                old(flasher).contents(),
                update_info_address as int,
                UPDATE_INFO_SIZE as int,
            ),
            final(flasher).delivers() == old(flasher).delivers(),
            old(flasher).delivers() ==> committed == self@.commits_on(
                old(flasher).contents(),
                update_info_address as int,
            ),
    {
        proof {
            use_type_invariant(self);
        }
        if !self.done {
            return false;
        }
        match self.image_info {
            Some(info) => {
                if check_crc(info.update_start, info.update_len, info.checksum, flasher) {
                    match info.to_bytes() {
                        Some(record) => flasher.write(
                            update_info_address,
                            record.as_slice(),
                        ).is_ok(),
                        None => false,
                    }
                } else {
                    false
                }
            },
            None => false,
        }
    }

    /// Runs the session on bytes that have already arrived and ends it.
    ///
    /// The bytes are handled in order until an `END` frame has been carried
    /// out ([`handle_bytes`](Self::handle_bytes)); then the update record is
    /// committed at `update_info_address` if the session is finished and
    /// the staged payload verifies ([`commit`](Self::commit)).
    ///
    /// The replies are those of [`run`] but for payloads that storage
    /// refused ([`replies_follow`]), and the session is finished exactly
    /// if `run` finishes it. If no reply differs from those of `run`,
    /// storage is as `run` leaves it, but for the update record: that is
    /// written only if the session is ready for it
    /// ([`ReceiverState::ready_to_commit`]), lies inside storage when
    /// `committed` is reported, and in no case is a byte outside its range
    /// changed. A session that is finished here and writes no record
    /// leaves storage flushed.
    ///
    /// On storage that delivers, and if every payload lies inside it
    /// ([`run_fits`]), no reply differs from those of `run`, and the record
    /// is written exactly if [`ReceiverState::commits_on`] says so.
    pub fn execute<T>(
        self,
        update_info_address: usize,
        bytes: &[u8],
        flasher: &mut T,
    ) -> (report: SessionReport) where T: Flasher
        ensures
            report.replies@.len() <= bytes@.len(),
            final(flasher).contents().len() == old(flasher).contents().len(),
            ({
                let model = run(self@, old(flasher).contents(), bytes@);
                let after = final(flasher).contents();
                let in_step = report.replies@ == model.replies;
                let ready = model.state.ready_to_commit(model.mem);
                &&& replies_follow(report.replies@, model)
                &&& report.finished == model.state.done
                &&& report.committed ==> report.finished && model.state.image_info is Some
                &&& in_step ==> kept_outside(
                    after,
                    model.mem,
                    update_info_address as int,
                    UPDATE_INFO_SIZE as int,
                )
                &&& in_step && !ready ==> after == model.mem && !report.committed
                &&& in_step && report.committed ==> {
                    &&& ready
                    &&& update_info_address + UPDATE_INFO_SIZE <= model.mem.len()
                    &&& model.state.image_info->Some_0.fits_record()
                    &&& after == stored(
                        model.mem,
                        update_info_address as int,
                        model.state.image_info->Some_0.record(),
                    )
                }
                &&& !self@.done && report.finished && (model.state.image_info is None || (in_step
                    && !ready)) ==> final(flasher).committed()
                &&& old(flasher).delivers() && run_fits(self@, old(flasher).contents(), bytes@)
                    ==> in_step && report.committed == model.state.commits_on(
                    model.mem,
                    update_info_address as int,
                )
            }),
            final(flasher).delivers() == old(flasher).delivers(),
    {
        let mut session = self;
        let replies = session.handle_bytes(bytes, flasher);
        let finished = session.is_done();
        let committed = session.commit(update_info_address, flasher);
        SessionReport { replies, finished, committed }
    }
}

} // verus!
