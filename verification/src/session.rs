//! Whole reception sessions: what sequences of bytes do to a receiver.
//!
//! The lemmas here are about [`run`], which folds [`ReceiverState::step`]
//! over the bytes: the behaviour of
//! [`ImageReceiver::handle_bytes`](crate::image_receiver::ImageReceiver::handle_bytes)
//! when storage raises no objection.

use vstd::prelude::*;
use crate::{region, stored};
use crate::crc::crc32;
use crate::descriptor::update_info;
use crate::image_receiver::{
    be32, payload_len, Phase, ReceiverState, ACK, DATA, END, ETX, INIT, NAK, STX,
};

verus! {

/// A session, the storage contents, and the replies sent so far.
pub struct Run {
    pub state: ReceiverState,
    pub mem: Seq<u8>,
    pub replies: Seq<u8>,
    /// For each reply, the type of the frame that it answers.
    pub kinds: Seq<u8>,
}

/// The running XOR of `bytes`, starting from `acc`.
pub open spec fn bcc_fold(acc: u8, bytes: Seq<u8>) -> u8
    decreases bytes.len(),
{
    if bytes.len() == 0 {
        acc
    } else {
        bcc_fold(acc, bytes.drop_last()) ^ bytes.last()
    }
}

/// The block check character of a frame: the XOR of its type, its payload
/// and `ETX`.
pub open spec fn frame_bcc(kind: u8, payload: Seq<u8>) -> u8 {
    bcc_fold(kind, payload) ^ ETX
}

/// A frame that ends with the byte `last` where its block check character
/// belongs.
pub open spec fn frame_ending(kind: u8, payload: Seq<u8>, last: u8) -> Seq<u8> {
    seq![STX, kind] + payload + seq![ETX, last]
}

/// The well-formed frame of type `kind` with `payload`.
pub open spec fn frame(kind: u8, payload: Seq<u8>) -> Seq<u8> {
    frame_ending(kind, payload, frame_bcc(kind, payload))
}

/// The well-formed `END` frame is `STX END ETX 0x07`.
pub proof fn lemma_end_frame()
    ensures
        frame(END, Seq::empty()) == seq![STX, END, ETX, 0x07u8],
{
    assert(bcc_fold(END, Seq::empty()) == END);
    assert(0x04u8 ^ 0x03u8 == 0x07u8) by (bit_vector);
}

/// The session once the frame of type `kind` with `payload` is complete
/// and before it is carried out.
pub open spec fn framed(state: ReceiverState, kind: u8, payload: Seq<u8>) -> ReceiverState {
    ReceiverState {
        phase: Phase::Idle,
        kind,
        bcc: frame_bcc(kind, payload),
        received: payload,
        ..state
    }
}

/// The session, storage and replies after the receiver has handled
/// `bytes`, one [`ReceiverState::step`] per byte.
pub open spec fn run(state: ReceiverState, mem: Seq<u8>, bytes: Seq<u8>) -> Run
    decreases bytes.len(),
{
    if bytes.len() == 0 {
        Run { state, mem, replies: Seq::empty(), kinds: Seq::empty() }
    } else {
        let before = run(state, mem, bytes.drop_last());
        let step = before.state.step(before.mem, bytes.last());
        let kind = before.state.frame_step(bytes.last()).0.kind;
        Run {
            state: step.state,
            mem: step.mem,
            replies: match step.reply {
                Some(reply) => before.replies.push(reply),
                None => before.replies,
            },
            kinds: match step.reply {
                Some(_) => before.kinds.push(kind),
                None => before.kinds,
            },
        }
    }
}

/// Whether every payload that the run on `bytes` has stored lies inside
/// storage: what it takes for storage that delivers to refuse none.
pub open spec fn run_fits(state: ReceiverState, mem: Seq<u8>, bytes: Seq<u8>) -> bool
    decreases bytes.len(),
{
    if bytes.len() == 0 {
        true
    } else {
        let before = run(state, mem, bytes.drop_last());
        run_fits(state, mem, bytes.drop_last()) && before.state.step_fits(
            before.mem,
            bytes.last(),
        )
    }
}

/// Whether two sessions differ in nothing but the write address.
pub open spec fn same_but_address(a: ReceiverState, b: ReceiverState) -> bool {
    a == (ReceiverState { current_address: a.current_address, ..b })
}

/// Whether `replies` are what a receiver may have sent where `model` is the
/// run on storage that raises no objection.
///
/// There is one reply for each of the model's, and it is the model's
/// unless it answers a `DATA` frame, the one frame on which storage has a
/// say. The first reply that differs from the model's is a `NAK` where the
/// model has `ACK`: storage refused a payload. From then on write address
/// and storage are no longer the model's, so that later `DATA` frames may
/// be answered either way.
pub open spec fn replies_follow(replies: Seq<u8>, model: Run) -> bool {
    &&& replies.len() == model.replies.len()
    &&& forall|i: int|
        0 <= i < replies.len() && #[trigger] replies[i] != model.replies[i] ==> model.kinds[i]
            == DATA
    &&& forall|i: int|
        0 <= i < replies.len() && #[trigger] replies[i] != model.replies[i] && replies.take(i)
            == model.replies.take(i) ==> replies[i] == NAK && model.replies[i] == ACK
}


/// Every reply of a run has the type of its frame beside it.
pub proof fn lemma_run_kinds(state: ReceiverState, mem: Seq<u8>, bytes: Seq<u8>)
    ensures
        run(state, mem, bytes).kinds.len() == run(state, mem, bytes).replies.len(),
        run(state, mem, bytes).replies.len() <= bytes.len(),
    decreases bytes.len(),
{
    if bytes.len() > 0 {
        lemma_run_kinds(state, mem, bytes.drop_last());
    }
}

/// Replies that follow the model are the model's as soon as no payload was
/// refused: that is, if every `DATA` frame that the model answers with
/// `ACK` was answered with `ACK`.
pub proof fn lemma_replies_without_refusal(replies: Seq<u8>, model: Run)
    requires
        replies_follow(replies, model),
        forall|i: int|
            0 <= i < replies.len() && model.kinds[i] == DATA && model.replies[i] == ACK
                ==> #[trigger] replies[i] == ACK,
    ensures
        replies == model.replies,
{
    lemma_prefix_without_refusal(replies, model, replies.len() as int);
    assert(replies.take(replies.len() as int) == replies);
    assert(model.replies.take(replies.len() as int) == model.replies);
}

proof fn lemma_prefix_without_refusal(replies: Seq<u8>, model: Run, upto: int)
    requires
        replies_follow(replies, model),
        forall|i: int|
            0 <= i < replies.len() && model.kinds[i] == DATA && model.replies[i] == ACK
                ==> #[trigger] replies[i] == ACK,
        0 <= upto <= replies.len(),
    ensures
        replies.take(upto) == model.replies.take(upto),
    decreases upto,
{
    if upto > 0 {
        lemma_prefix_without_refusal(replies, model, upto - 1);
        let i = upto - 1;
        if replies[i] != model.replies[i] {
            assert(replies[i] == NAK && model.replies[i] == ACK);
            assert(model.kinds[i] == DATA);
        }
        assert(replies.take(upto) == replies.take(i).push(replies[i]));
        assert(model.replies.take(upto) == model.replies.take(i).push(model.replies[i]));
    }
}

/// A byte does the same to two sessions that differ only in the write
/// address, but for the answer to a complete `DATA` frame, which depends on
/// whether the payload can be placed.
pub proof fn lemma_step_but_address(
    a: ReceiverState,
    b: ReceiverState,
    mem_a: Seq<u8>,
    mem_b: Seq<u8>,
    byte: u8,
)
    requires
        same_but_address(a, b),
    ensures
        ({
            let step_a = a.step(mem_a, byte);
            let step_b = b.step(mem_b, byte);
            let framed_a = a.frame_step(byte).0;
            let framed_b = b.frame_step(byte).0;
            let complete = !a.done && a.frame_step(byte).1 is Complete;
            &&& a.frame_step(byte).1 == b.frame_step(byte).1
            &&& same_but_address(framed_a, framed_b)
            &&& same_but_address(step_a.state, step_b.state)
            &&& step_a.reply is Some <==> step_b.reply is Some
            &&& step_a.reply != step_b.reply ==> complete && framed_b.kind == DATA
            &&& complete && framed_b.kind == DATA ==> same_but_address(framed_a, step_b.state)
        }),
{
}

/// A run that fits has fitted all along.
pub proof fn lemma_run_fits_prefix(state: ReceiverState, mem: Seq<u8>, bytes: Seq<u8>, upto: int)
    requires
        run_fits(state, mem, bytes),
        0 <= upto <= bytes.len(),
    ensures
        run_fits(state, mem, bytes.take(upto)),
    decreases bytes.len(),
{
    if upto == bytes.len() {
        assert(bytes.take(upto) == bytes);
    } else {
        lemma_run_fits_prefix(state, mem, bytes.drop_last(), upto);
        assert(bytes.drop_last().take(upto) == bytes.take(upto));
    }
}

/// A run on `head + tail` fits if the run on `head` does and the run on
/// `tail` that follows it does.
pub proof fn lemma_run_fits_join(
    state: ReceiverState,
    mem: Seq<u8>,
    head: Seq<u8>,
    tail: Seq<u8>,
)
    ensures
        ({
            let first = run(state, mem, head);
            run_fits(state, mem, head + tail) == (run_fits(state, mem, head) && run_fits(
                first.state,
                first.mem,
                tail,
            ))
        }),
    decreases tail.len(),
{
    if tail.len() == 0 {
        assert(head + tail == head);
    } else {
        lemma_run_fits_join(state, mem, head, tail.drop_last());
        lemma_run_join(state, mem, head, tail.drop_last());
        assert((head + tail).drop_last() == head + tail.drop_last());
    }
}

proof fn lemma_run_fits_push(state: ReceiverState, mem: Seq<u8>, bytes: Seq<u8>, byte: u8)
    ensures
        ({
            let before = run(state, mem, bytes);
            run_fits(state, mem, bytes.push(byte)) == (run_fits(state, mem, bytes)
                && before.state.step_fits(before.mem, byte))
        }),
{
    assert(bytes.push(byte).drop_last() == bytes);
}

proof fn lemma_payload_fits(state: ReceiverState, mem: Seq<u8>, bytes: Seq<u8>)
    requires
        state.phase is Payload,
        !state.done,
        state.received.len() + bytes.len() <= payload_len(state.kind),
    ensures
        run_fits(state, mem, bytes),
    decreases bytes.len(),
{
    if bytes.len() > 0 {
        lemma_payload_fits(state, mem, bytes.drop_last());
        lemma_run_payload(state, mem, bytes.drop_last());
    }
}

/// A frame fits unless it is a well-formed `DATA` frame whose payload
/// would end outside storage.
pub proof fn lemma_frame_fits(
    state: ReceiverState,
    mem: Seq<u8>,
    kind: u8,
    payload: Seq<u8>,
    last: u8,
)
    requires
        state.phase is Idle,
        !state.done,
        payload.len() == payload_len(kind),
    ensures
        run_fits(state, mem, frame_ending(kind, payload, last)) == (kind == DATA && last
            == frame_bcc(kind, payload) ==> state.current_address + 128 <= mem.len()),
{
    let opening = seq![STX, kind];
    lemma_run_push(state, mem, Seq::empty(), STX);
    lemma_run_push(state, mem, seq![STX], kind);
    lemma_run_fits_push(state, mem, Seq::empty(), STX);
    lemma_run_fits_push(state, mem, seq![STX], kind);
    assert(seq![STX].push(kind) == opening);
    let typed = run(state, mem, opening);
    lemma_run_join(state, mem, opening, payload);
    lemma_run_fits_join(state, mem, opening, payload);
    if payload.len() > 0 {
        lemma_run_payload(typed.state, mem, payload);
        lemma_payload_fits(typed.state, mem, payload);
    }
    assert(Seq::<u8>::empty() + payload == payload);
    lemma_run_push(state, mem, opening + payload, ETX);
    lemma_run_fits_push(state, mem, opening + payload, ETX);
    lemma_run_fits_push(state, mem, (opening + payload).push(ETX), last);
    assert((opening + payload).push(ETX).push(last) == frame_ending(kind, payload, last));
}

/// Handling `head + tail` is handling `head` and then `tail`.
pub proof fn lemma_run_join(state: ReceiverState, mem: Seq<u8>, head: Seq<u8>, tail: Seq<u8>)
    ensures
        ({
            let first = run(state, mem, head);
            let second = run(first.state, first.mem, tail);
            run(state, mem, head + tail) == Run {
                state: second.state,
                mem: second.mem,
                replies: first.replies + second.replies,
                kinds: first.kinds + second.kinds,
            }
        }),
    decreases tail.len(),
{
    if tail.len() > 0 {
        lemma_run_join(state, mem, head, tail.drop_last());
        assert((head + tail).drop_last() == head + tail.drop_last());
    }
}

/// Handling one more byte is one more step.
pub proof fn lemma_run_push(state: ReceiverState, mem: Seq<u8>, bytes: Seq<u8>, byte: u8)
    ensures
        ({
            let before = run(state, mem, bytes);
            let step = before.state.step(before.mem, byte);
            run(state, mem, bytes.push(byte)) == Run {
                state: step.state,
                mem: step.mem,
                replies: match step.reply {
                    Some(reply) => before.replies.push(reply),
                    None => before.replies,
                },
                kinds: match step.reply {
                    Some(_) => before.kinds.push(before.state.frame_step(byte).0.kind),
                    None => before.kinds,
                },
            }
        }),
{
    assert(bytes.push(byte).drop_last() == bytes);
}

proof fn lemma_run_payload(state: ReceiverState, mem: Seq<u8>, bytes: Seq<u8>)
    requires
        state.phase is Payload,
        !state.done,
        state.received.len() + bytes.len() <= payload_len(state.kind),
    ensures
        run(state, mem, bytes) == (Run {
            state: ReceiverState {
                phase: if state.received.len() + bytes.len() == payload_len(state.kind)
                    && bytes.len() > 0 {
                    Phase::Etx
                } else {
                    Phase::Payload
                },
                bcc: bcc_fold(state.bcc, bytes),
                received: state.received + bytes,
                ..state
            },
            mem,
            replies: Seq::empty(),
            kinds: Seq::empty(),
        }),
    decreases bytes.len(),
{
    if bytes.len() > 0 {
        lemma_run_payload(state, mem, bytes.drop_last());
        assert((state.received + bytes.drop_last()).push(bytes.last()) == state.received + bytes);
    }
}

/// What a frame does to a session that is outside a frame and not
/// finished.
///
/// With a wrong byte where the block check character belongs, the reply is
/// `NAK`, storage is untouched and the session is outside a frame again,
/// its write address, announced update and `done` flag as before. With the
/// right one, the frame is carried out and answered with `ACK` if it is
/// acceptable, and answered with `NAK` otherwise.
pub proof fn lemma_frame(state: ReceiverState, mem: Seq<u8>, kind: u8, payload: Seq<u8>, last: u8)
    requires
        state.phase is Idle,
        !state.done,
        payload.len() == payload_len(kind),
    ensures
        ({
            let complete = framed(state, kind, payload);
            run(state, mem, frame_ending(kind, payload, last)) == if last != frame_bcc(
                kind,
                payload,
            ) || !complete.acceptable() {
                Run { state: complete, mem, replies: seq![NAK], kinds: seq![kind] }
            } else {
                Run {
                    state: complete.dispatched(),
                    mem: if kind == DATA {
                        stored(mem, state.current_address as int, payload)
                    } else {
                        mem
                    },
                    replies: seq![ACK],
                    kinds: seq![kind],
                }
            }
        }),
{
    let opening = seq![STX, kind];
    lemma_run_push(state, mem, Seq::empty(), STX);
    lemma_run_push(state, mem, seq![STX], kind);
    assert(seq![STX].push(kind) == opening);
    let typed = run(state, mem, opening);
    lemma_run_join(state, mem, opening, payload);
    if payload.len() > 0 {
        lemma_run_payload(typed.state, mem, payload);
    }
    assert(Seq::<u8>::empty() + payload == payload);
    lemma_run_push(state, mem, opening + payload, ETX);
    lemma_run_push(state, mem, (opening + payload).push(ETX), last);
    assert((opening + payload).push(ETX).push(last) == frame_ending(kind, payload, last));
}

/// The well-formed `DATA` frames that carry `payloads`, in order.
pub open spec fn data_frames(payloads: Seq<Seq<u8>>) -> Seq<u8>
    decreases payloads.len(),
{
    if payloads.len() == 0 {
        Seq::empty()
    } else {
        data_frames(payloads.drop_last()) + frame(DATA, payloads.last())
    }
}

/// The image that `payloads` make up: all of them, joined in order.
pub open spec fn image_of(payloads: Seq<Seq<u8>>) -> Seq<u8>
    decreases payloads.len(),
{
    if payloads.len() == 0 {
        Seq::empty()
    } else {
        image_of(payloads.drop_last()) + payloads.last()
    }
}

/// The bytes of a whole session: the header, the payloads, the end.
pub open spec fn session_bytes(header: Seq<u8>, payloads: Seq<Seq<u8>>) -> Seq<u8> {
    frame(INIT, header) + data_frames(payloads) + frame(END, Seq::empty())
}

/// Whether every payload has the 128 bytes of a `DATA` frame.
pub open spec fn payloads_fit(payloads: Seq<Seq<u8>>) -> bool {
    forall|i: int| 0 <= i < payloads.len() ==> (#[trigger] payloads[i]).len() == 128
}

proof fn lemma_image_slices(payloads: Seq<Seq<u8>>, i: int)
    requires
        payloads_fit(payloads),
        0 <= i < payloads.len(),
    ensures
        image_of(payloads).len() == 128 * payloads.len(),
        image_of(payloads).subrange(128 * i, 128 * i + 128) == payloads[i],
    decreases payloads.len(),
{
    let front = payloads.drop_last();
    lemma_image_len(front);
    if i < front.len() {
        lemma_image_slices(front, i);
    }
}

proof fn lemma_image_len(payloads: Seq<Seq<u8>>)
    requires
        payloads_fit(payloads),
    ensures
        image_of(payloads).len() == 128 * payloads.len(),
    decreases payloads.len(),
{
    if payloads.len() > 0 {
        lemma_image_len(payloads.drop_last());
    }
}

proof fn lemma_data_frames(state: ReceiverState, mem: Seq<u8>, payloads: Seq<Seq<u8>>)
    requires
        state.phase is Idle,
        !state.done,
        payloads_fit(payloads),
        state.current_address + 128 * payloads.len() <= usize::MAX,
        state.current_address + 128 * payloads.len() <= mem.len(),
    ensures
        ({
            let after = run(state, mem, data_frames(payloads));
            &&& after.state.phase is Idle
            &&& !after.state.done
            &&& after.state.image_info == state.image_info
            &&& after.state.current_address == state.current_address + 128 * payloads.len()
            &&& after.mem == stored(mem, state.current_address as int, image_of(payloads))
            &&& after.replies == Seq::new(payloads.len(), |i: int| ACK)
            &&& after.kinds == Seq::new(payloads.len(), |i: int| DATA)
            &&& run_fits(state, mem, data_frames(payloads))
        }),
    decreases payloads.len(),
{
    if payloads.len() > 0 {
        let front = payloads.drop_last();
        let last = payloads.last();
        lemma_data_frames(state, mem, front);
        lemma_image_len(front);
        let before = run(state, mem, data_frames(front));
        lemma_frame(before.state, before.mem, DATA, last, frame_bcc(DATA, last));
        lemma_frame_fits(before.state, before.mem, DATA, last, frame_bcc(DATA, last));
        lemma_run_join(state, mem, data_frames(front), frame(DATA, last));
        lemma_run_fits_join(state, mem, data_frames(front), frame(DATA, last));
    }
}

/// A well-formed session stages its image.
///
/// When a fresh receiver handles the header, the payloads and the end of a
/// session, and storage raises no objection, every frame is answered with
/// `ACK`; the session is finished and has recorded the update that the
/// header announces; and storage holds the payloads, one after the other,
/// from the update's staging address on (payload `i` at offset `128 * i`),
/// everything else unchanged. If the header gives the length and checksum
/// of that image, the recorded update is staged and will be committed.
#[verifier::rlimit(50)]
pub proof fn lemma_session_stages_image(
    mem: Seq<u8>,
    header: Seq<u8>,
    payloads: Seq<Seq<u8>>,
)
    requires
        header.len() == 22,
        payloads_fit(payloads),
        be32(header, 6) + 128 * payloads.len() <= usize::MAX,
        be32(header, 6) + 128 * payloads.len() <= mem.len(),
    ensures
        ({
            let info = update_info::from_header(header);
            let after = run(ReceiverState::initial(), mem, session_bytes(header, payloads));
            &&& after.state.done
            &&& after.state.image_info == Some(info)
            &&& after.replies == Seq::new(payloads.len() + 2, |i: int| ACK)
            &&& after.kinds == seq![INIT] + Seq::new(payloads.len(), |i: int| DATA) + seq![END]
            &&& after.mem == stored(mem, info.update_start as int, image_of(payloads))
            &&& forall|i: int|
                0 <= i < payloads.len() ==> region(
                    after.mem,
                    info.update_start + 128 * i,
                    128,
                ) == #[trigger] payloads[i]
            &&& info.update_len == 128 * payloads.len() && info.checksum == crc32(
                image_of(payloads),
            ) ==> info.staged_in(after.mem)
        }),
{
    let info = update_info::from_header(header);
    let start = info.update_start as int;
    let image = image_of(payloads);
    let fresh = ReceiverState::initial();
    let opening = frame(INIT, header);
    let body = data_frames(payloads);
    let closing = frame(END, Seq::empty());
    lemma_image_len(payloads);
    lemma_frame(fresh, mem, INIT, header, frame_bcc(INIT, header));
    let announced = run(fresh, mem, opening);
    lemma_data_frames(announced.state, mem, payloads);
    let staged = run(announced.state, mem, body);
    lemma_frame(staged.state, staged.mem, END, Seq::empty(), frame_bcc(END, Seq::empty()));
    lemma_run_join(fresh, mem, opening, body);
    lemma_run_join(fresh, mem, opening + body, closing);
    let after = run(fresh, mem, session_bytes(header, payloads));
    assert forall|i: int| 0 <= i < payloads.len() implies region(after.mem, start + 128 * i, 128)
        == #[trigger] payloads[i] by {
        lemma_image_slices(payloads, i);
    }
    if info.update_len == 128 * payloads.len() {
        assert(region(after.mem, start, info.update_len as int) == image);
    }
}

/// A well-formed session whose staging range lies inside storage stores no
/// payload outside it: storage that delivers refuses none.
pub proof fn lemma_session_fits(mem: Seq<u8>, header: Seq<u8>, payloads: Seq<Seq<u8>>)
    requires
        header.len() == 22,
        payloads_fit(payloads),
        be32(header, 6) + 128 * payloads.len() <= usize::MAX,
        be32(header, 6) + 128 * payloads.len() <= mem.len(),
    ensures
        run_fits(ReceiverState::initial(), mem, session_bytes(header, payloads)),
{
    let fresh = ReceiverState::initial();
    let opening = frame(INIT, header);
    let body = data_frames(payloads);
    let closing = frame(END, Seq::empty());
    lemma_frame(fresh, mem, INIT, header, frame_bcc(INIT, header));
    lemma_frame_fits(fresh, mem, INIT, header, frame_bcc(INIT, header));
    let announced = run(fresh, mem, opening);
    lemma_data_frames(announced.state, mem, payloads);
    let staged = run(announced.state, mem, body);
    lemma_frame_fits(staged.state, staged.mem, END, Seq::empty(), frame_bcc(END, Seq::empty()));
    lemma_run_join(fresh, mem, opening, body);
    lemma_run_fits_join(fresh, mem, opening, body);
    lemma_run_fits_join(fresh, mem, opening + body, closing);
}

/// A frame with a wrong block check character is refused and leaves no
/// trace.
///
/// The reply is `NAK` and storage is untouched. The session is outside a
/// frame again, with its write address and announced update as before, so
/// that the frames that follow are handled as if the bad one had never
/// been sent: `following` stands for them, from the `STX` and type of the
/// next frame on.
pub proof fn lemma_bad_checksum_is_refused(
    state: ReceiverState,
    mem: Seq<u8>,
    kind: u8,
    payload: Seq<u8>,
    last: u8,
    following: Seq<u8>,
)
    requires
        state.phase is Idle,
        !state.done,
        payload.len() == payload_len(kind),
        last != frame_bcc(kind, payload),
    ensures
        ({
            let after = run(state, mem, frame_ending(kind, payload, last));
            &&& after.replies == seq![NAK]
            &&& after.kinds == seq![kind]
            &&& after.mem == mem
            &&& after.state.phase is Idle
            &&& !after.state.done
            &&& after.state.current_address == state.current_address
            &&& after.state.image_info == state.image_info
        }),
        following.len() >= 2 && following[0] == STX ==> ({
            let clean = run(state, mem, following);
            let after = run(state, mem, frame_ending(kind, payload, last) + following);
            &&& after.state == clean.state
            &&& after.mem == clean.mem
            &&& after.replies == seq![NAK] + clean.replies
            &&& after.kinds == seq![kind] + clean.kinds
        }),
{
    lemma_frame(state, mem, kind, payload, last);
    let bad = frame_ending(kind, payload, last);
    let refused = run(state, mem, bad);
    lemma_run_join(state, mem, bad, following);
    if following.len() >= 2 && following[0] == STX {
        lemma_run_after_start(state, refused.state, mem, following);
    }
}

/// Between frames, the type, check character and payload left over from
/// the last frame do not matter: two sessions that agree on everything
/// else handle a frame start alike.
proof fn lemma_run_after_start(a: ReceiverState, b: ReceiverState, mem: Seq<u8>, bytes: Seq<u8>)
    requires
        a.phase is Idle,
        b.phase is Idle,
        !a.done,
        !b.done,
        a.current_address == b.current_address,
        a.image_info == b.image_info,
        bytes.len() > 0,
        bytes[0] == STX,
    ensures
        run(a, mem, bytes).mem == run(b, mem, bytes).mem,
        run(a, mem, bytes).replies == run(b, mem, bytes).replies,
        run(a, mem, bytes).kinds == run(b, mem, bytes).kinds,
        bytes.len() > 1 ==> run(a, mem, bytes).state == run(b, mem, bytes).state,
        bytes.len() == 1 ==> run(a, mem, bytes).state == (ReceiverState {
            kind: a.kind,
            bcc: a.bcc,
            received: a.received,
            ..run(b, mem, bytes).state
        }),
    decreases bytes.len(),
{
    if bytes.len() == 1 {
        lemma_run_push(a, mem, Seq::empty(), STX);
        lemma_run_push(b, mem, Seq::empty(), STX);
    } else {
        let front = bytes.drop_last();
        lemma_run_after_start(a, b, mem, front);
        if front.len() == 1 {
            assert(front == Seq::<u8>::empty().push(STX));
            lemma_run_push(a, mem, Seq::empty(), STX);
            lemma_run_push(b, mem, Seq::empty(), STX);
        }
    }
}

} // verus!
