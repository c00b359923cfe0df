//! Length-prefixed frames on a connection: `[u32 length][payload]`, the
//! length most significant byte first.

use crate::error::MixnodeError;
use crate::wire::{be32, be32_value, copy_range, lemma_be32_round_trip, push_be32, push_range, read_be32};
use vstd::prelude::*;

verus! {

/// Largest packet that a mixnode handles.
pub const MAX_PACKET_SIZE: usize = 2048;

/// The frame that carries `payload`.
pub open spec fn framed(payload: Seq<u8>) -> Seq<u8>
    recommends
        payload.len() <= u32::MAX,
{
    be32(payload.len() as u32) + payload
}

/// What stands at the start of received bytes.
pub enum FrameStep {
    /// The bytes end before the frame does.
    Incomplete,
    /// A whole frame: its payload, and how many bytes it took.
    Frame { payload: Vec<u8>, consumed: usize },
    /// A frame whose payload would be longer than the limit.
    TooLarge { length: usize },
}

/// What stands at the start of `bytes`, payloads being at most `limit` long.
pub open spec fn frame_at(bytes: Seq<u8>, limit: int) -> Option<Option<Seq<u8>>> {
    if bytes.len() < 4 {
        Some(None)
    } else if be32_value(bytes) > limit {
        None
    } else if bytes.len() < 4 + be32_value(bytes) {
        Some(None)
    } else {
        Some(Some(bytes.subrange(4, 4 + be32_value(bytes) as int)))
    }
}

/// The whole frames at the start of `bytes`, and the bytes behind them.
/// Reading stops at a frame that is incomplete or too large.
pub open spec fn frames_of(bytes: Seq<u8>, limit: int) -> (Seq<Seq<u8>>, Seq<u8>)
    decreases bytes.len(),
{
    match frame_at(bytes, limit) {
        Some(Some(payload)) => {
            let rest = frames_of(bytes.skip(4 + payload.len() as int), limit);
            (seq![payload] + rest.0, rest.1)
        },
        _ => (Seq::empty(), bytes),
    }
}

/// The payloads behind a list of byte vectors.
pub open spec fn payloads(list: Seq<Vec<u8>>) -> Seq<Seq<u8>> {
    list.map_values(|p: Vec<u8>| p@)
}

/// Frames `payload`; refused for a payload of more than 2^32 - 1 bytes.
pub fn encode_frame(payload: &[u8]) -> (frame: Result<Vec<u8>, MixnodeError>)
    ensures
        payload@.len() <= u32::MAX ==> frame is Ok && frame->Ok_0@ == framed(payload@),
        payload@.len() > u32::MAX ==> (frame matches Err(MixnodeError::Packet(m)) && m@
            == "Packet too large to frame"@),
{
    if payload.len() > 0xFFFF_FFFF {
        return Err(MixnodeError::Packet(String::from_str("Packet too large to frame")));
    }
    let mut frame: Vec<u8> = Vec::new();
    push_be32(&mut frame, payload.len() as u32);
    push_range(&mut frame, payload, 0, payload.len());
    assert(payload@.subrange(0, payload@.len() as int) =~= payload@);
    assert(frame@ =~= framed(payload@));
    Ok(frame)
}

/// Reads what stands at the start of `bytes`.
pub fn next_frame(bytes: &[u8], limit: usize) -> (step: FrameStep)
    ensures
        match frame_at(bytes@, limit as int) {
            None => step matches FrameStep::TooLarge { length } && length == be32_value(bytes@),
            Some(None) => step is Incomplete,
            Some(Some(payload)) => step matches FrameStep::Frame { payload: p, consumed } && p@
                == payload && consumed == 4 + payload.len(),
        },
{
    if bytes.len() < 4 {
        return FrameStep::Incomplete;
    }
    let length = read_be32(bytes) as usize;
    if length > limit {
        return FrameStep::TooLarge { length };
    }
    if bytes.len() - 4 < length {
        return FrameStep::Incomplete;
    }
    FrameStep::Frame { payload: copy_range(bytes, 4, 4 + length), consumed: 4 + length }
}

/// Takes all whole frames off the front of `buffer` and hands out their
/// payloads; what is left in the buffer is the start of the next frame.
pub fn drain_frames(buffer: &mut Vec<u8>, limit: usize) -> (frames: Vec<Vec<u8>>)
    ensures
        payloads(frames@) == frames_of(old(buffer)@, limit as int).0,
        final(buffer)@ == frames_of(old(buffer)@, limit as int).1,
{
    let mut frames: Vec<Vec<u8>> = Vec::new();
    let mut start: usize = 0;
    assert(buffer@.skip(0) =~= buffer@);
    assert(payloads(frames@) =~= Seq::<Seq<u8>>::empty());
    loop
        invariant
            start <= buffer@.len(),
            buffer@ == old(buffer)@,
            frames_of(old(buffer)@, limit as int).0 == payloads(frames@) + frames_of(
                buffer@.skip(start as int),
                limit as int,
            ).0,
            frames_of(old(buffer)@, limit as int).1 == frames_of(
                buffer@.skip(start as int),
                limit as int,
            ).1,
        ensures
            start <= buffer@.len(),
            buffer@ == old(buffer)@,
            frames_of(old(buffer)@, limit as int).0 == payloads(frames@),
            frames_of(old(buffer)@, limit as int).1 == buffer@.skip(start as int),
        decreases buffer@.len() - start,
    {
        let rest = vstd::slice::slice_subrange(buffer.as_slice(), start, buffer.len());
        assert(rest@ =~= buffer@.skip(start as int));
        match next_frame(rest, limit) {
            FrameStep::Frame { payload, consumed } => {
                let ghost before = payloads(frames@);
                proof {
                    assert(rest@.skip(consumed as int) =~= buffer@.skip(start + consumed));
                }
                frames.push(payload);
                assert(payloads(frames@) =~= before + seq![payload@]);
                start = start + consumed;
            },
            _ => {
                assert(payloads(frames@) + Seq::<Seq<u8>>::empty() =~= payloads(frames@));
                break ;
            },
        }
    }
    let rest = copy_range(buffer.as_slice(), start, buffer.len());
    assert(rest@ =~= buffer@.skip(start as int));
    *buffer = rest;
    frames
}

/// A frame followed by anything reads back as its payload, followed by what
/// reads from the rest.
pub proof fn lemma_frame_round_trip(payload: Seq<u8>, rest: Seq<u8>, limit: int)
    requires
        payload.len() <= limit,
        payload.len() <= u32::MAX,
    ensures
        frame_at(framed(payload) + rest, limit) == Some(Some(payload)),
        frames_of(framed(payload) + rest, limit).0 == seq![payload] + frames_of(rest, limit).0,
        frames_of(framed(payload) + rest, limit).1 == frames_of(rest, limit).1,
{
    let n = payload.len() as u32;
    let bytes = framed(payload) + rest;
    lemma_be32_round_trip(n);
    assert(bytes[0] == be32(n)[0] && bytes[1] == be32(n)[1] && bytes[2] == be32(n)[2] && bytes[3]
        == be32(n)[3]);
    assert(be32_value(bytes) == payload.len());
    assert(bytes.subrange(4, 4 + payload.len() as int) =~= payload);
    assert(bytes.skip(4 + payload.len() as int) =~= rest);
}

/// Reading frames loses no byte: the frames read, framed again, followed by
/// what is left, are the bytes that came in.
pub proof fn lemma_frames_keep_every_byte(bytes: Seq<u8>, limit: int)
    requires
        limit <= u32::MAX,
    ensures
        joined(frames_of(bytes, limit).0) + frames_of(bytes, limit).1 == bytes,
    decreases bytes.len(),
{
    match frame_at(bytes, limit) {
        Some(Some(payload)) => {
            let cut = 4 + payload.len() as int;
            let tail = bytes.skip(cut);
            let rest = frames_of(tail, limit);
            lemma_frames_keep_every_byte(tail, limit);
            assert(frames_of(bytes, limit) == (seq![payload] + rest.0, rest.1));
            lemma_joined_first(payload, rest.0);
            lemma_frame_is_prefix(bytes, limit);
            assert(bytes =~= bytes.take(cut) + tail);
            assert((framed(payload) + joined(rest.0)) + rest.1 =~= framed(payload) + (joined(
                rest.0,
            ) + rest.1));
        },
        _ => {
            assert(joined(Seq::<Seq<u8>>::empty()) =~= Seq::<u8>::empty());
            assert(Seq::<u8>::empty() + bytes =~= bytes);
        },
    }
}

proof fn lemma_joined_first(payload: Seq<u8>, others: Seq<Seq<u8>>)
    ensures
        joined(seq![payload] + others) == framed(payload) + joined(others),
{
    let all = seq![payload] + others;
    assert(all.len() > 0);
    assert(all[0] == payload);
    assert(all.drop_first() =~= others);
}

proof fn lemma_frame_is_prefix(bytes: Seq<u8>, limit: int)
    requires
        limit <= u32::MAX,
        frame_at(bytes, limit) matches Some(Some(_)),
    ensures
        framed(frame_at(bytes, limit)->Some_0->Some_0) == bytes.take(
            4 + frame_at(bytes, limit)->Some_0->Some_0.len() as int,
        ),
{
    let payload = frame_at(bytes, limit)->Some_0->Some_0;
    let head = bytes.take(4);
    assert(head.len() == 4);
    assert(head[0] == bytes[0] && head[1] == bytes[1] && head[2] == bytes[2] && head[3] == bytes[3]);
    assert(be32_value(head) == be32_value(bytes));
    crate::wire::lemma_be32_of_value(head);
    assert(payload.len() == be32_value(bytes));
    assert(be32(payload.len() as u32) == head);
    assert(head + payload =~= bytes.take(4 + payload.len() as int));
}

/// The frames of the payloads, one after the other.
pub open spec fn joined(list: Seq<Seq<u8>>) -> Seq<u8>
    decreases list.len(),
{
    if list.len() == 0 {
        Seq::empty()
    } else {
        framed(list[0]) + joined(list.drop_first())
    }
}

} // verus!
