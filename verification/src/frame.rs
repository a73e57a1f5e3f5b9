//! Length-prefixed frames.
//!
//! A frame is a two byte big-endian length followed by that many payload bytes. A connection
//! carries one frame after the other, and the bytes arrive in chunks of any size.

use vstd::prelude::*;

verus! {

/// The largest payload that a two byte length can announce.
pub const MAX_PAYLOAD: usize = 65535;

/// What can be wrong with the bytes of a connection.
#[derive(Clone, Copy, Debug, PartialEq, Eq, Structural)]
pub enum FrameError {
    /// A header announced more payload than the reader accepts.
    TooLong,
    /// The connection ended inside a frame.
    Truncated,
}

/// The two bytes that announce a payload of `len` bytes.
pub open spec fn header(len: nat) -> Seq<u8> {
    seq![(len / 256) as u8, (len % 256) as u8]
}

/// The frame that carries `payload`.
pub open spec fn framed(payload: Seq<u8>) -> Seq<u8> {
    header(payload.len()) + payload
}

/// The payload length announced by the first two bytes.
pub open spec fn announced(bytes: Seq<u8>) -> nat {
    (bytes[0] * 256 + bytes[1]) as nat
}

/// What stands at the front of some received bytes.
pub enum Front {
    /// The first frame is not complete yet.
    Incomplete,
    /// The first frame announces more than is accepted.
    Oversized,
    /// A complete frame, and the bytes behind it.
    Complete { payload: Seq<u8>, rest: Seq<u8> },
}

/// The front of `bytes`, for a reader that accepts payloads of up to `max` bytes.
pub open spec fn front(bytes: Seq<u8>, max: nat) -> Front {
    if bytes.len() < 2 {
        Front::Incomplete
    } else if announced(bytes) > max {
        Front::Oversized
    } else if bytes.len() < 2 + announced(bytes) {
        Front::Incomplete
    } else {
        Front::Complete {
            payload: bytes.subrange(2, 2 + announced(bytes) as int),
            rest: bytes.skip(2 + announced(bytes) as int),
        }
    }
}

/// All that can be taken from some received bytes: the payloads of the complete frames, in order,
/// and the bytes that are left.
pub struct Decoded {
    pub payloads: Seq<Seq<u8>>,
    pub rest: Seq<u8>,
}

/// Takes frames off the front of `bytes` as long as there is a complete and acceptable one.
pub open spec fn unframe(bytes: Seq<u8>, max: nat) -> Decoded
    decreases bytes.len(),
{
    match front(bytes, max) {
        Front::Complete { payload, rest } => {
            let after = unframe(rest, max);
            Decoded { payloads: seq![payload] + after.payloads, rest: after.rest }
        },
        _ => Decoded { payloads: Seq::empty(), rest: bytes },
    }
}

/// The bytes of a connection that carries `payloads`, one frame each.
pub open spec fn stream(payloads: Seq<Seq<u8>>) -> Seq<u8>
    decreases payloads.len(),
{
    if payloads.len() == 0 {
        Seq::empty()
    } else {
        framed(payloads[0]) + stream(payloads.skip(1))
    }
}

/// Builds the frame that carries `payload`, or `None` if the payload is too long for the header.
pub fn encode_frame(payload: &[u8]) -> (r: Option<Vec<u8>>)
    ensures
        r is Some <==> payload@.len() <= MAX_PAYLOAD,
        r is Some <==> payload@.len() <= 65535,
        r matches Some(bytes) ==> bytes@ == framed(payload@),
        r matches Some(bytes) ==> {
            &&& bytes@.len() == 2 + payload@.len()
            &&& bytes@[0] * 256 + bytes@[1] == payload@.len()
            &&& bytes@.skip(2) == payload@
        },
{
    let len: usize = payload.len();
    if len > MAX_PAYLOAD {
        return None;
    }
    let mut bytes: Vec<u8> = Vec::new();
    bytes.push((len / 256) as u8);
    bytes.push((len % 256) as u8);
    bytes.extend_from_slice(payload);
    assert(bytes@ =~= framed(payload@));
    assert(bytes@.skip(2) =~= payload@);
    Some(bytes)
}

/// How far the reading of a frame has come.
#[derive(Debug)]
pub enum FrameRead {
    /// The payload of a frame.
    Frame(Vec<u8>),
    /// More bytes are needed.
    More,
    /// The connection ended between two frames.
    End,
    /// The connection cannot be used any further.
    Broken(FrameError),
}

/// Whether a parser that accepts payloads of up to `max` bytes and holds `bytes` gives `r`, and
/// holds `left` afterwards.
pub open spec fn reads(bytes: Seq<u8>, max: nat, r: FrameRead, left: Seq<u8>) -> bool {
    match front(bytes, max) {
        Front::Incomplete => r is More && left == bytes,
        Front::Oversized => r == FrameRead::Broken(FrameError::TooLong) && left == bytes,
        Front::Complete { payload, rest } => r matches FrameRead::Frame(found) && found@ == payload
            && left == rest,
    }
}

/// Cuts the bytes of one connection into frames.
pub struct ProtocolParser {
    buffer: Vec<u8>,
    max_frame_size: usize,
}

impl ProtocolParser {
    /// The bytes received so far that belong to no frame handed out yet.
    pub closed spec fn pending(&self) -> Seq<u8> {
        self.buffer@
    }

    /// The longest payload that is accepted.
    pub closed spec fn max_frame_size(&self) -> nat {
        self.max_frame_size as nat
    }

    /// A parser for a new connection, which accepts every payload that a header can announce.
    pub fn new() -> (r: Self)
        ensures
            r.pending() == Seq::<u8>::empty(),
            r.max_frame_size() == MAX_PAYLOAD,
            r.max_frame_size() == 65535,
    {
        ProtocolParser { buffer: Vec::new(), max_frame_size: MAX_PAYLOAD }
    }

    /// The same parser with another limit on the payload.
    pub fn with_max_frame_size(self, max_frame_size: usize) -> (r: Self)
        ensures
            r.pending() == self.pending(),
            r.max_frame_size() == max_frame_size,
    {
        ProtocolParser { buffer: self.buffer, max_frame_size }
    }

    /// Takes in the next bytes of the connection.
    pub fn feed(&mut self, chunk: &[u8])
        ensures
            final(self).pending() == old(self).pending() + chunk@,
            final(self).max_frame_size() == old(self).max_frame_size(),
    {
        self.buffer.extend_from_slice(chunk);
        assert(self.buffer@ =~= old(self).buffer@ + chunk@);
    }

    /// Hands out the payload of the first frame, if all of it has arrived: `Ok(None)` asks for more
    /// bytes, and an oversized frame is refused as soon as its header is there.
    pub fn next_frame(&mut self) -> (r: Result<Option<Vec<u8>>, FrameError>)
        ensures
            final(self).max_frame_size() == old(self).max_frame_size(),
            match front(old(self).pending(), old(self).max_frame_size()) {
                Front::Incomplete => r == Ok::<Option<Vec<u8>>, FrameError>(None)
                    && final(self).pending() == old(self).pending(),
                Front::Oversized => r == Err::<Option<Vec<u8>>, FrameError>(FrameError::TooLong)
                    && final(self).pending() == old(self).pending(),
                Front::Complete { payload, rest } => r matches Ok(Some(bytes)) && bytes@ == payload
                    && final(self).pending() == rest,
            },
            ({
                let held = old(self).pending();
                if held.len() >= 2 && held[0] * 256 + held[1] > old(self).max_frame_size() {
                    &&& r == Err::<Option<Vec<u8>>, FrameError>(FrameError::TooLong)
                    &&& final(self).pending() == held
                } else if held.len() >= 2 && held[0] * 256 + held[1] <= held.len() - 2 {
                    &&& r matches Ok(Some(bytes))
                    &&& bytes@.len() == held[0] * 256 + held[1]
                    &&& held == held.take(2) + bytes@ + final(self).pending()
                } else {
                    &&& r == Ok::<Option<Vec<u8>>, FrameError>(None)
                    &&& final(self).pending() == held
                }
            }),
    {
        if self.buffer.len() < 2 {
            return Ok(None);
        }
        let len: usize = self.buffer[0] as usize * 256 + self.buffer[1] as usize;
        if len > self.max_frame_size {
            return Err(FrameError::TooLong);
        }
        if self.buffer.len() - 2 < len {
            return Ok(None);
        }
        let rest: Vec<u8> = self.buffer.split_off(2 + len);
        let payload: Vec<u8> = self.buffer.split_off(2);
        self.buffer = rest;
        assert(payload@ =~= old(self).buffer@.subrange(2, 2 + len as int));
        assert(self.buffer@ =~= old(self).buffer@.skip(2 + len as int));
        assert(old(self).buffer@ =~= old(self).buffer@.take(2) + payload@ + self.buffer@);
        Ok(Some(payload))
    }

    /// One turn of reading a frame. At first nothing was read, and a frame may be waiting; then,
    /// as long as [`FrameRead::More`] asks for it, `arrived` is what the connection gave, where no
    /// bytes stand for its end.
    pub fn read_frame(&mut self, arrived: Option<&[u8]>) -> (r: FrameRead)
        ensures
            final(self).max_frame_size() == old(self).max_frame_size(),
            match arrived {
                Some(chunk) if chunk@.len() == 0 => {
                    &&& final(self).pending() == old(self).pending()
                    &&& r == if old(self).pending().len() == 0 {
                        FrameRead::End
                    } else {
                        FrameRead::Broken(FrameError::Truncated)
                    }
                },
                Some(chunk) => reads(
                    old(self).pending() + chunk@,
                    old(self).max_frame_size(),
                    r,
                    final(self).pending(),
                ),
                None => reads(
                    old(self).pending(),
                    old(self).max_frame_size(),
                    r,
                    final(self).pending(),
                ),
            },
            arrived matches Some(chunk) && chunk@.len() == 0 || {
                let held = match arrived {
                    Some(chunk) => old(self).pending() + chunk@,
                    None => old(self).pending(),
                };
                if held.len() >= 2 && held[0] * 256 + held[1] > old(self).max_frame_size() {
                    &&& r == FrameRead::Broken(FrameError::TooLong)
                    &&& final(self).pending() == held
                } else if held.len() >= 2 && held[0] * 256 + held[1] <= held.len() - 2 {
                    &&& r matches FrameRead::Frame(payload)
                    &&& payload@.len() == held[0] * 256 + held[1]
                    &&& held == held.take(2) + payload@ + final(self).pending()
                } else {
                    &&& r is More
                    &&& final(self).pending() == held
                }
            },
            forall|payload: Seq<u8>, kept: int|
                #![trigger framed(payload).take(kept)]
                {
                    &&& payload.len() <= old(self).max_frame_size()
                    &&& payload.len() <= 65535
                    &&& 0 <= kept < framed(payload).len()
                    &&& match arrived {
                        Some(chunk) => chunk@.len() > 0 && old(self).pending() + chunk@ == framed(
                            payload,
                        ).take(kept),
                        None => old(self).pending() == framed(payload).take(kept),
                    }
                } ==> {
                    &&& r is More
                    &&& final(self).pending() == framed(payload).take(kept)
                },
    {
        proof {
            assert forall|payload: Seq<u8>, kept: int|
                #![trigger framed(payload).take(kept)]
                payload.len() <= self.max_frame_size() && payload.len() <= 65535 && 0 <= kept
                    < framed(payload).len() implies front(
                framed(payload).take(kept),
                self.max_frame_size(),
            ) is Incomplete by {
                law_unfinished_frame_waits(payload, kept, self.max_frame_size());
            }
        }
        match arrived {
            Some(chunk) => {
                if chunk.len() == 0 {
                    return match self.finish() {
                        Ok(()) => FrameRead::End,
                        Err(e) => FrameRead::Broken(e),
                    };
                }
                self.feed(chunk);
            },
            None => {},
        }
        match self.next_frame() {
            Ok(Some(payload)) => FrameRead::Frame(payload),
            Ok(None) => FrameRead::More,
            Err(e) => FrameRead::Broken(e),
        }
    }

    /// Judges the end of the connection: it is clean only between two frames.
    pub fn finish(&self) -> (r: Result<(), FrameError>)
        ensures
            r == if self.pending().len() == 0 {
                Ok::<(), FrameError>(())
            } else {
                Err::<(), FrameError>(FrameError::Truncated)
            },
    {
        if self.buffer.len() == 0 {
            Ok(())
        } else {
            Err(FrameError::Truncated)
        }
    }
}

/// The header is the length: the first two bytes of a frame, as a big-endian number, are how many
/// bytes its payload has, and what stands behind them is the payload.
pub proof fn law_header_is_the_length(payload: Seq<u8>)
    requires
        payload.len() <= 65535,
    ensures
        framed(payload).len() == 2 + payload.len(),
        framed(payload)[0] * 256 + framed(payload)[1] == payload.len(),
        framed(payload).skip(2) == payload,
{
    assert(framed(payload).skip(2) =~= payload);
}

/// A frame ends where its header says: as soon as that many bytes stand behind the first two they
/// are the payload, whatever follows, and not before.
pub proof fn law_frame_ends_where_its_header_says(bytes: Seq<u8>, max: nat)
    requires
        bytes.len() >= 2,
        bytes[0] * 256 + bytes[1] <= max,
    ensures
        match front(bytes, max) {
            Front::Complete { payload, rest } => {
                &&& payload.len() == bytes[0] * 256 + bytes[1]
                &&& bytes == bytes.take(2) + payload + rest
            },
            Front::Incomplete => bytes.len() < 2 + bytes[0] * 256 + bytes[1],
            Front::Oversized => false,
        },
{
    if let Front::Complete { payload, rest } = front(bytes, max) {
        assert(bytes =~= bytes.take(2) + payload + rest);
    }
}

/// A frame is refused for its length exactly if its header announces more than is accepted.
pub proof fn law_only_long_frames_are_refused(bytes: Seq<u8>, max: nat)
    ensures
        front(bytes, max) is Oversized <==> bytes.len() >= 2 && bytes[0] * 256 + bytes[1] > max,
{
}

/// A frame is cut off whole: at the front of a frame and whatever follows it stand its payload and
/// exactly what follows.
pub proof fn law_front_of_framed(payload: Seq<u8>, tail: Seq<u8>, max: nat)
    requires
        payload.len() <= max,
        payload.len() <= MAX_PAYLOAD,
    ensures
        front(framed(payload) + tail, max) == (Front::Complete { payload, rest: tail }),
{
    let bytes = framed(payload) + tail;
    let len = payload.len();
    assert(bytes[0] == (len / 256) as u8);
    assert(bytes[1] == (len % 256) as u8);
    assert(announced(bytes) == len);
    assert(bytes.subrange(2, 2 + len as int) =~= payload);
    assert(bytes.skip(2 + len as int) =~= tail);
}

/// What was written is read back: the frames of any payloads that a reader accepts decode to
/// exactly those payloads, in order, with nothing left over.
pub proof fn law_stream_round_trip(payloads: Seq<Seq<u8>>, max: nat)
    requires
        forall|i: int|
            0 <= i < payloads.len() ==> (#[trigger] payloads[i]).len() <= max
                && payloads[i].len() <= MAX_PAYLOAD,
    ensures
        unframe(stream(payloads), max).payloads == payloads,
        unframe(stream(payloads), max).rest == Seq::<u8>::empty(),
    decreases payloads.len(),
{
    if payloads.len() > 0 {
        let tail = payloads.skip(1);
        assert(payloads[0].len() <= max);
        assert forall|i: int| 0 <= i < tail.len() implies (#[trigger] tail[i]).len() <= max
            && tail[i].len() <= MAX_PAYLOAD by {
            assert(tail[i] == payloads[i + 1]);
        }
        law_stream_round_trip(tail, max);
        law_front_of_framed(payloads[0], stream(tail), max);
        assert(payloads =~= seq![payloads[0]] + tail);
    }
}

/// Chunking does not matter: taking frames whenever bytes arrive yields the same payloads and the
/// same remainder as taking them once everything has arrived.
pub proof fn law_chunks_do_not_matter(first: Seq<u8>, second: Seq<u8>, max: nat)
    ensures
        unframe(first + second, max).payloads == unframe(first, max).payloads + unframe(
            unframe(first, max).rest + second,
            max,
        ).payloads,
        unframe(first + second, max).rest == unframe(unframe(first, max).rest + second, max).rest,
    decreases first.len(),
{
    match front(first, max) {
        Front::Complete { payload, rest } => {
            let all = first + second;
            assert(announced(all) == announced(first));
            assert(all.subrange(2, 2 + announced(all) as int) =~= payload);
            assert(all.skip(2 + announced(all) as int) =~= rest + second);
            law_chunks_do_not_matter(rest, second, max);
            let after = unframe(rest, max);
            assert((seq![payload] + after.payloads) + unframe(after.rest + second, max).payloads
                =~= seq![payload] + (after.payloads + unframe(after.rest + second, max).payloads));
        },
        _ => {
            assert(unframe(first, max).payloads + unframe(first + second, max).payloads =~= unframe(
                first + second,
                max,
            ).payloads);
        },
    }
}

/// A frame that is still arriving is waited for: no beginning of an acceptable frame, from nothing
/// to all but its last byte, is taken for a frame or refused.
pub proof fn law_unfinished_frame_waits(payload: Seq<u8>, kept: int, max: nat)
    requires
        payload.len() <= max,
        payload.len() <= 65535,
        0 <= kept < framed(payload).len(),
    ensures
        front(framed(payload).take(kept), max) is Incomplete,
        forall|r: FrameRead, left: Seq<u8>| #[trigger]
            reads(framed(payload).take(kept), max, r, left) ==> r is More && left == framed(
                payload,
            ).take(kept),
{
    let bytes = framed(payload).take(kept);
    law_header_is_the_length(payload);
    if kept >= 2 {
        assert(bytes[0] == framed(payload)[0]);
        assert(bytes[1] == framed(payload)[1]);
    }
}

/// A connection that breaks off inside a frame is noticed: the bytes of the unfinished frame stay
/// behind, so the end is not judged clean.
pub proof fn law_truncation_is_noticed(payload: Seq<u8>, kept: int, max: nat)
    requires
        payload.len() <= max,
        payload.len() <= MAX_PAYLOAD,
        0 < kept < framed(payload).len(),
    ensures
        unframe(framed(payload).take(kept), max).payloads == Seq::<Seq<u8>>::empty(),
        unframe(framed(payload).take(kept), max).rest == framed(payload).take(kept),
        unframe(framed(payload).take(kept), max).rest.len() > 0,
{
    law_unfinished_frame_waits(payload, kept, max);
}

/// An oversized frame stops the reader for good: nothing behind it is ever handed out.
pub proof fn law_oversized_frame_blocks(bytes: Seq<u8>, more: Seq<u8>, max: nat)
    requires
        front(bytes, max) is Oversized,
    ensures
        front(bytes + more, max) is Oversized,
        unframe(bytes + more, max).payloads == Seq::<Seq<u8>>::empty(),
{
    assert(announced(bytes + more) == announced(bytes));
}

/// One call of [`ProtocolParser::read_frame`]: the bytes that had arrived for it, if any, what it
/// gave, and what the parser held afterwards.
pub struct ReadCall {
    pub arrived: Option<Seq<u8>>,
    pub result: FrameRead,
    pub left: Seq<u8>,
}

/// What a new parser holds after some calls.
pub open spec fn held_after(calls: Seq<ReadCall>) -> Seq<u8> {
    if calls.len() == 0 {
        Seq::empty()
    } else {
        calls.last().left
    }
}

/// The bytes that arrived for a call.
pub open spec fn chunk_of(call: ReadCall) -> Seq<u8> {
    match call.arrived {
        Some(chunk) => chunk,
        None => Seq::empty(),
    }
}

/// The bytes that arrived for some calls, in order.
pub open spec fn bytes_in(calls: Seq<ReadCall>) -> Seq<u8>
    decreases calls.len(),
{
    if calls.len() == 0 {
        Seq::empty()
    } else {
        bytes_in(calls.drop_last()) + chunk_of(calls.last())
    }
}

/// The payloads that some calls gave, in order.
pub open spec fn payloads_out(calls: Seq<ReadCall>) -> Seq<Seq<u8>>
    decreases calls.len(),
{
    if calls.len() == 0 {
        Seq::empty()
    } else {
        match calls.last().result {
            FrameRead::Frame(payload) => payloads_out(calls.drop_last()).push(payload@),
            _ => payloads_out(calls.drop_last()),
        }
    }
}

/// Whether `calls` are calls of a new parser that accepts payloads of up to `max` bytes, one after
/// the other, while the connection lasts.
pub open spec fn are_calls(calls: Seq<ReadCall>, max: nat) -> bool
    decreases calls.len(),
{
    calls.len() > 0 ==> {
        let call = calls.last();
        &&& are_calls(calls.drop_last(), max)
        &&& call.arrived matches Some(chunk) ==> chunk.len() > 0
        &&& reads(
            held_after(calls.drop_last()) + chunk_of(call),
            max,
            call.result,
            call.left,
        )
    }
}

/// The bytes of some payloads are those of the first ones and those of the others.
proof fn lemma_stream_in_parts(payloads: Seq<Seq<u8>>, n: int)
    requires
        0 <= n <= payloads.len(),
    ensures
        stream(payloads) == stream(payloads.take(n)) + stream(payloads.skip(n)),
    decreases n,
{
    if n == 0 {
        assert(payloads.skip(0) =~= payloads);
        assert(stream(payloads.take(0)) + stream(payloads) =~= stream(payloads));
    } else {
        let tail = payloads.skip(1);
        lemma_stream_in_parts(tail, n - 1);
        assert(payloads.take(n).skip(1) =~= tail.take(n - 1));
        assert(payloads.skip(n) =~= tail.skip(n - 1));
        assert(stream(payloads) =~= stream(payloads.take(n)) + stream(payloads.skip(n)));
    }
}

/// Reading does not depend on how the bytes are cut into chunks. As long as what has arrived is the
/// beginning of the frames of some acceptable payloads, however it was split, every call gives
/// either a payload or asks for more: none reports an end or a fault. The payloads given so far are
/// the first ones, in order, and the parser holds exactly what arrived behind their frames. When
/// all has arrived and more is asked for, all payloads have been given.
pub proof fn law_any_split_gives_the_payloads(
    payloads: Seq<Seq<u8>>,
    calls: Seq<ReadCall>,
    max: nat,
)
    requires
        forall|i: int|
            0 <= i < payloads.len() ==> (#[trigger] payloads[i]).len() <= max
                && payloads[i].len() <= 65535,
        are_calls(calls, max),
        bytes_in(calls).is_prefix_of(stream(payloads)),
    ensures
        forall|i: int|
            0 <= i < calls.len() ==> (#[trigger] calls[i]).result is Frame
                || calls[i].result is More,
        payloads_out(calls).is_prefix_of(payloads),
        bytes_in(calls) == stream(payloads.take(payloads_out(calls).len() as int)) + held_after(
            calls,
        ),
        calls.len() > 0 && calls.last().result is More && bytes_in(calls) == stream(payloads)
            ==> payloads_out(calls) == payloads,
    decreases calls.len(),
{
    if calls.len() == 0 {
        assert(stream(payloads.take(0)) + held_after(calls) =~= Seq::<u8>::empty());
    } else {
        let before = calls.drop_last();
        let call = calls.last();
        let all = stream(payloads);
        assert(bytes_in(before).is_prefix_of(all)) by {
            assert(bytes_in(before) =~= bytes_in(calls).take(bytes_in(before).len() as int));
        }
        law_any_split_gives_the_payloads(payloads, before, max);
        let given = payloads_out(before);
        let n = given.len() as int;
        let done = stream(payloads.take(n));
        let bytes = held_after(before) + chunk_of(call);
        lemma_stream_in_parts(payloads, n);
        assert(bytes_in(calls) =~= done + bytes);
        let rest = stream(payloads.skip(n));
        assert(bytes.len() <= rest.len());
        assert(bytes =~= rest.take(bytes.len() as int)) by {
            assert forall|i: int| 0 <= i < bytes.len() implies bytes[i] == rest[i] by {
                assert((done + bytes)[done.len() + i] == all[done.len() + i]);
            }
        }
        if n < payloads.len() {
            let next = payloads[n];
            let tail = stream(payloads.skip(n + 1));
            assert(next.len() <= max);
            assert(payloads.skip(n)[0] == next);
            assert(payloads.skip(n).skip(1) =~= payloads.skip(n + 1));
            assert(rest == framed(next) + tail);
            if bytes.len() >= framed(next).len() {
                let more = bytes.skip(framed(next).len() as int);
                assert(bytes =~= framed(next) + more);
                law_front_of_framed(next, more, max);
                assert(payloads.take(n + 1) =~= payloads.take(n).push(next));
                assert(given.push(next).is_prefix_of(payloads));
                lemma_stream_in_parts(payloads.take(n + 1), n);
                assert(payloads.take(n + 1).take(n) =~= payloads.take(n));
                let single = payloads.take(n + 1).skip(n);
                assert(single =~= seq![next]);
                assert(single.skip(1) =~= Seq::<Seq<u8>>::empty());
                assert(stream(single.skip(1)) =~= Seq::<u8>::empty());
                assert(stream(single) =~= framed(next));
                assert(bytes_in(calls) =~= stream(payloads.take(n + 1)) + call.left);
            } else {
                assert(bytes =~= framed(next).take(bytes.len() as int));
                law_unfinished_frame_waits(next, bytes.len() as int, max);
                if bytes_in(calls) == all {
                    assert(bytes.len() == rest.len());
                    assert(rest.len() >= framed(next).len());
                }
            }
        } else {
            assert(payloads.skip(n) =~= Seq::<Seq<u8>>::empty());
            assert(bytes.len() == 0);
            assert(given =~= payloads);
        }
        assert forall|i: int| 0 <= i < calls.len() implies (#[trigger] calls[i]).result is Frame
            || calls[i].result is More by {
            if i < before.len() {
                assert(calls[i] == before[i]);
            }
        }
    }
}

} // verus!
