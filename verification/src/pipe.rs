//! The forwarding discipline between the TCP stream and the UDP socket.
//!
//! Each direction is a loop of invocations. One invocation performs one
//! blocking read, then at most one write of exactly what was read: one TCP
//! read becomes one datagram, and one datagram becomes one TCP write. No
//! framing is added and nothing is held back or merged. The functions here
//! decide what follows each read and each write; the caller performs them.

use vstd::prelude::*;
use vstd::slice::slice_subrange;
use crate::error::{CloseReason, SessionError};

verus! {

/// Size of the buffer that one read fills: the largest payload of one UDP
/// datagram.
pub const MAX_UNIT: usize = 65507;

/// How a blocking read or write failed.
#[derive(Clone, Copy, Debug, PartialEq, Eq, Structural)]
pub enum IoFailure {
    /// The call would have blocked longer than the timeout allows.
    WouldBlock,
    /// The call timed out.
    TimedOut,
    /// Any other failure.
    Other,
}

impl IoFailure {
    /// The error that this failure is reported as. A platform reports an
    /// expired timeout as `WouldBlock` or as `TimedOut`.
    pub open spec fn error(self) -> SessionError {
        match self {
            IoFailure::WouldBlock => SessionError::TimeoutExpired,
            IoFailure::TimedOut => SessionError::TimeoutExpired,
            IoFailure::Other => SessionError::TransportError,
        }
    }

    /// Computes [`IoFailure::error`].
    pub fn classify(self) -> (e: SessionError)
        ensures
            e == self.error(),
    {
        match self {
            IoFailure::WouldBlock => SessionError::TimeoutExpired,
            IoFailure::TimedOut => SessionError::TimeoutExpired,
            IoFailure::Other => SessionError::TransportError,
        }
    }
}

/// The two directions of a session.
#[derive(Clone, Copy, Debug, PartialEq, Eq, Structural)]
pub enum Direction {
    /// Read from the TCP stream, send to the UDP peer.
    StreamToDatagram,
    /// Receive from the UDP peer, write to the TCP stream.
    DatagramToStream,
}

/// What an invocation does after its read.
#[derive(Clone, Copy, Debug, PartialEq, Eq)]
pub enum Forward<'a> {
    /// Write these bytes to the other side, as one unit.
    Send(&'a [u8]),
    /// Write nothing. The direction's loop ends for this reason.
    Stop(CloseReason),
}

/// What an invocation does after its read, as a plain value.
pub enum Step {
    /// Write these bytes to the other side, as one unit.
    Send(Seq<u8>),
    /// Write nothing. The direction's loop ends for this reason.
    Stop(CloseReason),
}

impl<'a> View for Forward<'a> {
    type V = Step;

    open spec fn view(&self) -> Step {
        match *self {
            Forward::Send(unit) => Step::Send(unit@),
            Forward::Stop(reason) => Step::Stop(reason),
        }
    }
}

/// What follows a read in direction `dir` that left `buf` in the buffer
/// and returned `read`.
///
/// A read of `n` bytes is followed by a write of the first `n` bytes of the
/// buffer. On the stream a read of no bytes is the end of the stream, and
/// nothing is written; a datagram without payload is forwarded as it is. A
/// count beyond the buffer is a transport error. A failed read ends the
/// loop with the error it stands for.
pub open spec fn step_after_read(dir: Direction, buf: Seq<u8>, read: Result<usize, IoFailure>)
    -> Step {
    match read {
        Ok(n) => {
            if n == 0 && dir == Direction::StreamToDatagram {
                Step::Stop(CloseReason::EndOfStream)
            } else if n <= buf.len() {
                Step::Send(buf.take(n as int))
            } else {
                Step::Stop(CloseReason::TransportError)
            }
        },
        Err(failure) => Step::Stop(failure.error().reason()),
    }
}

/// What an invocation returns after a write that returned `written`: the
/// count of bytes, or the reason for which the loop ends.
pub open spec fn result_after_write(written: Result<usize, IoFailure>) -> Result<
    usize,
    CloseReason,
> {
    match written {
        Ok(n) => Ok(n),
        Err(failure) => Err(failure.error().reason()),
    }
}

/// A buffer for one direction: `MAX_UNIT` bytes.
pub fn buffer() -> (buf: Vec<u8>)
    ensures
        buf@.len() == MAX_UNIT,
        forall|i: int| 0 <= i < buf@.len() ==> buf@[i] == 0u8,
{
    vec![0u8; MAX_UNIT]
}

/// Decides what follows one read from the TCP stream: the datagram to
/// send, or the end of this direction.
pub fn forward_stream_to_datagram<'a>(buf: &'a [u8], read: Result<usize, IoFailure>) -> (step:
    Forward<'a>)
    ensures
        step@ == step_after_read(Direction::StreamToDatagram, buf@, read),
{
    match read {
        Ok(n) => {
            if n == 0 {
                Forward::Stop(CloseReason::EndOfStream)
            } else if n <= buf.len() {
                Forward::Send(slice_subrange(buf, 0, n))
            } else {
                Forward::Stop(CloseReason::TransportError)
            }
        },
        Err(failure) => Forward::Stop(failure.classify().close_reason()),
    }
}

/// Decides what follows the receipt of one datagram: the bytes to write to
/// the TCP stream, or the end of this direction.
pub fn forward_datagram_to_stream<'a>(buf: &'a [u8], received: Result<usize, IoFailure>) -> (step:
    Forward<'a>)
    ensures
        step@ == step_after_read(Direction::DatagramToStream, buf@, received),
{
    match received {
        Ok(n) => {
            if n <= buf.len() {
                Forward::Send(slice_subrange(buf, 0, n))
            } else {
                Forward::Stop(CloseReason::TransportError)
            }
        },
        Err(failure) => Forward::Stop(failure.classify().close_reason()),
    }
}

/// Ends one invocation after its write: the count of bytes written, or
/// the reason for which the direction's loop ends.
pub fn forwarded(written: Result<usize, IoFailure>) -> (r: Result<usize, CloseReason>)
    ensures
        r == result_after_write(written),
{
    match written {
        Ok(n) => Ok(n),
        Err(failure) => Err(failure.classify().close_reason()),
    }
}

/// What the sockets did in one invocation.
pub struct Round {
    /// The buffer as the read left it.
    pub buf: Seq<u8>,
    /// What the read returned.
    pub read: Result<usize, IoFailure>,
    /// What the write returned. It counts only where a write was made.
    pub written: Result<usize, IoFailure>,
}

/// The course of one direction's loop.
pub struct Relay {
    /// Every unit handed to the writing side, first to last.
    pub units: Seq<Seq<u8>>,
    /// Why the loop ended, if it has.
    pub closed: Option<CloseReason>,
}

/// The course of the loop of direction `dir` over `rounds`: invocation
/// follows invocation until the first one that ends the loop. Rounds after
/// that one are not performed.
pub open spec fn relay(dir: Direction, rounds: Seq<Round>) -> Relay
    decreases rounds.len(),
{
    if rounds.len() == 0 {
        Relay { units: Seq::empty(), closed: None }
    } else {
        let round = rounds.first();
        match step_after_read(dir, round.buf, round.read) {
            Step::Stop(reason) => Relay { units: Seq::empty(), closed: Some(reason) },
            Step::Send(unit) => match result_after_write(round.written) {
                Err(reason) => Relay { units: seq![unit], closed: Some(reason) },
                Ok(_) => {
                    let rest = relay(dir, rounds.drop_first());
                    Relay { units: seq![unit] + rest.units, closed: rest.closed }
                },
            },
        }
    }
}

/// The read of `round` put exactly `chunk` into the buffer.
pub open spec fn delivers(round: Round, chunk: Seq<u8>) -> bool {
    &&& round.read matches Ok(n) && n == chunk.len()
    &&& chunk.len() <= round.buf.len()
    &&& round.buf.take(chunk.len() as int) == chunk
}

/// Once a loop has ended, further rounds change nothing; until then the
/// course of the rounds so far is followed by the course of the rest.
proof fn lemma_relay_concat(dir: Direction, before: Seq<Round>, rest: Seq<Round>)
    ensures
        relay(dir, before).closed is Some ==> relay(dir, before + rest) == relay(dir, before),
        relay(dir, before).closed is None ==> relay(dir, before + rest) == (Relay {
            units: relay(dir, before).units + relay(dir, rest).units,
            closed: relay(dir, rest).closed,
        }),
    decreases before.len(),
{
    if before.len() == 0 {
        assert(before + rest =~= rest);
        assert(relay(dir, before).units + relay(dir, rest).units =~= relay(dir, rest).units);
    } else {
        let all = before + rest;
        assert(all.first() == before.first());
        assert(all.drop_first() =~= before.drop_first() + rest);
        lemma_relay_concat(dir, before.drop_first(), rest);
        let round = before.first();
        match step_after_read(dir, round.buf, round.read) {
            Step::Stop(_) => {},
            Step::Send(unit) => match result_after_write(round.written) {
                Err(_) => {},
                Ok(_) => {
                    let tail = relay(dir, before.drop_first());
                    if tail.closed is None {
                        assert((seq![unit] + tail.units) + relay(dir, rest).units =~= seq![unit] + (
                        tail.units + relay(dir, rest).units));
                    }
                },
            },
        }
    }
}

proof fn lemma_chunks_forwarded(dir: Direction, chunks: Seq<Seq<u8>>, rounds: Seq<Round>)
    requires
        rounds.len() == chunks.len(),
        forall|i: int|
            0 <= i < chunks.len() ==> delivers(#[trigger] rounds[i], chunks[i])
                && rounds[i].written is Ok,
        dir == Direction::StreamToDatagram ==> forall|i: int|
            0 <= i < chunks.len() ==> (#[trigger] chunks[i]).len() > 0,
    ensures
        relay(dir, rounds) == (Relay { units: chunks, closed: None }),
    decreases rounds.len(),
{
    if rounds.len() == 0 {
        assert(chunks =~= Seq::empty());
    } else {
        let round = rounds.first();
        assert(delivers(rounds[0], chunks[0]));
        assert(dir == Direction::StreamToDatagram ==> chunks[0].len() > 0);
        assert forall|i: int| 0 <= i < chunks.drop_first().len() implies delivers(
            #[trigger] rounds.drop_first()[i],
            chunks.drop_first()[i],
        ) && rounds.drop_first()[i].written is Ok by {
            assert(delivers(rounds[i + 1], chunks[i + 1]));
        }
        assert forall|i: int|
            dir == Direction::StreamToDatagram && 0 <= i < chunks.drop_first().len() implies (
        #[trigger] chunks.drop_first()[i]).len() > 0 by {
            assert(chunks[i + 1].len() > 0);
        }
        lemma_chunks_forwarded(dir, chunks.drop_first(), rounds.drop_first());
        assert(seq![chunks[0]] + chunks.drop_first() =~= chunks);
    }
}

/// Chunks read from the TCP stream leave as datagrams, one for one.
///
/// Where each read delivers one chunk that is not empty and fits the
/// buffer, and each send succeeds, the datagrams handed to the UDP socket
/// are exactly the chunks: as many, with the same bytes, in the same order.
/// The loop goes on.
pub proof fn lemma_stream_chunks_become_datagrams(chunks: Seq<Seq<u8>>, rounds: Seq<Round>)
    requires
        rounds.len() == chunks.len(),
        forall|i: int|
            0 <= i < chunks.len() ==> delivers(#[trigger] rounds[i], chunks[i])
                && rounds[i].written is Ok,
        forall|i: int| 0 <= i < chunks.len() ==> (#[trigger] chunks[i]).len() > 0,
    ensures
        relay(Direction::StreamToDatagram, rounds) == (Relay { units: chunks, closed: None }),
{
    lemma_chunks_forwarded(Direction::StreamToDatagram, chunks, rounds);
}

/// Datagrams received from the UDP peer are written to the TCP stream, one
/// for one.
///
/// Where each receive delivers one payload that fits the buffer, and each
/// write succeeds, the writes handed to the TCP stream are exactly the
/// payloads: as many, with the same bytes, in the order of receipt. The loop
/// goes on.
pub proof fn lemma_datagrams_become_stream_writes(payloads: Seq<Seq<u8>>, rounds: Seq<Round>)
    requires
        rounds.len() == payloads.len(),
        forall|i: int|
            0 <= i < payloads.len() ==> delivers(#[trigger] rounds[i], payloads[i])
                && rounds[i].written is Ok,
    ensures
        relay(Direction::DatagramToStream, rounds) == (Relay { units: payloads, closed: None }),
{
    lemma_chunks_forwarded(Direction::DatagramToStream, payloads, rounds);
}

/// A read that runs into the timeout ends its direction with
/// `TimeoutExpired`.
///
/// Nothing is written for that round, and no round after it is performed:
/// what was handed to the writing side is what the rounds before handed
/// over.
pub proof fn lemma_timeout_ends_direction(
    dir: Direction,
    before: Seq<Round>,
    round: Round,
    after: Seq<Round>,
)
    requires
        relay(dir, before).closed is None,
        round.read matches Err(failure) && failure.error() == SessionError::TimeoutExpired,
    ensures
        relay(dir, before + seq![round] + after) == (Relay {
            units: relay(dir, before).units,
            closed: Some(CloseReason::TimeoutExpired),
        }),
{
    let stopped = relay(dir, seq![round]);
    assert(seq![round].first() == round);
    assert(stopped == Relay { units: Seq::empty(), closed: Some(CloseReason::TimeoutExpired) });
    lemma_relay_concat(dir, seq![round], after);
    lemma_relay_concat(dir, before, seq![round] + after);
    assert(before + seq![round] + after =~= before + (seq![round] + after));
    assert(relay(dir, before).units + Seq::<Seq<u8>>::empty() =~= relay(dir, before).units);
}

/// A direction that has ended performs no further round, whatever the
/// reason for which it ended.
pub proof fn lemma_ended_direction_stays_ended(
    dir: Direction,
    before: Seq<Round>,
    after: Seq<Round>,
)
    requires
        relay(dir, before).closed is Some,
    ensures
        relay(dir, before + after) == relay(dir, before),
{
    lemma_relay_concat(dir, before, after);
}

} // verus!
