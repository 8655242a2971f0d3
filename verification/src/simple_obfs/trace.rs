//! Traces: what a codec was told, call after call, event after event.
//!
//! The laws of the codecs speak of whole traces, however the inner stream
//! cuts its bytes and however small the buffers of the callers are.

use vstd::prelude::*;

use crate::simple_obfs::outbox::{drain_next, flush_next, resume_write_next, OutboxState};
use crate::simple_obfs::step::{ReadInput, WriteInput, WriteOutput};

verus! {

/// One event of a read call, with the room left in the caller's buffer.
pub struct ReadExchange<E> {
    pub input: ReadInput<E>,
    pub room: nat,
}

/// The bytes that an event brings from the inner stream.
pub open spec fn given<E>(input: ReadInput<E>) -> Seq<u8> {
    match input {
        ReadInput::Data(d) => d,
        _ => Seq::empty(),
    }
}

/// All bytes that the inner stream gave.
pub open spec fn received<E>(trace: Seq<ReadExchange<E>>) -> Seq<u8>
    decreases trace.len(),
{
    if trace.len() == 0 {
        Seq::empty()
    } else {
        received(trace.drop_last()) + given(trace.last().input)
    }
}

/// The calls that write to the inner stream.
pub enum WriteCall {
    Write,
    Flush,
    Shutdown,
}

/// One event of such a call; `buf` is the buffer of a write call.
pub struct WriteExchange<E> {
    pub call: WriteCall,
    pub input: WriteInput<E>,
    pub buf: Seq<u8>,
}

/// The bytes of `offered` that an event says the inner stream took.
pub open spec fn taken<E>(offered: Seq<u8>, input: WriteInput<E>) -> Seq<u8> {
    match input {
        WriteInput::Wrote(n) => offered.take(n as int),
        _ => Seq::empty(),
    }
}

/// The inner stream took no more than it was offered.
pub open spec fn takes_within<E>(offered: Seq<u8>, input: WriteInput<E>) -> bool {
    input matches WriteInput::Wrote(n) ==> n <= offered.len()
}

/// What a step reports to the caller of a write as taken.
pub open spec fn reported<E>(output: WriteOutput<E>) -> nat {
    match output {
        WriteOutput::Done(n) => n,
        _ => 0,
    }
}

/// The event does not finish, within a flush or shutdown call, the frame of a
/// write call that was left pending.
pub open spec fn leaves_frame_to_write<E>(unsent: Seq<u8>, x: WriteExchange<E>) -> bool {
    x.call is Write || (x.input matches WriteInput::Wrote(n) ==> n < unsent.len())
}

/// The buffer of a write call continues `data` behind its first `done` bytes.
pub open spec fn continues(data: Seq<u8>, done: nat, buf: Seq<u8>) -> bool {
    done + buf.len() <= data.len() && buf == data.subrange(done as int, (done + buf.len()) as int)
}

/// Draining neither loses nor repeats a byte: what the inner stream took and
/// what is still unsent make up what was unsent before.
pub proof fn lemma_drain_keeps_bytes<E>(unsent: Seq<u8>, input: WriteInput<E>)
    requires
        takes_within(unsent, input),
    ensures
        taken(unsent, input) + drain_next(unsent, input).0 == unsent,
{
    assert(taken(unsent, input) + drain_next(unsent, input).0 =~= unsent);
}

/// A flush or shutdown call goes on to the inner stream only when nothing is
/// unsent.
pub proof fn law_flush_forwards_when_sent<E>(state: OutboxState, input: WriteInput<E>)
    ensures
        flush_next(state, input).1 is Forward ==> flush_next(state, input).0.unsent.len() == 0,
{
}

/// A write call whose frame is in the outbox succeeds only when nothing is
/// unsent, and then reports the length that the frame stands for.
pub proof fn law_write_succeeds_when_sent<E>(state: OutboxState, input: WriteInput<E>)
    ensures
        resume_write_next(state, input).1 matches WriteOutput::Done(n) ==> {
            &&& n == state.pending_input
            &&& resume_write_next(state, input).0.unsent.len() == 0
        },
{
}

/// A call that is left pending, or fails in the inner stream, leaves the
/// outbox as it is: the next call goes on where this one stopped.
pub proof fn law_interrupted_drain_changes_nothing<E>(state: OutboxState, input: WriteInput<E>)
    requires
        input is Pending || input is Failed,
    ensures
        resume_write_next(state, input).0 == state,
        flush_next(state, input).0 == state,
{
}

} // verus!
