//! The framed bytes of a write that the inner stream has yet to take.

use vstd::prelude::*;
use vstd::slice::slice_subrange;

use crate::simple_obfs::step::{Fault, ObfsError, WriteEvent, WriteInput, WriteOutput, WriteStep};

verus! {

/// The model of an [`Outbox`].
#[verifier::ext_equal]
pub struct OutboxState {
    /// The bytes that the inner stream has yet to take.
    pub unsent: Seq<u8>,
    /// How much of the caller's buffer the frame stands for.
    pub pending_input: nat,
}

/// Nothing to send, nothing to report.
pub open spec fn empty_outbox() -> OutboxState {
    OutboxState { unsent: Seq::empty(), pending_input: 0 }
}

/// Draining: what is left to send once the inner stream took `n` bytes.
pub open spec fn drained(unsent: Seq<u8>, n: nat) -> Seq<u8> {
    if n >= unsent.len() {
        Seq::empty()
    } else {
        unsent.skip(n as int)
    }
}

/// Draining, within any call: `Err` ends the call or asks for another write,
/// `Ok` means that everything has been sent.
pub open spec fn drain_next<E>(unsent: Seq<u8>, input: WriteInput<E>) -> (
    Seq<u8>,
    Result<(), WriteOutput<E>>,
) {
    match input {
        WriteInput::Start => (
            unsent,
            if unsent.len() == 0 {
                Ok(())
            } else {
                Err(WriteOutput::Send)
            },
        ),
        WriteInput::Pending => (unsent, Err(WriteOutput::Pending)),
        WriteInput::Failed(e) => (unsent, Err(WriteOutput::Fail(ObfsError::Inner(e)))),
        WriteInput::Wrote(n) => if n == 0 {
            (unsent, Err(WriteOutput::Fail(ObfsError::Fault(Fault::WriteZero))))
        } else {
            (
                drained(unsent, n),
                if n >= unsent.len() {
                    Ok(())
                } else {
                    Err(WriteOutput::Send)
                },
            )
        },
    }
}

/// Draining within a write call: once everything has been sent, the call
/// reports the length that the frame stands for.
pub open spec fn resume_write_next<E>(state: OutboxState, input: WriteInput<E>) -> (
    OutboxState,
    WriteOutput<E>,
) {
    let (unsent, drain) = drain_next(state.unsent, input);
    match drain {
        Ok(_) => (OutboxState { unsent, pending_input: 0 }, WriteOutput::Done(state.pending_input)),
        Err(output) => (OutboxState { unsent, ..state }, output),
    }
}

/// Draining within a flush or shutdown call: once everything has been sent,
/// the call goes on to the inner stream. What the frame stands for stays.
pub open spec fn flush_next<E>(state: OutboxState, input: WriteInput<E>) -> (
    OutboxState,
    WriteOutput<E>,
) {
    let (unsent, drain) = drain_next(state.unsent, input);
    (
        OutboxState { unsent, ..state },
        match drain {
            Ok(_) => WriteOutput::Forward,
            Err(output) => output,
        },
    )
}

/// A frame on its way to the inner stream.
pub struct Outbox {
    write_buf: Vec<u8>,
    write_buf_off: usize,
    pending_input: usize,
}

impl View for Outbox {
    type V = OutboxState;

    closed spec fn view(&self) -> OutboxState {
        OutboxState {
            unsent: self.write_buf@.skip(self.write_buf_off as int),
            pending_input: self.pending_input as nat,
        }
    }
}

impl Outbox {
    /// A frame that is there is not sent in full.
    pub closed spec fn wf(self) -> bool {
        if self.write_buf@.len() == 0 {
            self.write_buf_off == 0
        } else {
            self.write_buf_off < self.write_buf@.len()
        }
    }

    /// An outbox with nothing in it.
    pub fn new() -> (outbox: Self)
        ensures
            outbox.wf(),
            outbox@ == empty_outbox(),
    {
        Outbox { write_buf: Vec::new(), write_buf_off: 0, pending_input: 0 }
    }

    /// Whether everything has been sent.
    pub fn is_empty(&self) -> (empty: bool)
        requires
            self.wf(),
        ensures
            empty == (self@.unsent.len() == 0),
    {
        self.write_buf.len() == 0
    }

    /// The bytes that the inner stream has yet to take.
    pub fn unsent(&self) -> (bytes: &[u8])
        requires
            self.wf(),
        ensures
            bytes@ == self@.unsent,
    {
        slice_subrange(self.write_buf.as_slice(), self.write_buf_off, self.write_buf.len())
    }

    /// Puts in a frame that stands for `input_len` bytes of the caller's
    /// buffer.
    pub fn load(&mut self, frame: Vec<u8>, input_len: usize)
        ensures
            final(self).wf(),
            final(self)@ == (OutboxState { unsent: frame@, pending_input: input_len as nat }),
    {
        self.write_buf = frame;
        self.write_buf_off = 0;
        self.pending_input = input_len;
        assert(self.write_buf@.skip(0) =~= frame@);
    }

    /// Sends on: says what to do next, or that everything has been sent.
    fn poll_drain_write_buf<E>(&mut self, event: WriteEvent<E>) -> (drain: Result<
        (),
        WriteStep<E>,
    >)
        requires
            old(self).wf(),
            event is Wrote ==> old(self)@.unsent.len() > 0,
        ensures
            final(self).wf(),
            final(self)@ == (OutboxState {
                unsent: drain_next(old(self)@.unsent, event@).0,
                ..old(self)@
            }),
            match drain {
                Ok(_) => drain_next(old(self)@.unsent, event@).1 is Ok,
                Err(step) => drain_next(old(self)@.unsent, event@).1 == Err::<(), WriteOutput<E>>(
                    step@,
                ),
            },
    {
        match event {
            WriteEvent::Start => {
                if self.is_empty() {
                    Ok(())
                } else {
                    Err(WriteStep::Send)
                }
            },
            WriteEvent::Pending => Err(WriteStep::Pending),
            WriteEvent::Failed(e) => Err(WriteStep::Fail(ObfsError::Inner(e))),
            WriteEvent::Wrote(n) => {
                if n == 0 {
                    return Err(WriteStep::Fail(ObfsError::Fault(Fault::WriteZero)));
                }
                let left: usize = self.write_buf.len() - self.write_buf_off;
                if n >= left {
                    self.write_buf.clear();
                    self.write_buf_off = 0;
                    assert(self@.unsent =~= Seq::empty());
                    Ok(())
                } else {
                    self.write_buf_off = self.write_buf_off + n;
                    assert(self@.unsent =~= old(self)@.unsent.skip(n as int));
                    Err(WriteStep::Send)
                }
            },
        }
    }

    /// Goes on with a write call whose frame is in the outbox.
    pub fn resume_write<E>(&mut self, event: WriteEvent<E>) -> (step: WriteStep<E>)
        requires
            old(self).wf(),
            event is Wrote ==> old(self)@.unsent.len() > 0,
        ensures
            final(self).wf(),
            (final(self)@, step@) == resume_write_next(old(self)@, event@),
    {
        match self.poll_drain_write_buf(event) {
            Ok(_) => {
                let consumed: usize = self.pending_input;
                self.pending_input = 0;
                WriteStep::Done(consumed)
            },
            Err(step) => step,
        }
    }

    /// Goes on with a flush or shutdown call.
    pub fn resume_flush<E>(&mut self, event: WriteEvent<E>) -> (step: WriteStep<E>)
        requires
            old(self).wf(),
            event is Wrote ==> old(self)@.unsent.len() > 0,
        ensures
            final(self).wf(),
            (final(self)@, step@) == flush_next(old(self)@, event@),
    {
        match self.poll_drain_write_buf(event) {
            Ok(_) => WriteStep::Forward,
            Err(step) => step,
        }
    }
}

} // verus!
