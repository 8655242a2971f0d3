//! The HTTP codec, server side.
//!
//! - **Read**: the client opens with a fake `GET` request. Everything up to
//!   and including the first blank line is dropped; what follows is payload,
//!   and so is every later byte.
//! - **Write**: the first write is preceded by a fake
//!   `101 Switching Protocols` response head; later writes go through as they
//!   are.

use vstd::prelude::*;
use vstd::slice::slice_subrange;

use crate::simple_obfs::bytes::{find_double_crlf, first_double_crlf, shorter};
use crate::simple_obfs::outbox::{
    empty_outbox, flush_next, resume_write_next, Outbox, OutboxState,
};
use crate::simple_obfs::step::{
    Fault, ObfsError, ReadEvent, ReadInput, ReadOutput, ReadStep, WriteEvent, WriteInput,
    WriteOutput, WriteStep,
};

verus! {

/// A request head longer than this is refused.
pub const MAX_HEADER: usize = 16 * 1024;

/// How much of the request head is asked for at a time.
pub const HEADER_CHUNK: usize = 1024;

/// The model of the read side.
pub enum HttpReadState {
    /// The blank line has not come; these bytes have.
    Head(Seq<u8>),
    /// The blank line has come; these payload bytes wait for the caller.
    Body(Seq<u8>),
}

/// The model of the write side.
#[verifier::ext_equal]
pub struct HttpWriteState {
    /// The response head has yet to be written.
    pub first_response: bool,
    pub outbox: OutboxState,
}

/// The read side before anything has come.
pub open spec fn http_read_start() -> HttpReadState {
    HttpReadState::Head(Seq::empty())
}

/// The write side before anything has been written.
pub open spec fn http_write_start() -> HttpWriteState {
    HttpWriteState { first_response: true, outbox: empty_outbox() }
}

/// Hands out as much of `body` as there is room for; the rest waits.
pub open spec fn http_serve<E>(body: Seq<u8>, room: nat) -> (HttpReadState, ReadOutput<E>) {
    let n = shorter(body.len(), room) as int;
    (HttpReadState::Body(body.skip(n)), ReadOutput::Deliver(body.take(n)))
}

/// How many bytes the inner stream may have been asked for: none if payload
/// waits for the caller.
pub open spec fn http_asked(state: HttpReadState, room: nat) -> Option<nat> {
    match state {
        HttpReadState::Head(_) => Some(HEADER_CHUNK as nat),
        HttpReadState::Body(body) => if body.len() == 0 {
            Some(room)
        } else {
            None
        },
    }
}

/// The inner stream gave bytes only if asked, and no more than asked for.
pub open spec fn http_read_fits<E>(state: HttpReadState, input: ReadInput<E>, room: nat) -> bool {
    input matches ReadInput::Data(d) ==> {
        http_asked(state, room) matches Some(n) && d.len() <= n
    }
}

/// One event of a read call, with `room` bytes free in the caller's buffer.
pub open spec fn http_read_next<E>(state: HttpReadState, input: ReadInput<E>, room: nat) -> (
    HttpReadState,
    ReadOutput<E>,
) {
    match input {
        ReadInput::Pending => (state, ReadOutput::Pending),
        ReadInput::Failed(e) => (state, ReadOutput::Fail(ObfsError::Inner(e))),
        ReadInput::Start => match state {
            HttpReadState::Head(_) => (state, ReadOutput::Fill(HEADER_CHUNK as nat)),
            HttpReadState::Body(body) => if body.len() == 0 {
                (state, ReadOutput::Direct(room))
            } else {
                http_serve(body, room)
            },
        },
        ReadInput::Data(d) => match state {
            HttpReadState::Body(_) => (state, ReadOutput::Done),
            HttpReadState::Head(seen) => {
                let head = seen + d;
                if d.len() == 0 {
                    (state, ReadOutput::Done)
                } else {
                    match first_double_crlf(head) {
                        Some(i) => http_serve(head.skip(i as int + 4), room),
                        None => (
                            HttpReadState::Head(head),
                            if head.len() > MAX_HEADER {
                                ReadOutput::Fail(ObfsError::Fault(Fault::HeaderTooLong))
                            } else {
                                ReadOutput::Fill(HEADER_CHUNK as nat)
                            },
                        ),
                    }
                }
            },
        },
    }
}

/// One event of a write call for the buffer `buf`.
pub open spec fn http_write_next<E>(
    state: HttpWriteState,
    input: WriteInput<E>,
    buf: Seq<u8>,
) -> (HttpWriteState, WriteOutput<E>) {
    if state.outbox.unsent.len() > 0 {
        let (outbox, output) = resume_write_next(state.outbox, input);
        (HttpWriteState { outbox, ..state }, output)
    } else {
        match input {
            WriteInput::Pending => (state, WriteOutput::Pending),
            WriteInput::Failed(e) => (state, WriteOutput::Fail(ObfsError::Inner(e))),
            WriteInput::Wrote(n) => (state, WriteOutput::Done(n)),
            WriteInput::Start => if state.first_response {
                (
                    HttpWriteState {
                        first_response: false,
                        outbox: OutboxState {
                            unsent: response_header() + buf,
                            pending_input: buf.len(),
                        },
                    },
                    WriteOutput::Send,
                )
            } else {
                (state, WriteOutput::Forward)
            },
        }
    }
}

/// The text of the fake response head.
pub open spec fn response_header_text() -> Seq<char> {
    "HTTP/1.1 101 Switching Protocols\r\nServer: nginx\r\nUpgrade: websocket\r\nConnection: Upgrade\r\n\r\n"@
}

/// The fake response head on the wire.
pub open spec fn response_header() -> Seq<u8> {
    response_header_text().map_values(|c: char| c as u8)
}

/// The fake response head that precedes the first payload. The client drops
/// it up to its blank line; it looks like a WebSocket upgrade.
pub fn http_response_header() -> (header: &'static [u8])
    ensures
        header@ == response_header(),
{
    let text: &'static str =
        "HTTP/1.1 101 Switching Protocols\r\nServer: nginx\r\nUpgrade: websocket\r\nConnection: Upgrade\r\n\r\n";
    proof {
        reveal_strlit("HTTP/1.1 101 Switching Protocols\r\nServer: nginx\r\nUpgrade: websocket\r\nConnection: Upgrade\r\n\r\n");
    }
    assert(text.is_ascii());
    let header = text.as_bytes();
    assert(header@ =~= response_header());
    header
}

/// The server side of the HTTP codec over an inner stream.
pub struct HttpObfsServer<S> {
    inner: S,
    first_request: bool,
    response_scratch: Vec<u8>,
    leftover: Vec<u8>,
    leftover_off: usize,
    first_response: bool,
    outbox: Outbox,
}

impl<S> HttpObfsServer<S> {
    /// The inner stream.
    pub closed spec fn stream(self) -> S {
        self.inner
    }

    /// The state of the read side.
    pub closed spec fn read_state(self) -> HttpReadState {
        if self.first_request {
            HttpReadState::Head(self.response_scratch@)
        } else {
            HttpReadState::Body(self.leftover@.skip(self.leftover_off as int))
        }
    }

    /// The state of the write side.
    pub closed spec fn write_state(self) -> HttpWriteState {
        HttpWriteState { first_response: self.first_response, outbox: self.outbox@ }
    }

    /// What every operation keeps.
    pub closed spec fn wf(self) -> bool {
        &&& self.outbox.wf()
        &&& self.leftover_off <= self.leftover@.len()
        &&& self.first_request ==> self.leftover@.len() == 0
    }

    /// A server over `inner` that has seen nothing and written nothing.
    pub fn new(inner: S) -> (server: Self)
        ensures
            server.wf(),
            server.stream() == inner,
            server.read_state() == http_read_start(),
            server.write_state() == http_write_start(),
    {
        let server = HttpObfsServer {
            inner,
            first_request: true,
            response_scratch: Vec::new(),
            leftover: Vec::new(),
            leftover_off: 0,
            first_response: true,
            outbox: Outbox::new(),
        };
        server
    }

    /// The inner stream, for the driver to read from, flush or shut down.
    pub fn inner_mut(&mut self) -> (inner: &mut S)
        requires
            old(self).wf(),
        ensures
            *inner == old(self).stream(),
            final(self).wf(),
            final(self).stream() == *final(inner),
            final(self).read_state() == old(self).read_state(),
            final(self).write_state() == old(self).write_state(),
    {
        &mut self.inner
    }

    /// The inner stream, with the bytes to write to it.
    pub fn sending(&mut self) -> (parts: (&mut S, &[u8]))
        requires
            old(self).wf(),
        ensures
            *parts.0 == old(self).stream(),
            parts.1@ == old(self).write_state().outbox.unsent,
            final(self).wf(),
            final(self).stream() == *final(parts.0),
            final(self).read_state() == old(self).read_state(),
            final(self).write_state() == old(self).write_state(),
    {
        (&mut self.inner, self.outbox.unsent())
    }

    /// Hands out waiting payload, as much as there is room for.
    fn serve<E>(&mut self, room: usize) -> (step: ReadStep<E>)
        requires
            old(self).wf(),
            old(self).read_state() is Body,
        ensures
            final(self).wf(),
            final(self).stream() == old(self).stream(),
            final(self).write_state() == old(self).write_state(),
            (final(self).read_state(), step@) == http_serve::<E>(
                old(self).read_state()->Body_0,
                room as nat,
            ),
    {
        let left: usize = self.leftover.len() - self.leftover_off;
        let take: usize = if left <= room {
            left
        } else {
            room
        };
        let end: usize = self.leftover_off + take;
        let mut out: Vec<u8> = Vec::new();
        out.extend_from_slice(slice_subrange(self.leftover.as_slice(), self.leftover_off, end));
        assert(out@ =~= old(self).read_state()->Body_0.take(take as int));
        if end >= self.leftover.len() {
            self.leftover.clear();
            self.leftover_off = 0;
        } else {
            self.leftover_off = end;
        }
        assert(self.read_state()->Body_0 =~= old(self).read_state()->Body_0.skip(take as int));
        ReadStep::Deliver(out)
    }

    /// One event of a read call, with `room` bytes free in the caller's
    /// buffer.
    pub fn poll_read<E>(&mut self, event: ReadEvent<'_, E>, room: usize) -> (step: ReadStep<E>)
        requires
            old(self).wf(),
            http_read_fits(old(self).read_state(), event@, room as nat),
        ensures
            final(self).wf(),
            final(self).stream() == old(self).stream(),
            final(self).write_state() == old(self).write_state(),
            (final(self).read_state(), step@) == http_read_next(
                old(self).read_state(),
                event@,
                room as nat,
            ),
    {
        match event {
            ReadEvent::Pending => ReadStep::Pending,
            ReadEvent::Failed(e) => ReadStep::Fail(ObfsError::Inner(e)),
            ReadEvent::Start => {
                if self.leftover_off < self.leftover.len() {
                    self.serve(room)
                } else if self.first_request {
                    ReadStep::Fill(HEADER_CHUNK)
                } else {
                    ReadStep::Direct(room)
                }
            },
            ReadEvent::Data(data) => {
                if data.len() == 0 || !self.first_request {
                    return ReadStep::Done;
                }
                self.response_scratch.extend_from_slice(data);
                assert(self.response_scratch@ =~= old(self).response_scratch@ + data@);
                match find_double_crlf(self.response_scratch.as_slice()) {
                    Some(idx) => {
                        let body_start: usize = idx + 4;
                        let ghost head = self.response_scratch@;
                        self.first_request = false;
                        self.leftover.extend_from_slice(
                            slice_subrange(
                                self.response_scratch.as_slice(),
                                body_start,
                                self.response_scratch.len(),
                            ),
                        );
                        self.leftover_off = 0;
                        self.response_scratch = Vec::new();
                        assert(self.read_state()->Body_0 =~= head.skip(body_start as int));
                        self.serve(room)
                    },
                    None => {
                        if self.response_scratch.len() > MAX_HEADER {
                            ReadStep::Fail(ObfsError::Fault(Fault::HeaderTooLong))
                        } else {
                            ReadStep::Fill(HEADER_CHUNK)
                        }
                    },
                }
            },
        }
    }

    /// One event of a write call for the buffer `buf`.
    ///
    /// A call that was left pending is finished by the next write call, which
    /// reports the length of the buffer of the first: a caller has to repeat
    /// the call with the same buffer.
    pub fn poll_write<E>(&mut self, event: WriteEvent<E>, buf: &[u8]) -> (step: WriteStep<E>)
        requires
            old(self).wf(),
        ensures
            final(self).wf(),
            final(self).stream() == old(self).stream(),
            final(self).read_state() == old(self).read_state(),
            (final(self).write_state(), step@) == http_write_next(
                old(self).write_state(),
                event@,
                buf@,
            ),
    {
        if !self.outbox.is_empty() {
            return self.outbox.resume_write(event);
        }
        match event {
            WriteEvent::Pending => WriteStep::Pending,
            WriteEvent::Failed(e) => WriteStep::Fail(ObfsError::Inner(e)),
            WriteEvent::Wrote(n) => WriteStep::Done(n),
            WriteEvent::Start => {
                if self.first_response {
                    self.first_response = false;
                    let mut framed: Vec<u8> = Vec::new();
                    framed.extend_from_slice(http_response_header());
                    framed.extend_from_slice(buf);
                    assert(framed@ =~= response_header() + buf@);
                    self.outbox.load(framed, buf.len());
                    WriteStep::Send
                } else {
                    WriteStep::Forward
                }
            },
        }
    }

    /// One event of a flush call: everything unsent is written before the
    /// inner stream is flushed.
    pub fn poll_flush<E>(&mut self, event: WriteEvent<E>) -> (step: WriteStep<E>)
        requires
            old(self).wf(),
            event is Wrote ==> old(self).write_state().outbox.unsent.len() > 0,
        ensures
            final(self).wf(),
            final(self).stream() == old(self).stream(),
            final(self).read_state() == old(self).read_state(),
            final(self).write_state().first_response == old(self).write_state().first_response,
            (final(self).write_state().outbox, step@) == flush_next(
                old(self).write_state().outbox,
                event@,
            ),
    {
        self.outbox.resume_flush(event)
    }

    /// One event of a shutdown call: everything unsent is written before the
    /// inner stream is shut down.
    pub fn poll_shutdown<E>(&mut self, event: WriteEvent<E>) -> (step: WriteStep<E>)
        requires
            old(self).wf(),
            event is Wrote ==> old(self).write_state().outbox.unsent.len() > 0,
        ensures
            final(self).wf(),
            final(self).stream() == old(self).stream(),
            final(self).read_state() == old(self).read_state(),
            final(self).write_state().first_response == old(self).write_state().first_response,
            (final(self).write_state().outbox, step@) == flush_next(
                old(self).write_state().outbox,
                event@,
            ),
    {
        self.outbox.resume_flush(event)
    }
}

} // verus!
