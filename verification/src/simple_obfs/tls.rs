//! The TLS codec, server side.
//!
//! - **Read**: the client opens with a fake ClientHello record that carries
//!   the first payload in its session ticket, at a fixed offset. Application
//!   data records follow: three bytes of record header, two bytes of length,
//!   payload.
//! - **Write**: the first write is preceded by a fake ServerHello and
//!   ChangeCipherSpec of fixed length, which the client drops, then two bytes
//!   of length and the payload. Later writes are application data records.

use vstd::prelude::*;
use vstd::slice::slice_subrange;

use crate::simple_obfs::bytes::{be16, be16_bytes, push_be16, read_be16, shorter};
use crate::simple_obfs::outbox::{
    empty_outbox, flush_next, resume_write_next, Outbox, OutboxState,
};
use crate::simple_obfs::step::{
    Fault, ObfsError, ReadEvent, ReadInput, ReadOutput, ReadStep, WriteEvent, WriteInput,
    WriteOutput, WriteStep,
};

verus! {

/// The longest payload that goes into one record.
pub const TLS_CHUNK_SIZE: usize = 0x4000;

/// The length of what the client drops ahead of the first payload.
pub const TLS_FIRST_RESPONSE_DISCARD: usize = 105;

/// The offset of the session ticket's length in the body of a ClientHello:
/// handshake header, version, random, session id, cipher suites, compression
/// methods, length of the extensions, type of the extension.
pub const TLS_SESSION_TICKET_LEN_OFF: usize = 4 + 2 + 32 + 33 + 58 + 2 + 2 + 2;

/// The length of a record header up to and including the record's length.
pub const TLS_RECORD_HEADER: usize = 5;

/// How much of a ClientHello body is asked for at a time.
pub const HELLO_CHUNK: usize = 4096;

/// How much of a header is dropped at a time.
pub const DISCARD_CHUNK: usize = 256;

/// The model of the read side.
pub enum TlsReadState {
    /// The header of the ClientHello record, so far.
    HelloHeader(Seq<u8>),
    /// The body of the ClientHello record, so far, and how much is missing.
    HelloBody(Seq<u8>, nat),
    /// Payload of the ClientHello that waits for the caller, never empty.
    Leftover(Seq<u8>),
    /// So many bytes of a record header are to be dropped.
    Discard(nat),
    /// The length of a record, so far.
    Length(Seq<u8>),
    /// So many bytes of payload are to come.
    Payload(nat),
}

/// The model of the write side.
#[verifier::ext_equal]
pub struct TlsWriteState {
    /// The fake handshake has yet to be written.
    pub first_response: bool,
    pub outbox: OutboxState,
}

/// The read side before anything has come.
pub open spec fn tls_read_start() -> TlsReadState {
    TlsReadState::HelloHeader(Seq::empty())
}

/// The write side before anything has been written.
pub open spec fn tls_write_start() -> TlsWriteState {
    TlsWriteState { first_response: true, outbox: empty_outbox() }
}

/// The states that a read side can be in.
pub open spec fn tls_read_valid(state: TlsReadState) -> bool {
    match state {
        TlsReadState::HelloHeader(seen) => seen.len() < TLS_RECORD_HEADER || {
            seen.len() == TLS_RECORD_HEADER && seen[0] != 0x16
        },
        TlsReadState::HelloBody(body, missing) => body.len() + missing < 0x1_0000,
        TlsReadState::Leftover(payload) => payload.len() > 0,
        TlsReadState::Discard(n) => n <= 3,
        TlsReadState::Length(seen) => seen.len() < 2,
        TlsReadState::Payload(n) => n < 0x1_0000,
    }
}

/// The payload that a ClientHello carries in its session ticket.
pub open spec fn session_ticket(body: Seq<u8>) -> Result<Seq<u8>, Fault> {
    let start = TLS_SESSION_TICKET_LEN_OFF + 2;
    if body.len() < start {
        Err(Fault::HelloTooShort)
    } else {
        let n = be16(
            body[TLS_SESSION_TICKET_LEN_OFF as int],
            body[TLS_SESSION_TICKET_LEN_OFF + 1],
        );
        if body.len() < start + n {
            Err(Fault::TicketTruncated)
        } else {
            Ok(body.subrange(start, start + n))
        }
    }
}

/// Hands out as much of the ClientHello's payload as there is room for; the
/// rest waits, and the header of the next record follows.
pub open spec fn tls_serve<E>(payload: Seq<u8>, room: nat) -> (TlsReadState, ReadOutput<E>) {
    let n = shorter(payload.len(), room) as int;
    (
        if n < payload.len() {
            TlsReadState::Leftover(payload.skip(n))
        } else {
            TlsReadState::Discard(3)
        },
        ReadOutput::Deliver(payload.take(n)),
    )
}

/// What to ask for when `n` bytes of payload are to come. Behind a finished
/// record stands the header of the next one.
pub open spec fn tls_ask_payload<E>(n: nat, room: nat) -> (TlsReadState, ReadOutput<E>) {
    if n == 0 {
        (TlsReadState::Discard(3), ReadOutput::Fill(3))
    } else if room == 0 {
        (TlsReadState::Payload(n), ReadOutput::Done)
    } else {
        (TlsReadState::Payload(n), ReadOutput::Direct(shorter(n, room)))
    }
}

/// What to ask for, or to hand out, in a given state.
pub open spec fn tls_ask<E>(state: TlsReadState, room: nat) -> (TlsReadState, ReadOutput<E>) {
    match state {
        TlsReadState::HelloHeader(seen) => (
            state,
            ReadOutput::Fill((TLS_RECORD_HEADER - seen.len()) as nat),
        ),
        TlsReadState::HelloBody(body, missing) => if missing > 0 {
            (state, ReadOutput::Fill(shorter(missing, HELLO_CHUNK as nat)))
        } else {
            match session_ticket(body) {
                Ok(payload) => tls_serve(payload, room),
                Err(fault) => (state, ReadOutput::Fail(ObfsError::Fault(fault))),
            }
        },
        TlsReadState::Leftover(payload) => tls_serve(payload, room),
        TlsReadState::Discard(n) => if n > 0 {
            (state, ReadOutput::Fill(shorter(n, DISCARD_CHUNK as nat)))
        } else {
            (TlsReadState::Length(Seq::empty()), ReadOutput::Fill(2))
        },
        TlsReadState::Length(seen) => if seen.len() < 2 {
            (state, ReadOutput::Fill((2 - seen.len()) as nat))
        } else {
            tls_ask_payload(be16(seen[0], seen[1]), room)
        },
        TlsReadState::Payload(n) => tls_ask_payload(n, room),
    }
}

/// How many bytes the inner stream may have been asked for: none if payload
/// waits for the caller.
pub open spec fn tls_asked(state: TlsReadState, room: nat) -> Option<nat> {
    match state {
        TlsReadState::HelloHeader(seen) => Some((TLS_RECORD_HEADER - seen.len()) as nat),
        TlsReadState::HelloBody(_, missing) => Some(shorter(missing, HELLO_CHUNK as nat)),
        TlsReadState::Leftover(_) => None,
        TlsReadState::Discard(n) => Some(shorter(n, DISCARD_CHUNK as nat)),
        TlsReadState::Length(seen) => Some((2 - seen.len()) as nat),
        TlsReadState::Payload(n) => Some(shorter(n, room)),
    }
}

/// The inner stream gave bytes only if asked, and no more than asked for.
pub open spec fn tls_read_fits<E>(state: TlsReadState, input: ReadInput<E>, room: nat) -> bool {
    input matches ReadInput::Data(d) ==> {
        tls_asked(state, room) matches Some(n) && d.len() <= n
    }
}

/// One event of a read call, with `room` bytes free in the caller's buffer.
pub open spec fn tls_read_next<E>(state: TlsReadState, input: ReadInput<E>, room: nat) -> (
    TlsReadState,
    ReadOutput<E>,
) {
    match input {
        ReadInput::Pending => (state, ReadOutput::Pending),
        ReadInput::Failed(e) => (state, ReadOutput::Fail(ObfsError::Inner(e))),
        ReadInput::Start => tls_ask(state, room),
        ReadInput::Data(d) => if d.len() == 0 {
            (state, ReadOutput::Done)
        } else {
            match state {
                TlsReadState::HelloHeader(seen) => {
                    let header = seen + d;
                    if header.len() < TLS_RECORD_HEADER {
                        tls_ask(TlsReadState::HelloHeader(header), room)
                    } else if header[0] != 0x16 {
                        (
                            TlsReadState::HelloHeader(header),
                            ReadOutput::Fail(ObfsError::Fault(Fault::NotClientHello)),
                        )
                    } else {
                        tls_ask(
                            TlsReadState::HelloBody(Seq::empty(), be16(header[3], header[4])),
                            room,
                        )
                    }
                },
                TlsReadState::HelloBody(body, missing) => tls_ask(
                    TlsReadState::HelloBody(body + d, (missing - d.len()) as nat),
                    room,
                ),
                TlsReadState::Leftover(_) => (state, ReadOutput::Done),
                TlsReadState::Discard(n) => tls_ask(
                    TlsReadState::Discard((n - d.len()) as nat),
                    room,
                ),
                TlsReadState::Length(seen) => tls_ask(TlsReadState::Length(seen + d), room),
                TlsReadState::Payload(n) => (
                    TlsReadState::Payload((n - d.len()) as nat),
                    ReadOutput::Done,
                ),
            }
        },
    }
}

/// The fake handshake that the client drops ahead of the first payload: a
/// ServerHello record, a ChangeCipherSpec record, and filler.
pub open spec fn fake_response_prefix() -> Seq<u8> {
    seq![0x16u8, 0x03, 0x03, 0x00, 0x56] + Seq::new(86, |i: int| 0x00u8) + seq![
        0x14u8,
        0x03,
        0x03,
        0x00,
        0x01,
        0x01,
    ] + Seq::new(8, |i: int| 0x17u8)
}

/// A payload behind its length.
pub open spec fn tls_sized(payload: Seq<u8>) -> Seq<u8> {
    be16_bytes(payload.len()) + payload
}

/// The header of an application data record, without its length.
pub open spec fn tls_record_header() -> Seq<u8> {
    seq![0x17u8, 0x03, 0x03]
}

/// The part of a buffer that one write takes.
pub open spec fn tls_chunk(buf: Seq<u8>) -> Seq<u8> {
    buf.take(shorter(buf.len(), TLS_CHUNK_SIZE as nat) as int)
}

/// One event of a write call for the buffer `buf`.
pub open spec fn tls_write_next<E>(
    state: TlsWriteState,
    input: WriteInput<E>,
    buf: Seq<u8>,
) -> (TlsWriteState, WriteOutput<E>) {
    if state.outbox.unsent.len() > 0 {
        let (outbox, output) = resume_write_next(state.outbox, input);
        (TlsWriteState { outbox, ..state }, output)
    } else {
        match input {
            WriteInput::Pending => (state, WriteOutput::Pending),
            WriteInput::Failed(e) => (state, WriteOutput::Fail(ObfsError::Inner(e))),
            WriteInput::Wrote(n) => (state, WriteOutput::Done(0)),
            WriteInput::Start => if buf.len() == 0 {
                (state, WriteOutput::Done(0))
            } else {
                let lead = if state.first_response {
                    fake_response_prefix()
                } else {
                    tls_record_header()
                };
                let chunk = tls_chunk(buf);
                (
                    TlsWriteState {
                        first_response: false,
                        outbox: OutboxState {
                            unsent: lead + tls_sized(chunk),
                            pending_input: chunk.len(),
                        },
                    },
                    WriteOutput::Send,
                )
            },
        }
    }
}

/// The fake handshake that precedes the first payload.
pub fn tls_fake_response_prefix() -> (prefix: Vec<u8>)
    ensures
        prefix@ == fake_response_prefix(),
        prefix.len() == TLS_FIRST_RESPONSE_DISCARD,
{
    let mut prefix: Vec<u8> = vec![0x16, 0x03, 0x03, 0x00, 0x56];
    while prefix.len() < 91
        invariant
            5 <= prefix.len() <= 91,
            prefix@ == seq![0x16u8, 0x03, 0x03, 0x00, 0x56] + Seq::new(
                (prefix.len() - 5) as nat,
                |i: int| 0x00u8,
            ),
        decreases 91 - prefix.len(),
    {
        prefix.push(0x00);
    }
    prefix.push(0x14);
    prefix.push(0x03);
    prefix.push(0x03);
    prefix.push(0x00);
    prefix.push(0x01);
    prefix.push(0x01);
    let ghost records = prefix@;
    while prefix.len() < TLS_FIRST_RESPONSE_DISCARD
        invariant
            records.len() == 97,
            97 <= prefix.len() <= TLS_FIRST_RESPONSE_DISCARD,
            prefix@ == records + Seq::new((prefix.len() - 97) as nat, |i: int| 0x17u8),
        decreases TLS_FIRST_RESPONSE_DISCARD - prefix.len(),
    {
        prefix.push(0x17);
    }
    assert(prefix@ =~= fake_response_prefix());
    prefix
}

/// Where the read side stands in the stream of the client.
#[derive(Debug, Clone, Copy)]
enum TlsServerReadPhase {
    /// In the header of the ClientHello record.
    HelloHeader,
    /// In the body of the ClientHello record, with so much of it missing.
    HelloBody(usize),
    /// In a record header, of which so much is to be dropped.
    Discard(usize),
    /// In the length of a record.
    Length,
    /// In the payload of a record, with so much of it missing.
    Payload(usize),
}

/// The server side of the TLS codec over an inner stream.
pub struct TlsObfsServer<S> {
    inner: S,
    read_phase: TlsServerReadPhase,
    /// The body of the ClientHello record, so far.
    hello_buf: Vec<u8>,
    /// Payload of the ClientHello that did not fit into the caller's buffer.
    leftover: Vec<u8>,
    leftover_off: usize,
    /// The header of the ClientHello record, so far.
    hello_header_buf: Vec<u8>,
    /// The length of a record, so far.
    len_buf: Vec<u8>,
    first_response: bool,
    outbox: Outbox,
}

impl<S> TlsObfsServer<S> {
    /// The inner stream.
    pub closed spec fn stream(self) -> S {
        self.inner
    }

    /// The state of the read side.
    pub closed spec fn read_state(self) -> TlsReadState {
        if self.leftover_off < self.leftover@.len() {
            TlsReadState::Leftover(self.leftover@.skip(self.leftover_off as int))
        } else {
            match self.read_phase {
                TlsServerReadPhase::HelloHeader => TlsReadState::HelloHeader(
                    self.hello_header_buf@,
                ),
                TlsServerReadPhase::HelloBody(missing) => TlsReadState::HelloBody(
                    self.hello_buf@,
                    missing as nat,
                ),
                TlsServerReadPhase::Discard(n) => TlsReadState::Discard(n as nat),
                TlsServerReadPhase::Length => TlsReadState::Length(self.len_buf@),
                TlsServerReadPhase::Payload(n) => TlsReadState::Payload(n as nat),
            }
        }
    }

    /// The state of the write side.
    pub closed spec fn write_state(self) -> TlsWriteState {
        TlsWriteState { first_response: self.first_response, outbox: self.outbox@ }
    }

    /// What holds within a call, too.
    closed spec fn sound(self) -> bool {
        &&& self.outbox.wf()
        &&& self.leftover_off <= self.leftover@.len()
        &&& self.leftover_off < self.leftover@.len() ==> self.read_phase
            == TlsServerReadPhase::Discard(3)
        &&& self.read_phase is HelloHeader ==> self.hello_buf@.len() == 0
    }

    /// What every operation keeps.
    pub closed spec fn wf(self) -> bool {
        self.sound() && tls_read_valid(self.read_state())
    }

    /// A server over `inner` that has seen nothing and written nothing.
    pub fn new(inner: S) -> (server: Self)
        ensures
            server.wf(),
            server.stream() == inner,
            server.read_state() == tls_read_start(),
            server.write_state() == tls_write_start(),
    {
        TlsObfsServer {
            inner,
            read_phase: TlsServerReadPhase::HelloHeader,
            hello_buf: Vec::new(),
            leftover: Vec::new(),
            leftover_off: 0,
            hello_header_buf: Vec::new(),
            len_buf: Vec::new(),
            first_response: true,
            outbox: Outbox::new(),
        }
    }

    /// The inner stream, for the driver to read from, flush or shut down.
    pub fn inner_mut(&mut self) -> (inner: &mut S)
        requires
            old(self).wf(),
        ensures
            *inner == old(self).stream(),
            final(self).wf(),
            final(self).stream() == *final(inner),
            final(self).read_state() == old(self).read_state(),
            final(self).write_state() == old(self).write_state(),
    {
        &mut self.inner
    }

    /// The inner stream, with the bytes to write to it.
    pub fn sending(&mut self) -> (parts: (&mut S, &[u8]))
        requires
            old(self).wf(),
        ensures
            *parts.0 == old(self).stream(),
            parts.1@ == old(self).write_state().outbox.unsent,
            final(self).wf(),
            final(self).stream() == *final(parts.0),
            final(self).read_state() == old(self).read_state(),
            final(self).write_state() == old(self).write_state(),
    {
        (&mut self.inner, self.outbox.unsent())
    }

    /// Hands out payload of the ClientHello, as much as there is room for.
    fn serve<E>(&mut self, room: usize) -> (step: ReadStep<E>)
        requires
            old(self).sound(),
            old(self).read_phase == TlsServerReadPhase::Discard(3),
        ensures
            final(self).wf(),
            final(self).stream() == old(self).stream(),
            final(self).write_state() == old(self).write_state(),
            (final(self).read_state(), step@) == tls_serve::<E>(
                old(self).leftover@.skip(old(self).leftover_off as int),
                room as nat,
            ),
    {
        let ghost payload = self.leftover@.skip(self.leftover_off as int);
        let left: usize = self.leftover.len() - self.leftover_off;
        let take: usize = if left <= room {
            left
        } else {
            room
        };
        let end: usize = self.leftover_off + take;
        let mut out: Vec<u8> = Vec::new();
        out.extend_from_slice(slice_subrange(self.leftover.as_slice(), self.leftover_off, end));
        assert(out@ =~= payload.take(take as int));
        if end >= self.leftover.len() {
            self.leftover.clear();
            self.leftover_off = 0;
        } else {
            self.leftover_off = end;
            assert(self.leftover@.skip(self.leftover_off as int) =~= payload.skip(take as int));
        }
        ReadStep::Deliver(out)
    }

    /// Finds the payload in a complete ClientHello and hands it out.
    fn extract_ticket<E>(&mut self, room: usize) -> (step: ReadStep<E>)
        requires
            old(self).sound(),
            old(self).read_state() matches TlsReadState::HelloBody(body, missing) && missing == 0
                && body.len() < 0x1_0000,
        ensures
            final(self).wf(),
            final(self).stream() == old(self).stream(),
            final(self).write_state() == old(self).write_state(),
            (final(self).read_state(), step@) == tls_ask::<E>(
                old(self).read_state(),
                room as nat,
            ),
    {
        let data_start: usize = TLS_SESSION_TICKET_LEN_OFF + 2;
        if self.hello_buf.len() < data_start {
            return ReadStep::Fail(ObfsError::Fault(Fault::HelloTooShort));
        }
        let data_len: usize = read_be16(
            self.hello_buf[TLS_SESSION_TICKET_LEN_OFF],
            self.hello_buf[TLS_SESSION_TICKET_LEN_OFF + 1],
        );
        if self.hello_buf.len() < data_start + data_len {
            return ReadStep::Fail(ObfsError::Fault(Fault::TicketTruncated));
        }
        let ghost payload = self.hello_buf@.subrange(
            data_start as int,
            data_start + data_len,
        );
        self.leftover.clear();
        self.leftover.extend_from_slice(
            slice_subrange(self.hello_buf.as_slice(), data_start, data_start + data_len),
        );
        self.leftover_off = 0;
        self.hello_buf = Vec::new();
        self.read_phase = TlsServerReadPhase::Discard(3);
        assert(self.leftover@.skip(0) =~= payload);
        self.serve(room)
    }

    /// Says what to ask of the inner stream, or hands out payload. Phases
    /// that are complete are left behind on the way.
    fn ask<E>(&mut self, room: usize) -> (step: ReadStep<E>)
        requires
            old(self).sound(),
            tls_read_valid(old(self).read_state()) || {
                old(self).read_state() matches TlsReadState::Length(seen) && seen.len() == 2
            },
        ensures
            final(self).wf(),
            final(self).stream() == old(self).stream(),
            final(self).write_state() == old(self).write_state(),
            (final(self).read_state(), step@) == tls_ask::<E>(
                old(self).read_state(),
                room as nat,
            ),
    {
        if self.leftover_off < self.leftover.len() {
            return self.serve(room);
        }
        match self.read_phase {
            TlsServerReadPhase::HelloHeader => ReadStep::Fill(
                TLS_RECORD_HEADER - self.hello_header_buf.len(),
            ),
            TlsServerReadPhase::HelloBody(missing) => {
                if missing == 0 {
                    self.extract_ticket(room)
                } else {
                    ReadStep::Fill(
                        if missing <= HELLO_CHUNK {
                            missing
                        } else {
                            HELLO_CHUNK
                        },
                    )
                }
            },
            TlsServerReadPhase::Discard(n) => {
                if n == 0 {
                    self.read_phase = TlsServerReadPhase::Length;
                    self.len_buf.clear();
                    ReadStep::Fill(2)
                } else {
                    ReadStep::Fill(
                        if n <= DISCARD_CHUNK {
                            n
                        } else {
                            DISCARD_CHUNK
                        },
                    )
                }
            },
            TlsServerReadPhase::Length => {
                if self.len_buf.len() >= 2 {
                    let length: usize = read_be16(self.len_buf[0], self.len_buf[1]);
                    self.ask_payload(length, room)
                } else {
                    ReadStep::Fill(2 - self.len_buf.len())
                }
            },
            TlsServerReadPhase::Payload(n) => self.ask_payload(n, room),
        }
    }

    /// Says what to ask of the inner stream when `n` bytes of payload are to
    /// come.
    fn ask_payload<E>(&mut self, n: usize, room: usize) -> (step: ReadStep<E>)
        requires
            old(self).sound(),
            old(self).leftover_off == old(self).leftover@.len(),
            n < 0x1_0000,
        ensures
            final(self).wf(),
            final(self).stream() == old(self).stream(),
            final(self).write_state() == old(self).write_state(),
            (final(self).read_state(), step@) == tls_ask_payload::<E>(n as nat, room as nat),
    {
        if n == 0 {
            self.read_phase = TlsServerReadPhase::Discard(3);
            return ReadStep::Fill(3);
        }
        self.read_phase = TlsServerReadPhase::Payload(n);
        let space: usize = if n <= room {
            n
        } else {
            room
        };
        if space == 0 {
            ReadStep::Done
        } else {
            ReadStep::Direct(space)
        }
    }

    /// One event of a read call, with `room` bytes free in the caller's
    /// buffer.
    #[verifier::spinoff_prover]
    #[verifier::rlimit(30)]
    pub fn poll_read<E>(&mut self, event: ReadEvent<'_, E>, room: usize) -> (step: ReadStep<E>)
        requires
            old(self).wf(),
            tls_read_fits(old(self).read_state(), event@, room as nat),
        ensures
            final(self).wf(),
            final(self).stream() == old(self).stream(),
            final(self).write_state() == old(self).write_state(),
            (final(self).read_state(), step@) == tls_read_next(
                old(self).read_state(),
                event@,
                room as nat,
            ),
    {
        let data: &[u8] = match event {
            ReadEvent::Start => {
                return self.ask(room);
            },
            ReadEvent::Pending => {
                return ReadStep::Pending;
            },
            ReadEvent::Failed(e) => {
                return ReadStep::Fail(ObfsError::Inner(e));
            },
            ReadEvent::Data(data) => data,
        };
        if data.len() == 0 {
            return ReadStep::Done;
        }
        match self.read_phase {
            TlsServerReadPhase::HelloHeader => {
                self.hello_header_buf.extend_from_slice(data);
                assert(self.hello_header_buf@ =~= old(self).hello_header_buf@ + data@);
                if self.hello_header_buf.len() < TLS_RECORD_HEADER {
                    return self.ask(room);
                }
                if self.hello_header_buf[0] != 0x16 {
                    return ReadStep::Fail(ObfsError::Fault(Fault::NotClientHello));
                }
                let record_len: usize = read_be16(
                    self.hello_header_buf[3],
                    self.hello_header_buf[4],
                );
                self.hello_buf.reserve(record_len);
                self.read_phase = TlsServerReadPhase::HelloBody(record_len);
                assert(self.hello_buf@ =~= Seq::empty());
                self.ask(room)
            },
            TlsServerReadPhase::HelloBody(missing) => {
                self.hello_buf.extend_from_slice(data);
                assert(self.hello_buf@ =~= old(self).hello_buf@ + data@);
                self.read_phase = TlsServerReadPhase::HelloBody(missing - data.len());
                self.ask(room)
            },
            TlsServerReadPhase::Discard(n) => {
                self.read_phase = TlsServerReadPhase::Discard(n - data.len());
                self.ask(room)
            },
            TlsServerReadPhase::Length => {
                self.len_buf.extend_from_slice(data);
                assert(self.len_buf@ =~= old(self).len_buf@ + data@);
                self.ask(room)
            },
            TlsServerReadPhase::Payload(n) => {
                self.read_phase = TlsServerReadPhase::Payload(n - data.len());
                ReadStep::Done
            },
        }
    }

    /// One event of a write call for the buffer `buf`.
    ///
    /// A call that was left pending is finished by the next write call, which
    /// reports the length that was taken of the buffer of the first: a caller
    /// has to repeat the call with the same buffer.
    pub fn poll_write<E>(&mut self, event: WriteEvent<E>, buf: &[u8]) -> (step: WriteStep<E>)
        requires
            old(self).wf(),
            event is Wrote ==> old(self).write_state().outbox.unsent.len() > 0,
        ensures
            final(self).wf(),
            final(self).stream() == old(self).stream(),
            final(self).read_state() == old(self).read_state(),
            (final(self).write_state(), step@) == tls_write_next(
                old(self).write_state(),
                event@,
                buf@,
            ),
    {
        if !self.outbox.is_empty() {
            return self.outbox.resume_write(event);
        }
        match event {
            WriteEvent::Pending => WriteStep::Pending,
            WriteEvent::Failed(e) => WriteStep::Fail(ObfsError::Inner(e)),
            WriteEvent::Wrote(_) => WriteStep::Done(0),
            WriteEvent::Start => {
                if buf.len() == 0 {
                    return WriteStep::Done(0);
                }
                let take: usize = if buf.len() <= TLS_CHUNK_SIZE {
                    buf.len()
                } else {
                    TLS_CHUNK_SIZE
                };
                let chunk: &[u8] = slice_subrange(buf, 0, take);
                let mut framed: Vec<u8> = if self.first_response {
                    tls_fake_response_prefix()
                } else {
                    vec![0x17, 0x03, 0x03]
                };
                let ghost lead = framed@;
                push_be16(&mut framed, take);
                framed.extend_from_slice(chunk);
                self.first_response = false;
                assert(framed@ =~= lead + tls_sized(tls_chunk(buf@)));
                self.outbox.load(framed, take);
                WriteStep::Send
            },
        }
    }

    /// One event of a flush call: everything unsent is written before the
    /// inner stream is flushed.
    pub fn poll_flush<E>(&mut self, event: WriteEvent<E>) -> (step: WriteStep<E>)
        requires
            old(self).wf(),
            event is Wrote ==> old(self).write_state().outbox.unsent.len() > 0,
        ensures
            final(self).wf(),
            final(self).stream() == old(self).stream(),
            final(self).read_state() == old(self).read_state(),
            final(self).write_state().first_response == old(self).write_state().first_response,
            (final(self).write_state().outbox, step@) == flush_next(
                old(self).write_state().outbox,
                event@,
            ),
    {
        self.outbox.resume_flush(event)
    }

    /// One event of a shutdown call: everything unsent is written before the
    /// inner stream is shut down.
    pub fn poll_shutdown<E>(&mut self, event: WriteEvent<E>) -> (step: WriteStep<E>)
        requires
            old(self).wf(),
            event is Wrote ==> old(self).write_state().outbox.unsent.len() > 0,
        ensures
            final(self).wf(),
            final(self).stream() == old(self).stream(),
            final(self).read_state() == old(self).read_state(),
            final(self).write_state().first_response == old(self).write_state().first_response,
            (final(self).write_state().outbox, step@) == flush_next(
                old(self).write_state().outbox,
                event@,
            ),
    {
        self.outbox.resume_flush(event)
    }
}

} // verus!
