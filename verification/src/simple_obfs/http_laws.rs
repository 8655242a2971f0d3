//! What the HTTP codec does to whole streams.

use vstd::prelude::*;

use crate::simple_obfs::bytes::{
    double_crlf_at, first_double_crlf, http_body, law_blank_line, lemma_first_double_crlf,
    lemma_first_double_crlf_at, lemma_first_double_crlf_extends, lemma_http_body_extends,
};
use crate::simple_obfs::http::{
    http_read_fits, http_read_next, http_read_start, http_write_next, http_write_start,
    response_header, HttpReadState, HttpWriteState, MAX_HEADER,
};
use crate::simple_obfs::outbox::flush_next;
use crate::simple_obfs::step::{Fault, ObfsError, ReadInput, ReadOutput, WriteInput, WriteOutput};
use crate::simple_obfs::trace::{
    continues, given, leaves_frame_to_write, lemma_drain_keeps_bytes, received, reported, taken, takes_within,
    ReadExchange, WriteCall, WriteExchange,
};

verus! {

// ---------------------------------------------------------------------------
// Reading
// ---------------------------------------------------------------------------

/// The read side after a trace.
pub open spec fn http_read_run<E>(trace: Seq<ReadExchange<E>>) -> HttpReadState
    decreases trace.len(),
{
    if trace.len() == 0 {
        http_read_start()
    } else {
        let x = trace.last();
        http_read_next(http_read_run(trace.drop_last()), x.input, x.room).0
    }
}

/// Throughout the trace, the inner stream gave no more than it was asked for.
pub open spec fn http_read_trace<E>(trace: Seq<ReadExchange<E>>) -> bool
    decreases trace.len(),
{
    trace.len() == 0 || {
        let x = trace.last();
        &&& http_read_trace(trace.drop_last())
        &&& http_read_fits(http_read_run(trace.drop_last()), x.input, x.room)
    }
}

/// The bytes that end up in the caller's buffer by one event.
pub open spec fn http_surfaced<E>(state: HttpReadState, x: ReadExchange<E>) -> Seq<u8> {
    match http_read_next(state, x.input, x.room).1 {
        ReadOutput::Deliver(bytes) => bytes,
        ReadOutput::Done => if state is Body {
            given(x.input)
        } else {
            Seq::empty()
        },
        _ => Seq::empty(),
    }
}

/// All bytes that ended up in the callers' buffers.
pub open spec fn http_delivered<E>(trace: Seq<ReadExchange<E>>) -> Seq<u8>
    decreases trace.len(),
{
    if trace.len() == 0 {
        Seq::empty()
    } else {
        http_delivered(trace.drop_last()) + http_surfaced(
            http_read_run(trace.drop_last()),
            trace.last(),
        )
    }
}

/// The payload that waits for the next caller.
pub open spec fn http_waiting(state: HttpReadState) -> Seq<u8> {
    match state {
        HttpReadState::Head(_) => Seq::empty(),
        HttpReadState::Body(body) => body,
    }
}

/// Reading is independent of how the stream is cut: what the callers got,
/// with what waits for them, is what follows the first blank line of all that
/// was received. Before that line has come, everything received is kept.
pub proof fn law_http_read<E>(trace: Seq<ReadExchange<E>>)
    requires
        http_read_trace(trace),
    ensures
        http_delivered(trace) + http_waiting(http_read_run(trace)) == http_body(received(trace)),
        http_read_run(trace) is Body <==> first_double_crlf(received(trace)) is Some,
        http_read_run(trace) matches HttpReadState::Head(seen) ==> seen == received(trace),
    decreases trace.len(),
{
    if trace.len() == 0 {
        assert(http_delivered(trace) + http_waiting(http_read_run(trace)) =~= http_body(
            received(trace),
        ));
    } else {
        let before = trace.drop_last();
        let x = trace.last();
        let state = http_read_run(before);
        law_http_read(before);
        let d = given(x.input);
        if state is Body {
            lemma_http_body_extends(received(before), d);
        }
        assert(received(before) + Seq::<u8>::empty() =~= received(before));
        assert(http_delivered(trace) + http_waiting(http_read_run(trace)) =~= http_body(
            received(trace),
        ));
    }
}

/// A request head is dropped whatever it holds, as long as its only blank
/// line is at its end: the callers get the payload behind it.
pub proof fn law_http_request_round_trip<E>(
    head: Seq<u8>,
    payload: Seq<u8>,
    trace: Seq<ReadExchange<E>>,
)
    requires
        head.len() >= 4,
        first_double_crlf(head) == Some((head.len() - 4) as nat),
        http_read_trace(trace),
        received(trace) == head + payload,
    ensures
        http_delivered(trace) + http_waiting(http_read_run(trace)) == payload,
{
    law_http_read(trace);
    lemma_http_body_extends(head, payload);
    assert(http_body(head) + payload =~= payload);
}

/// What the last event of a trace is answered.
pub open spec fn http_read_answer<E>(trace: Seq<ReadExchange<E>>) -> ReadOutput<E>
    recommends
        trace.len() > 0,
{
    let x = trace.last();
    http_read_next(http_read_run(trace.drop_last()), x.input, x.room).1
}

/// A read call fails of itself exactly if the bytes that just came leave the
/// stream without a blank line and longer than a request head may be. Any
/// other failure is one of the inner stream, passed on as it is.
pub proof fn law_http_read_fault<E>(trace: Seq<ReadExchange<E>>, error: ObfsError<E>)
    requires
        http_read_trace(trace),
        trace.len() > 0,
    ensures
        http_read_answer(trace) == ReadOutput::<E>::Fail(error) <==> match error {
            ObfsError::Inner(e) => trace.last().input == ReadInput::<E>::Failed(e),
            ObfsError::Fault(fault) => {
                &&& fault == Fault::HeaderTooLong
                &&& given(trace.last().input).len() > 0
                &&& first_double_crlf(received(trace)) is None
                &&& received(trace).len() > MAX_HEADER
            },
        },
{
    let before = trace.drop_last();
    let d = given(trace.last().input);
    law_http_read(before);
    if first_double_crlf(received(before)) is Some {
        lemma_first_double_crlf_extends(received(before), d);
    }
}

/// A client whose request head ends within the limit is never refused, however
/// its stream is cut: `rest` is what has yet to come.
pub proof fn law_http_head_within_limit_is_accepted<E>(
    trace: Seq<ReadExchange<E>>,
    rest: Seq<u8>,
    fault: Fault,
)
    requires
        http_read_trace(trace),
        trace.len() > 0,
        first_double_crlf(received(trace) + rest) matches Some(i) && i + 4 <= MAX_HEADER,
    ensures
        http_read_answer(trace) != ReadOutput::<E>::Fail(ObfsError::Fault(fault)),
{
    let seen = received(trace);
    let all = seen + rest;
    law_http_read_fault(trace, ObfsError::Fault(fault));
    lemma_first_double_crlf(all);
    lemma_first_double_crlf(seen);
    if seen.len() > MAX_HEADER {
        let i = first_double_crlf(all)->0 as int;
        assert(double_crlf_at(seen, i));
    }
}

/// A read call with room for bytes never ends before it has got some or has
/// asked the inner stream for some.
pub proof fn law_http_read_progress<E>(state: HttpReadState, room: nat)
    requires
        room > 0,
    ensures
        match http_read_next::<E>(state, ReadInput::Start, room).1 {
            ReadOutput::Fill(n) => n > 0,
            ReadOutput::Direct(n) => n > 0,
            ReadOutput::Deliver(payload) => payload.len() > 0,
            _ => false,
        },
{
}

// ---------------------------------------------------------------------------
// Writing
// ---------------------------------------------------------------------------

/// One event of any call that writes.
pub open spec fn http_write_step<E>(state: HttpWriteState, x: WriteExchange<E>) -> (
    HttpWriteState,
    WriteOutput<E>,
) {
    match x.call {
        WriteCall::Write => http_write_next(state, x.input, x.buf),
        _ => {
            let (outbox, output) = flush_next(state.outbox, x.input);
            (HttpWriteState { outbox, ..state }, output)
        },
    }
}

/// The write side after a trace.
pub open spec fn http_write_run<E>(trace: Seq<WriteExchange<E>>) -> HttpWriteState
    decreases trace.len(),
{
    if trace.len() == 0 {
        http_write_start()
    } else {
        http_write_step(http_write_run(trace.drop_last()), trace.last()).0
    }
}

/// What the inner stream is offered in a state: the unsent bytes, or the
/// caller's buffer once the response head is out.
pub open spec fn http_offered<E>(state: HttpWriteState, x: WriteExchange<E>) -> Seq<u8> {
    if state.outbox.unsent.len() > 0 {
        state.outbox.unsent
    } else if x.call is Write && !state.first_response {
        x.buf
    } else {
        Seq::empty()
    }
}

/// Throughout the trace, the inner stream took no more than it was offered.
pub open spec fn http_write_trace<E>(trace: Seq<WriteExchange<E>>) -> bool
    decreases trace.len(),
{
    trace.len() == 0 || {
        let before = trace.drop_last();
        &&& http_write_trace(before)
        &&& takes_within(http_offered(http_write_run(before), trace.last()), trace.last().input)
    }
}

/// All bytes that the inner stream took.
pub open spec fn http_wire<E>(trace: Seq<WriteExchange<E>>) -> Seq<u8>
    decreases trace.len(),
{
    if trace.len() == 0 {
        Seq::empty()
    } else {
        let before = trace.drop_last();
        http_wire(before) + taken(
            http_offered(http_write_run(before), trace.last()),
            trace.last().input,
        )
    }
}

/// The payload that the codec takes on by one event: the buffer of the first
/// write, then whatever the inner stream takes of the later ones.
pub open spec fn http_accepts<E>(state: HttpWriteState, x: WriteExchange<E>) -> Seq<u8> {
    if !(x.call is Write) || state.outbox.unsent.len() > 0 {
        Seq::empty()
    } else if x.input is Start && state.first_response {
        x.buf
    } else {
        taken(http_offered(state, x), x.input)
    }
}

/// All payload that the codec took on.
pub open spec fn http_accepted<E>(trace: Seq<WriteExchange<E>>) -> Seq<u8>
    decreases trace.len(),
{
    if trace.len() == 0 {
        Seq::empty()
    } else {
        let before = trace.drop_last();
        http_accepted(before) + http_accepts(http_write_run(before), trace.last())
    }
}

/// What the callers of write were told in all.
pub open spec fn http_reported<E>(trace: Seq<WriteExchange<E>>) -> nat
    decreases trace.len(),
{
    if trace.len() == 0 {
        0
    } else {
        let before = trace.drop_last();
        http_reported(before) + reported(http_write_step(http_write_run(before), trace.last()).1)
    }
}

/// No flush or shutdown call finishes the frame of a pending write.
pub open spec fn http_frames_left_to_write<E>(trace: Seq<WriteExchange<E>>) -> bool
    decreases trace.len(),
{
    trace.len() == 0 || {
        let before = trace.drop_last();
        &&& http_frames_left_to_write(before)
        &&& leaves_frame_to_write(http_write_run(before).outbox.unsent, trace.last())
    }
}

/// Payload is taken on only once the callers were told of all payload before
/// it. A trace fails this only if a flush or shutdown call finishes the frame
/// of a pending write and the caller then starts a write afresh.
pub open spec fn http_counts_settled<E>(trace: Seq<WriteExchange<E>>) -> bool
    decreases trace.len(),
{
    trace.len() == 0 || {
        let before = trace.drop_last();
        &&& http_counts_settled(before)
        &&& http_accepts(http_write_run(before), trace.last()).len() > 0 ==> http_write_run(
            before,
        ).outbox.pending_input == 0
    }
}

/// What the server puts on the wire for a payload.
pub open spec fn http_encoded(payload: Seq<u8>) -> Seq<u8> {
    response_header() + payload
}

/// However slowly the inner stream takes its bytes, and whichever calls are
/// left pending, the wire carries the response head once, then the payload in
/// order, with no byte lost or repeated.
pub proof fn law_http_write<E>(trace: Seq<WriteExchange<E>>)
    requires
        http_write_trace(trace),
    ensures
        ({
            let state = http_write_run(trace);
            if state.first_response {
                http_wire(trace).len() == 0 && state.outbox.unsent.len() == 0 && http_accepted(
                    trace,
                ).len() == 0
            } else {
                http_wire(trace) + state.outbox.unsent == http_encoded(http_accepted(trace))
            }
        }),
    decreases trace.len(),
{
    if trace.len() > 0 {
        let before = trace.drop_last();
        let x = trace.last();
        let state = http_write_run(before);
        law_http_write(before);
        if state.outbox.unsent.len() > 0 {
            lemma_drain_keeps_bytes(state.outbox.unsent, x.input);
            assert(http_accepted(trace) =~= http_accepted(before));
            assert(http_wire(trace) + http_write_run(trace).outbox.unsent =~= http_wire(before)
                + state.outbox.unsent);
        } else if !state.first_response {
            assert(http_wire(trace) + http_write_run(trace).outbox.unsent =~= http_encoded(
                http_accepted(trace),
            ));
        } else if x.call is Write && x.input is Start {
            assert(http_accepted(trace) =~= x.buf);
            assert(http_wire(trace) + http_write_run(trace).outbox.unsent =~= http_encoded(x.buf));
        }
    }
}

/// The callers of write are told of every byte of payload once, when the
/// frame that carries it has been sent: what they were told and what the
/// frame of the first write stands for, until it is told, add up to the
/// payload taken on.
pub proof fn law_http_write_counts<E>(trace: Seq<WriteExchange<E>>)
    requires
        http_write_trace(trace),
    ensures
        http_reported(trace) + http_write_run(trace).outbox.pending_input == http_accepted(
            trace,
        ).len(),
    decreases trace.len(),
{
    if trace.len() > 0 {
        let before = trace.drop_last();
        law_http_write_counts(before);
        law_http_write(before);
    }
}

/// If pending writes are finished by write calls, nothing is left untold once
/// everything is sent.
pub proof fn law_http_write_calls_settle<E>(trace: Seq<WriteExchange<E>>)
    requires
        http_write_trace(trace),
        http_frames_left_to_write(trace),
    ensures
        http_counts_settled(trace),
        http_write_run(trace).outbox.unsent.len() == 0 ==> http_write_run(
            trace,
        ).outbox.pending_input == 0,
    decreases trace.len(),
{
    if trace.len() > 0 {
        law_http_write_calls_settle(trace.drop_last());
    }
}

/// The blank line of the response head is at its end, and nowhere before.
pub proof fn lemma_response_header()
    ensures
        response_header().len() == 92,
        first_double_crlf(response_header()) == Some(88nat),
{
    reveal_strlit(
        "HTTP/1.1 101 Switching Protocols\r\nServer: nginx\r\nUpgrade: websocket\r\nConnection: Upgrade\r\n\r\n",
    );
    let h = response_header();
    assert forall|j: int| 0 <= j < 88 implies !double_crlf_at(h, j) by {
        if h[j] == 0x0d {
            assert(j == 32 || j == 47 || j == 67);
        }
    }
    lemma_first_double_crlf_at(h, 88);
}

/// The client gets back what the server wrote: dropping everything up to the
/// first blank line undoes the encoding, whatever the payload holds.
pub proof fn law_http_response_round_trip(payload: Seq<u8>)
    ensures
        http_body(http_encoded(payload)) == payload,
{
    lemma_response_header();
    lemma_http_body_extends(response_header(), payload);
    assert(http_body(response_header()) + payload =~= payload);
}

/// Once everything is sent, what the client finds on the wire is the payload
/// that the server's callers wrote.
pub proof fn law_http_client_reads_what_was_written<E>(trace: Seq<WriteExchange<E>>)
    requires
        http_write_trace(trace),
        http_write_run(trace).outbox.unsent.len() == 0,
    ensures
        http_body(http_wire(trace)) == http_accepted(trace),
{
    law_http_write(trace);
    if http_write_run(trace).first_response {
        assert(http_body(http_wire(trace)) =~= http_accepted(trace));
    } else {
        assert(http_wire(trace) + http_write_run(trace).outbox.unsent =~= http_wire(trace));
        law_http_response_round_trip(http_accepted(trace));
    }
}

/// Throughout the trace, the callers of write work through `data`: each call
/// offers bytes from where the calls before it were told to have come.
pub open spec fn http_writes_through<E>(data: Seq<u8>, trace: Seq<WriteExchange<E>>) -> bool
    decreases trace.len(),
{
    trace.len() == 0 || {
        let before = trace.drop_last();
        &&& http_writes_through(data, before)
        &&& trace.last().call is Write ==> continues(data, http_reported(before), trace.last().buf)
    }
}

/// A caller that goes on from where it was told to have come, repeating a
/// call that was left pending, has its bytes taken on in order: they are the
/// bytes it was told of, and those of a frame that it was not told of yet,
/// whichever call sends that frame.
pub proof fn law_http_write_order<E>(data: Seq<u8>, trace: Seq<WriteExchange<E>>)
    requires
        http_write_trace(trace),
        http_counts_settled(trace),
        http_writes_through(data, trace),
    ensures
        ({
            let done = http_reported(trace) + http_write_run(trace).outbox.pending_input;
            done <= data.len() && http_accepted(trace) == data.take(done as int)
        }),
    decreases trace.len(),
{
    let done = http_reported(trace) + http_write_run(trace).outbox.pending_input;
    if trace.len() == 0 {
        assert(http_accepted(trace) =~= data.take(done as int));
    } else {
        let before = trace.drop_last();
        law_http_write_order(data, before);
        law_http_write_counts(before);
        law_http_write_counts(trace);
        assert(http_accepted(trace) =~= data.take(done as int));
    }
}

/// Once everything is sent, the client finds on the wire exactly the bytes
/// that the server's callers were told to have written, and those of a frame
/// that a flush or shutdown call sent in place of the write call. If pending
/// writes are finished by write calls, there is no such frame.
pub proof fn law_http_write_reaches_the_client<E>(data: Seq<u8>, trace: Seq<WriteExchange<E>>)
    requires
        http_write_trace(trace),
        http_counts_settled(trace),
        http_writes_through(data, trace),
        http_write_run(trace).outbox.unsent.len() == 0,
    ensures
        http_body(http_wire(trace)) == data.take(
            (http_reported(trace) + http_write_run(trace).outbox.pending_input) as int,
        ),
        http_frames_left_to_write(trace) ==> http_body(http_wire(trace)) == data.take(
            http_reported(trace) as int,
        ),
{
    law_http_write_order(data, trace);
    law_http_client_reads_what_was_written(trace);
    if http_frames_left_to_write(trace) {
        law_http_write_calls_settle(trace);
    }
}

// ---------------------------------------------------------------------------
// What each event is answered
// ---------------------------------------------------------------------------

/// In every state, a read call is left pending exactly if the inner stream was
/// not ready, and fails with an error of the inner stream exactly if the inner
/// stream failed with it.
pub proof fn law_http_read_waits<E>(state: HttpReadState, input: ReadInput<E>, room: nat, e: E)
    ensures
        http_read_next(state, input, room).1 is Pending <==> input is Pending,
        http_read_next(state, input, room).1 == ReadOutput::Fail(ObfsError::Inner(e)) <==> input
            == ReadInput::Failed(e),
        input is Pending || input is Failed ==> http_read_next(state, input, room).0 == state,
        http_read_next(state, input, room).1 is Done ==> input is Data,
{
}

/// Every answer to a read call, from what was received and delivered alone.
///
/// Before the blank line, 1024 bytes are asked for at a time; the bytes that
/// bring it are answered with what follows it, and bytes that do not bring it
/// with another request, or with the fault once 16384 bytes are exceeded.
/// Behind it, payload that waits is handed out, as much as there is room for;
/// if none waits, the inner stream is read straight into the caller's buffer,
/// and whatever it gives, or its end, ends the call.
pub proof fn law_http_read_answer<E>(trace: Seq<ReadExchange<E>>)
    requires
        http_read_trace(trace),
        trace.len() > 0,
    ensures
        ({
            let before = trace.drop_last();
            let room = trace.last().room;
            let seen = received(before);
            let waiting = http_body(seen).skip(http_delivered(before).len() as int);
            let answer = http_read_answer(trace);
            match trace.last().input {
                ReadInput::Pending => answer is Pending,
                ReadInput::Failed(e) => answer == ReadOutput::Fail(ObfsError::Inner(e)),
                ReadInput::Start => if first_double_crlf(seen) is None {
                    answer == ReadOutput::<E>::Fill(1024)
                } else if waiting.len() == 0 {
                    answer == ReadOutput::<E>::Direct(room)
                } else {
                    answer matches ReadOutput::Deliver(bytes) && {
                        &&& bytes.len() == waiting.len() || bytes.len() == room
                        &&& bytes.len() <= waiting.len() && bytes.len() <= room
                        &&& bytes == waiting.subrange(0, bytes.len() as int)
                    }
                },
                ReadInput::Data(d) => if d.len() == 0 || first_double_crlf(seen) is Some {
                    answer is Done
                } else if first_double_crlf(seen + d) is Some {
                    let body = http_body(seen + d);
                    answer matches ReadOutput::Deliver(bytes) && {
                        &&& bytes.len() == body.len() || bytes.len() == room
                        &&& bytes.len() <= body.len() && bytes.len() <= room
                        &&& bytes == body.subrange(0, bytes.len() as int)
                    }
                } else if seen.len() + d.len() > 16384 {
                    answer == ReadOutput::<E>::Fail(ObfsError::Fault(Fault::HeaderTooLong))
                } else {
                    answer == ReadOutput::<E>::Fill(1024)
                },
            }
        }),
{
    let before = trace.drop_last();
    let seen = received(before);
    let state = http_read_run(before);
    law_http_read(before);
    assert(http_body(seen).skip(http_delivered(before).len() as int) =~= http_waiting(state));
}

/// Over whole traces: a read call is left pending exactly if the inner stream
/// was not ready. It ends without a fault and without bytes only if the inner
/// stream has ended, or there was no room, or the request head ended just
/// where the bytes did.
pub proof fn law_http_read_pending<E>(trace: Seq<ReadExchange<E>>)
    requires
        http_read_trace(trace),
        trace.len() > 0,
    ensures
        http_read_answer(trace) is Pending <==> trace.last().input is Pending,
        http_read_answer(trace) is Done && http_surfaced(
            http_read_run(trace.drop_last()),
            trace.last(),
        ).len() == 0 ==> (trace.last().input matches ReadInput::Data(d) && d.len() == 0),
        http_read_answer(trace) matches ReadOutput::Deliver(bytes) ==> (bytes.len() == 0
            && trace.last().room > 0 ==> (first_double_crlf(received(trace)) matches Some(i) && i
            + 4 == received(trace).len())),
{
    law_http_read_answer(trace);
    law_blank_line(received(trace), 0);
}

/// What a read call asks for may be given: up to that many bytes.
pub proof fn law_http_asked_may_be_given<E>(
    state: HttpReadState,
    input: ReadInput<E>,
    room: nat,
    data: Seq<u8>,
)
    ensures
        http_read_next(state, input, room).1 matches ReadOutput::Fill(n) ==> (data.len() <= n
            ==> http_read_fits::<E>(
            http_read_next(state, input, room).0,
            ReadInput::Data(data),
            room,
        )),
        http_read_next(state, input, room).1 matches ReadOutput::Direct(n) ==> (data.len() <= n
            ==> http_read_fits::<E>(
            http_read_next(state, input, room).0,
            ReadInput::Data(data),
            room,
        )),
{
}

/// In every state and for every call and buffer, the call is left pending
/// exactly if the inner stream was not ready, and fails with an error of the
/// inner stream exactly if the inner stream failed with it; nothing changes
/// then. With nothing unsent, a write call reports a length exactly if the
/// inner stream itself reported it.
pub proof fn law_http_write_waits<E>(state: HttpWriteState, x: WriteExchange<E>, e: E, n: nat)
    ensures
        http_write_step(state, x).1 is Pending <==> x.input is Pending,
        http_write_step(state, x).1 == WriteOutput::Fail(ObfsError::Inner(e)) <==> x.input
            == WriteInput::Failed(e),
        x.input is Pending || x.input is Failed ==> http_write_step(state, x).0 == state,
        x.call is Write && state.outbox.unsent.len() == 0 ==> (http_write_step(state, x).1
            == WriteOutput::<E>::Done(n) <==> x.input == WriteInput::<E>::Wrote(n)),
        !(x.call is Write) ==> !(http_write_step(state, x).1 is Done),
{
}

/// A write call has started.
pub open spec fn http_opened<E>(trace: Seq<WriteExchange<E>>) -> bool
    decreases trace.len(),
{
    trace.len() > 0 && (http_opened(trace.drop_last()) || (trace.last().call is Write
        && trace.last().input is Start))
}

/// The bytes that the wire owes: those of the encoded payload that the inner
/// stream has yet to take.
pub open spec fn http_owed<E>(trace: Seq<WriteExchange<E>>) -> Seq<u8> {
    if http_opened(trace) {
        http_encoded(http_accepted(trace)).skip(http_wire(trace).len() as int)
    } else {
        Seq::empty()
    }
}

/// The response head is put out by the first write call that starts, and what
/// is unsent is what the wire owes.
pub proof fn law_http_unsent_is_owed<E>(trace: Seq<WriteExchange<E>>)
    requires
        http_write_trace(trace),
    ensures
        http_write_run(trace).first_response <==> !http_opened(trace),
        http_write_run(trace).outbox.unsent == http_owed(trace),
    decreases trace.len(),
{
    law_http_write(trace);
    if trace.len() > 0 {
        law_http_unsent_is_owed(trace.drop_last());
        law_http_write(trace.drop_last());
    }
    assert(http_write_run(trace).outbox.unsent =~= http_owed(trace));
}

/// What the last event of a trace is answered.
pub open spec fn http_write_answer<E>(trace: Seq<WriteExchange<E>>) -> WriteOutput<E>
    recommends
        trace.len() > 0,
{
    http_write_step(http_write_run(trace.drop_last()), trace.last()).1
}

/// Every answer to a call that writes, from what was taken on, taken and told
/// alone.
///
/// While the wire owes bytes, they are sent before anything else; taking none
/// of them is a fault. Once it owes none, a write call tells what was taken on
/// and not told yet, and a flush or shutdown call goes on to the inner stream.
/// A write call that starts while nothing is owed sends the response head if
/// it is the first, and goes straight to the inner stream if not.
pub proof fn law_http_write_answer<E>(trace: Seq<WriteExchange<E>>)
    requires
        http_write_trace(trace),
        trace.len() > 0,
        trace.last().call is Write || http_owed(trace.drop_last()).len() > 0 || !(
        trace.last().input is Wrote),
    ensures
        ({
            let before = trace.drop_last();
            let owed = http_owed(before);
            let answer = http_write_answer(trace);
            match trace.last().input {
                WriteInput::Pending => answer is Pending,
                WriteInput::Failed(e) => answer == WriteOutput::Fail(ObfsError::Inner(e)),
                WriteInput::Start => if owed.len() > 0 {
                    answer is Send
                } else if trace.last().call is Write && !http_opened(before) {
                    answer is Send
                } else {
                    answer is Forward
                },
                WriteInput::Wrote(n) => if owed.len() == 0 {
                    answer == WriteOutput::<E>::Done(n)
                } else if n == 0 {
                    answer == WriteOutput::<E>::Fail(ObfsError::Fault(Fault::WriteZero))
                } else if n < owed.len() {
                    answer is Send
                } else if trace.last().call is Write {
                    answer == WriteOutput::<E>::Done(
                        (http_accepted(before).len() - http_reported(before)) as nat,
                    )
                } else {
                    answer is Forward
                },
            }
        }),
{
    let before = trace.drop_last();
    law_http_unsent_is_owed(before);
    law_http_write_counts(before);
}

/// What one event adds to the payload taken on: the whole buffer of the first
/// write call, as it starts, and later what the inner stream took of the
/// caller's buffer while nothing was owed.
pub proof fn law_http_takes_on<E>(trace: Seq<WriteExchange<E>>)
    requires
        http_write_trace(trace),
        trace.len() > 0,
    ensures
        ({
            let before = trace.drop_last();
            let x = trace.last();
            http_accepted(trace) == http_accepted(before) + if !(x.call is Write) || http_owed(
                before,
            ).len() > 0 {
                Seq::<u8>::empty()
            } else if x.input is Start && !http_opened(before) {
                x.buf
            } else {
                match x.input {
                    WriteInput::Wrote(n) => x.buf.subrange(0, n as int),
                    _ => Seq::<u8>::empty(),
                }
            }
        }),
{
    let before = trace.drop_last();
    let x = trace.last();
    law_http_unsent_is_owed(before);
    if let WriteInput::Wrote(n) = x.input {
        if x.call is Write && http_owed(before).len() == 0 {
            assert(taken(http_offered(http_write_run(before), x), x.input) =~= x.buf.subrange(
                0,
                n as int,
            ));
        }
    }
}

} // verus!
