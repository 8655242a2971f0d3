//! What the TLS codec does to whole streams.

use vstd::prelude::*;

use crate::simple_obfs::bytes::{
    be16, be16_bytes, law_big_endian, lemma_be16_round_trip, shorter,
};
use crate::simple_obfs::outbox::flush_next;
use crate::simple_obfs::step::{Fault, ObfsError, ReadInput, ReadOutput, WriteInput, WriteOutput};
use crate::simple_obfs::tls::{
    fake_response_prefix, session_ticket, tls_ask, tls_ask_payload, tls_chunk, tls_read_fits,
    tls_read_next, tls_read_start, tls_read_valid, tls_record_header, tls_serve, tls_sized,
    tls_write_next, tls_write_start, TlsReadState, TlsWriteState, TLS_CHUNK_SIZE,
    TLS_FIRST_RESPONSE_DISCARD, TLS_RECORD_HEADER, TLS_SESSION_TICKET_LEN_OFF,
};
use crate::simple_obfs::trace::{
    continues, given, leaves_frame_to_write, lemma_drain_keeps_bytes, received, reported, taken, takes_within,
    ReadExchange, WriteCall, WriteExchange,
};

verus! {

// ---------------------------------------------------------------------------
// The format
// ---------------------------------------------------------------------------

/// The payload in a stream of records: of each, three bytes of header, two
/// bytes of length, and so many bytes of payload. The last record may be cut
/// short anywhere.
pub open spec fn records_payload(wire: Seq<u8>) -> Seq<u8>
    decreases wire.len(), 2nat,
{
    if wire.len() < 3 {
        Seq::empty()
    } else {
        sized_payload(wire.skip(3))
    }
}

/// The payload in a stream that opens with the length of a record.
pub open spec fn sized_payload(wire: Seq<u8>) -> Seq<u8>
    decreases wire.len(), 1nat,
{
    if wire.len() < 2 {
        Seq::empty()
    } else {
        rest_of_payload(be16(wire[0], wire[1]), wire.skip(2))
    }
}

/// The payload in a stream that opens with `n` bytes of payload.
pub open spec fn rest_of_payload(n: nat, wire: Seq<u8>) -> Seq<u8>
    decreases wire.len(), 3nat,
{
    if wire.len() <= n {
        wire
    } else {
        wire.take(n as int) + records_payload(wire.skip(n as int))
    }
}

/// The payload in what a client sends: that of its ClientHello, then that of
/// the records behind it. A stream that does not open with a sound
/// ClientHello carries none.
pub open spec fn client_payload(wire: Seq<u8>) -> Seq<u8> {
    if wire.len() < TLS_RECORD_HEADER || wire[0] != 0x16 {
        Seq::empty()
    } else {
        hello_payload(be16(wire[3], wire[4]), wire.skip(TLS_RECORD_HEADER as int))
    }
}

/// The payload in a stream that opens with a ClientHello body of `n` bytes.
pub open spec fn hello_payload(n: nat, wire: Seq<u8>) -> Seq<u8> {
    if wire.len() < n {
        Seq::empty()
    } else {
        match session_ticket(wire.take(n as int)) {
            Ok(payload) => payload + records_payload(wire.skip(n as int)),
            Err(_) => Seq::empty(),
        }
    }
}

/// The payload in what a server sends, as the client reads it: the fake
/// handshake is dropped, a sized payload follows, then records.
pub open spec fn server_payload(wire: Seq<u8>) -> Seq<u8> {
    if wire.len() < TLS_FIRST_RESPONSE_DISCARD {
        Seq::empty()
    } else {
        sized_payload(wire.skip(TLS_FIRST_RESPONSE_DISCARD as int))
    }
}

/// One application data record.
pub open spec fn record(payload: Seq<u8>) -> Seq<u8> {
    tls_record_header() + tls_sized(payload)
}

/// The payloads of a list, one behind the other.
pub open spec fn joined(payloads: Seq<Seq<u8>>) -> Seq<u8>
    decreases payloads.len(),
{
    if payloads.len() == 0 {
        Seq::empty()
    } else {
        joined(payloads.drop_last()) + payloads.last()
    }
}

/// A record for each payload of a list.
pub open spec fn records(payloads: Seq<Seq<u8>>) -> Seq<u8>
    decreases payloads.len(),
{
    if payloads.len() == 0 {
        Seq::empty()
    } else {
        records(payloads.drop_last()) + record(payloads.last())
    }
}

/// Every payload of a list fits the two bytes of a record's length.
pub open spec fn all_fit(payloads: Seq<Seq<u8>>) -> bool {
    forall|i: int| 0 <= i < payloads.len() ==> (#[trigger] payloads[i]).len() < 0x1_0000
}

/// A ClientHello record: `version` are the two bytes behind the record type,
/// `opening` is the body up to the session ticket's length, and `closing` is
/// what follows the ticket.
pub open spec fn client_hello(
    version: Seq<u8>,
    opening: Seq<u8>,
    payload: Seq<u8>,
    closing: Seq<u8>,
) -> Seq<u8> {
    seq![0x16u8] + version + tls_sized(opening + tls_sized(payload) + closing)
}

// ---------------------------------------------------------------------------
// Reading
// ---------------------------------------------------------------------------

/// The payload that a read side is to hand out, from a state on, if `wire`
/// is what still comes.
pub open spec fn tls_to_come(state: TlsReadState, wire: Seq<u8>) -> Seq<u8> {
    match state {
        TlsReadState::HelloHeader(seen) => client_payload(seen + wire),
        TlsReadState::HelloBody(body, missing) => hello_payload(
            body.len() + missing,
            body + wire,
        ),
        TlsReadState::Leftover(payload) => payload + records_payload(wire),
        TlsReadState::Discard(n) => if wire.len() < n {
            Seq::empty()
        } else {
            sized_payload(wire.skip(n as int))
        },
        TlsReadState::Length(seen) => sized_payload(seen + wire),
        TlsReadState::Payload(n) => rest_of_payload(n, wire),
    }
}

/// The bytes that end up in the caller's buffer by one event.
pub open spec fn tls_surfaced<E>(state: TlsReadState, x: ReadExchange<E>) -> Seq<u8> {
    match tls_read_next(state, x.input, x.room).1 {
        ReadOutput::Deliver(bytes) => bytes,
        ReadOutput::Done => if state is Payload {
            given(x.input)
        } else {
            Seq::empty()
        },
        _ => Seq::empty(),
    }
}

/// Asking for more, or handing payload out, keeps the balance.
proof fn lemma_tls_ask<E>(state: TlsReadState, room: nat, wire: Seq<u8>)
    requires
        tls_read_valid(state) || (state matches TlsReadState::Length(seen) && seen.len() == 2),
    ensures
        ({
            let (next, output) = tls_ask::<E>(state, room);
            let out = match output {
                ReadOutput::Deliver(bytes) => bytes,
                _ => Seq::empty(),
            };
            tls_to_come(state, wire) == out + tls_to_come(next, wire)
        }),
{
    let (next, output) = tls_ask::<E>(state, room);
    assert(Seq::<u8>::empty() + tls_to_come(next, wire) =~= tls_to_come(next, wire));
    match state {
        TlsReadState::HelloHeader(_) => {},
        TlsReadState::HelloBody(body, missing) => {
            if missing == 0 {
                assert((body + wire).take(body.len() as int) =~= body);
                assert((body + wire).skip(body.len() as int) =~= wire);
                if let Ok(payload) = session_ticket(body) {
                    lemma_tls_serve::<E>(payload, room, wire);
                }
            }
        },
        TlsReadState::Leftover(payload) => {
            lemma_tls_serve::<E>(payload, room, wire);
        },
        TlsReadState::Discard(n) => {
            if n == 0 {
                assert(wire.skip(0) =~= wire);
                assert(Seq::<u8>::empty() + wire =~= wire);
            }
        },
        TlsReadState::Length(seen) => {
            if seen.len() == 2 {
                assert((seen + wire).skip(2) =~= wire);
                lemma_tls_ask_payload::<E>(be16(seen[0], seen[1]), room, wire);
            }
        },
        TlsReadState::Payload(n) => {
            lemma_tls_ask_payload::<E>(n, room, wire);
        },
    }
}

/// Handing out payload of the ClientHello keeps the balance.
proof fn lemma_tls_serve<E>(payload: Seq<u8>, room: nat, wire: Seq<u8>)
    ensures
        ({
            let (next, output) = tls_serve::<E>(payload, room);
            output matches ReadOutput::Deliver(out) && payload + records_payload(wire) == out
                + tls_to_come(next, wire)
        }),
{
    let n = shorter(payload.len(), room) as int;
    let (next, output) = tls_serve::<E>(payload, room);
    assert(payload.take(n) + payload.skip(n) =~= payload);
    assert(payload + records_payload(wire) =~= payload.take(n) + tls_to_come(next, wire));
}

/// Asking for payload keeps the balance.
proof fn lemma_tls_ask_payload<E>(n: nat, room: nat, wire: Seq<u8>)
    ensures
        rest_of_payload(n, wire) == tls_to_come(tls_ask_payload::<E>(n, room).0, wire),
{
    if n == 0 {
        assert(wire.take(0) =~= Seq::empty());
        assert(wire.skip(0) =~= wire);
        assert(rest_of_payload(n, wire) =~= records_payload(wire));
    }
}

/// One event keeps the balance: what was to come is what has been handed out
/// and what is still to come.
#[verifier::spinoff_prover]
#[verifier::rlimit(30)]
pub proof fn lemma_tls_read_step<E>(state: TlsReadState, x: ReadExchange<E>, wire: Seq<u8>)
    requires
        tls_read_valid(state),
        tls_read_fits(state, x.input, x.room),
    ensures
        tls_read_valid(tls_read_next(state, x.input, x.room).0),
        tls_to_come(state, given(x.input) + wire) == tls_surfaced(state, x) + tls_to_come(
            tls_read_next(state, x.input, x.room).0,
            wire,
        ),
{
    let next = tls_read_next(state, x.input, x.room).0;
    assert(Seq::<u8>::empty() + wire =~= wire);
    assert(Seq::<u8>::empty() + tls_to_come(next, wire) =~= tls_to_come(next, wire));
    match x.input {
        ReadInput::Start => {
            lemma_tls_ask::<E>(state, x.room, wire);
        },
        ReadInput::Data(d) => {
            let ahead = d + wire;
            if d.len() == 0 {
                assert(ahead =~= wire);
                assert(given(x.input) =~= Seq::empty());
            } else {
                match state {
                    TlsReadState::HelloHeader(seen) => {
                        let header = seen + d;
                        assert(seen + ahead =~= header + wire);
                        if header.len() < TLS_RECORD_HEADER {
                            lemma_tls_ask::<E>(TlsReadState::HelloHeader(header), x.room, wire);
                        } else if header[0] == 0x16 {
                            let n = be16(header[3], header[4]);
                            assert((header + wire).skip(TLS_RECORD_HEADER as int) =~= wire);
                            lemma_tls_ask::<E>(
                                TlsReadState::HelloBody(Seq::empty(), n),
                                x.room,
                                wire,
                            );
                        }
                    },
                    TlsReadState::HelloBody(body, missing) => {
                        assert(body + ahead =~= body + d + wire);
                        lemma_tls_ask::<E>(
                            TlsReadState::HelloBody(body + d, (missing - d.len()) as nat),
                            x.room,
                            wire,
                        );
                    },
                    TlsReadState::Leftover(_) => {},
                    TlsReadState::Discard(n) => {
                        if ahead.len() >= n {
                            assert(ahead.skip(n as int) =~= wire.skip(n - d.len()));
                        }
                        lemma_tls_ask::<E>(
                            TlsReadState::Discard((n - d.len()) as nat),
                            x.room,
                            wire,
                        );
                    },
                    TlsReadState::Length(seen) => {
                        assert(seen + ahead =~= seen + d + wire);
                        lemma_tls_ask::<E>(TlsReadState::Length(seen + d), x.room, wire);
                    },
                    TlsReadState::Payload(n) => {
                        let left = (n - d.len()) as nat;
                        if ahead.len() > n {
                            assert(ahead.take(n as int) =~= d + wire.take(left as int));
                            assert(ahead.skip(n as int) =~= wire.skip(left as int));
                        }
                        assert(rest_of_payload(n, ahead) =~= d + rest_of_payload(left, wire));
                    },
                }
            }
        },
        _ => {},
    }
}

/// The read side after a trace.
pub open spec fn tls_read_run<E>(trace: Seq<ReadExchange<E>>) -> TlsReadState
    decreases trace.len(),
{
    if trace.len() == 0 {
        tls_read_start()
    } else {
        let x = trace.last();
        tls_read_next(tls_read_run(trace.drop_last()), x.input, x.room).0
    }
}

/// Throughout the trace, the inner stream gave no more than it was asked for.
pub open spec fn tls_read_trace<E>(trace: Seq<ReadExchange<E>>) -> bool
    decreases trace.len(),
{
    trace.len() == 0 || {
        let x = trace.last();
        &&& tls_read_trace(trace.drop_last())
        &&& tls_read_fits(tls_read_run(trace.drop_last()), x.input, x.room)
    }
}

/// All bytes that ended up in the callers' buffers.
pub open spec fn tls_delivered<E>(trace: Seq<ReadExchange<E>>) -> Seq<u8>
    decreases trace.len(),
{
    if trace.len() == 0 {
        Seq::empty()
    } else {
        tls_delivered(trace.drop_last()) + tls_surfaced(
            tls_read_run(trace.drop_last()),
            trace.last(),
        )
    }
}

/// The payload that waits for the next caller.
pub open spec fn tls_waiting(state: TlsReadState) -> Seq<u8> {
    match state {
        TlsReadState::Leftover(payload) => payload,
        _ => Seq::empty(),
    }
}

/// At every point of every trace, what the callers got and what is to come
/// make up the payload of the whole stream, whatever still comes.
#[verifier::spinoff_prover]
#[verifier::rlimit(30)]
pub proof fn law_tls_read_balance<E>(trace: Seq<ReadExchange<E>>, wire: Seq<u8>)
    requires
        tls_read_trace(trace),
    ensures
        tls_read_valid(tls_read_run(trace)),
        tls_delivered(trace) + tls_to_come(tls_read_run(trace), wire) == client_payload(
            received(trace) + wire,
        ),
    decreases trace.len(),
{
    if trace.len() == 0 {
        lemma_three_parts(Seq::empty(), Seq::empty(), client_payload(wire));
        lemma_three_parts(Seq::empty(), Seq::empty(), wire);
    } else {
        let before = trace.drop_last();
        let x = trace.last();
        let state = tls_read_run(before);
        let ahead = given(x.input) + wire;
        law_tls_read_balance(before, ahead);
        lemma_tls_read_step(state, x, wire);
        lemma_three_parts(received(before), given(x.input), wire);
        lemma_three_parts(
            tls_delivered(before),
            tls_surfaced(state, x),
            tls_to_come(tls_read_run(trace), wire),
        );
    }
}

/// Three parts make up the same whole in either order of joining them.
proof fn lemma_three_parts(a: Seq<u8>, b: Seq<u8>, c: Seq<u8>)
    ensures
        (a + b) + c == a + (b + c),
        a.len() == 0 ==> a + (b + c) == b + c,
        b.len() == 0 ==> b + c == c,
{
    assert((a + b) + c =~= a + (b + c));
    if a.len() == 0 {
        assert(a + (b + c) =~= b + c);
    }
    if b.len() == 0 {
        assert(b + c =~= c);
    }
}

/// Reading is independent of how the stream is cut: what the callers got,
/// with what waits for them, is the payload of all that was received.
#[verifier::spinoff_prover]
#[verifier::rlimit(30)]
pub proof fn law_tls_read<E>(trace: Seq<ReadExchange<E>>)
    requires
        tls_read_trace(trace),
    ensures
        tls_delivered(trace) + tls_waiting(tls_read_run(trace)) == client_payload(received(trace)),
{
    let state = tls_read_run(trace);
    let nothing = Seq::<u8>::empty();
    law_tls_read_balance(trace, nothing);
    assert(received(trace) + nothing =~= received(trace));
    match state {
        TlsReadState::HelloHeader(seen) => {
            assert(seen + nothing =~= seen);
        },
        TlsReadState::HelloBody(body, missing) => {
            assert(body + nothing =~= body);
            lemma_tls_tracks_hello(trace);
        },
        _ => {},
    }
    assert(tls_to_come(state, nothing) =~= tls_waiting(state));
}

/// A stream that opens with a sized payload.
proof fn lemma_sized_payload(payload: Seq<u8>, wire: Seq<u8>)
    requires
        payload.len() < 0x1_0000,
    ensures
        sized_payload(tls_sized(payload) + wire) == payload + records_payload(wire),
{
    let all = tls_sized(payload) + wire;
    let n = payload.len();
    lemma_be16_round_trip(n);
    assert(all[0] == be16_bytes(n)[0] && all[1] == be16_bytes(n)[1]);
    assert(all.skip(2) =~= payload + wire);
    if wire.len() > 0 {
        assert((payload + wire).take(n as int) =~= payload);
        assert((payload + wire).skip(n as int) =~= wire);
    } else {
        assert(payload + wire =~= payload + records_payload(wire));
    }
}

/// A stream that opens with a record.
proof fn lemma_record_payload(payload: Seq<u8>, wire: Seq<u8>)
    requires
        payload.len() < 0x1_0000,
    ensures
        records_payload(record(payload) + wire) == payload + records_payload(wire),
{
    let all = record(payload) + wire;
    assert(all.skip(3) =~= tls_sized(payload) + wire);
    lemma_sized_payload(payload, wire);
}

/// A stream that opens with a list of records.
proof fn lemma_records_payload(payloads: Seq<Seq<u8>>, wire: Seq<u8>)
    requires
        all_fit(payloads),
    ensures
        records_payload(records(payloads) + wire) == joined(payloads) + records_payload(wire),
    decreases payloads.len(),
{
    if payloads.len() == 0 {
        assert(records(payloads) + wire =~= wire);
        assert(joined(payloads) + records_payload(wire) =~= records_payload(wire));
    } else {
        let before = payloads.drop_last();
        let last = payloads.last();
        assert(last.len() < 0x1_0000);
        assert(all_fit(before));
        lemma_records_payload(before, record(last) + wire);
        lemma_record_payload(last, wire);
        assert(records(payloads) + wire =~= records(before) + (record(last) + wire));
        assert(joined(payloads) + records_payload(wire) =~= joined(before) + (last
            + records_payload(wire)));
    }
}

/// What a client sends is read back: its ClientHello is sound, and the callers
/// get the payload embedded in it, then the payloads of its records, whatever
/// the rest of the ClientHello holds and however the stream is cut.
#[verifier::spinoff_prover]
#[verifier::rlimit(30)]
pub proof fn law_tls_client_round_trip<E>(
    version: Seq<u8>,
    opening: Seq<u8>,
    first: Seq<u8>,
    closing: Seq<u8>,
    later: Seq<Seq<u8>>,
    trace: Seq<ReadExchange<E>>,
)
    requires
        version.len() == 2,
        opening.len() == TLS_SESSION_TICKET_LEN_OFF,
        opening.len() + 2 + first.len() + closing.len() < 0x1_0000,
        all_fit(later),
        tls_read_trace(trace),
        received(trace) == client_hello(version, opening, first, closing) + records(later),
    ensures
        hello_verdict(received(trace)) == Some(Ok::<Seq<u8>, Fault>(first)),
        tls_delivered(trace) + tls_waiting(tls_read_run(trace)) == first + joined(later),
{
    law_tls_read(trace);
    let wire = received(trace);
    let body = opening + tls_sized(first) + closing;
    let tail = records(later);
    lemma_be16_round_trip(body.len());
    lemma_be16_round_trip(first.len());
    assert(wire[3] == be16_bytes(body.len())[0] && wire[4] == be16_bytes(body.len())[1]);
    let rest = wire.skip(TLS_RECORD_HEADER as int);
    assert(rest =~= body + tail);
    assert(rest.take(body.len() as int) =~= body);
    assert(wire.subrange(TLS_RECORD_HEADER as int, TLS_RECORD_HEADER + body.len()) =~= body);
    assert(rest.skip(body.len() as int) =~= tail);
    let off = TLS_SESSION_TICKET_LEN_OFF as int;
    assert(body[off] == be16_bytes(first.len())[0] && body[off + 1] == be16_bytes(first.len())[1]);
    assert(body.subrange(off + 2, off + 2 + first.len()) =~= first);
    lemma_records_payload(later, Seq::empty());
    assert(tail + Seq::<u8>::empty() =~= tail);
    assert(joined(later) + records_payload(Seq::empty()) =~= joined(later));
}

/// The ClientHello at the start of a stream: nothing while it is incomplete,
/// then the payload that it carries, or what is wrong with it.
pub open spec fn hello_verdict(wire: Seq<u8>) -> Option<Result<Seq<u8>, Fault>> {
    if wire.len() < TLS_RECORD_HEADER {
        None
    } else if wire[0] != 0x16 {
        Some(Err(Fault::NotClientHello))
    } else {
        let end = TLS_RECORD_HEADER + be16(wire[3], wire[4]);
        if wire.len() < end {
            None
        } else {
            Some(session_ticket(wire.subrange(TLS_RECORD_HEADER as int, end)))
        }
    }
}

/// What follows a ClientHello does not change the verdict on it.
proof fn lemma_hello_verdict_extends(wire: Seq<u8>, more: Seq<u8>)
    requires
        hello_verdict(wire) is Some,
    ensures
        hello_verdict(wire + more) == hello_verdict(wire),
{
    let all = wire + more;
    if wire[0] == 0x16 {
        let end = TLS_RECORD_HEADER + be16(wire[3], wire[4]);
        assert(all.subrange(TLS_RECORD_HEADER as int, end) =~= wire.subrange(
            TLS_RECORD_HEADER as int,
            end,
        ));
    }
}

/// A read side holds the part of the ClientHello that came, until the verdict
/// on it is sound.
pub open spec fn tracks_hello(state: TlsReadState, seen: Seq<u8>) -> bool {
    match state {
        TlsReadState::HelloHeader(header) => header == seen,
        TlsReadState::HelloBody(body, missing) => {
            &&& seen.len() == TLS_RECORD_HEADER + body.len()
            &&& seen[0] == 0x16
            &&& be16(seen[3], seen[4]) == body.len() + missing
            &&& body == seen.skip(TLS_RECORD_HEADER as int)
            &&& missing == 0 ==> session_ticket(body) is Err
        },
        _ => hello_verdict(seen) matches Some(Ok(_)),
    }
}

/// The event is answered with a fault of the ClientHello: the first time that
/// it can be told, and by every later call that asks for bytes, except that
/// nothing more is asked of a stream that opens with another record.
pub open spec fn tells_hello_fault<E>(seen: Seq<u8>, input: ReadInput<E>, fault: Fault) -> bool {
    &&& hello_verdict(seen + given(input)) == Some(Err::<Seq<u8>, Fault>(fault))
    &&& hello_verdict(seen) is None || (input is Start && fault != Fault::NotClientHello)
}

/// One event of a read call, as the ClientHello goes.
#[verifier::spinoff_prover]
#[verifier::rlimit(50)]
proof fn lemma_tls_hello_step<E>(
    state: TlsReadState,
    x: ReadExchange<E>,
    seen: Seq<u8>,
    error: ObfsError<E>,
)
    requires
        tls_read_valid(state),
        tls_read_fits(state, x.input, x.room),
        tracks_hello(state, seen),
    ensures
        tracks_hello(tls_read_next(state, x.input, x.room).0, seen + given(x.input)),
        tls_read_next(state, x.input, x.room).1 == ReadOutput::<E>::Fail(error) <==> match error {
            ObfsError::Inner(e) => x.input == ReadInput::<E>::Failed(e),
            ObfsError::Fault(fault) => tells_hello_fault(seen, x.input, fault),
        },
{
    let d = given(x.input);
    let all = seen + d;
    if d.len() == 0 {
        assert(all =~= seen);
    }
    match state {
        TlsReadState::HelloHeader(header) => {
            if all.len() >= TLS_RECORD_HEADER && all[0] == 0x16 && d.len() > 0 {
                assert(all.skip(TLS_RECORD_HEADER as int) =~= Seq::empty());
                assert(all.subrange(TLS_RECORD_HEADER as int, TLS_RECORD_HEADER as int)
                    =~= Seq::empty());
            }
        },
        TlsReadState::HelloBody(body, missing) => {
            assert(all.skip(TLS_RECORD_HEADER as int) =~= body + d);
            let end = TLS_RECORD_HEADER + be16(seen[3], seen[4]);
            if all.len() >= end {
                assert(all.subrange(TLS_RECORD_HEADER as int, end) =~= body + d);
            }
        },
        _ => {
            lemma_hello_verdict_extends(seen, d);
        },
    }
}

/// What the last event of a trace is answered.
pub open spec fn tls_read_answer<E>(trace: Seq<ReadExchange<E>>) -> ReadOutput<E>
    recommends
        trace.len() > 0,
{
    let x = trace.last();
    tls_read_next(tls_read_run(trace.drop_last()), x.input, x.room).1
}

/// A read side tracks the ClientHello throughout a trace.
proof fn lemma_tls_tracks_hello<E>(trace: Seq<ReadExchange<E>>)
    requires
        tls_read_trace(trace),
    ensures
        tls_read_valid(tls_read_run(trace)),
        tracks_hello(tls_read_run(trace), received(trace)),
    decreases trace.len(),
{
    law_tls_read_balance(trace, Seq::empty());
    if trace.len() > 0 {
        let before = trace.drop_last();
        lemma_tls_tracks_hello(before);
        lemma_tls_hello_step(
            tls_read_run(before),
            trace.last(),
            received(before),
            ObfsError::Fault(Fault::NotClientHello),
        );
    }
}

/// A read call fails of itself exactly if the ClientHello is faulty: its first
/// byte is not that of a handshake record, or its body holds no session
/// ticket. The call that gets its last byte says so, and so does every later
/// call for a ticket that is not there; after another record nothing more is
/// read. Any other failure is one of the inner stream, passed on as it is.
pub proof fn law_tls_read_fault<E>(trace: Seq<ReadExchange<E>>, error: ObfsError<E>)
    requires
        tls_read_trace(trace),
        trace.len() > 0,
    ensures
        tls_read_answer(trace) == ReadOutput::<E>::Fail(error) <==> match error {
            ObfsError::Inner(e) => trace.last().input == ReadInput::<E>::Failed(e),
            ObfsError::Fault(fault) => tells_hello_fault(
                received(trace.drop_last()),
                trace.last().input,
                fault,
            ),
        },
{
    let before = trace.drop_last();
    lemma_tls_tracks_hello(before);
    lemma_tls_hello_step(tls_read_run(before), trace.last(), received(before), error);
}

/// A client whose ClientHello is sound is never refused, however its stream is
/// cut: `rest` is what has yet to come.
pub proof fn law_tls_sound_hello_is_accepted<E>(
    trace: Seq<ReadExchange<E>>,
    rest: Seq<u8>,
    fault: Fault,
)
    requires
        tls_read_trace(trace),
        trace.len() > 0,
        hello_verdict(received(trace) + rest) matches Some(Ok(_)),
    ensures
        tls_read_answer(trace) != ReadOutput::<E>::Fail(ObfsError::Fault(fault)),
{
    law_tls_read_fault(trace, ObfsError::Fault(fault));
    if hello_verdict(received(trace)) is Some {
        lemma_hello_verdict_extends(received(trace), rest);
    }
}

/// A read call with room for bytes never ends before it has got some or has
/// asked the inner stream for some, unless the ClientHello is faulty, or its
/// session ticket empty.
pub proof fn law_tls_read_progress<E>(state: TlsReadState, room: nat)
    requires
        tls_read_valid(state),
        room > 0,
        state matches TlsReadState::HelloHeader(seen) ==> seen.len() < TLS_RECORD_HEADER,
        state matches TlsReadState::HelloBody(body, missing) ==> (missing > 0 || (session_ticket(
            body,
        ) matches Ok(payload) && payload.len() > 0)),
    ensures
        match tls_read_next::<E>(state, ReadInput::Start, room).1 {
            ReadOutput::Fill(n) => n > 0,
            ReadOutput::Direct(n) => n > 0,
            ReadOutput::Deliver(payload) => payload.len() > 0,
            _ => false,
        },
{
}

// ---------------------------------------------------------------------------
// Writing
// ---------------------------------------------------------------------------

/// What the server puts on the wire for a list of payloads.
pub open spec fn server_encoded(payloads: Seq<Seq<u8>>) -> Seq<u8> {
    if payloads.len() == 0 {
        Seq::empty()
    } else {
        fake_response_prefix() + tls_sized(payloads[0]) + records(payloads.drop_first())
    }
}

/// One event of any call that writes.
pub open spec fn tls_write_step<E>(state: TlsWriteState, x: WriteExchange<E>) -> (
    TlsWriteState,
    WriteOutput<E>,
) {
    match x.call {
        WriteCall::Write => tls_write_next(state, x.input, x.buf),
        _ => {
            let (outbox, output) = flush_next(state.outbox, x.input);
            (TlsWriteState { outbox, ..state }, output)
        },
    }
}

/// The write side after a trace.
pub open spec fn tls_write_run<E>(trace: Seq<WriteExchange<E>>) -> TlsWriteState
    decreases trace.len(),
{
    if trace.len() == 0 {
        tls_write_start()
    } else {
        tls_write_step(tls_write_run(trace.drop_last()), trace.last()).0
    }
}

/// Throughout the trace, the inner stream took bytes only of what was unsent.
pub open spec fn tls_write_trace<E>(trace: Seq<WriteExchange<E>>) -> bool
    decreases trace.len(),
{
    trace.len() == 0 || {
        let before = trace.drop_last();
        &&& tls_write_trace(before)
        &&& takes_within(tls_write_run(before).outbox.unsent, trace.last().input)
    }
}

/// All bytes that the inner stream took.
pub open spec fn tls_wire<E>(trace: Seq<WriteExchange<E>>) -> Seq<u8>
    decreases trace.len(),
{
    if trace.len() == 0 {
        Seq::empty()
    } else {
        let before = trace.drop_last();
        tls_wire(before) + taken(tls_write_run(before).outbox.unsent, trace.last().input)
    }
}

/// The event makes the codec take on a part of the caller's buffer.
pub open spec fn tls_accepts<E>(state: TlsWriteState, x: WriteExchange<E>) -> bool {
    x.call is Write && x.input is Start && state.outbox.unsent.len() == 0 && x.buf.len() > 0
}

/// The payloads that the codec took on, one for each frame.
pub open spec fn tls_accepted<E>(trace: Seq<WriteExchange<E>>) -> Seq<Seq<u8>>
    decreases trace.len(),
{
    if trace.len() == 0 {
        Seq::empty()
    } else {
        let before = trace.drop_last();
        if tls_accepts(tls_write_run(before), trace.last()) {
            tls_accepted(before).push(tls_chunk(trace.last().buf))
        } else {
            tls_accepted(before)
        }
    }
}

/// What the callers of write were told in all.
pub open spec fn tls_reported<E>(trace: Seq<WriteExchange<E>>) -> nat
    decreases trace.len(),
{
    if trace.len() == 0 {
        0
    } else {
        let before = trace.drop_last();
        tls_reported(before) + reported(tls_write_step(tls_write_run(before), trace.last()).1)
    }
}

/// No flush or shutdown call finishes the frame of a pending write.
pub open spec fn tls_frames_left_to_write<E>(trace: Seq<WriteExchange<E>>) -> bool
    decreases trace.len(),
{
    trace.len() == 0 || {
        let before = trace.drop_last();
        &&& tls_frames_left_to_write(before)
        &&& leaves_frame_to_write(tls_write_run(before).outbox.unsent, trace.last())
    }
}

/// Payload is taken on only once the callers were told of all payload before
/// it. A trace fails this only if a flush or shutdown call finishes the frame
/// of a pending write and the caller then starts a write afresh.
pub open spec fn tls_counts_settled<E>(trace: Seq<WriteExchange<E>>) -> bool
    decreases trace.len(),
{
    trace.len() == 0 || {
        let before = trace.drop_last();
        &&& tls_counts_settled(before)
        &&& tls_accepts(tls_write_run(before), trace.last()) ==> tls_write_run(
            before,
        ).outbox.pending_input == 0
    }
}

/// One more payload is one more record, or the opening of the stream.
proof fn lemma_server_encoded_push(payloads: Seq<Seq<u8>>, payload: Seq<u8>)
    ensures
        server_encoded(payloads.push(payload)) == server_encoded(payloads) + ((
        if payloads.len() == 0 {
            fake_response_prefix()
        } else {
            tls_record_header()
        }) + tls_sized(payload)),
{
    let all = payloads.push(payload);
    if payloads.len() == 0 {
        assert(all.drop_first() =~= Seq::empty());
        assert(server_encoded(all) =~= server_encoded(payloads) + (fake_response_prefix()
            + tls_sized(payload)));
    } else {
        assert(all.drop_first().drop_last() =~= payloads.drop_first());
        assert(all.drop_first().last() == payload);
        assert(server_encoded(all) =~= server_encoded(payloads) + record(payload));
    }
}

/// However slowly the inner stream takes its bytes, and whichever calls are
/// left pending, the wire carries the fake handshake once, then the payloads
/// in order, each behind its length and all but the first behind a record
/// header, with no byte lost or repeated. No payload is empty or longer than
/// one record may hold.
pub proof fn law_tls_write<E>(trace: Seq<WriteExchange<E>>)
    requires
        tls_write_trace(trace),
    ensures
        tls_wire(trace) + tls_write_run(trace).outbox.unsent == server_encoded(
            tls_accepted(trace),
        ),
        tls_write_run(trace).first_response <==> tls_accepted(trace).len() == 0,
        forall|i: int|
            0 <= i < tls_accepted(trace).len() ==> 0 < (#[trigger] tls_accepted(trace)[i]).len()
                <= TLS_CHUNK_SIZE,
    decreases trace.len(),
{
    if trace.len() == 0 {
        assert(tls_wire(trace) + tls_write_run(trace).outbox.unsent =~= server_encoded(
            tls_accepted(trace),
        ));
    } else {
        let before = trace.drop_last();
        let x = trace.last();
        let state = tls_write_run(before);
        law_tls_write(before);
        if tls_accepts(state, x) {
            lemma_server_encoded_push(tls_accepted(before), tls_chunk(x.buf));
            assert(tls_wire(trace) =~= tls_wire(before) + state.outbox.unsent);
        } else {
            lemma_drain_keeps_bytes(state.outbox.unsent, x.input);
            assert(tls_wire(trace) + tls_write_run(trace).outbox.unsent =~= tls_wire(before)
                + state.outbox.unsent);
        }
    }
}

/// The callers of write are told of every byte of payload once, when the
/// frame that carries it has been sent: what they were told and what the
/// last frame stands for, until it is told, add up to the payload taken on.
pub proof fn law_tls_write_counts<E>(trace: Seq<WriteExchange<E>>)
    requires
        tls_write_trace(trace),
        tls_counts_settled(trace),
    ensures
        tls_reported(trace) + tls_write_run(trace).outbox.pending_input == joined(
            tls_accepted(trace),
        ).len(),
    decreases trace.len(),
{
    if trace.len() > 0 {
        let before = trace.drop_last();
        law_tls_write_counts(before);
        if tls_accepts(tls_write_run(before), trace.last()) {
            assert(tls_accepted(trace).drop_last() =~= tls_accepted(before));
        }
    }
}

/// If pending writes are finished by write calls, nothing is left untold once
/// everything is sent.
pub proof fn law_tls_write_calls_settle<E>(trace: Seq<WriteExchange<E>>)
    requires
        tls_write_trace(trace),
        tls_frames_left_to_write(trace),
    ensures
        tls_counts_settled(trace),
        tls_write_run(trace).outbox.unsent.len() == 0 ==> tls_write_run(
            trace,
        ).outbox.pending_input == 0,
    decreases trace.len(),
{
    if trace.len() > 0 {
        law_tls_write_calls_settle(trace.drop_last());
    }
}

/// The first payload of a list, and the rest.
proof fn lemma_joined_first(payloads: Seq<Seq<u8>>)
    requires
        payloads.len() > 0,
    ensures
        joined(payloads) == payloads[0] + joined(payloads.drop_first()),
    decreases payloads.len(),
{
    let rest = payloads.drop_first();
    if payloads.len() == 1 {
        assert(joined(payloads.drop_last()) =~= Seq::empty());
        assert(joined(rest) =~= Seq::empty());
        assert(joined(payloads) =~= payloads[0] + joined(rest));
    } else {
        let before = payloads.drop_last();
        lemma_joined_first(before);
        assert(before.drop_first() =~= rest.drop_last());
        assert(joined(payloads) =~= payloads[0] + joined(rest));
    }
}

/// The client gets back what the server wrote: dropping the fake handshake
/// and reading sized payloads undoes the encoding.
pub proof fn law_tls_server_round_trip(payloads: Seq<Seq<u8>>)
    requires
        all_fit(payloads),
    ensures
        server_payload(server_encoded(payloads)) == joined(payloads),
{
    let wire = server_encoded(payloads);
    if payloads.len() == 0 {
        assert(server_payload(wire) =~= joined(payloads));
    } else {
        let first = payloads[0];
        let rest = payloads.drop_first();
        assert(all_fit(rest)) by {
            assert forall|i: int| 0 <= i < rest.len() implies (#[trigger] rest[i]).len()
                < 0x1_0000 by {
                assert(rest[i] == payloads[i + 1]);
            }
        }
        assert(fake_response_prefix().len() == TLS_FIRST_RESPONSE_DISCARD);
        assert(wire.skip(TLS_FIRST_RESPONSE_DISCARD as int) =~= tls_sized(first) + records(rest));
        lemma_sized_payload(first, records(rest));
        lemma_records_payload(rest, Seq::empty());
        assert(records(rest) + Seq::<u8>::empty() =~= records(rest));
        assert(joined(rest) + records_payload(Seq::empty()) =~= joined(rest));
        lemma_joined_first(payloads);
    }
}

/// Once everything is sent, what the client finds on the wire is the payload
/// that the server's callers wrote.
pub proof fn law_tls_client_reads_what_was_written<E>(trace: Seq<WriteExchange<E>>)
    requires
        tls_write_trace(trace),
        tls_write_run(trace).outbox.unsent.len() == 0,
    ensures
        server_payload(tls_wire(trace)) == joined(tls_accepted(trace)),
{
    law_tls_write(trace);
    assert(tls_wire(trace) + tls_write_run(trace).outbox.unsent =~= tls_wire(trace));
    law_tls_server_round_trip(tls_accepted(trace));
}

/// Throughout the trace, the callers of write work through `data`: each call
/// offers bytes from where the calls before it were told to have come.
pub open spec fn tls_writes_through<E>(data: Seq<u8>, trace: Seq<WriteExchange<E>>) -> bool
    decreases trace.len(),
{
    trace.len() == 0 || {
        let before = trace.drop_last();
        &&& tls_writes_through(data, before)
        &&& trace.last().call is Write ==> continues(data, tls_reported(before), trace.last().buf)
    }
}

/// A caller that goes on from where it was told to have come, repeating a
/// call that was left pending, has its bytes taken on in order: they are the
/// bytes it was told of, and those of a frame that it was not told of yet,
/// whichever call sends that frame.
pub proof fn law_tls_write_order<E>(data: Seq<u8>, trace: Seq<WriteExchange<E>>)
    requires
        tls_write_trace(trace),
        tls_counts_settled(trace),
        tls_writes_through(data, trace),
    ensures
        ({
            let done = tls_reported(trace) + tls_write_run(trace).outbox.pending_input;
            done <= data.len() && joined(tls_accepted(trace)) == data.take(done as int)
        }),
    decreases trace.len(),
{
    let done = tls_reported(trace) + tls_write_run(trace).outbox.pending_input;
    if trace.len() == 0 {
        assert(joined(tls_accepted(trace)) =~= data.take(done as int));
    } else {
        let before = trace.drop_last();
        law_tls_write_order(data, before);
        law_tls_write_counts(before);
        law_tls_write_counts(trace);
        if tls_accepts(tls_write_run(before), trace.last()) {
            assert(tls_accepted(trace).drop_last() =~= tls_accepted(before));
        }
        assert(joined(tls_accepted(trace)) =~= data.take(done as int));
    }
}

/// Once everything is sent, the client finds on the wire exactly the bytes
/// that the server's callers were told to have written, and those of a frame
/// that a flush or shutdown call sent in place of the write call. If pending
/// writes are finished by write calls, there is no such frame.
pub proof fn law_tls_write_reaches_the_client<E>(data: Seq<u8>, trace: Seq<WriteExchange<E>>)
    requires
        tls_write_trace(trace),
        tls_counts_settled(trace),
        tls_writes_through(data, trace),
        tls_write_run(trace).outbox.unsent.len() == 0,
    ensures
        server_payload(tls_wire(trace)) == data.take(
            (tls_reported(trace) + tls_write_run(trace).outbox.pending_input) as int,
        ),
        tls_frames_left_to_write(trace) ==> server_payload(tls_wire(trace)) == data.take(
            tls_reported(trace) as int,
        ),
{
    law_tls_write_order(data, trace);
    law_tls_client_reads_what_was_written(trace);
    if tls_frames_left_to_write(trace) {
        law_tls_write_calls_settle(trace);
    }
}

/// The parts of a buffer that one write after the other takes.
pub open spec fn tls_chunks(buf: Seq<u8>) -> Seq<Seq<u8>>
    decreases buf.len(),
{
    if buf.len() == 0 {
        Seq::empty()
    } else {
        let chunk = tls_chunk(buf);
        seq![chunk] + tls_chunks(buf.skip(chunk.len() as int))
    }
}

/// A caller that writes the rest of its buffer until nothing is left has the
/// whole of it sent, in order.
pub proof fn law_tls_chunks_cover(buf: Seq<u8>)
    ensures
        joined(tls_chunks(buf)) == buf,
    decreases buf.len(),
{
    if buf.len() == 0 {
        assert(joined(tls_chunks(buf)) =~= buf);
    } else {
        let chunk = tls_chunk(buf);
        let rest = buf.skip(chunk.len() as int);
        law_tls_chunks_cover(rest);
        assert(tls_chunks(buf).drop_first() =~= tls_chunks(rest));
        lemma_joined_first(tls_chunks(buf));
        assert(chunk + rest =~= buf);
    }
}

// ---------------------------------------------------------------------------
// What each event is answered: writing
// ---------------------------------------------------------------------------

/// In every state and for every call and buffer, the call is left pending
/// exactly if the inner stream was not ready, and fails with an error of the
/// inner stream exactly if the inner stream failed with it; nothing changes
/// then. With nothing unsent, a write call that starts succeeds by itself
/// exactly if there is nothing to write.
pub proof fn law_tls_write_waits<E>(state: TlsWriteState, x: WriteExchange<E>, e: E)
    ensures
        tls_write_step(state, x).1 is Pending <==> x.input is Pending,
        tls_write_step(state, x).1 == WriteOutput::Fail(ObfsError::Inner(e)) <==> x.input
            == WriteInput::Failed(e),
        x.input is Pending || x.input is Failed ==> tls_write_step(state, x).0 == state,
        x.call is Write && x.input is Start && state.outbox.unsent.len() == 0 ==> (tls_write_step(
            state,
            x,
        ).1 is Done <==> x.buf.len() == 0),
        !(x.call is Write) ==> !(tls_write_step(state, x).1 is Done),
{
}

/// The bytes that the wire owes: those of the encoded payloads that the inner
/// stream has yet to take.
pub open spec fn tls_owed<E>(trace: Seq<WriteExchange<E>>) -> Seq<u8> {
    server_encoded(tls_accepted(trace)).skip(tls_wire(trace).len() as int)
}

/// What is unsent is what the wire owes, and belongs to the last payload taken
/// on.
pub proof fn law_tls_unsent_is_owed<E>(trace: Seq<WriteExchange<E>>)
    requires
        tls_write_trace(trace),
    ensures
        tls_write_run(trace).outbox.unsent == tls_owed(trace),
        tls_owed(trace).len() > 0 ==> tls_accepted(trace).len() > 0 && tls_write_run(
            trace,
        ).outbox.pending_input == tls_accepted(trace).last().len(),
    decreases trace.len(),
{
    law_tls_write(trace);
    assert(tls_write_run(trace).outbox.unsent =~= tls_owed(trace));
    if trace.len() > 0 {
        law_tls_unsent_is_owed(trace.drop_last());
    }
}

/// What the last event of a trace is answered.
pub open spec fn tls_write_answer<E>(trace: Seq<WriteExchange<E>>) -> WriteOutput<E>
    recommends
        trace.len() > 0,
{
    tls_write_step(tls_write_run(trace.drop_last()), trace.last()).1
}

/// Every answer to a call that writes, from what was taken on and taken alone.
///
/// While the wire owes bytes, they are sent before anything else; taking none
/// of them is a fault. Once it owes none, a write call tells the length of the
/// payload that was sent, and a flush or shutdown call goes on to the inner
/// stream. A write call that starts while nothing is owed has a frame sent,
/// unless there is nothing to write.
pub proof fn law_tls_write_answer<E>(trace: Seq<WriteExchange<E>>)
    requires
        tls_write_trace(trace),
        trace.len() > 0,
        tls_owed(trace.drop_last()).len() > 0 || !(trace.last().input is Wrote),
    ensures
        ({
            let before = trace.drop_last();
            let owed = tls_owed(before);
            let answer = tls_write_answer(trace);
            match trace.last().input {
                WriteInput::Pending => answer is Pending,
                WriteInput::Failed(e) => answer == WriteOutput::Fail(ObfsError::Inner(e)),
                WriteInput::Start => if owed.len() > 0 {
                    answer is Send
                } else if !(trace.last().call is Write) {
                    answer is Forward
                } else if trace.last().buf.len() == 0 {
                    answer == WriteOutput::<E>::Done(0)
                } else {
                    answer is Send
                },
                WriteInput::Wrote(n) => if n == 0 {
                    answer == WriteOutput::<E>::Fail(ObfsError::Fault(Fault::WriteZero))
                } else if n < owed.len() {
                    answer is Send
                } else if trace.last().call is Write {
                    answer == WriteOutput::<E>::Done(tls_accepted(before).last().len())
                } else {
                    answer is Forward
                },
            }
        }),
{
    law_tls_unsent_is_owed(trace.drop_last());
}

/// What one event adds to the payloads taken on: a write call that starts
/// while nothing is owed takes on the first 16384 bytes of its buffer, or all
/// of it if it is shorter. The frame that it owes then is the payload behind
/// its length, behind 105 bytes if it is the first and behind the record
/// header if not.
pub proof fn law_tls_takes_on<E>(trace: Seq<WriteExchange<E>>)
    requires
        tls_write_trace(trace),
        trace.len() > 0,
    ensures
        ({
            let before = trace.drop_last();
            let x = trace.last();
            if x.call is Write && x.input is Start && tls_owed(before).len() == 0 && x.buf.len()
                > 0 {
                let chunk = if x.buf.len() <= 16384 {
                    x.buf
                } else {
                    x.buf.subrange(0, 16384)
                };
                let frame = tls_owed(trace);
                let lead: int = if tls_accepted(before).len() == 0 {
                    105
                } else {
                    3
                };
                &&& tls_accepted(trace) == tls_accepted(before).push(chunk)
                &&& frame.len() == lead + 2 + chunk.len()
                &&& frame[lead] * 256 + frame[lead + 1] == chunk.len()
                &&& frame.skip(lead + 2) == chunk
                &&& lead == 3 ==> frame.take(3) == seq![0x17u8, 0x03, 0x03]
            } else {
                tls_accepted(trace) == tls_accepted(before)
            }
        }),
{
    let before = trace.drop_last();
    let x = trace.last();
    law_tls_unsent_is_owed(before);
    law_tls_unsent_is_owed(trace);
    law_tls_write(before);
    if tls_accepts(tls_write_run(before), x) {
        let chunk = tls_chunk(x.buf);
        if x.buf.len() <= 16384 {
            assert(chunk =~= x.buf);
        } else {
            assert(chunk =~= x.buf.subrange(0, 16384));
        }
        law_big_endian(0, 0, chunk.len());
        let frame = tls_owed(trace);
        let lead: int = if tls_accepted(before).len() == 0 {
            105
        } else {
            3
        };
        assert(frame.skip(lead + 2) =~= chunk);
        if lead == 3 {
            assert(frame.take(3) =~= seq![0x17u8, 0x03, 0x03]);
        }
    }
}

// ---------------------------------------------------------------------------
// What each event is answered: reading
// ---------------------------------------------------------------------------

/// In every state, a read call is left pending exactly if the inner stream was
/// not ready, and fails with an error of the inner stream exactly if the inner
/// stream failed with it; nothing changes then.
pub proof fn law_tls_read_waits<E>(state: TlsReadState, input: ReadInput<E>, room: nat, e: E)
    ensures
        tls_read_next(state, input, room).1 is Pending <==> input is Pending,
        tls_read_next(state, input, room).1 == ReadOutput::Fail(ObfsError::Inner(e)) <==> input
            == ReadInput::Failed(e),
        input is Pending || input is Failed ==> tls_read_next(state, input, room).0 == state,
{
}

/// What a stream of records needs next.
pub enum RecordNeed {
    /// So many more bytes of a record header.
    Header(nat),
    /// The rest of a record's length, of which these bytes have come.
    Length(Seq<u8>),
    /// So many more bytes of payload.
    Payload(nat),
}

/// What a stream of records needs next, once `wire` has come.
pub open spec fn record_need(wire: Seq<u8>) -> RecordNeed
    decreases wire.len(),
{
    if wire.len() < 3 {
        RecordNeed::Header((3 - wire.len()) as nat)
    } else if wire.len() < 5 {
        RecordNeed::Length(wire.skip(3))
    } else {
        let end = 5 + be16(wire[3], wire[4]);
        if wire.len() < end {
            RecordNeed::Payload((end - wire.len()) as nat)
        } else {
            record_need(wire.skip(end as int))
        }
    }
}

/// What a stream of records needs after bytes that it needed.
proof fn lemma_record_need_extends(wire: Seq<u8>, d: Seq<u8>)
    requires
        d.len() > 0,
        d.len() <= match record_need(wire) {
            RecordNeed::Header(k) => k,
            RecordNeed::Length(s) => (2 - s.len()) as nat,
            RecordNeed::Payload(k) => k,
        },
    ensures
        match record_need(wire) {
            RecordNeed::Header(k) => if d.len() < k {
                record_need(wire + d) == RecordNeed::Header((k - d.len()) as nat)
            } else {
                record_need(wire + d) == RecordNeed::Length(Seq::empty())
            },
            RecordNeed::Length(s) => if s.len() + d.len() < 2 {
                record_need(wire + d) == RecordNeed::Length(s + d)
            } else if be16((s + d)[0], (s + d)[1]) == 0 {
                record_need(wire + d) == RecordNeed::Header(3)
            } else {
                record_need(wire + d) == RecordNeed::Payload(be16((s + d)[0], (s + d)[1]))
            },
            RecordNeed::Payload(k) => if d.len() < k {
                record_need(wire + d) == RecordNeed::Payload((k - d.len()) as nat)
            } else {
                record_need(wire + d) == RecordNeed::Header(3)
            },
        },
    decreases wire.len(),
{
    reveal_with_fuel(record_need, 2);
    let all = wire + d;
    if wire.len() < 3 {
        if all.len() == 3 {
            assert(all.skip(3) =~= Seq::empty());
        }
    } else if wire.len() < 5 {
        let s = wire.skip(3);
        assert(all.skip(3) =~= s + d);
        if all.len() == 5 {
            assert(all[3] == (s + d)[0] && all[4] == (s + d)[1]);
            if be16(all[3], all[4]) == 0 {
                assert(all.skip(5) =~= Seq::empty());
            }
        }
    } else {
        let end = 5 + be16(wire[3], wire[4]);
        assert(all[3] == wire[3] && all[4] == wire[4]);
        if wire.len() < end {
            if all.len() == end {
                assert(all.skip(end as int) =~= Seq::empty());
            }
        } else {
            assert(all.skip(end as int) =~= wire.skip(end as int) + d);
            lemma_record_need_extends(wire.skip(end as int), d);
        }
    }
}

/// What has come behind the ClientHello.
pub open spec fn behind_hello(wire: Seq<u8>) -> Seq<u8> {
    wire.skip(5 + be16(wire[3], wire[4]) as int)
}

/// A read side past the ClientHello stands where the stream of records does.
pub open spec fn tracks_records(state: TlsReadState, seen: Seq<u8>) -> bool {
    match state {
        TlsReadState::HelloHeader(_) => true,
        TlsReadState::HelloBody(_, _) => true,
        TlsReadState::Leftover(_) => behind_hello(seen).len() == 0,
        TlsReadState::Discard(n) => n > 0 && record_need(behind_hello(seen)) == RecordNeed::Header(
            n,
        ),
        TlsReadState::Length(s) => record_need(behind_hello(seen)) == RecordNeed::Length(s),
        TlsReadState::Payload(n) => record_need(behind_hello(seen)) == if n == 0 {
            RecordNeed::Header(3)
        } else {
            RecordNeed::Payload(n)
        },
    }
}

/// One event of a read call, as the records go.
#[verifier::spinoff_prover]
#[verifier::rlimit(50)]
proof fn lemma_tls_record_step<E>(state: TlsReadState, x: ReadExchange<E>, seen: Seq<u8>)
    requires
        tls_read_valid(state),
        tls_read_fits(state, x.input, x.room),
        tracks_hello(state, seen),
        tracks_records(state, seen),
    ensures
        tracks_records(tls_read_next(state, x.input, x.room).0, seen + given(x.input)),
{
    let d = given(x.input);
    let all = seen + d;
    if d.len() == 0 {
        assert(all =~= seen);
    }
    match state {
        TlsReadState::HelloHeader(header) => {
            if all.len() >= TLS_RECORD_HEADER && all[0] == 0x16 && d.len() > 0 {
                assert(all.len() == 5);
            }
        },
        TlsReadState::HelloBody(body, missing) => {
            if all.len() == 5 + be16(seen[3], seen[4]) {
                assert(behind_hello(all) =~= Seq::empty());
            }
        },
        TlsReadState::Leftover(_) => {
            assert(behind_hello(seen) =~= Seq::empty());
        },
        _ => {
            assert(behind_hello(all) =~= behind_hello(seen) + d);
            if d.len() > 0 {
                lemma_record_need_extends(behind_hello(seen), d);
            }
        },
    }
}

/// A read side stands where the stream of records does, throughout a trace.
proof fn lemma_tls_tracks_records<E>(trace: Seq<ReadExchange<E>>)
    requires
        tls_read_trace(trace),
    ensures
        tracks_records(tls_read_run(trace), received(trace)),
    decreases trace.len(),
{
    if trace.len() > 0 {
        let before = trace.drop_last();
        lemma_tls_tracks_records(before);
        lemma_tls_tracks_hello(before);
        lemma_tls_record_step(tls_read_run(before), trace.last(), received(before));
    }
}

/// A step hands out `payload`, as much as there is room for.
pub open spec fn hands_out<E>(answer: ReadOutput<E>, payload: Seq<u8>, room: nat) -> bool {
    answer matches ReadOutput::Deliver(bytes) && {
        &&& bytes.len() == payload.len() || bytes.len() == room
        &&& bytes.len() <= payload.len() && bytes.len() <= room
        &&& bytes == payload.subrange(0, bytes.len() as int)
    }
}

/// A step asks for what a stream needs of which `came` has come, where no
/// payload of the ClientHello waits. The 5 bytes of the first record's header
/// come first, then its body, at most 4096 bytes at a time; then, of each
/// record, 3 bytes of header, 2 bytes of length, and payload straight into the
/// caller's buffer. Without room for payload the call ends.
pub open spec fn asks_for_next<E>(answer: ReadOutput<E>, came: Seq<u8>, room: nat) -> bool {
    if came.len() < 5 {
        answer == ReadOutput::<E>::Fill((5 - came.len()) as nat)
    } else if came.len() < 5 + be16(came[3], came[4]) {
        let missing = (5 + be16(came[3], came[4]) - came.len()) as nat;
        answer == ReadOutput::<E>::Fill(
            if missing <= 4096 {
                missing
            } else {
                4096
            },
        )
    } else {
        match record_need(behind_hello(came)) {
            RecordNeed::Header(k) => answer == ReadOutput::<E>::Fill(k),
            RecordNeed::Length(s) => answer == ReadOutput::<E>::Fill((2 - s.len()) as nat),
            RecordNeed::Payload(k) => if room == 0 {
                answer is Done
            } else {
                answer == ReadOutput::<E>::Direct(
                    if k <= room {
                        k
                    } else {
                        room
                    },
                )
            },
        }
    }
}

/// Every answer to a read call, from what was received and delivered alone.
///
/// The bytes that complete a ClientHello are answered with its payload, or
/// with what is wrong with it; a call that starts hands out what waits of that
/// payload. Otherwise the stream is asked for what it needs next, except that
/// payload of a record, which has gone straight into the caller's buffer, ends
/// the call, and so does the end of the stream.
#[verifier::spinoff_prover]
#[verifier::rlimit(100)]
pub proof fn law_tls_read_answer<E>(trace: Seq<ReadExchange<E>>)
    requires
        tls_read_trace(trace),
        trace.len() > 0,
    ensures
        ({
            let before = trace.drop_last();
            let room = trace.last().room;
            let seen = received(before);
            let answer = tls_read_answer(trace);
            match trace.last().input {
                ReadInput::Pending => answer is Pending,
                ReadInput::Failed(e) => answer == ReadOutput::Fail(ObfsError::Inner(e)),
                ReadInput::Start => match hello_verdict(seen) {
                    None => asks_for_next(answer, seen, room),
                    Some(Err(fault)) => if fault == Fault::NotClientHello {
                        answer == ReadOutput::<E>::Fill(0)
                    } else {
                        answer == ReadOutput::<E>::Fail(ObfsError::Fault(fault))
                    },
                    Some(Ok(first)) => if tls_delivered(before).len() < first.len() {
                        hands_out(answer, first.skip(tls_delivered(before).len() as int), room)
                    } else {
                        asks_for_next(answer, seen, room)
                    },
                },
                ReadInput::Data(d) => if d.len() == 0 {
                    answer is Done
                } else {
                    match hello_verdict(seen) {
                        None => match hello_verdict(seen + d) {
                            None => asks_for_next(answer, seen + d, room),
                            Some(Err(fault)) => answer == ReadOutput::<E>::Fail(
                                ObfsError::Fault(fault),
                            ),
                            Some(Ok(first)) => hands_out(answer, first, room),
                        },
                        Some(_) => if record_need(behind_hello(seen)) is Payload {
                            answer is Done
                        } else {
                            asks_for_next(answer, seen + d, room)
                        },
                    }
                },
            }
        }),
{
    let before = trace.drop_last();
    let x = trace.last();
    let seen = received(before);
    let state = tls_read_run(before);
    let next = tls_read_next(state, x.input, x.room).0;
    let all = seen + given(x.input);
    lemma_tls_tracks_hello(before);
    lemma_tls_tracks_records(before);
    lemma_tls_tracks_hello(trace);
    lemma_tls_tracks_records(trace);
    law_tls_read(before);
    if given(x.input).len() == 0 {
        assert(all =~= seen);
    }
    lemma_tls_client_payload(seen);
    match state {
        TlsReadState::HelloHeader(header) => {
            if all.len() >= 5 && all[0] == 0x16 && given(x.input).len() > 0 {
                assert(all.subrange(5, 5) =~= Seq::empty());
            }
        },
        TlsReadState::HelloBody(body, missing) => {
            let end = 5 + be16(seen[3], seen[4]);
            if all.len() >= end {
                assert(all.subrange(5, end as int) =~= body + given(x.input));
            }
        },
        TlsReadState::Leftover(payload) => {
            let first = hello_verdict(seen)->0->Ok_0;
            assert(records_payload(behind_hello(seen)) =~= Seq::empty());
            assert(tls_delivered(before) + payload =~= first);
            assert(payload =~= first.skip(tls_delivered(before).len() as int));
        },
        _ => {},
    }
}

/// The payload of a stream whose ClientHello is sound: that of the ClientHello,
/// then that of the records.
proof fn lemma_tls_client_payload(wire: Seq<u8>)
    ensures
        hello_verdict(wire) matches Some(Ok(first)) ==> client_payload(wire) == first
            + records_payload(behind_hello(wire)),
{
    if wire.len() >= 5 {
        let n = be16(wire[3], wire[4]);
        let rest = wire.skip(5);
        if wire.len() >= 5 + n {
            assert(rest.take(n as int) =~= wire.subrange(5, (5 + n) as int));
            assert(rest.skip(n as int) =~= behind_hello(wire));
        }
    }
}

/// Over whole traces: a read call is left pending exactly if the inner stream
/// was not ready. With room for bytes, it ends without a fault and without
/// bytes only if the inner stream has ended, or if a ClientHello has just been
/// completed whose session ticket is empty.
pub proof fn law_tls_read_pending<E>(trace: Seq<ReadExchange<E>>)
    requires
        tls_read_trace(trace),
        trace.len() > 0,
    ensures
        tls_read_answer(trace) is Pending <==> trace.last().input is Pending,
        tls_read_answer(trace) is Done && trace.last().room > 0 && tls_surfaced(
            tls_read_run(trace.drop_last()),
            trace.last(),
        ).len() == 0 ==> (trace.last().input matches ReadInput::Data(d) && d.len() == 0),
        tls_read_answer(trace) is Done && trace.last().room > 0 ==> trace.last().input is Data,
        tls_read_answer(trace) matches ReadOutput::Deliver(bytes) ==> (bytes.len() == 0
            && trace.last().room > 0 ==> (hello_verdict(received(trace)) matches Some(Ok(first))
            && first.len() == 0)),
{
    law_tls_read_answer(trace);
    lemma_tls_tracks_hello(trace.drop_last());
    lemma_tls_tracks_records(trace.drop_last());
}

/// What a read call asks for may be given: up to that many bytes.
pub proof fn law_tls_asked_may_be_given<E>(
    state: TlsReadState,
    input: ReadInput<E>,
    room: nat,
    data: Seq<u8>,
)
    requires
        tls_read_valid(state),
        tls_read_fits(state, input, room),
    ensures
        tls_read_next(state, input, room).1 matches ReadOutput::Fill(n) ==> (data.len() <= n
            ==> tls_read_fits::<E>(
            tls_read_next(state, input, room).0,
            ReadInput::Data(data),
            room,
        )),
        tls_read_next(state, input, room).1 matches ReadOutput::Direct(n) ==> (data.len() <= n
            ==> tls_read_fits::<E>(
            tls_read_next(state, input, room).0,
            ReadInput::Data(data),
            room,
        )),
{
}

/// A ClientHello body carries the bytes behind the two that stand at offset
/// 135 and give their number. It is too short if those two have not come, and
/// its ticket is truncated if it ends before so many bytes; nothing else is
/// wrong with any body.
pub proof fn law_session_ticket(body: Seq<u8>)
    ensures
        session_ticket(body) == Err::<Seq<u8>, Fault>(Fault::HelloTooShort) <==> body.len() < 137,
        session_ticket(body) == Err::<Seq<u8>, Fault>(Fault::TicketTruncated) <==> body.len()
            >= 137 && body.len() < 137 + body[135] * 256 + body[136],
        body.len() >= 137 && body.len() >= 137 + body[135] * 256 + body[136] ==> (session_ticket(
            body,
        ) matches Ok(payload) && payload == body.subrange(
            137,
            137 + body[135] * 256 + body[136],
        )),
{
}

} // verus!
