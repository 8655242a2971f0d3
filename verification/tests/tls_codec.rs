use meow_core::simple_obfs::bytes::{push_be16, read_be16};
use meow_core::simple_obfs::step::{
    Fault, FaultKind, ObfsError, ReadEvent, ReadStep, WriteEvent, WriteStep,
};
use meow_core::simple_obfs::tls::{
    tls_fake_response_prefix, TlsObfsServer, TLS_CHUNK_SIZE, TLS_FIRST_RESPONSE_DISCARD,
    TLS_SESSION_TICKET_LEN_OFF,
};

type Failure = ObfsError<&'static str>;

/// An inner stream: what it gives, in pieces of at most `piece` bytes, and
/// what it took, in pieces of at most `accept` bytes.
struct Pipe {
    incoming: Vec<u8>,
    at: usize,
    piece: usize,
    taken: Vec<u8>,
    accept: usize,
    flushed: usize,
}

fn pipe(incoming: &[u8], piece: usize) -> Pipe {
    Pipe {
        incoming: incoming.to_vec(),
        at: 0,
        piece,
        taken: Vec::new(),
        accept: usize::MAX,
        flushed: 0,
    }
}

impl Pipe {
    fn give(&mut self, max: usize) -> Vec<u8> {
        let n = max.min(self.piece).min(self.incoming.len() - self.at);
        let bytes = self.incoming[self.at..self.at + n].to_vec();
        self.at += n;
        bytes
    }

    fn take(&mut self, bytes: &[u8]) -> usize {
        let n = bytes.len().min(self.accept);
        self.taken.extend_from_slice(&bytes[..n]);
        n
    }
}

/// One read call with room for `room` bytes.
fn read(server: &mut TlsObfsServer<Pipe>, room: usize) -> Result<Vec<u8>, Failure> {
    let mut step = server.poll_read(ReadEvent::Start, room);
    loop {
        match step {
            ReadStep::Fill(n) => {
                let data = server.inner_mut().give(n);
                step = server.poll_read(ReadEvent::Data(&data), room);
            }
            ReadStep::Direct(n) => {
                let data = server.inner_mut().give(n);
                return match server.poll_read::<&'static str>(ReadEvent::Data(&data), room) {
                    ReadStep::Done => Ok(data),
                    other => panic!("unexpected step {:?}", other),
                };
            }
            ReadStep::Deliver(bytes) => return Ok(bytes),
            ReadStep::Done => return Ok(Vec::new()),
            ReadStep::Fail(e) => return Err(e),
            ReadStep::Pending => panic!("the pipe is never pending"),
        }
    }
}

/// Reads until a read call gives nothing.
fn read_to_end(server: &mut TlsObfsServer<Pipe>, room: usize) -> Vec<u8> {
    let mut got = Vec::new();
    loop {
        let bytes = read(server, room).unwrap();
        if bytes.is_empty() {
            return got;
        }
        got.extend_from_slice(&bytes);
    }
}

/// One write call.
fn write(server: &mut TlsObfsServer<Pipe>, buf: &[u8]) -> Result<usize, Failure> {
    let mut step = server.poll_write(WriteEvent::Start, buf);
    loop {
        let wrote = match step {
            WriteStep::Send => {
                let (inner, bytes) = server.sending();
                inner.take(bytes)
            }
            WriteStep::Forward => server.inner_mut().take(buf),
            WriteStep::Done(n) => return Ok(n),
            WriteStep::Fail(e) => return Err(e),
            WriteStep::Pending => panic!("the pipe is never pending"),
        };
        step = server.poll_write(WriteEvent::Wrote(wrote), buf);
    }
}

fn write_all(server: &mut TlsObfsServer<Pipe>, buf: &[u8]) {
    let mut done = 0;
    while done < buf.len() {
        done += write(server, &buf[done..]).unwrap();
    }
}

/// One flush call.
fn flush(server: &mut TlsObfsServer<Pipe>) -> Result<(), Failure> {
    let mut step = server.poll_flush(WriteEvent::Start);
    loop {
        match step {
            WriteStep::Send => {
                let (inner, bytes) = server.sending();
                let wrote = inner.take(bytes);
                step = server.poll_flush(WriteEvent::Wrote(wrote));
            }
            WriteStep::Forward => {
                server.inner_mut().flushed += 1;
                return Ok(());
            }
            WriteStep::Fail(e) => return Err(e),
            other => panic!("unexpected step {:?}", other),
        }
    }
}

/// A length and a payload.
fn sized(payload: &[u8]) -> Vec<u8> {
    let mut out = (payload.len() as u16).to_be_bytes().to_vec();
    out.extend_from_slice(payload);
    out
}

/// An application data record.
fn record(payload: &[u8]) -> Vec<u8> {
    let mut out = vec![0x17, 0x03, 0x03];
    out.extend_from_slice(&sized(payload));
    out
}

/// The body of a ClientHello up to the length of its session ticket: as many
/// bytes as the fixed layout has, of arbitrary value.
fn hello_opening() -> Vec<u8> {
    (0..135).map(|i| (i * 7 + 3) as u8).collect()
}

/// A ClientHello record with `payload` in its session ticket, and a server
/// name extension behind it.
fn hello(payload: &[u8]) -> Vec<u8> {
    let mut body = hello_opening();
    body.extend_from_slice(&sized(payload));
    body.extend_from_slice(b"\x00\x00\x00\x10\x00\x0e\x00\x00\x0bexample.com");
    let mut out = vec![0x16, 0x03, 0x01];
    out.extend_from_slice(&sized(&body));
    out
}

/// The stream of a client that writes these buffers, each in records of at
/// most the chunk size.
fn client_writes(buffers: &[&[u8]]) -> Vec<u8> {
    let mut wire = Vec::new();
    for buffer in buffers {
        for chunk in buffer.chunks(TLS_CHUNK_SIZE) {
            if wire.is_empty() {
                wire = hello(chunk);
            } else {
                wire.extend_from_slice(&record(chunk));
            }
        }
    }
    wire
}

/// The payloads that a client finds in the server's stream.
fn client_reads(wire: &[u8]) -> Vec<Vec<u8>> {
    let mut payloads = Vec::new();
    let mut at = TLS_FIRST_RESPONSE_DISCARD;
    while at < wire.len() {
        let n = u16::from_be_bytes([wire[at], wire[at + 1]]) as usize;
        payloads.push(wire[at + 2..at + 2 + n].to_vec());
        at += 2 + n + 3;
    }
    payloads
}

#[test]
fn tls_client_to_server_round_trip() {
    let wire = client_writes(&[b"SECRET_FIRST", b"_SECOND_CHUNK"]);
    let mut server = TlsObfsServer::new(pipe(&wire, 65536));
    assert_eq!(read(&mut server, 64).unwrap(), b"SECRET_FIRST");
    assert_eq!(read(&mut server, 64).unwrap(), b"_SECOND_CHUNK");
}

#[test]
fn tls_server_to_client_round_trip() {
    let mut server = TlsObfsServer::new(pipe(b"", 65536));
    write_all(&mut server, b"SERVER_REPLY");
    write_all(&mut server, b"_AGAIN");
    flush(&mut server).unwrap();
    let got = client_reads(&server.inner_mut().taken);
    assert_eq!(got[0], b"SERVER_REPLY");
    assert_eq!(got[1], b"_AGAIN");
    assert_eq!(server.inner_mut().flushed, 1);
}

#[test]
fn tls_large_payload_round_trip() {
    let payload: Vec<u8> = (0..40_000).map(|i| (i % 251) as u8).collect();
    let wire = client_writes(&[&payload]);
    let mut server = TlsObfsServer::new(pipe(&wire, 1 << 20));
    let got = read_to_end(&mut server, 32);
    assert_eq!(got, payload);
}

#[test]
fn tls_large_write_round_trip() {
    let payload: Vec<u8> = (0..40_000).map(|i| (i % 251) as u8).collect();
    let mut server = TlsObfsServer::new(pipe(b"", 1));
    server.inner_mut().accept = 1000;
    assert_eq!(write(&mut server, &payload).unwrap(), 16384);
    write_all(&mut server, &payload[16384..]);
    let got = client_reads(&server.inner_mut().taken);
    let lengths: Vec<usize> = got.iter().map(Vec::len).collect();
    assert_eq!(lengths, vec![16384, 16384, 7232]);
    assert_eq!(got.concat(), payload);
}

#[test]
fn tls_read_does_not_depend_on_the_cuts() {
    let mut wire = client_writes(&[b"SECRET_FIRST", b"_SECOND_CHUNK"]);
    wire.extend_from_slice(&record(b""));
    wire.extend_from_slice(&record(b"_THIRD"));
    for piece in 1..30 {
        for room in 1..20 {
            let mut server = TlsObfsServer::new(pipe(&wire, piece));
            let got = read_to_end(&mut server, room);
            assert_eq!(got, b"SECRET_FIRST_SECOND_CHUNK_THIRD");
        }
    }
}

#[test]
fn tls_record_headers_are_dropped_unread() {
    let mut wire = hello(b"a");
    wire.extend_from_slice(b"\xff\xff\xff\x00\x02bc");
    let mut server = TlsObfsServer::new(pipe(&wire, 4096));
    assert_eq!(read_to_end(&mut server, 8), b"abc");
}

#[test]
fn tls_first_record_must_be_a_handshake() {
    let mut server = TlsObfsServer::new(pipe(&record(b"payload"), 2));
    match read(&mut server, 64) {
        Err(ObfsError::Fault(fault)) => {
            assert_eq!(fault, Fault::NotClientHello);
            assert_eq!(fault.kind(), FaultKind::InvalidData);
            assert_eq!(fault.message(), "obfs-server tls: expected ClientHello record");
        }
        other => panic!("unexpected outcome {:?}", other),
    }
    // Nothing more is asked of the stream.
    assert_eq!(read(&mut server, 64).unwrap(), b"");
}

#[test]
fn tls_hello_must_reach_its_session_ticket() {
    let mut wire = vec![0x16, 0x03, 0x01];
    wire.extend_from_slice(&sized(&hello_opening()));
    wire.push(0);
    let mut server = TlsObfsServer::new(pipe(&wire, 4096));
    for _ in 0..2 {
        match read(&mut server, 64) {
            Err(ObfsError::Fault(fault)) => {
                assert_eq!(fault, Fault::HelloTooShort);
                assert_eq!(fault.kind(), FaultKind::InvalidData);
                assert_eq!(fault.message(), "obfs-server tls: ClientHello too short");
            }
            other => panic!("unexpected outcome {:?}", other),
        }
    }
}

#[test]
fn tls_session_ticket_must_fit_the_hello() {
    let mut body = hello_opening();
    body.extend_from_slice(b"\x00\x05abcd");
    let mut wire = vec![0x16, 0x03, 0x01];
    wire.extend_from_slice(&sized(&body));
    let mut server = TlsObfsServer::new(pipe(&wire, 4096));
    match read(&mut server, 64) {
        Err(ObfsError::Fault(fault)) => {
            assert_eq!(fault, Fault::TicketTruncated);
            assert_eq!(fault.kind(), FaultKind::InvalidData);
            assert_eq!(
                fault.message(),
                "obfs-server tls: session_ticket payload truncated"
            );
        }
        other => panic!("unexpected outcome {:?}", other),
    }
}

#[test]
fn tls_empty_session_ticket_reads_empty_once() {
    let mut wire = hello(b"");
    wire.extend_from_slice(&record(b"later"));
    let mut server = TlsObfsServer::new(pipe(&wire, 4096));
    assert_eq!(read(&mut server, 64).unwrap(), b"");
    assert_eq!(read(&mut server, 64).unwrap(), b"later");
}

#[test]
fn tls_leftover_is_served_before_the_records() {
    let wire = client_writes(&[b"abcdef", b"gh"]);
    let mut server = TlsObfsServer::new(pipe(&wire, 4096));
    assert_eq!(read(&mut server, 4).unwrap(), b"abcd");
    assert_eq!(read(&mut server, 0).unwrap(), b"");
    assert_eq!(read(&mut server, 4).unwrap(), b"ef");
    assert_eq!(read(&mut server, 4).unwrap(), b"gh");
}

#[test]
fn tls_stream_may_end_anywhere() {
    let wire = client_writes(&[b"SECRET_FIRST", b"_SECOND_CHUNK"]);
    let whole = b"SECRET_FIRST_SECOND_CHUNK";
    for end in 0..wire.len() {
        let mut server = TlsObfsServer::new(pipe(&wire[..end], 4096));
        let got = read_to_end(&mut server, 64);
        assert!(whole.starts_with(&got));
        server.inner_mut().incoming = wire.clone();
        let mut rest = got;
        rest.extend_from_slice(&read_to_end(&mut server, 64));
        assert_eq!(rest, whole);
    }
}

#[test]
fn tls_read_asks_for_what_the_format_needs() {
    let mut server = TlsObfsServer::new(());
    assert!(matches!(
        server.poll_read::<&str>(ReadEvent::Start, 8),
        ReadStep::Fill(5)
    ));
    assert!(matches!(
        server.poll_read::<&str>(ReadEvent::Data(&[0x16, 3]), 8),
        ReadStep::Fill(3)
    ));
    assert!(matches!(
        server.poll_read::<&str>(ReadEvent::Pending, 8),
        ReadStep::Pending
    ));
    assert!(matches!(
        server.poll_read::<&str>(ReadEvent::Data(&[1, 0x20, 0x00]), 8),
        ReadStep::Fill(4096)
    ));
    assert!(matches!(
        server.poll_read(ReadEvent::Failed("reset"), 8),
        ReadStep::Fail(ObfsError::Inner("reset"))
    ));
    let mut body = hello_opening();
    body.extend_from_slice(&sized(b"z"));
    body.resize(4096, 0);
    assert!(matches!(
        server.poll_read::<&str>(ReadEvent::Data(&body), 8),
        ReadStep::Fill(4096)
    ));
    assert!(matches!(
        server.poll_read::<&str>(ReadEvent::Data(&vec![0; 4096]), 8),
        ReadStep::Deliver(bytes) if bytes == b"z"
    ));
    assert!(matches!(
        server.poll_read::<&str>(ReadEvent::Start, 8),
        ReadStep::Fill(3)
    ));
    assert!(matches!(
        server.poll_read::<&str>(ReadEvent::Data(&[0x17, 3, 3]), 8),
        ReadStep::Fill(2)
    ));
    assert!(matches!(
        server.poll_read::<&str>(ReadEvent::Data(&[0]), 8),
        ReadStep::Fill(1)
    ));
    assert!(matches!(
        server.poll_read::<&str>(ReadEvent::Data(&[9]), 8),
        ReadStep::Direct(8)
    ));
    assert!(matches!(
        server.poll_read::<&str>(ReadEvent::Data(b"12345678"), 8),
        ReadStep::Done
    ));
    assert!(matches!(
        server.poll_read::<&str>(ReadEvent::Start, 0),
        ReadStep::Done
    ));
    assert!(matches!(
        server.poll_read::<&str>(ReadEvent::Start, 8),
        ReadStep::Direct(1)
    ));
}

#[test]
fn session_ticket_offset_follows_the_layout() {
    assert_eq!(TLS_SESSION_TICKET_LEN_OFF, 135);
}

#[test]
fn fake_handshake_is_two_records_and_filler() {
    let prefix = tls_fake_response_prefix();
    assert_eq!(prefix.len(), 105);
    assert_eq!(prefix[..5], [0x16, 0x03, 0x03, 0x00, 0x56]);
    assert_eq!(prefix[5..91], [0u8; 86]);
    assert_eq!(prefix[91..97], [0x14, 0x03, 0x03, 0x00, 0x01, 0x01]);
    assert_eq!(prefix[97..], [0x17u8; 8]);
}

#[test]
fn tls_frames_on_the_wire() {
    let mut server = TlsObfsServer::new(pipe(b"", 1));
    assert_eq!(write(&mut server, b"one").unwrap(), 3);
    assert_eq!(write(&mut server, b"four").unwrap(), 4);
    let mut expected = tls_fake_response_prefix();
    expected.extend_from_slice(b"\x00\x03one");
    expected.extend_from_slice(b"\x17\x03\x03\x00\x04four");
    assert_eq!(server.inner_mut().taken, expected);
}

#[test]
fn tls_empty_write_sends_nothing() {
    let mut server = TlsObfsServer::new(pipe(b"", 1));
    assert_eq!(write(&mut server, b"").unwrap(), 0);
    assert_eq!(server.inner_mut().taken, b"");
    assert_eq!(write(&mut server, b"x").unwrap(), 1);
    assert_eq!(server.inner_mut().taken.len(), 108);
}

#[test]
fn tls_pending_write_is_finished_by_the_next_one() {
    let mut server = TlsObfsServer::new(());
    assert!(matches!(
        server.poll_write::<&str>(WriteEvent::Start, b"abc"),
        WriteStep::Send
    ));
    assert_eq!(server.sending().1.len(), 110);
    assert!(matches!(
        server.poll_write::<&str>(WriteEvent::Wrote(100), b"abc"),
        WriteStep::Send
    ));
    assert!(matches!(
        server.poll_write::<&str>(WriteEvent::Pending, b"abc"),
        WriteStep::Pending
    ));
    assert!(matches!(
        server.poll_write(WriteEvent::Failed("reset"), b"abc"),
        WriteStep::Fail(ObfsError::Inner("reset"))
    ));
    assert!(matches!(
        server.poll_write::<&str>(WriteEvent::Start, b"abc"),
        WriteStep::Send
    ));
    assert_eq!(server.sending().1, b"\x17\x17\x17\x17\x17\x00\x03abc");
    assert!(matches!(
        server.poll_write::<&str>(WriteEvent::Wrote(10), b"abc"),
        WriteStep::Done(3)
    ));
    assert!(matches!(
        server.poll_write::<&str>(WriteEvent::Start, b"de"),
        WriteStep::Send
    ));
    assert_eq!(server.sending().1, b"\x17\x03\x03\x00\x02de");
}

#[test]
fn tls_flush_and_shutdown_send_the_frame_first() {
    let mut server = TlsObfsServer::new(());
    server.poll_write::<&str>(WriteEvent::Start, b"abc");
    server.poll_write::<&str>(WriteEvent::Pending, b"abc");
    assert!(matches!(
        server.poll_flush::<&str>(WriteEvent::Start),
        WriteStep::Send
    ));
    assert!(matches!(
        server.poll_flush::<&str>(WriteEvent::Wrote(10)),
        WriteStep::Send
    ));
    assert!(matches!(
        server.poll_shutdown::<&str>(WriteEvent::Start),
        WriteStep::Send
    ));
    assert!(matches!(
        server.poll_shutdown::<&str>(WriteEvent::Wrote(100)),
        WriteStep::Forward
    ));
    assert!(matches!(
        server.poll_flush::<&str>(WriteEvent::Start),
        WriteStep::Forward
    ));
}

#[test]
fn tls_write_of_nothing_is_an_error() {
    let mut server = TlsObfsServer::new(pipe(b"", 1));
    server.inner_mut().accept = 0;
    assert!(matches!(
        write(&mut server, b"abc"),
        Err(ObfsError::Fault(Fault::WriteZero))
    ));
    server.inner_mut().accept = usize::MAX;
    assert_eq!(write(&mut server, b"abc").unwrap(), 3);
    assert_eq!(client_reads(&server.inner_mut().taken), vec![b"abc".to_vec()]);
}

#[test]
fn tls_flush_of_a_pending_write_leaves_its_count_unreported() {
    let mut server = TlsObfsServer::new(());
    server.poll_write::<&str>(WriteEvent::Start, b"abc");
    server.poll_write::<&str>(WriteEvent::Pending, b"abc");
    server.poll_flush::<&str>(WriteEvent::Start);
    server.poll_flush::<&str>(WriteEvent::Wrote(110));
    assert!(matches!(
        server.poll_write::<&str>(WriteEvent::Start, b"abc"),
        WriteStep::Send
    ));
    assert_eq!(server.sending().1, b"\x17\x03\x03\x00\x03abc");
}

#[test]
fn lengths_are_big_endian() {
    assert_eq!(read_be16(0x12, 0x34), 0x1234);
    let mut out = vec![7];
    push_be16(&mut out, 0xabcd);
    assert_eq!(out, [7, 0xab, 0xcd]);
}

#[test]
fn tls_shutdown_of_a_pending_write_still_sends_it() {
    let mut server = TlsObfsServer::new(pipe(b"", 1));
    assert_eq!(write(&mut server, b"first").unwrap(), 5);
    server.poll_write::<&str>(WriteEvent::Start, b"abc");
    server.poll_write::<&str>(WriteEvent::Pending, b"abc");
    let mut step = server.poll_shutdown::<&str>(WriteEvent::Start);
    while matches!(step, WriteStep::Send) {
        let (inner, bytes) = server.sending();
        let wrote = inner.take(&bytes[..1]);
        step = server.poll_shutdown(WriteEvent::Wrote(wrote));
    }
    assert!(matches!(step, WriteStep::Forward));
    assert_eq!(client_reads(&server.inner_mut().taken).concat(), b"firstabc");
}

#[test]
fn tls_faults_do_not_depend_on_the_cuts() {
    let mut short = vec![0x16, 0x03, 0x01];
    short.extend_from_slice(&sized(&hello_opening()));
    let mut body = hello_opening();
    body.extend_from_slice(b"\x00\x05abcd");
    let mut truncated = vec![0x16, 0x03, 0x01];
    truncated.extend_from_slice(&sized(&body));
    let faulty = [
        (record(b"payload"), Fault::NotClientHello),
        (short, Fault::HelloTooShort),
        (truncated, Fault::TicketTruncated),
    ];
    for (wire, expected) in &faulty {
        for piece in 1..20 {
            let mut server = TlsObfsServer::new(pipe(wire, piece));
            match read(&mut server, 64) {
                Err(ObfsError::Fault(fault)) => assert_eq!(fault, *expected),
                other => panic!("unexpected outcome {:?}", other),
            }
        }
    }
}
