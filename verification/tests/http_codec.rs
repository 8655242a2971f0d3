use meow_core::simple_obfs::bytes::find_double_crlf;
use meow_core::simple_obfs::http::{http_response_header, HttpObfsServer};
use meow_core::simple_obfs::step::{
    Fault, FaultKind, ObfsError, ReadEvent, ReadStep, WriteEvent, WriteStep,
};

const RESPONSE_HEAD: &[u8] = b"HTTP/1.1 101 Switching Protocols\r\nServer: nginx\r\nUpgrade: websocket\r\nConnection: Upgrade\r\n\r\n";

type Failure = ObfsError<&'static str>;

/// An inner stream: what it gives, in pieces of at most `piece` bytes, and
/// what it took, in pieces of at most `accept` bytes.
struct Pipe {
    incoming: Vec<u8>,
    at: usize,
    piece: usize,
    taken: Vec<u8>,
    accept: usize,
    flushed: usize,
}

fn pipe(incoming: &[u8], piece: usize) -> Pipe {
    Pipe {
        incoming: incoming.to_vec(),
        at: 0,
        piece,
        taken: Vec::new(),
        accept: usize::MAX,
        flushed: 0,
    }
}

impl Pipe {
    fn give(&mut self, max: usize) -> Vec<u8> {
        let n = max.min(self.piece).min(self.incoming.len() - self.at);
        let bytes = self.incoming[self.at..self.at + n].to_vec();
        self.at += n;
        bytes
    }

    fn take(&mut self, bytes: &[u8]) -> usize {
        let n = bytes.len().min(self.accept);
        self.taken.extend_from_slice(&bytes[..n]);
        n
    }
}

/// One read call with room for `room` bytes.
fn read(server: &mut HttpObfsServer<Pipe>, room: usize) -> Result<Vec<u8>, Failure> {
    let mut step = server.poll_read(ReadEvent::Start, room);
    loop {
        match step {
            ReadStep::Fill(n) => {
                let data = server.inner_mut().give(n);
                step = server.poll_read(ReadEvent::Data(&data), room);
            }
            ReadStep::Direct(n) => {
                let data = server.inner_mut().give(n);
                return match server.poll_read::<&'static str>(ReadEvent::Data(&data), room) {
                    ReadStep::Done => Ok(data),
                    other => panic!("unexpected step {:?}", other),
                };
            }
            ReadStep::Deliver(bytes) => return Ok(bytes),
            ReadStep::Done => return Ok(Vec::new()),
            ReadStep::Fail(e) => return Err(e),
            ReadStep::Pending => panic!("the pipe is never pending"),
        }
    }
}

/// Reads until a read call gives nothing.
fn read_to_end(server: &mut HttpObfsServer<Pipe>, room: usize) -> Vec<u8> {
    let mut got = Vec::new();
    loop {
        let bytes = read(server, room).unwrap();
        if bytes.is_empty() {
            return got;
        }
        got.extend_from_slice(&bytes);
    }
}

/// One write call.
fn write(server: &mut HttpObfsServer<Pipe>, buf: &[u8]) -> Result<usize, Failure> {
    let mut step = server.poll_write(WriteEvent::Start, buf);
    loop {
        let wrote = match step {
            WriteStep::Send => {
                let (inner, bytes) = server.sending();
                inner.take(bytes)
            }
            WriteStep::Forward => server.inner_mut().take(buf),
            WriteStep::Done(n) => return Ok(n),
            WriteStep::Fail(e) => return Err(e),
            WriteStep::Pending => panic!("the pipe is never pending"),
        };
        step = server.poll_write(WriteEvent::Wrote(wrote), buf);
    }
}

fn write_all(server: &mut HttpObfsServer<Pipe>, buf: &[u8]) {
    let mut done = 0;
    while done < buf.len() {
        done += write(server, &buf[done..]).unwrap();
    }
}

/// One flush call.
fn flush(server: &mut HttpObfsServer<Pipe>) -> Result<(), Failure> {
    let mut step = server.poll_flush(WriteEvent::Start);
    loop {
        match step {
            WriteStep::Send => {
                let (inner, bytes) = server.sending();
                let wrote = inner.take(bytes);
                step = server.poll_flush(WriteEvent::Wrote(wrote));
            }
            WriteStep::Forward => {
                server.inner_mut().flushed += 1;
                return Ok(());
            }
            WriteStep::Fail(e) => return Err(e),
            other => panic!("unexpected step {:?}", other),
        }
    }
}

/// The first write of a client: a request head, then the payload.
fn request(payload: &[u8]) -> Vec<u8> {
    let mut wire = format!(
        "GET / HTTP/1.1\r\nHost: example.com:80\r\nConnection: Upgrade\r\nContent-Length: {}\r\n\r\n",
        payload.len()
    )
    .into_bytes();
    wire.extend_from_slice(payload);
    wire
}

/// What a client makes of the server's stream.
fn client_reads(wire: &[u8]) -> Vec<u8> {
    match find_double_crlf(wire) {
        Some(i) => wire[i + 4..].to_vec(),
        None => Vec::new(),
    }
}

#[test]
fn http_client_to_server_round_trip() {
    let mut wire = request(b"FIRST_PAYLOAD");
    wire.extend_from_slice(b"_SECOND");
    let mut server = HttpObfsServer::new(pipe(&wire, 8192));
    let got = read_to_end(&mut server, 64);
    assert_eq!(got, b"FIRST_PAYLOAD_SECOND");
}

#[test]
fn http_server_to_client_round_trip() {
    let mut server = HttpObfsServer::new(pipe(b"", 8192));
    write_all(&mut server, b"REPLY_BODY");
    write_all(&mut server, b"_MORE");
    flush(&mut server).unwrap();
    let got = client_reads(&server.inner_mut().taken);
    assert_eq!(got, b"REPLY_BODY_MORE");
    assert_eq!(server.inner_mut().flushed, 1);
}

#[test]
fn http_read_does_not_depend_on_the_cuts() {
    let mut wire = request(b"FIRST_PAYLOAD");
    wire.extend_from_slice(b"_SECOND\r\n\r\n_THIRD");
    for piece in 1..40 {
        for room in 1..20 {
            let mut server = HttpObfsServer::new(pipe(&wire, piece));
            // A head that arrives alone is surfaced as an empty read.
            let mut got = read(&mut server, room).unwrap();
            got.extend_from_slice(&read_to_end(&mut server, room));
            assert_eq!(got, b"FIRST_PAYLOAD_SECOND\r\n\r\n_THIRD");
        }
    }
}

#[test]
fn http_request_without_payload_reads_empty_once() {
    let mut server = HttpObfsServer::new(pipe(&request(b""), 8192));
    assert_eq!(read(&mut server, 16).unwrap(), b"");
    server.inner_mut().incoming.extend_from_slice(b"later");
    assert_eq!(read(&mut server, 16).unwrap(), b"later");
}

#[test]
fn http_leftover_is_served_before_the_stream() {
    let mut server = HttpObfsServer::new(pipe(&request(b"abcdef"), 8192));
    assert_eq!(read(&mut server, 4).unwrap(), b"abcd");
    server.inner_mut().incoming.extend_from_slice(b"gh");
    assert_eq!(read(&mut server, 4).unwrap(), b"ef");
    assert_eq!(read(&mut server, 4).unwrap(), b"gh");
    assert_eq!(read(&mut server, 0).unwrap(), b"");
}

#[test]
fn http_stream_that_ends_in_the_head_reads_empty() {
    let mut server = HttpObfsServer::new(pipe(b"GET / HTTP/1.1\r\n", 3));
    assert_eq!(read(&mut server, 16).unwrap(), b"");
    server.inner_mut().incoming.extend_from_slice(b"\r\nbody");
    assert_eq!(read_to_end(&mut server, 16), b"body");
}

#[test]
fn http_head_beyond_the_limit_is_refused() {
    // Sixteen chunks are within the limit; one byte more is not.
    let mut server = HttpObfsServer::new(pipe(&vec![b'a'; 16 * 1024], 8192));
    assert_eq!(read(&mut server, 16).unwrap(), b"");
    server.inner_mut().incoming.push(b'a');
    match read(&mut server, 16) {
        Err(ObfsError::Fault(fault)) => {
            assert_eq!(fault, Fault::HeaderTooLong);
            assert_eq!(fault.kind(), FaultKind::InvalidData);
            assert_eq!(
                fault.message(),
                "obfs-server http: request header exceeds limit"
            );
        }
        other => panic!("unexpected outcome {:?}", other),
    }
}

#[test]
fn http_blank_line_wins_over_the_limit() {
    let mut wire = vec![b'a'; 16 * 1024 + 1];
    wire.extend_from_slice(b"\r\n\r\nbody");
    let mut server = HttpObfsServer::new(pipe(&wire[..16 * 1024], 8192));
    assert_eq!(read(&mut server, 16).unwrap(), b"");
    server.inner_mut().incoming.extend_from_slice(&wire[16 * 1024..]);
    assert_eq!(read(&mut server, 16).unwrap(), b"body");
}

#[test]
fn http_read_passes_on_what_the_stream_reports() {
    let mut server = HttpObfsServer::new(());
    assert!(matches!(
        server.poll_read::<&str>(ReadEvent::Start, 8),
        ReadStep::Fill(1024)
    ));
    assert!(matches!(
        server.poll_read::<&str>(ReadEvent::Pending, 8),
        ReadStep::Pending
    ));
    assert!(matches!(
        server.poll_read(ReadEvent::Failed("reset"), 8),
        ReadStep::Fail(ObfsError::Inner("reset"))
    ));
    assert!(matches!(
        server.poll_read::<&str>(ReadEvent::Data(b"x\r\n\r\ny"), 8),
        ReadStep::Deliver(bytes) if bytes == b"y"
    ));
    assert!(matches!(
        server.poll_read::<&str>(ReadEvent::Start, 8),
        ReadStep::Direct(8)
    ));
}

#[test]
fn response_head_is_a_websocket_upgrade() {
    assert_eq!(http_response_header(), RESPONSE_HEAD);
    assert_eq!(find_double_crlf(RESPONSE_HEAD), Some(RESPONSE_HEAD.len() - 4));
}

#[test]
fn http_first_write_is_preceded_by_the_response_head() {
    let mut server = HttpObfsServer::new(pipe(b"", 1));
    assert_eq!(write(&mut server, b"one").unwrap(), 3);
    assert_eq!(write(&mut server, b"two").unwrap(), 3);
    let mut expected = RESPONSE_HEAD.to_vec();
    expected.extend_from_slice(b"onetwo");
    assert_eq!(server.inner_mut().taken, expected);
}

#[test]
fn http_empty_first_write_still_sends_the_head() {
    let mut server = HttpObfsServer::new(pipe(b"", 1));
    assert_eq!(write(&mut server, b"").unwrap(), 0);
    assert_eq!(server.inner_mut().taken, RESPONSE_HEAD);
    assert_eq!(write(&mut server, b"").unwrap(), 0);
    assert_eq!(server.inner_mut().taken, RESPONSE_HEAD);
}

#[test]
fn http_write_survives_a_stream_that_takes_byte_by_byte() {
    let mut server = HttpObfsServer::new(pipe(b"", 1));
    server.inner_mut().accept = 1;
    assert_eq!(write(&mut server, b"abc").unwrap(), 3);
    // Later writes report what the stream took.
    assert_eq!(write(&mut server, b"def").unwrap(), 1);
    let mut expected = RESPONSE_HEAD.to_vec();
    expected.extend_from_slice(b"abcd");
    assert_eq!(server.inner_mut().taken, expected);
}

#[test]
fn http_pending_write_is_finished_by_the_next_one() {
    let mut server = HttpObfsServer::new(());
    assert!(matches!(
        server.poll_write::<&str>(WriteEvent::Start, b"abc"),
        WriteStep::Send
    ));
    let whole = server.sending().1.len();
    assert_eq!(whole, RESPONSE_HEAD.len() + 3);
    assert!(matches!(
        server.poll_write::<&str>(WriteEvent::Wrote(10), b"abc"),
        WriteStep::Send
    ));
    assert!(matches!(
        server.poll_write::<&str>(WriteEvent::Pending, b"abc"),
        WriteStep::Pending
    ));
    assert!(matches!(
        server.poll_write::<&str>(WriteEvent::Start, b"abc"),
        WriteStep::Send
    ));
    assert_eq!(server.sending().1.len(), whole - 10);
    assert!(matches!(
        server.poll_write::<&str>(WriteEvent::Wrote(whole - 10), b"abc"),
        WriteStep::Done(3)
    ));
    assert!(matches!(
        server.poll_write::<&str>(WriteEvent::Start, b"abc"),
        WriteStep::Forward
    ));
    assert!(matches!(
        server.poll_write::<&str>(WriteEvent::Wrote(2), b"abc"),
        WriteStep::Done(2)
    ));
    assert!(matches!(
        server.poll_write(WriteEvent::Failed("reset"), b"abc"),
        WriteStep::Fail(ObfsError::Inner("reset"))
    ));
}

#[test]
fn http_flush_and_shutdown_send_the_frame_first() {
    let mut server = HttpObfsServer::new(());
    server.poll_write::<&str>(WriteEvent::Start, b"abc");
    server.poll_write::<&str>(WriteEvent::Pending, b"abc");
    assert!(matches!(
        server.poll_flush::<&str>(WriteEvent::Start),
        WriteStep::Send
    ));
    assert!(matches!(
        server.poll_flush::<&str>(WriteEvent::Wrote(1)),
        WriteStep::Send
    ));
    assert!(matches!(
        server.poll_shutdown::<&str>(WriteEvent::Start),
        WriteStep::Send
    ));
    assert!(matches!(
        server.poll_shutdown::<&str>(WriteEvent::Wrote(RESPONSE_HEAD.len() + 2)),
        WriteStep::Forward
    ));
    assert!(matches!(
        server.poll_shutdown::<&str>(WriteEvent::Start),
        WriteStep::Forward
    ));
}

#[test]
fn http_write_of_nothing_is_an_error() {
    let mut server = HttpObfsServer::new(pipe(b"", 1));
    server.inner_mut().accept = 0;
    match write(&mut server, b"abc") {
        Err(ObfsError::Fault(fault)) => {
            assert_eq!(fault, Fault::WriteZero);
            assert_eq!(fault.kind(), FaultKind::WriteZero);
            assert_eq!(fault.message(), "obfs-server: write zero");
        }
        other => panic!("unexpected outcome {:?}", other),
    }
    // The frame is still there: the next call goes on with it.
    assert!(matches!(
        flush(&mut server),
        Err(ObfsError::Fault(Fault::WriteZero))
    ));
    server.inner_mut().accept = usize::MAX;
    assert_eq!(write(&mut server, b"abc").unwrap(), 3);
}

#[test]
fn http_flush_of_a_pending_write_leaves_its_count_unreported() {
    // A flush that finishes the frame does not report it: a caller that then
    // repeats the write has its buffer sent a second time.
    let mut server = HttpObfsServer::new(());
    server.poll_write::<&str>(WriteEvent::Start, b"abc");
    server.poll_write::<&str>(WriteEvent::Pending, b"abc");
    server.poll_flush::<&str>(WriteEvent::Start);
    server.poll_flush::<&str>(WriteEvent::Wrote(RESPONSE_HEAD.len() + 3));
    assert!(matches!(
        server.poll_write::<&str>(WriteEvent::Start, b"abc"),
        WriteStep::Forward
    ));
}

#[test]
fn blank_line_is_found_at_its_first_offset() {
    assert_eq!(find_double_crlf(b"a\r\n\r\nb\r\n\r\n"), Some(1));
    assert_eq!(find_double_crlf(b"\r\n\r\n"), Some(0));
    assert_eq!(find_double_crlf(b"\r\n\r\r\n\r\n"), Some(3));
    assert_eq!(find_double_crlf(b"ab\r\n\r"), None);
    assert_eq!(find_double_crlf(b"\r\n\r"), None);
    assert_eq!(find_double_crlf(b""), None);
}

#[test]
fn http_shutdown_of_a_pending_write_still_sends_it() {
    let mut server = HttpObfsServer::new(pipe(b"", 1));
    server.poll_write::<&str>(WriteEvent::Start, b"abc");
    server.poll_write::<&str>(WriteEvent::Pending, b"abc");
    let mut step = server.poll_shutdown::<&str>(WriteEvent::Start);
    while matches!(step, WriteStep::Send) {
        let (inner, bytes) = server.sending();
        let wrote = inner.take(&bytes[..1]);
        step = server.poll_shutdown(WriteEvent::Wrote(wrote));
    }
    assert!(matches!(step, WriteStep::Forward));
    assert_eq!(client_reads(&server.inner_mut().taken), b"abc");
}

#[test]
fn http_head_alone_may_be_finished_by_a_flush() {
    let mut server = HttpObfsServer::new(pipe(b"", 1));
    server.poll_write::<&str>(WriteEvent::Start, b"");
    server.poll_write::<&str>(WriteEvent::Pending, b"");
    flush(&mut server).unwrap();
    assert_eq!(write(&mut server, b"abc").unwrap(), 3);
    assert_eq!(client_reads(&server.inner_mut().taken), b"abc");
}

#[test]
fn http_head_at_the_limit_is_accepted_however_it_is_cut() {
    let mut wire = vec![b'a'; 16 * 1024 - 4];
    wire.extend_from_slice(b"\r\n\r\nbody");
    for piece in [1, 7, 1000, 1023, 1024] {
        let mut server = HttpObfsServer::new(pipe(&wire, piece));
        let mut got = read(&mut server, 16).unwrap();
        got.extend_from_slice(&read_to_end(&mut server, 16));
        assert_eq!(got, b"body");
    }
}
