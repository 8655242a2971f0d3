//! What the codecs are told and what they answer.
//!
//! A codec never touches its inner stream. A call starts with a `Start`
//! event; the codec answers with a step. If the step asks something of the
//! inner stream, the driver does it and reports the outcome as the next
//! event, until a step ends the call.

use vstd::prelude::*;

verus! {

/// What a codec itself finds wrong.
#[derive(Debug, Clone, Copy, PartialEq, Eq, Structural)]
pub enum Fault {
    /// The inner stream accepted none of the bytes it was given.
    WriteZero,
    /// No blank line within the length allowed for a request head.
    HeaderTooLong,
    /// The first record is not a handshake record.
    NotClientHello,
    /// The ClientHello ends before its session ticket.
    HelloTooShort,
    /// The session ticket is longer than what is left of the ClientHello.
    TicketTruncated,
}

/// The class of a [`Fault`].
#[derive(Debug, Clone, Copy, PartialEq, Eq, Structural)]
pub enum FaultKind {
    WriteZero,
    InvalidData,
}

impl Fault {
    /// The class that a fault belongs to.
    pub open spec fn kind_of(self) -> FaultKind {
        match self {
            Fault::WriteZero => FaultKind::WriteZero,
            _ => FaultKind::InvalidData,
        }
    }

    /// The text that describes a fault.
    pub open spec fn text_of(self) -> Seq<char> {
        match self {
            Fault::WriteZero => "obfs-server: write zero"@,
            Fault::HeaderTooLong => "obfs-server http: request header exceeds limit"@,
            Fault::NotClientHello => "obfs-server tls: expected ClientHello record"@,
            Fault::HelloTooShort => "obfs-server tls: ClientHello too short"@,
            Fault::TicketTruncated => "obfs-server tls: session_ticket payload truncated"@,
        }
    }

    /// The class that this fault belongs to.
    pub fn kind(&self) -> (kind: FaultKind)
        ensures
            kind == self.kind_of(),
    {
        match self {
            Fault::WriteZero => FaultKind::WriteZero,
            _ => FaultKind::InvalidData,
        }
    }

    /// The text that describes this fault.
    pub fn message(&self) -> (text: &'static str)
        ensures
            text@ == self.text_of(),
    {
        match self {
            Fault::WriteZero => "obfs-server: write zero",
            Fault::HeaderTooLong => "obfs-server http: request header exceeds limit",
            Fault::NotClientHello => "obfs-server tls: expected ClientHello record",
            Fault::HelloTooShort => "obfs-server tls: ClientHello too short",
            Fault::TicketTruncated => "obfs-server tls: session_ticket payload truncated",
        }
    }
}

/// Why a call failed: the inner stream failed, or the codec found a fault.
#[derive(Debug)]
pub enum ObfsError<E> {
    Inner(E),
    Fault(Fault),
}

/// An event of a read call.
#[derive(Debug)]
pub enum ReadEvent<'a, E> {
    /// The caller asks for bytes.
    Start,
    /// The inner stream has nothing yet.
    Pending,
    /// The inner stream failed.
    Failed(E),
    /// The inner stream gave these bytes; none means that it has ended.
    Data(&'a [u8]),
}

/// The next step of a read call.
#[derive(Debug)]
pub enum ReadStep<E> {
    /// Read up to so many bytes of the inner stream into scratch space.
    Fill(usize),
    /// Read up to so many bytes of the inner stream into the caller's buffer.
    Direct(usize),
    /// Put these bytes into the caller's buffer; the call has succeeded.
    Deliver(Vec<u8>),
    /// The call has succeeded, with nothing left to put into the buffer.
    Done,
    /// The call has to be made again once the inner stream is ready.
    Pending,
    /// The call has failed.
    Fail(ObfsError<E>),
}

/// The model of a [`ReadEvent`].
pub enum ReadInput<E> {
    Start,
    Pending,
    Failed(E),
    Data(Seq<u8>),
}

/// The model of a [`ReadStep`].
pub enum ReadOutput<E> {
    Fill(nat),
    Direct(nat),
    Deliver(Seq<u8>),
    Done,
    Pending,
    Fail(ObfsError<E>),
}

impl<'a, E> View for ReadEvent<'a, E> {
    type V = ReadInput<E>;

    open spec fn view(&self) -> ReadInput<E> {
        match *self {
            ReadEvent::Start => ReadInput::Start,
            ReadEvent::Pending => ReadInput::Pending,
            ReadEvent::Failed(e) => ReadInput::Failed(e),
            ReadEvent::Data(d) => ReadInput::Data(d@),
        }
    }
}

impl<E> View for ReadStep<E> {
    type V = ReadOutput<E>;

    open spec fn view(&self) -> ReadOutput<E> {
        match *self {
            ReadStep::Fill(n) => ReadOutput::Fill(n as nat),
            ReadStep::Direct(n) => ReadOutput::Direct(n as nat),
            ReadStep::Deliver(v) => ReadOutput::Deliver(v@),
            ReadStep::Done => ReadOutput::Done,
            ReadStep::Pending => ReadOutput::Pending,
            ReadStep::Fail(e) => ReadOutput::Fail(e),
        }
    }
}

/// An event of a write, flush or shutdown call.
#[derive(Debug)]
pub enum WriteEvent<E> {
    /// The caller makes the call.
    Start,
    /// The inner stream cannot take bytes yet.
    Pending,
    /// The inner stream failed.
    Failed(E),
    /// The inner stream took so many of the bytes that it was given.
    Wrote(usize),
}

/// The next step of a write, flush or shutdown call.
#[derive(Debug)]
pub enum WriteStep<E> {
    /// Write the unsent bytes of the codec to the inner stream.
    Send,
    /// Hand the call as it is on to the inner stream.
    Forward,
    /// The call has succeeded and took so many bytes of the caller's buffer.
    Done(usize),
    /// The call has to be made again once the inner stream is ready.
    Pending,
    /// The call has failed.
    Fail(ObfsError<E>),
}

/// The model of a [`WriteEvent`].
pub enum WriteInput<E> {
    Start,
    Pending,
    Failed(E),
    Wrote(nat),
}

/// The model of a [`WriteStep`].
pub enum WriteOutput<E> {
    Send,
    Forward,
    Done(nat),
    Pending,
    Fail(ObfsError<E>),
}

impl<E> View for WriteEvent<E> {
    type V = WriteInput<E>;

    open spec fn view(&self) -> WriteInput<E> {
        match *self {
            WriteEvent::Start => WriteInput::Start,
            WriteEvent::Pending => WriteInput::Pending,
            WriteEvent::Failed(e) => WriteInput::Failed(e),
            WriteEvent::Wrote(n) => WriteInput::Wrote(n as nat),
        }
    }
}

impl<E> View for WriteStep<E> {
    type V = WriteOutput<E>;

    open spec fn view(&self) -> WriteOutput<E> {
        match *self {
            WriteStep::Send => WriteOutput::Send,
            WriteStep::Forward => WriteOutput::Forward,
            WriteStep::Done(n) => WriteOutput::Done(n as nat),
            WriteStep::Pending => WriteOutput::Pending,
            WriteStep::Fail(e) => WriteOutput::Fail(e),
        }
    }
}

/// The model of an event or a step of a read call tells which it is and holds
/// all that it holds.
pub proof fn law_read_models<'a, E>(event: ReadEvent<'a, E>, step: ReadStep<E>)
    ensures
        event@ is Start <==> event is Start,
        event@ is Pending <==> event is Pending,
        event matches ReadEvent::Failed(e) ==> event@ == ReadInput::Failed(e),
        event matches ReadEvent::Data(d) ==> (event@ matches ReadInput::Data(bytes) && bytes.len()
            == d@.len() && forall|i: int| 0 <= i < bytes.len() ==> bytes[i] == #[trigger] d@[i]),
        step@ matches ReadOutput::Fill(n) ==> (step matches ReadStep::Fill(m) && m == n),
        step@ matches ReadOutput::Direct(n) ==> (step matches ReadStep::Direct(m) && m == n),
        step@ matches ReadOutput::Deliver(bytes) ==> (step matches ReadStep::Deliver(v)
            && v@.len() == bytes.len() && forall|i: int|
            0 <= i < bytes.len() ==> v@[i] == #[trigger] bytes[i]),
        step@ is Done ==> step is Done,
        step@ is Pending ==> step is Pending,
        step@ matches ReadOutput::Fail(e) ==> step == ReadStep::Fail(e),
{
}

/// The model of an event or a step of a call that writes tells which it is and
/// holds all that it holds.
pub proof fn law_write_models<E>(event: WriteEvent<E>, step: WriteStep<E>)
    ensures
        event@ is Start <==> event is Start,
        event@ is Pending <==> event is Pending,
        event matches WriteEvent::Failed(e) ==> event@ == WriteInput::Failed(e),
        event matches WriteEvent::Wrote(n) ==> (event@ matches WriteInput::Wrote(m) && m == n),
        step@ is Send ==> step is Send,
        step@ is Forward ==> step is Forward,
        step@ matches WriteOutput::Done(n) ==> (step matches WriteStep::Done(m) && m == n),
        step@ is Pending ==> step is Pending,
        step@ matches WriteOutput::Fail(e) ==> step == WriteStep::Fail(e),
{
}

/// A fault is one of writing exactly if the inner stream took nothing, and
/// one of the data otherwise; each has a text of its own.
pub proof fn law_faults(fault: Fault, other: Fault)
    ensures
        fault.kind_of() is WriteZero <==> fault is WriteZero,
        fault.kind_of() is InvalidData <==> !(fault is WriteZero),
        fault.text_of() == other.text_of() ==> fault == other,
{
    reveal_strlit("obfs-server: write zero");
    reveal_strlit("obfs-server http: request header exceeds limit");
    reveal_strlit("obfs-server tls: expected ClientHello record");
    reveal_strlit("obfs-server tls: ClientHello too short");
    reveal_strlit("obfs-server tls: session_ticket payload truncated");
    assert(fault.text_of().len() == match fault {
        Fault::WriteZero => 23nat,
        Fault::HeaderTooLong => 46,
        Fault::NotClientHello => 44,
        Fault::HelloTooShort => 38,
        Fault::TicketTruncated => 49,
    });
}

} // verus!
