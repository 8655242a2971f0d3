//! The VMess outbound adapter.
//!
//! The adapter decides how a connection is made: through a shared multiplexed
//! session, or by a dial of its own. A dial goes through four stages, each a
//! type of its own: [`VmessDial`] has a request header sealed,
//! [`VmessDialing`] has the server dialed, [`VmessConnecting`] has the
//! transport chain connected, and [`VmessSending`] has the sealed header sent.
//! What comes out is the [`RelayPlan`] of the encrypted stream. Whatever goes
//! wrong on the way ends the dial.
//!
//! The cipher suite `K` is carried through and never looked into.

use crate::dialer::{named_target, Metadata, Target};
use crate::smol::{smol_as_str, smol_clone, smol_from_str, smol_from_string, smol_text};
use crate::text::{endpoint, host_port, prefixed};
use smol_str::SmolStr;
use vstd::prelude::*;

verus! {

/// The reserved host name that a sing-mux session asks for.
pub const MUX_DESTINATION_FQDN: &'static str = "sp.mux.sing-box.arpa";

/// The reserved port that a sing-mux session asks for.
pub const MUX_DESTINATION_PORT: u16 = 444;

/// The wire protocol of a multiplexed session.
#[derive(Debug, Clone, Copy, PartialEq, Eq, Structural)]
pub enum Protocol {
    Smux,
    Yamux,
    H2Mux,
    MuxCool,
}

/// How connections are multiplexed.
#[derive(Debug, Clone, Copy, PartialEq, Eq, Structural)]
pub struct MuxOptions {
    pub protocol: Protocol,
    /// Only TCP rides the session.
    pub only_tcp: bool,
}

impl MuxOptions {
    /// UDP rides the session unless it is for TCP only.
    pub open spec fn carries_udp(self) -> bool {
        !self.only_tcp
    }

    /// Whether UDP rides the session.
    pub fn supports_udp(&self) -> (carried: bool)
        ensures
            carried == self.carries_udp(),
    {
        !self.only_tcp
    }
}

/// Why a connection could not be made.
#[derive(Debug, PartialEq, Eq)]
pub enum VmessError<E> {
    /// The stream failed.
    Io(E),
    /// The proxy protocol or its transport failed.
    Proxy(String),
    /// The adapter does not do this.
    NotSupported(String),
}

/// The model of a [`VmessError`].
#[verifier::ext_equal]
pub enum Failure<E> {
    Io(E),
    Proxy(Seq<char>),
    NotSupported(Seq<char>),
}

impl<E> View for VmessError<E> {
    type V = Failure<E>;

    open spec fn view(&self) -> Failure<E> {
        match *self {
            VmessError::Io(e) => Failure::Io(e),
            VmessError::Proxy(text) => Failure::Proxy(text@),
            VmessError::NotSupported(text) => Failure::NotSupported(text@),
        }
    }
}

/// A request header to be sealed.
#[derive(Debug, PartialEq, Eq)]
pub enum SealRequest {
    /// A request for a destination, over UDP or TCP.
    Target { metadata: Metadata, udp: bool },
    /// A request for a multiplexed session, without a destination.
    Mux,
}

/// The model of a [`SealRequest`].
#[verifier::ext_equal]
pub enum SealPlan {
    Target { target: Target, udp: bool },
    Mux,
}

impl View for SealRequest {
    type V = SealPlan;

    open spec fn view(&self) -> SealPlan {
        match *self {
            SealRequest::Target { metadata, udp } => SealPlan::Target { target: metadata@, udp },
            SealRequest::Mux => SealPlan::Mux,
        }
    }
}

/// A sealed request header, and the secrets that it shares with the server.
#[derive(Debug, PartialEq, Eq)]
pub struct SealedHeader {
    pub bytes: Vec<u8>,
    pub req_key: [u8; 16],
    pub req_iv: [u8; 16],
    pub resp_v: u8,
}

/// The model of a [`SealedHeader`].
#[verifier::ext_equal]
pub struct Sealed {
    pub bytes: Seq<u8>,
    pub req_key: [u8; 16],
    pub req_iv: [u8; 16],
    pub resp_v: u8,
}

impl View for SealedHeader {
    type V = Sealed;

    open spec fn view(&self) -> Sealed {
        Sealed {
            bytes: self.bytes@,
            req_key: self.req_key,
            req_iv: self.req_iv,
            resp_v: self.resp_v,
        }
    }
}

/// What a body cipher is made of.
#[derive(Debug, PartialEq, Eq)]
pub struct CipherParams<K> {
    pub security: K,
    pub key: [u8; 16],
    pub iv: [u8; 16],
    pub resp_v: u8,
}

/// How the encrypted stream is run once the header has been sent.
#[derive(Debug, PartialEq, Eq)]
pub struct RelayPlan<K> {
    pub read_cipher: CipherParams<K>,
    pub write_cipher: CipherParams<K>,
    pub req_key: [u8; 16],
    pub req_iv: [u8; 16],
    pub resp_v: u8,
}

/// The body cipher that belongs to a sealed header.
pub open spec fn cipher_of<K>(security: K, sealed: Sealed) -> CipherParams<K> {
    CipherParams { security, key: sealed.req_key, iv: sealed.req_iv, resp_v: sealed.resp_v }
}

/// The relay that belongs to a sealed header: both directions start from the
/// header's secrets.
pub open spec fn relay_of<K>(security: K, sealed: Sealed) -> RelayPlan<K> {
    RelayPlan {
        read_cipher: cipher_of(security, sealed),
        write_cipher: cipher_of(security, sealed),
        req_key: sealed.req_key,
        req_iv: sealed.req_iv,
        resp_v: sealed.resp_v,
    }
}

/// The body cipher that belongs to a sealed header.
fn cipher_params<K>(security: K, sealed: &SealedHeader) -> (cipher: CipherParams<K>)
    ensures
        cipher == cipher_of(security, sealed@),
{
    CipherParams { security, key: sealed.req_key, iv: sealed.req_iv, resp_v: sealed.resp_v }
}

// ---------------------------------------------------------------------------
// The stages of a dial
// ---------------------------------------------------------------------------

/// What the first stage of a dial is about to do.
#[verifier::ext_equal]
pub struct DialSpec<K> {
    pub server: Seq<char>,
    pub port: u16,
    pub cmd_key: [u8; 16],
    pub security: K,
    pub request: SealPlan,
}

/// What the later stages of a dial know.
#[verifier::ext_equal]
pub struct Exchange<K> {
    pub server: Seq<char>,
    pub port: u16,
    pub security: K,
    pub sealed: Sealed,
}

/// The model of an outcome that holds a sealed header or a reason.
pub open spec fn seal_outcome(outcome: Result<SealedHeader, String>) -> Result<Sealed, Seq<char>> {
    match outcome {
        Ok(sealed) => Ok(sealed@),
        Err(reason) => Err(reason@),
    }
}

/// The model of an outcome that holds nothing or a reason.
pub open spec fn connect_outcome(outcome: Result<(), String>) -> Result<(), Seq<char>> {
    match outcome {
        Ok(()) => Ok(()),
        Err(reason) => Err(reason@),
    }
}

/// After sealing: the dial goes on with the header, or fails with the reason.
pub open spec fn after_seal<K, E>(
    dial: DialSpec<K>,
    outcome: Result<Sealed, Seq<char>>,
) -> Result<Exchange<K>, Failure<E>> {
    match outcome {
        Ok(sealed) => Ok(
            Exchange { server: dial.server, port: dial.port, security: dial.security, sealed },
        ),
        Err(reason) => Err(Failure::Proxy(reason)),
    }
}

/// After dialing the server: the dial goes on, or fails as the stream did.
pub open spec fn after_dial<K, E>(
    exchange: Exchange<K>,
    outcome: Result<(), E>,
) -> Result<Exchange<K>, Failure<E>> {
    match outcome {
        Ok(()) => Ok(exchange),
        Err(e) => Err(Failure::Io(e)),
    }
}

/// After connecting the transport chain: the dial goes on, or fails with the
/// reason behind a prefix.
pub open spec fn after_connect<K, E>(
    exchange: Exchange<K>,
    outcome: Result<(), Seq<char>>,
) -> Result<Exchange<K>, Failure<E>> {
    match outcome {
        Ok(()) => Ok(exchange),
        Err(reason) => Err(Failure::Proxy("vmess transport: "@ + reason)),
    }
}

/// After sending the header: the relay can run, or the dial fails as the
/// stream did.
pub open spec fn after_send<K, E>(
    exchange: Exchange<K>,
    outcome: Result<(), E>,
) -> Result<RelayPlan<K>, Failure<E>> {
    match outcome {
        Ok(()) => Ok(relay_of(exchange.security, exchange.sealed)),
        Err(e) => Err(Failure::Io(e)),
    }
}

/// A dial whose request header is to be sealed.
#[derive(Debug)]
pub struct VmessDial<K> {
    server: SmolStr,
    port: u16,
    cmd_key: [u8; 16],
    security: K,
    request: SealRequest,
}

/// A dial whose server is to be dialed.
#[derive(Debug)]
pub struct VmessDialing<K> {
    server: SmolStr,
    port: u16,
    security: K,
    sealed: SealedHeader,
}

/// A dial whose transport chain is to be connected.
#[derive(Debug)]
pub struct VmessConnecting<K>(VmessDialing<K>);

/// A dial whose sealed header is to be sent.
#[derive(Debug)]
pub struct VmessSending<K>(VmessDialing<K>);

impl<K> View for VmessDial<K> {
    type V = DialSpec<K>;

    closed spec fn view(&self) -> DialSpec<K> {
        DialSpec {
            server: smol_text(self.server),
            port: self.port,
            cmd_key: self.cmd_key,
            security: self.security,
            request: self.request@,
        }
    }
}

impl<K> View for VmessDialing<K> {
    type V = Exchange<K>;

    closed spec fn view(&self) -> Exchange<K> {
        Exchange {
            server: smol_text(self.server),
            port: self.port,
            security: self.security,
            sealed: self.sealed@,
        }
    }
}

impl<K> View for VmessConnecting<K> {
    type V = Exchange<K>;

    closed spec fn view(&self) -> Exchange<K> {
        self.0@
    }
}

impl<K> View for VmessSending<K> {
    type V = Exchange<K>;

    closed spec fn view(&self) -> Exchange<K> {
        self.0@
    }
}

impl<K: Copy> VmessDial<K> {
    /// The key that the header is sealed under.
    pub fn cmd_key(&self) -> (key: [u8; 16])
        ensures
            key == self@.cmd_key,
    {
        self.cmd_key
    }

    /// The cipher suite that the header announces.
    pub fn security(&self) -> (security: K)
        ensures
            security == self@.security,
    {
        self.security
    }

    /// What the header asks of the server.
    pub fn request(&self) -> (request: &SealRequest)
        ensures
            request@ == self@.request,
    {
        &self.request
    }

    /// Takes note of the sealed header, or of why there is none.
    pub fn sealed<E>(self, outcome: Result<SealedHeader, String>) -> (next: Result<
        VmessDialing<K>,
        VmessError<E>,
    >)
        ensures
            match after_seal::<K, E>(self@, seal_outcome(outcome)) {
                Ok(exchange) => next matches Ok(stage) && stage@ == exchange,
                Err(failure) => next matches Err(error) && error@ == failure,
            },
    {
        match outcome {
            Ok(sealed) => Ok(dial_vmess(self.server, self.port, sealed, self.security)),
            Err(reason) => Err(VmessError::Proxy(reason)),
        }
    }
}

/// Starts the exchange with a VMess server: the plain dial and the dial of a
/// multiplexed session share what follows.
pub fn dial_vmess<K>(server: SmolStr, port: u16, sealed: SealedHeader, security: K) -> (stage:
    VmessDialing<K>)
    ensures
        stage@ == (Exchange { server: smol_text(server), port, security, sealed: sealed@ }),
{
    VmessDialing { server, port, security, sealed }
}

impl<K> VmessDialing<K> {
    /// The host to dial.
    pub fn server(&self) -> (server: &str)
        ensures
            server@ == self@.server,
    {
        smol_as_str(&self.server)
    }

    /// The port to dial.
    pub fn port(&self) -> (port: u16)
        ensures
            port == self@.port,
    {
        self.port
    }

    /// Takes note of how the dial went.
    pub fn dialed<E>(self, outcome: Result<(), E>) -> (next: Result<
        VmessConnecting<K>,
        VmessError<E>,
    >)
        ensures
            match after_dial(self@, outcome) {
                Ok(exchange) => next matches Ok(stage) && stage@ == exchange,
                Err(failure) => next matches Err(error) && error@ == failure,
            },
    {
        match outcome {
            Ok(()) => Ok(VmessConnecting(self)),
            Err(e) => Err(VmessError::Io(e)),
        }
    }
}

impl<K> VmessConnecting<K> {
    /// Takes note of how connecting the transport chain went.
    pub fn connected<E>(self, outcome: Result<(), String>) -> (next: Result<
        VmessSending<K>,
        VmessError<E>,
    >)
        ensures
            match after_connect::<K, E>(self@, connect_outcome(outcome)) {
                Ok(exchange) => next matches Ok(stage) && stage@ == exchange,
                Err(failure) => next matches Err(error) && error@ == failure,
            },
    {
        match outcome {
            Ok(()) => Ok(VmessSending(self.0)),
            Err(reason) => Err(VmessError::Proxy(prefixed("vmess transport: ", reason.as_str()))),
        }
    }
}

impl<K: Copy> VmessSending<K> {
    /// The bytes to send.
    pub fn bytes(&self) -> (bytes: &[u8])
        ensures
            bytes@ == self@.sealed.bytes,
    {
        self.0.sealed.bytes.as_slice()
    }

    /// Takes note of how sending went.
    pub fn sent<E>(self, outcome: Result<(), E>) -> (result: Result<RelayPlan<K>, VmessError<E>>)
        ensures
            match after_send(self@, outcome) {
                Ok(plan) => result matches Ok(relay) && relay == plan,
                Err(failure) => result matches Err(error) && error@ == failure,
            },
    {
        match outcome {
            Ok(()) => {
                let security = self.0.security;
                let sealed = self.0.sealed;
                Ok(
                    RelayPlan {
                        read_cipher: cipher_params(security, &sealed),
                        write_cipher: cipher_params(security, &sealed),
                        req_key: sealed.req_key,
                        req_iv: sealed.req_iv,
                        resp_v: sealed.resp_v,
                    },
                )
            },
            Err(e) => Err(VmessError::Io(e)),
        }
    }
}

// ---------------------------------------------------------------------------
// The adapter
// ---------------------------------------------------------------------------

/// The tag under which the adapter opens streams of a multiplexed session.
pub const MUX_TAG: &'static str = "vmess";

/// How a TCP connection is made.
#[derive(Debug)]
pub enum TcpPlan<'a, K> {
    /// Have the multiplexed session open a stream to this destination, under
    /// this tag.
    OpenStream { metadata: &'a Metadata, tag: &'static str },
    /// Dial the server for this connection alone.
    Dial(VmessDial<K>),
}

/// The model of a [`TcpPlan`].
#[verifier::ext_equal]
pub enum TcpChoice<K> {
    OpenStream { target: Target, tag: Seq<char> },
    Dial(DialSpec<K>),
}

impl<'a, K> View for TcpPlan<'a, K> {
    type V = TcpChoice<K>;

    open spec fn view(&self) -> TcpChoice<K> {
        match *self {
            TcpPlan::OpenStream { metadata, tag } => TcpChoice::OpenStream {
                target: metadata@,
                tag: tag@,
            },
            TcpPlan::Dial(dial) => TcpChoice::Dial(dial@),
        }
    }
}

/// What happened on the way to a UDP association.
#[derive(Debug, PartialEq, Eq)]
pub enum UdpEvent<C, E> {
    /// The caller asks for an association.
    Start,
    /// The multiplexed session opened a packet stream, had none to give, or
    /// failed.
    Opened(Result<Option<C>, VmessError<E>>),
}

/// The next step towards a UDP association.
#[derive(Debug, PartialEq, Eq)]
pub enum UdpStep<'a, C, E> {
    /// Ask the multiplexed session for a packet stream to this destination,
    /// under this tag.
    OpenPacketStream { metadata: &'a Metadata, tag: &'static str },
    /// The association is made.
    Done(C),
    /// No association could be made.
    Fail(VmessError<E>),
}

/// The model of a [`UdpEvent`].
pub enum UdpInput<C, E> {
    Start,
    Opened(Result<Option<C>, Failure<E>>),
}

/// The model of a [`UdpStep`].
#[verifier::ext_equal]
pub enum UdpOutput<C, E> {
    OpenPacketStream { target: Target, tag: Seq<char> },
    Done(C),
    Fail(Failure<E>),
}

impl<C, E> View for UdpEvent<C, E> {
    type V = UdpInput<C, E>;

    open spec fn view(&self) -> UdpInput<C, E> {
        match *self {
            UdpEvent::Start => UdpInput::Start,
            UdpEvent::Opened(Ok(conn)) => UdpInput::Opened(Ok(conn)),
            UdpEvent::Opened(Err(error)) => UdpInput::Opened(Err(error@)),
        }
    }
}

impl<'a, C, E> View for UdpStep<'a, C, E> {
    type V = UdpOutput<C, E>;

    open spec fn view(&self) -> UdpOutput<C, E> {
        match *self {
            UdpStep::OpenPacketStream { metadata, tag } => UdpOutput::OpenPacketStream {
                target: metadata@,
                tag: tag@,
            },
            UdpStep::Done(conn) => UdpOutput::Done(conn),
            UdpStep::Fail(error) => UdpOutput::Fail(error@),
        }
    }
}

/// The kind of an adapter.
#[derive(Debug, Clone, Copy, PartialEq, Eq, Structural)]
pub enum AdapterType {
    Vmess,
}

/// The model of a [`VmessAdapter`].
#[verifier::ext_equal]
pub struct AdapterSpec<K> {
    pub name: Seq<char>,
    pub server: Seq<char>,
    pub port: u16,
    pub cmd_key: [u8; 16],
    pub security: K,
    pub udp: bool,
    pub mux: Option<MuxOptions>,
}

impl<K> AdapterSpec<K> {
    /// The dial that has a given request header sealed.
    pub open spec fn dial(self, request: SealPlan) -> DialSpec<K> {
        DialSpec {
            server: self.server,
            port: self.port,
            cmd_key: self.cmd_key,
            security: self.security,
            request,
        }
    }

    /// UDP works by itself, or on the multiplexed session.
    pub open spec fn carries_udp(self) -> bool {
        self.udp || (self.mux matches Some(options) && options.carries_udp())
    }
}

/// The request header that opens a multiplexed session. The mux.cool
/// protocol is announced by the request itself; for the others the request
/// asks for a reserved destination.
pub open spec fn session_request(protocol: Protocol) -> SealPlan {
    match protocol {
        Protocol::MuxCool => SealPlan::Mux,
        _ => SealPlan::Target {
            target: named_target(MUX_DESTINATION_FQDN@, MUX_DESTINATION_PORT),
            udp: false,
        },
    }
}

/// The failure of a UDP association that nothing can carry.
pub open spec fn udp_unsupported<E>() -> Failure<E> {
    Failure::NotSupported("vmess UDP relay not yet implemented"@)
}

/// How a TCP connection to `target` is made: the multiplexed session is asked
/// for a stream to it if there is one, and if not the server is dialed with a
/// request for it.
pub open spec fn tcp_choice<K>(adapter: AdapterSpec<K>, target: Target) -> TcpChoice<K> {
    match adapter.mux {
        Some(_) => TcpChoice::OpenStream { target, tag: MUX_TAG@ },
        None => TcpChoice::Dial(adapter.dial(SealPlan::Target { target, udp: false })),
    }
}

/// The step towards a UDP association with `target`: the multiplexed session
/// is asked for a packet stream to it if there is one, and without a packet
/// stream UDP is not supported.
pub open spec fn udp_next<C, E>(
    mux: Option<MuxOptions>,
    target: Target,
    input: UdpInput<C, E>,
) -> UdpOutput<C, E> {
    match input {
        UdpInput::Start => match mux {
            Some(_) => UdpOutput::OpenPacketStream { target, tag: MUX_TAG@ },
            None => UdpOutput::Fail(udp_unsupported()),
        },
        UdpInput::Opened(Ok(Some(conn))) => UdpOutput::Done(conn),
        UdpInput::Opened(Ok(None)) => UdpOutput::Fail(udp_unsupported()),
        UdpInput::Opened(Err(failure)) => UdpOutput::Fail(failure),
    }
}

/// An outbound proxy that speaks VMess.
#[derive(Debug)]
pub struct VmessAdapter<K> {
    name: SmolStr,
    server: SmolStr,
    port: u16,
    addr_str: SmolStr,
    cmd_key: [u8; 16],
    security: K,
    udp: bool,
    mux: Option<MuxOptions>,
}

impl<K> View for VmessAdapter<K> {
    type V = AdapterSpec<K>;

    closed spec fn view(&self) -> AdapterSpec<K> {
        AdapterSpec {
            name: smol_text(self.name),
            server: smol_text(self.server),
            port: self.port,
            cmd_key: self.cmd_key,
            security: self.security,
            udp: self.udp,
            mux: self.mux,
        }
    }
}

impl<K> VmessAdapter<K> {
    /// The address text belongs to the server and the port.
    #[verifier::type_invariant]
    spec fn addr_matches(self) -> bool {
        smol_text(self.addr_str) == endpoint(smol_text(self.server), self.port)
    }
}

impl<K: Copy> VmessAdapter<K> {
    /// An adapter without multiplexing. `cmd_key` is the key derived from the
    /// user's identity.
    pub fn new(
        name: &str,
        server: &str,
        port: u16,
        cmd_key: [u8; 16],
        security: K,
        udp: bool,
    ) -> (adapter: Self)
        ensures
            adapter@ == (AdapterSpec {
                name: name@,
                server: server@,
                port,
                cmd_key,
                security,
                udp,
                mux: None,
            }),
    {
        VmessAdapter {
            name: smol_from_str(name),
            server: smol_from_str(server),
            port,
            addr_str: smol_from_string(host_port(server, port)),
            cmd_key,
            security,
            udp,
            mux: None,
        }
    }

    /// Shares one session among connections. The session is dialed as
    /// [`VmessAdapter::mux_session`] says.
    pub fn with_mux(self, options: MuxOptions) -> (adapter: Self)
        ensures
            adapter@ == (AdapterSpec { mux: Some(options), ..self@ }),
    {
        proof {
            use_type_invariant(&self);
        }
        VmessAdapter {
            name: self.name,
            server: self.server,
            port: self.port,
            addr_str: self.addr_str,
            cmd_key: self.cmd_key,
            security: self.security,
            udp: self.udp,
            mux: Some(options),
        }
    }

    /// The dial of a multiplexed session, if connections are multiplexed.
    pub fn mux_session(&self) -> (session: Option<VmessDial<K>>)
        ensures
            match self@.mux {
                Some(options) => session matches Some(dial) && dial@ == self@.dial(
                    session_request(options.protocol),
                ),
                None => session is None,
            },
    {
        match self.mux {
            Some(options) => {
                let request = match options.protocol {
                    Protocol::MuxCool => SealRequest::Mux,
                    _ => SealRequest::Target {
                        metadata: Metadata::named(MUX_DESTINATION_FQDN, MUX_DESTINATION_PORT),
                        udp: false,
                    },
                };
                Some(self.dial(request))
            },
            None => None,
        }
    }

    /// The dial that has a given request header sealed.
    fn dial(&self, request: SealRequest) -> (dial: VmessDial<K>)
        ensures
            dial@ == self@.dial(request@),
    {
        VmessDial {
            server: smol_clone(&self.server),
            port: self.port,
            cmd_key: self.cmd_key,
            security: self.security,
            request,
        }
    }

    /// The dial of one connection to a destination.
    pub fn dial_to(&self, metadata: &Metadata) -> (dial: VmessDial<K>)
        ensures
            dial@ == self@.dial(SealPlan::Target { target: metadata@, udp: false }),
    {
        self.dial(SealRequest::Target { metadata: metadata.clone(), udp: false })
    }

    /// The name of the adapter.
    pub fn name(&self) -> (name: &str)
        ensures
            name@ == self@.name,
    {
        smol_as_str(&self.name)
    }

    /// The kind of the adapter.
    pub fn adapter_type(&self) -> (kind: AdapterType)
        ensures
            kind == AdapterType::Vmess,
    {
        AdapterType::Vmess
    }

    /// The address of the server, as `server:port`.
    pub fn addr(&self) -> (addr: &str)
        ensures
            addr@ == endpoint(self@.server, self@.port),
    {
        proof {
            use_type_invariant(self);
        }
        smol_as_str(&self.addr_str)
    }

    /// Whether the adapter carries UDP: by itself, or on the multiplexed
    /// session unless that is for TCP only.
    pub fn support_udp(&self) -> (supported: bool)
        ensures
            supported == self@.carries_udp(),
    {
        self.udp || match &self.mux {
            Some(options) => options.supports_udp(),
            None => false,
        }
    }

    /// How a TCP connection to a destination is made: on the multiplexed
    /// session if there is one, and by a dial of its own if not.
    pub fn dial_tcp<'a>(&self, metadata: &'a Metadata) -> (plan: TcpPlan<'a, K>)
        ensures
            plan@ == tcp_choice(self@, metadata@),
    {
        match &self.mux {
            Some(_) => TcpPlan::OpenStream { metadata, tag: MUX_TAG },
            None => TcpPlan::Dial(self.dial_to(metadata)),
        }
    }

    /// Takes note of what happened on the way to a UDP association with a
    /// destination and says what to do next.
    pub fn dial_udp<'a, C, E>(&self, metadata: &'a Metadata, event: UdpEvent<C, E>) -> (step:
        UdpStep<'a, C, E>)
        ensures
            step@ == udp_next(self@.mux, metadata@, event@),
    {
        match event {
            UdpEvent::Start => match &self.mux {
                Some(_) => UdpStep::OpenPacketStream { metadata, tag: MUX_TAG },
                None => UdpStep::Fail(no_udp()),
            },
            UdpEvent::Opened(Ok(Some(conn))) => UdpStep::Done(conn),
            UdpEvent::Opened(Ok(None)) => UdpStep::Fail(no_udp()),
            UdpEvent::Opened(Err(error)) => UdpStep::Fail(error),
        }
    }
}

/// The error of a UDP association that nothing can carry.
fn no_udp<E>() -> (error: VmessError<E>)
    ensures
        error@ == udp_unsupported::<E>(),
{
    VmessError::NotSupported("vmess UDP relay not yet implemented".to_owned())
}

// ---------------------------------------------------------------------------
// Laws
// ---------------------------------------------------------------------------

/// The four stages of a dial, one after the other.
pub open spec fn dial_result<K, E>(
    dial: DialSpec<K>,
    sealed: Result<Sealed, Seq<char>>,
    dialed: Result<(), E>,
    connected: Result<(), Seq<char>>,
    sent: Result<(), E>,
) -> Result<RelayPlan<K>, Failure<E>> {
    match after_seal::<K, E>(dial, sealed) {
        Err(failure) => Err(failure),
        Ok(sealing) => match after_dial(sealing, dialed) {
            Err(failure) => Err(failure),
            Ok(dialing) => match after_connect::<K, E>(dialing, connected) {
                Err(failure) => Err(failure),
                Ok(connecting) => after_send(connecting, sent),
            },
        },
    }
}

/// A dial succeeds exactly if every stage does. The stream then runs on the
/// cipher suite of the adapter and the secrets of the header that was sealed,
/// in both directions. If a stage fails, the first that does decides the
/// error: what the stream reports is passed on as it is, and what the
/// transport chain reports gets a prefix.
pub proof fn law_dial_result<K, E>(
    dial: DialSpec<K>,
    sealed: Result<Sealed, Seq<char>>,
    dialed: Result<(), E>,
    connected: Result<(), Seq<char>>,
    sent: Result<(), E>,
)
    ensures
        dial_result(dial, sealed, dialed, connected, sent) is Ok <==> (sealed is Ok && dialed is Ok
            && connected is Ok && sent is Ok),
        dial_result(dial, sealed, dialed, connected, sent) matches Ok(plan) ==> {
            let header = sealed->Ok_0;
            &&& plan.read_cipher == plan.write_cipher
            &&& plan.read_cipher.security == dial.security
            &&& plan.read_cipher.key == header.req_key && plan.req_key == header.req_key
            &&& plan.read_cipher.iv == header.req_iv && plan.req_iv == header.req_iv
            &&& plan.read_cipher.resp_v == header.resp_v && plan.resp_v == header.resp_v
        },
        sealed matches Err(reason) ==> dial_result(dial, sealed, dialed, connected, sent) == Err::<
            RelayPlan<K>,
            Failure<E>,
        >(Failure::Proxy(reason)),
        sealed is Ok ==> (dialed matches Err(e) ==> dial_result(
            dial,
            sealed,
            dialed,
            connected,
            sent,
        ) == Err::<RelayPlan<K>, Failure<E>>(Failure::Io(e))),
        sealed is Ok && dialed is Ok ==> (connected matches Err(reason) ==> dial_result(
            dial,
            sealed,
            dialed,
            connected,
            sent,
        ) == Err::<RelayPlan<K>, Failure<E>>(Failure::Proxy("vmess transport: "@ + reason))),
        sealed is Ok && dialed is Ok && connected is Ok ==> (sent matches Err(e) ==> dial_result(
            dial,
            sealed,
            dialed,
            connected,
            sent,
        ) == Err::<RelayPlan<K>, Failure<E>>(Failure::Io(e))),
{
}

/// A session and a plain connection differ only in what their request header
/// asks for: server, port, key and cipher suite are the adapter's in both,
/// and neither depends on whether connections are multiplexed.
pub proof fn law_session_dials_like_a_connection<K>(
    adapter: AdapterSpec<K>,
    options: MuxOptions,
    target: Target,
)
    ensures
        ({
            let multiplexed = AdapterSpec { mux: Some(options), ..adapter };
            let connection = adapter.dial(SealPlan::Target { target, udp: false });
            let session = multiplexed.dial(session_request(options.protocol));
            session == (DialSpec { request: session_request(options.protocol), ..connection })
        }),
{
}

/// A multiplexed adapter carries UDP unless its session is for TCP only, and
/// then it falls back to what it does by itself.
pub proof fn law_mux_udp<K>(adapter: AdapterSpec<K>, options: MuxOptions)
    ensures
        ({
            let multiplexed = AdapterSpec { mux: Some(options), ..adapter };
            &&& !options.only_tcp ==> multiplexed.carries_udp()
            &&& options.only_tcp ==> multiplexed.carries_udp() == adapter.udp
        }),
{
}

/// The dial of an adapter goes to its server and port, under its key and its
/// cipher suite, with the request that it was made for.
pub proof fn law_dial_fields<K>(adapter: AdapterSpec<K>, request: SealPlan)
    ensures
        adapter.dial(request).server == adapter.server,
        adapter.dial(request).port == adapter.port,
        adapter.dial(request).cmd_key == adapter.cmd_key,
        adapter.dial(request).security == adapter.security,
        adapter.dial(request).request == request,
{
}

/// Without a session, a TCP connection is a dial to the adapter's server and
/// port, under its key and cipher suite, that asks for exactly the destination
/// and not for UDP. With a session, it is a stream to exactly the destination,
/// tagged `vmess`, and no dial.
pub proof fn law_tcp_choice<K>(adapter: AdapterSpec<K>, target: Target)
    ensures
        adapter.mux is None ==> (tcp_choice(adapter, target) matches TcpChoice::Dial(dial) && {
            &&& dial.server == adapter.server
            &&& dial.port == adapter.port
            &&& dial.cmd_key == adapter.cmd_key
            &&& dial.security == adapter.security
            &&& dial.request matches SealPlan::Target { target: asked, udp } && asked == target
                && !udp
        }),
        adapter.mux is Some ==> (tcp_choice(adapter, target) matches TcpChoice::OpenStream {
            target: asked,
            tag,
        } && asked == target && tag == seq!['v', 'm', 'e', 's', 's']),
{
    reveal_strlit("vmess");
    assert(MUX_TAG@ =~= seq!['v', 'm', 'e', 's', 's']);
}

/// A mux.cool session is announced by a request without a destination; every
/// other session asks for the reserved host and port over TCP.
pub proof fn law_session_request(protocol: Protocol)
    ensures
        session_request(protocol) is Mux <==> protocol is MuxCool,
        !(protocol is MuxCool) ==> (session_request(protocol) matches SealPlan::Target {
            target,
            udp,
        } && {
            &&& target.host == "sp.mux.sing-box.arpa"@
            &&& target.dst_ip is None
            &&& target.dst_port == 444
            &&& !udp
        }),
{
}

/// A UDP association is made exactly of the packet stream that the session
/// opened. The session is asked only at the start and only if there is one,
/// for exactly the destination. What the session reports is passed on as it
/// is; without a session, or without a packet stream, UDP is not supported.
pub proof fn law_udp_outcome<C, E>(
    mux: Option<MuxOptions>,
    target: Target,
    input: UdpInput<C, E>,
    conn: C,
    failure: Failure<E>,
)
    ensures
        udp_next(mux, target, input) == UdpOutput::<C, E>::Done(conn) <==> input
            == UdpInput::<C, E>::Opened(Ok(Some(conn))),
        udp_next(mux, target, input) is OpenPacketStream <==> input is Start && mux is Some,
        udp_next(mux, target, input) matches UdpOutput::OpenPacketStream { target: asked, tag }
            ==> asked == target && tag == seq!['v', 'm', 'e', 's', 's'],
        udp_next(mux, target, input) == UdpOutput::<C, E>::Fail(failure) <==> {
            ||| input == UdpInput::<C, E>::Opened(Err(failure))
            ||| (input is Start && mux is None || input == UdpInput::<C, E>::Opened(Ok(None)))
                && failure == Failure::<E>::NotSupported("vmess UDP relay not yet implemented"@)
        },
{
    reveal_strlit("vmess");
    assert(MUX_TAG@ =~= seq!['v', 'm', 'e', 's', 's']);
}

/// Without multiplexing an adapter carries UDP exactly if it does so by
/// itself; a session carries UDP exactly if it is not for TCP only.
pub proof fn law_plain_udp<K>(adapter: AdapterSpec<K>, options: MuxOptions)
    ensures
        adapter.mux is None ==> adapter.carries_udp() == adapter.udp,
        options.carries_udp() == !options.only_tcp,
        adapter.mux == Some(options) ==> adapter.carries_udp() == (adapter.udp
            || !options.only_tcp),
{
}

/// The sealed header goes through the stages of a dial untouched: the server
/// and port that are dialed are the dial's, and the bytes that are sent are
/// all bytes of the header, in order. Each stage goes on exactly if its own
/// outcome was good, and hands on a failed one with nothing lost of it.
pub proof fn law_stages_keep_the_header<K, E>(
    dial: DialSpec<K>,
    header: Sealed,
    exchange: Exchange<K>,
    error: E,
    reason: Seq<char>,
)
    ensures
        after_seal::<K, E>(dial, Ok(header)) matches Ok(stage) && {
            &&& stage.server == dial.server
            &&& stage.port == dial.port
            &&& stage.security == dial.security
            &&& stage.sealed.bytes == header.bytes
            &&& stage.sealed.req_key == header.req_key
            &&& stage.sealed.req_iv == header.req_iv
            &&& stage.sealed.resp_v == header.resp_v
        },
        after_dial::<K, E>(exchange, Ok(())) matches Ok(stage) && stage == exchange,
        after_connect::<K, E>(exchange, Ok(())) matches Ok(stage) && stage == exchange,
        after_send::<K, E>(exchange, Ok(())) matches Ok(plan) && {
            &&& plan.read_cipher.security == exchange.security
            &&& plan.read_cipher.key == exchange.sealed.req_key
            &&& plan.read_cipher.iv == exchange.sealed.req_iv
            &&& plan.read_cipher.resp_v == exchange.sealed.resp_v
            &&& plan.write_cipher == plan.read_cipher
            &&& plan.req_key == exchange.sealed.req_key
            &&& plan.req_iv == exchange.sealed.req_iv
            &&& plan.resp_v == exchange.sealed.resp_v
        },
        after_seal::<K, E>(dial, Err(reason)) matches Err(Failure::Proxy(text)) && text == reason,
        after_dial(exchange, Err(error)) matches Err(Failure::Io(e)) && e == error,
        after_connect::<K, E>(exchange, Err(reason)) matches Err(Failure::Proxy(text)) && {
            &&& text.len() == 17 + reason.len()
            &&& text.take(17) == "vmess transport: "@
            &&& text.skip(17) == reason
        },
        after_send(exchange, Err(error)) matches Err(Failure::Io(e)) && e == error,
{
    reveal_strlit("vmess transport: ");
    let text = "vmess transport: "@ + reason;
    assert(text.take(17) =~= "vmess transport: "@);
    assert(text.skip(17) =~= reason);
}

/// From the adapter to the wire, without a session: where every stage of the
/// dial of a TCP connection succeeds, the server that was dialed is the
/// adapter's, the header that was sealed asked for the destination over TCP
/// under the adapter's key, and the bytes sent are the header's.
pub proof fn law_connection_end_to_end<K, E>(
    adapter: AdapterSpec<K>,
    target: Target,
    header: Sealed,
)
    requires
        adapter.mux is None,
    ensures
        ({
            let dial = tcp_choice(adapter, target)->Dial_0;
            let sealing = after_seal::<K, E>(dial, Ok(header))->Ok_0;
            let dialing = after_dial::<K, E>(sealing, Ok(()))->Ok_0;
            let sending = after_connect::<K, E>(dialing, Ok(()))->Ok_0;
            &&& dial.cmd_key == adapter.cmd_key
            &&& dial.security == adapter.security
            &&& dial.request == (SealPlan::Target { target, udp: false })
            &&& sealing.server == adapter.server && sealing.port == adapter.port
            &&& sending.sealed.bytes == header.bytes
            &&& sending.security == adapter.security
        }),
{
    law_tcp_choice(adapter, target);
}

/// The model of a sealed header, a request or an error tells which it is and
/// holds all that it holds.
pub proof fn law_dial_stage_models<E>(
    header: SealedHeader,
    request: SealRequest,
    error: VmessError<E>,
    reason: String,
)
    ensures
        header@.bytes == header.bytes@,
        header@.req_key == header.req_key,
        header@.req_iv == header.req_iv,
        header@.resp_v == header.resp_v,
        request@ is Mux <==> request is Mux,
        request@ matches SealPlan::Target { target, udp } ==> (
        request matches SealRequest::Target { metadata, udp: u } && u == udp && metadata.host@
            == target.host && metadata.dst_ip == target.dst_ip && metadata.dst_port
            == target.dst_port),
        error@ matches Failure::Io(e) ==> error == VmessError::Io(e),
        error@ matches Failure::Proxy(text) ==> (error matches VmessError::Proxy(t) && t@ == text),
        error@ matches Failure::NotSupported(text) ==> (error matches VmessError::NotSupported(t)
            && t@ == text),
        seal_outcome(Ok(header)) matches Ok(sealed) && sealed.bytes == header.bytes@
            && sealed.req_key == header.req_key && sealed.req_iv == header.req_iv && sealed.resp_v
            == header.resp_v,
        seal_outcome(Err(reason)) == Err::<Sealed, Seq<char>>(reason@),
        connect_outcome(Ok(())) is Ok,
        connect_outcome(Err(reason)) == Err::<(), Seq<char>>(reason@),
{
}

/// The model of a plan for TCP, or of an event or a step of UDP, tells which it
/// is and holds all that it holds.
pub proof fn law_plan_models<'a, K, C, E>(
    plan: TcpPlan<'a, K>,
    event: UdpEvent<C, E>,
    step: UdpStep<'a, C, E>,
)
    ensures
        plan@ matches TcpChoice::OpenStream { target, tag } ==> (plan matches TcpPlan::OpenStream {
            metadata,
            tag: t,
        } && t@ == tag && metadata.host@ == target.host && metadata.dst_ip == target.dst_ip
            && metadata.dst_port == target.dst_port),
        plan@ matches TcpChoice::Dial(dial) ==> (plan matches TcpPlan::Dial(d) && d@ == dial),
        event@ is Start <==> event is Start,
        event matches UdpEvent::Opened(Ok(conn)) ==> event@ == UdpInput::<C, E>::Opened(Ok(conn)),
        event matches UdpEvent::Opened(Err(error)) ==> event@ == UdpInput::<C, E>::Opened(
            Err(error@),
        ),
        step@ matches UdpOutput::OpenPacketStream { target, tag } ==> (
        step matches UdpStep::OpenPacketStream { metadata, tag: t } && t@ == tag && metadata.host@
            == target.host && metadata.dst_ip == target.dst_ip && metadata.dst_port
            == target.dst_port),
        step@ matches UdpOutput::Done(conn) ==> (step matches UdpStep::Done(c) && c == conn),
        step@ matches UdpOutput::Fail(failure) ==> (step matches UdpStep::Fail(error) && error@
            == failure),
{
}

} // verus!
