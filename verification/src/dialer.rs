//! Dialing the first hop of an outbound connection.
//!
//! An adapter reaches its server through a [`TcpDialer`]. The
//! [`DirectDialer`] connects by itself; the [`ProxyDialer`] tunnels through
//! another proxy, which makes chaining transparent to the adapter. A dialer
//! answers with the request that its driver has to carry out, and says what
//! becomes of the outcome.

use crate::text::prefixed;
use vstd::prelude::*;

verus! {

/// An IP address.
#[derive(Debug, Clone, Copy, PartialEq, Eq)]
pub enum IpAddr {
    V4([u8; 4]),
    V6([u8; 16]),
}

/// A resolved address: an IP address with a port. The flow label and the
/// scope belong to IPv6 and are zero otherwise.
#[derive(Debug, Clone, Copy, PartialEq, Eq)]
pub struct SocketAddr {
    pub ip: IpAddr,
    pub port: u16,
    pub flowinfo: u32,
    pub scope_id: u32,
}

/// The destination of a connection: a host name or an IP address, and a port.
#[derive(Debug, PartialEq, Eq)]
pub struct Metadata {
    pub host: String,
    pub dst_ip: Option<IpAddr>,
    pub dst_port: u16,
}

/// The model of a [`Metadata`].
#[verifier::ext_equal]
pub struct Target {
    pub host: Seq<char>,
    pub dst_ip: Option<IpAddr>,
    pub dst_port: u16,
}

impl View for Metadata {
    type V = Target;

    open spec fn view(&self) -> Target {
        Target { host: self.host@, dst_ip: self.dst_ip, dst_port: self.dst_port }
    }
}

impl Clone for Metadata {
    fn clone(&self) -> (copy: Self)
        ensures
            copy@ == self@,
    {
        Metadata { host: self.host.clone(), dst_ip: self.dst_ip, dst_port: self.dst_port }
    }
}

/// The destination given by name.
pub open spec fn named_target(host: Seq<char>, port: u16) -> Target {
    Target { host, dst_ip: None, dst_port: port }
}

/// The destination given by address.
pub open spec fn address_target(ip: IpAddr, port: u16) -> Target {
    Target { host: Seq::empty(), dst_ip: Some(ip), dst_port: port }
}

impl Metadata {
    /// The destination given by name.
    pub fn named(host: &str, port: u16) -> (meta: Self)
        ensures
            meta@ == named_target(host@, port),
    {
        Metadata { host: host.to_owned(), dst_ip: None, dst_port: port }
    }

    /// The destination given by address.
    pub fn address(ip: IpAddr, port: u16) -> (meta: Self)
        ensures
            meta@ == address_target(ip, port),
    {
        Metadata { host: String::new(), dst_ip: Some(ip), dst_port: port }
    }
}

/// What a dialer asks its driver to do.
#[derive(Debug, PartialEq, Eq)]
pub enum DialRequest {
    /// Resolve the host and connect to it.
    ConnectHost { host: String, port: u16 },
    /// Connect to the address as it is.
    ConnectAddr(SocketAddr),
    /// Have the front proxy connect to the destination.
    ViaProxy(Metadata),
}

/// The model of a [`DialRequest`].
#[verifier::ext_equal]
pub enum DialPlan {
    ConnectHost { host: Seq<char>, port: u16 },
    ConnectAddr(SocketAddr),
    ViaProxy(Target),
}

impl View for DialRequest {
    type V = DialPlan;

    open spec fn view(&self) -> DialPlan {
        match *self {
            DialRequest::ConnectHost { host, port } => DialPlan::ConnectHost { host: host@, port },
            DialRequest::ConnectAddr(addr) => DialPlan::ConnectAddr(addr),
            DialRequest::ViaProxy(meta) => DialPlan::ViaProxy(meta@),
        }
    }
}

/// A pluggable dialer for the connection to a proxy server.
pub trait TcpDialer {
    /// The request for a host. `literal` is the IP address that the host's
    /// text spells, if it spells one.
    spec fn plan(&self, host: Seq<char>, literal: Option<IpAddr>, port: u16) -> DialPlan;

    /// The request for a resolved address.
    spec fn plan_addr(&self, addr: SocketAddr) -> DialPlan;

    /// The dialer tunnels through another proxy.
    spec fn tunnels(&self) -> bool;

    /// Dials a host. `literal` is the IP address that the text of `host`
    /// spells, if it spells one.
    fn dial(&self, host: &str, literal: Option<IpAddr>, port: u16) -> (request: DialRequest)
        ensures
            request@ == self.plan(host@, literal, port),
            request is ViaProxy <==> self.tunnels(),
    ;

    /// Dials a resolved address.
    fn dial_addr(&self, addr: SocketAddr) -> (request: DialRequest)
        ensures
            request@ == self.plan_addr(addr),
            request is ViaProxy <==> self.tunnels(),
    ;

    /// Whether the dialer tunnels through another proxy. An adapter whose UDP
    /// path goes past the dialer must not use that path if it does.
    fn is_proxy(&self) -> (tunnels: bool)
        ensures
            tunnels == self.tunnels(),
    ;
}

/// The default dialer: it connects by itself.
#[derive(Debug, Clone, Copy)]
pub struct DirectDialer;

/// What happened on a direct connection.
#[derive(Debug, PartialEq, Eq)]
pub enum DirectEvent<E> {
    /// The connection was made, or it failed.
    Connected(Result<(), E>),
    /// Nagle's algorithm was switched off, or that failed.
    NoDelaySet(Result<(), E>),
}

/// The next step of a direct connection.
#[derive(Debug, PartialEq, Eq)]
pub enum DirectStep<E> {
    /// Switch Nagle's algorithm off.
    SetNoDelay,
    /// The stream is ready.
    Done,
    /// The dial has failed.
    Fail(E),
}

/// The step that answers an event: a failed connection is a failed dial;
/// Nagle's algorithm is switched off once the connection is made, and the
/// dial succeeds whether or not that works.
pub open spec fn direct_next<E>(event: DirectEvent<E>) -> DirectStep<E> {
    match event {
        DirectEvent::Connected(Ok(())) => DirectStep::SetNoDelay,
        DirectEvent::Connected(Err(e)) => DirectStep::Fail(e),
        DirectEvent::NoDelaySet(_) => DirectStep::Done,
    }
}

impl DirectDialer {
    /// Takes note of what happened and says what to do next.
    pub fn resume<E>(&self, event: DirectEvent<E>) -> (step: DirectStep<E>)
        ensures
            step == direct_next(event),
    {
        match event {
            DirectEvent::Connected(Ok(())) => DirectStep::SetNoDelay,
            DirectEvent::Connected(Err(e)) => DirectStep::Fail(e),
            DirectEvent::NoDelaySet(_) => DirectStep::Done,
        }
    }
}

impl TcpDialer for DirectDialer {
    open spec fn plan(&self, host: Seq<char>, literal: Option<IpAddr>, port: u16) -> DialPlan {
        DialPlan::ConnectHost { host, port }
    }

    open spec fn plan_addr(&self, addr: SocketAddr) -> DialPlan {
        DialPlan::ConnectAddr(addr)
    }

    open spec fn tunnels(&self) -> bool {
        false
    }

    fn dial(&self, host: &str, literal: Option<IpAddr>, port: u16) -> (request: DialRequest) {
        DialRequest::ConnectHost { host: host.to_owned(), port }
    }

    fn dial_addr(&self, addr: SocketAddr) -> (request: DialRequest) {
        DialRequest::ConnectAddr(addr)
    }

    fn is_proxy(&self) -> (tunnels: bool) {
        false
    }
}

/// A dialer that tunnels through another proxy.
#[derive(Debug)]
pub struct ProxyDialer<P> {
    proxy: P,
}

/// What precedes the front proxy's own words in the error of a failed dial.
pub open spec fn tunnel_error(reason: Seq<char>) -> Seq<char> {
    "dialer-proxy: "@ + reason
}

impl<P> ProxyDialer<P> {
    /// The front proxy.
    pub closed spec fn front(&self) -> P {
        self.proxy
    }

    /// A dialer that tunnels through `proxy`.
    pub fn new(proxy: P) -> (dialer: Self)
        ensures
            dialer.front() == proxy,
    {
        ProxyDialer { proxy }
    }

    /// The front proxy.
    pub fn proxy(&self) -> (proxy: &P)
        ensures
            *proxy == self.front(),
    {
        &self.proxy
    }

    /// Has the front proxy dial a destination.
    pub fn dial_metadata(&self, meta: Metadata) -> (request: DialRequest)
        ensures
            request@ == DialPlan::ViaProxy(meta@),
            request is ViaProxy,
    {
        DialRequest::ViaProxy(meta)
    }

    /// What becomes of the front proxy's outcome: its connection is the
    /// stream, and its error is passed on with a prefix.
    pub fn tunnelled<C>(&self, outcome: Result<C, String>) -> (result: Result<C, String>)
        ensures
            match outcome {
                Ok(conn) => result == Ok::<C, String>(conn),
                Err(reason) => result matches Err(text) && text@ == tunnel_error(reason@),
            },
    {
        match outcome {
            Ok(conn) => Ok(conn),
            Err(reason) => Err(prefixed("dialer-proxy: ", reason.as_str())),
        }
    }
}

impl<P> TcpDialer for ProxyDialer<P> {
    open spec fn plan(&self, host: Seq<char>, literal: Option<IpAddr>, port: u16) -> DialPlan {
        match literal {
            Some(ip) => DialPlan::ViaProxy(address_target(ip, port)),
            None => DialPlan::ViaProxy(named_target(host, port)),
        }
    }

    open spec fn plan_addr(&self, addr: SocketAddr) -> DialPlan {
        DialPlan::ViaProxy(address_target(addr.ip, addr.port))
    }

    open spec fn tunnels(&self) -> bool {
        true
    }

    fn dial(&self, host: &str, literal: Option<IpAddr>, port: u16) -> (request: DialRequest) {
        let meta = match literal {
            Some(ip) => Metadata::address(ip, port),
            None => Metadata::named(host, port),
        };
        self.dial_metadata(meta)
    }

    fn dial_addr(&self, addr: SocketAddr) -> (request: DialRequest) {
        self.dial_metadata(Metadata::address(addr.ip, addr.port))
    }

    fn is_proxy(&self) -> (tunnels: bool) {
        true
    }
}

/// Dialing an address through a proxy by its text is dialing the address:
/// the front proxy is given an address, never a name that spells one.
pub proof fn law_literal_dials_address<P>(
    dialer: ProxyDialer<P>,
    text: Seq<char>,
    addr: SocketAddr,
)
    ensures
        dialer.plan(text, Some(addr.ip), addr.port) == dialer.plan_addr(addr),
{
}

/// A front proxy is given either the address or the name, never both, and
/// always the port that was asked for.
pub proof fn law_proxy_target_is_typed<P>(
    dialer: ProxyDialer<P>,
    host: Seq<char>,
    literal: Option<IpAddr>,
    port: u16,
)
    ensures
        dialer.plan(host, literal, port) matches DialPlan::ViaProxy(target) && {
            &&& target.dst_ip == literal
            &&& target.dst_port == port
            &&& target.host == if literal is Some {
                Seq::<char>::empty()
            } else {
                host
            }
        },
{
}

/// The direct dialer's request for a host is to connect to that host at that
/// port, whatever the host's text spells, and its request for an address is to
/// connect to that address.
pub proof fn law_direct_dials_what_was_asked(
    dialer: DirectDialer,
    host: Seq<char>,
    literal: Option<IpAddr>,
    port: u16,
    addr: SocketAddr,
)
    ensures
        dialer.plan(host, literal, port) matches DialPlan::ConnectHost { host: h, port: p } && h
            == host && p == port,
        dialer.plan_addr(addr) matches DialPlan::ConnectAddr(a) && a == addr,
        !dialer.tunnels(),
{
}

/// A direct dial fails exactly as its connection did, switches Nagle's
/// algorithm off exactly once the connection is made, and has succeeded
/// exactly when that was tried, whether or not it worked.
pub proof fn law_direct_outcome<E>(event: DirectEvent<E>, error: E)
    ensures
        direct_next(event) == DirectStep::Fail(error) <==> event == DirectEvent::Connected(
            Err::<(), E>(error),
        ),
        direct_next(event) is SetNoDelay <==> (event matches DirectEvent::Connected(Ok(_))),
        direct_next(event) is Done <==> event is NoDelaySet,
{
}

/// A resolved address reaches the front proxy as that IP address and that
/// port, without a name.
pub proof fn law_proxy_address_is_typed<P>(dialer: ProxyDialer<P>, addr: SocketAddr)
    ensures
        dialer.plan_addr(addr) matches DialPlan::ViaProxy(target) && {
            &&& target.dst_ip == Some(addr.ip)
            &&& target.dst_port == addr.port
            &&& target.host.len() == 0
        },
        dialer.tunnels(),
{
}

/// A destination holds the name or the address that it was made of, and the
/// port.
pub proof fn law_target_fields(host: Seq<char>, ip: IpAddr, port: u16)
    ensures
        named_target(host, port).host == host,
        named_target(host, port).dst_ip is None,
        named_target(host, port).dst_port == port,
        address_target(ip, port).host.len() == 0,
        address_target(ip, port).dst_ip == Some(ip),
        address_target(ip, port).dst_port == port,
{
}

/// The error of a tunnel is the front proxy's own words, unchanged, behind
/// `dialer-proxy: `, so that different words give different errors.
pub proof fn law_tunnel_error_keeps_the_reason(reason: Seq<char>)
    ensures
        tunnel_error(reason).len() == 14 + reason.len(),
        tunnel_error(reason).take(14) == seq![
            'd',
            'i',
            'a',
            'l',
            'e',
            'r',
            '-',
            'p',
            'r',
            'o',
            'x',
            'y',
            ':',
            ' ',
        ],
        tunnel_error(reason).skip(14) == reason,
{
    reveal_strlit("dialer-proxy: ");
    assert(tunnel_error(reason).skip(14) =~= reason);
}

/// The model of a destination or a request tells which it is and holds all
/// that it holds.
pub proof fn law_dial_models(meta: Metadata, request: DialRequest)
    ensures
        meta@.host == meta.host@,
        meta@.dst_ip == meta.dst_ip,
        meta@.dst_port == meta.dst_port,
        request@ matches DialPlan::ConnectHost { host, port } ==> (
        request matches DialRequest::ConnectHost { host: h, port: p } && h@ == host && p == port),
        request@ matches DialPlan::ConnectAddr(addr) ==> request == DialRequest::ConnectAddr(addr),
        request@ matches DialPlan::ViaProxy(target) ==> (request matches DialRequest::ViaProxy(m)
            && m.host@ == target.host && m.dst_ip == target.dst_ip && m.dst_port
            == target.dst_port),
{
}

} // verus!
