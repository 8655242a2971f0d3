use meow_core::dialer::{IpAddr, Metadata};
use meow_core::text::{host_port, prefixed};
use meow_core::vmess::{
    AdapterType, CipherParams, MuxOptions, Protocol, RelayPlan, SealRequest, SealedHeader, TcpPlan,
    UdpEvent, UdpStep, VmessAdapter, VmessDial, VmessError,
};

#[derive(Debug, Clone, Copy, PartialEq, Eq)]
enum Suite {
    Aes,
    ChaCha,
}

type Failure = VmessError<&'static str>;

fn adapter(udp: bool) -> VmessAdapter<Suite> {
    VmessAdapter::new("node-1", "vmess.example.com", 8443, [5; 16], Suite::ChaCha, udp)
}

fn options(protocol: Protocol, only_tcp: bool) -> MuxOptions {
    MuxOptions { protocol, only_tcp }
}

fn header() -> SealedHeader {
    SealedHeader {
        bytes: vec![1, 2, 3],
        req_key: [11; 16],
        req_iv: [12; 16],
        resp_v: 13,
    }
}

fn plain_dial(adapter: &VmessAdapter<Suite>, metadata: &Metadata) -> VmessDial<Suite> {
    match adapter.dial_tcp(metadata) {
        TcpPlan::Dial(dial) => dial,
        TcpPlan::OpenStream { tag, .. } => panic!("unexpected stream {}", tag),
    }
}

#[test]
fn adapter_knows_its_name_and_address() {
    let adapter = adapter(false);
    assert_eq!(adapter.name(), "node-1");
    assert_eq!(adapter.addr(), "vmess.example.com:8443");
    assert_eq!(adapter.adapter_type(), AdapterType::Vmess);
}

#[test]
fn names_of_any_length_are_kept() {
    for n in [0, 1, 22, 23, 24, 200] {
        let name = "n".repeat(n);
        let server = "s".repeat(n);
        let adapter = VmessAdapter::new(&name, &server, 0, [0; 16], Suite::Aes, false);
        assert_eq!(adapter.name(), name);
        assert_eq!(adapter.addr(), format!("{}:0", server));
        let dial = plain_dial(&adapter, &Metadata::named("h", 1));
        let dialing = dial.sealed::<()>(Ok(header())).unwrap();
        assert_eq!(dialing.server(), server);
    }
}

#[test]
fn ports_are_written_in_decimal() {
    for port in [0, 7, 10, 80, 99, 100, 443, 999, 1000, 8080, 10000, 65535] {
        assert_eq!(host_port("h", port), format!("h:{}", port));
    }
    assert_eq!(prefixed("a: ", "b"), "a: b");
}

#[test]
fn udp_is_supported_by_itself_or_on_the_session() {
    assert!(!adapter(false).support_udp());
    assert!(adapter(true).support_udp());
    assert!(adapter(false)
        .with_mux(options(Protocol::Smux, false))
        .support_udp());
    assert!(!adapter(false)
        .with_mux(options(Protocol::Smux, true))
        .support_udp());
    assert!(adapter(true)
        .with_mux(options(Protocol::Smux, true))
        .support_udp());
}

#[test]
fn plain_connection_asks_for_its_destination() {
    let metadata = Metadata::address(IpAddr::V4([192, 0, 2, 1]), 25);
    let dial = plain_dial(&adapter(true), &metadata);
    assert_eq!(dial.cmd_key(), [5; 16]);
    assert_eq!(dial.security(), Suite::ChaCha);
    assert_eq!(
        *dial.request(),
        SealRequest::Target {
            metadata,
            udp: false
        }
    );
    assert!(adapter(true).mux_session().is_none());
}

#[test]
fn multiplexed_connection_opens_a_stream() {
    let adapter = adapter(false).with_mux(options(Protocol::Yamux, true));
    let destination = Metadata::named("example.com", 80);
    match adapter.dial_tcp(&destination) {
        TcpPlan::OpenStream { metadata, tag } => {
            assert_eq!(*metadata, destination);
            assert_eq!(tag, "vmess");
        }
        TcpPlan::Dial(dial) => panic!("unexpected dial {:?}", dial),
    }
    assert_eq!(adapter.name(), "node-1");
    assert_eq!(adapter.addr(), "vmess.example.com:8443");
}

#[test]
fn sing_mux_session_asks_for_the_reserved_destination() {
    for protocol in [Protocol::Smux, Protocol::Yamux, Protocol::H2Mux] {
        let adapter = adapter(false).with_mux(options(protocol, false));
        let session = adapter.mux_session().unwrap();
        assert_eq!(
            *session.request(),
            SealRequest::Target {
                metadata: Metadata::named("sp.mux.sing-box.arpa", 444),
                udp: false
            }
        );
        assert_eq!(session.cmd_key(), [5; 16]);
        assert_eq!(session.security(), Suite::ChaCha);
    }
}

#[test]
fn mux_cool_session_is_announced_by_its_request() {
    let adapter = adapter(false).with_mux(options(Protocol::MuxCool, false));
    let session = adapter.mux_session().unwrap();
    assert_eq!(*session.request(), SealRequest::Mux);
    let dialing = session.sealed::<()>(Ok(header())).unwrap();
    assert_eq!(dialing.server(), "vmess.example.com");
    assert_eq!(dialing.port(), 8443);
}

#[test]
fn later_mux_options_replace_earlier_ones() {
    let adapter = adapter(false)
        .with_mux(options(Protocol::Smux, true))
        .with_mux(options(Protocol::MuxCool, false));
    assert!(adapter.support_udp());
    assert_eq!(*adapter.mux_session().unwrap().request(), SealRequest::Mux);
}

#[test]
fn dial_ends_in_a_relay_on_the_secrets_of_the_header() {
    let dial = adapter(false).dial_to(&Metadata::named("example.com", 80));
    let dialing = dial.sealed::<&str>(Ok(header())).unwrap();
    assert_eq!(dialing.server(), "vmess.example.com");
    assert_eq!(dialing.port(), 8443);
    let connecting = dialing.dialed::<&str>(Ok(())).unwrap();
    let sending = connecting.connected::<&str>(Ok(())).unwrap();
    assert_eq!(sending.bytes(), [1, 2, 3]);
    let cipher = || CipherParams {
        security: Suite::ChaCha,
        key: [11; 16],
        iv: [12; 16],
        resp_v: 13,
    };
    assert_eq!(
        sending.sent::<&str>(Ok(())),
        Ok(RelayPlan {
            read_cipher: cipher(),
            write_cipher: cipher(),
            req_key: [11; 16],
            req_iv: [12; 16],
            resp_v: 13,
        })
    );
}

#[test]
fn each_stage_fails_with_its_own_error() {
    let start = || adapter(false).dial_to(&Metadata::named("example.com", 80));
    let sealed: Result<_, Failure> = start().sealed(Err("bad address".to_string()));
    assert_eq!(sealed.unwrap_err(), VmessError::Proxy("bad address".to_string()));

    let dialing = || start().sealed::<&str>(Ok(header())).unwrap();
    assert_eq!(
        dialing().dialed(Err("refused")).unwrap_err(),
        VmessError::Io("refused")
    );

    let connecting = || dialing().dialed::<&str>(Ok(())).unwrap();
    let connected: Result<_, Failure> = connecting().connected(Err("no tls".to_string()));
    assert_eq!(
        connected.unwrap_err(),
        VmessError::Proxy("vmess transport: no tls".to_string())
    );

    let sending = connecting().connected::<&str>(Ok(())).unwrap();
    assert_eq!(
        sending.sent(Err("reset")).unwrap_err(),
        VmessError::Io("reset")
    );
}

#[test]
fn udp_rides_the_session_or_is_not_supported() {
    let unsupported =
        || VmessError::NotSupported("vmess UDP relay not yet implemented".to_string());
    let destination = Metadata::address(IpAddr::V4([192, 0, 2, 1]), 53);
    let plain = adapter(true);
    assert_eq!(
        plain.dial_udp::<u8, &str>(&destination, UdpEvent::Start),
        UdpStep::Fail(unsupported())
    );
    let shared = adapter(false).with_mux(options(Protocol::Smux, false));
    assert_eq!(
        shared.dial_udp::<u8, &str>(&destination, UdpEvent::Start),
        UdpStep::OpenPacketStream {
            metadata: &destination,
            tag: "vmess"
        }
    );
    assert_eq!(
        shared.dial_udp::<u8, &str>(&destination, UdpEvent::Opened(Ok(Some(9)))),
        UdpStep::Done(9)
    );
    assert_eq!(
        shared.dial_udp::<u8, &str>(&destination, UdpEvent::Opened(Ok(None))),
        UdpStep::Fail(unsupported())
    );
    assert_eq!(
        shared.dial_udp::<u8, &str>(&destination, UdpEvent::Opened(Err(VmessError::Io("reset")))),
        UdpStep::Fail(VmessError::Io("reset"))
    );
}
