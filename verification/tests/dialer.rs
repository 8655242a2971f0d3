use meow_core::dialer::{
    DialRequest, DirectDialer, DirectEvent, DirectStep, IpAddr, Metadata, ProxyDialer, SocketAddr,
    TcpDialer,
};

const V4: IpAddr = IpAddr::V4([192, 0, 2, 7]);

fn via_proxy(host: &str, dst_ip: Option<IpAddr>, dst_port: u16) -> DialRequest {
    DialRequest::ViaProxy(Metadata {
        host: host.to_string(),
        dst_ip,
        dst_port,
    })
}

#[test]
fn direct_dialer_connects_by_itself() {
    let dialer = DirectDialer;
    assert!(!dialer.is_proxy());
    assert_eq!(
        dialer.dial("example.com", None, 443),
        DialRequest::ConnectHost {
            host: "example.com".to_string(),
            port: 443
        }
    );
    assert_eq!(
        dialer.dial("192.0.2.7", Some(V4), 443),
        DialRequest::ConnectHost {
            host: "192.0.2.7".to_string(),
            port: 443
        }
    );
    let addr = SocketAddr {
        ip: IpAddr::V6([9; 16]),
        port: 80,
        flowinfo: 1,
        scope_id: 2,
    };
    assert_eq!(dialer.dial_addr(addr), DialRequest::ConnectAddr(addr));
}

#[test]
fn direct_dialer_ignores_a_failed_nodelay() {
    let dialer = DirectDialer;
    assert_eq!(
        dialer.resume::<&str>(DirectEvent::Connected(Ok(()))),
        DirectStep::SetNoDelay
    );
    assert_eq!(
        dialer.resume::<&str>(DirectEvent::NoDelaySet(Ok(()))),
        DirectStep::Done
    );
    assert_eq!(
        dialer.resume(DirectEvent::NoDelaySet(Err("refused"))),
        DirectStep::Done
    );
    assert_eq!(
        dialer.resume(DirectEvent::Connected(Err("refused"))),
        DirectStep::Fail("refused")
    );
}

#[test]
fn proxy_dialer_tunnels_a_name() {
    let dialer = ProxyDialer::new("front");
    assert!(dialer.is_proxy());
    assert_eq!(*dialer.proxy(), "front");
    assert_eq!(
        dialer.dial("example.com", None, 443),
        via_proxy("example.com", None, 443)
    );
}

#[test]
fn proxy_dialer_types_an_address_literal() {
    let dialer = ProxyDialer::new(());
    let by_text = dialer.dial("192.0.2.7", Some(V4), 443);
    assert_eq!(by_text, via_proxy("", Some(V4), 443));
    let by_addr = dialer.dial_addr(SocketAddr {
        ip: V4,
        port: 443,
        flowinfo: 0,
        scope_id: 0,
    });
    assert_eq!(by_text, by_addr);
}

#[test]
fn proxy_dialer_drops_the_scope_of_an_address() {
    let dialer = ProxyDialer::new(());
    let ip = IpAddr::V6([1; 16]);
    let request = dialer.dial_addr(SocketAddr {
        ip,
        port: 8080,
        flowinfo: 5,
        scope_id: 6,
    });
    assert_eq!(request, via_proxy("", Some(ip), 8080));
}

#[test]
fn proxy_dialer_names_itself_in_errors() {
    let dialer = ProxyDialer::new(());
    assert_eq!(dialer.tunnelled(Ok(7)), Ok(7));
    assert_eq!(
        dialer.tunnelled::<u8>(Err("timed out".to_string())),
        Err("dialer-proxy: timed out".to_string())
    );
}

#[test]
fn metadata_copies_keep_everything() {
    let named = Metadata::named("example.com", 53);
    assert_eq!(named.clone(), named);
    assert_eq!(named.host, "example.com");
    let address = Metadata::address(V4, 53);
    assert_eq!(address.clone(), address);
    assert_eq!(address.dst_ip, Some(V4));
    assert_eq!(address.dst_port, 53);
}
