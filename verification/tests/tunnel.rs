use trickshot::client::tunnel::dial_failed;
use trickshot::client::tunnel::read_tunnel_id;
use trickshot::client::tunnel::through_tunnel;
use trickshot::client::tunnel::tunnel_scheme;
use trickshot::client::tunnel::tunnel_url;
use trickshot::client::tunnel::Agent;
use trickshot::client::tunnel::AgentEvent;
use trickshot::client::tunnel::Hello;
use trickshot::client::tunnel::HelloEvent;
use trickshot::client::tunnel::Route as AgentRoute;
use trickshot::client::ClientError;
use trickshot::frame::close_frame;
use trickshot::frame::data_frame;
use trickshot::frame::open_frame;
use trickshot::frame::parse;
use trickshot::frame::Frame;
use trickshot::frame::OP_CLOSE;
use trickshot::frame::OP_DATA;
use trickshot::frame::OP_OPEN;
use trickshot::net::IpAddr;
use trickshot::net::SocketAddr;
use trickshot::socks::reply_socks;
use trickshot::socks::Refusal;
use trickshot::socks::Socks;
use trickshot::socks::SocksStep;
use trickshot::streams::pump_up;
use trickshot::streams::Up;
use trickshot::target::Url;
use trickshot::tunnel::close;
use trickshot::tunnel::greet;
use trickshot::tunnel::has_room;
use trickshot::tunnel::hello;
use trickshot::tunnel::mint_id;
use trickshot::tunnel::open;
use trickshot::tunnel::Pump;
use trickshot::tunnel::Route;
use trickshot::tunnel::Tunnel;
use trickshot::tunnel::TunnelConn;
use trickshot::tunnel::TunnelRegistry;
use trickshot::tunnel::WsEvent;

fn loopback(port: u16) -> SocketAddr {
    SocketAddr { ip: IpAddr::V4([127, 0, 0, 1]), port }
}

#[test]
fn open_frame_layout() {
    let f = open_frame(258, "host.internal", 8080);
    assert_eq!(f[0], OP_OPEN);
    assert_eq!(u32::from_be_bytes([f[1], f[2], f[3], f[4]]), 258);
    let host_len = u16::from_be_bytes([f[5], f[6]]) as usize;
    assert_eq!(host_len, "host.internal".len());
    let host = &f[7..7 + host_len];
    assert_eq!(host, b"host.internal");
    let port = u16::from_be_bytes([f[7 + host_len], f[8 + host_len]]);
    assert_eq!(port, 8080);
}

#[test]
fn data_and_close_frame_layout() {
    let d = data_frame(7, b"hello");
    assert_eq!(d[0], OP_DATA);
    assert_eq!(u32::from_be_bytes([d[1], d[2], d[3], d[4]]), 7);
    assert_eq!(&d[5..], b"hello");

    let c = close_frame(7);
    assert_eq!(c, vec![OP_CLOSE, 0, 0, 0, 7]);
}

#[test]
fn proxy_server_string() {
    let t = Tunnel { socks_addr: loopback(5000), key_id: "k1".into() };
    assert_eq!(t.proxy_server(), "socks5://127.0.0.1:5000");
}

#[test]
fn mint_id_is_unguessable_and_unique() {
    let a = mint_id();
    let b = mint_id();
    assert_ne!(a, b);
    // 16 bytes url-safe-base64 (no pad) = 22 chars.
    assert_eq!(a.len(), 22);
}

// --- Frames -----------------------------------------------------------------

#[test]
fn frames_are_read_back() {
    match parse(&open_frame(0xdead_beef, "h\u{e9}", 65535)) {
        Some(Frame::Open { id, host, port }) => {
            assert_eq!((id, port), (0xdead_beef, 65535));
            assert_eq!(host, "h\u{e9}".as_bytes());
        }
        other => panic!("{other:?}"),
    }
    match parse(&data_frame(1, b"")) {
        Some(Frame::Data { id: 1, payload }) => assert!(payload.is_empty()),
        other => panic!("{other:?}"),
    }
    assert!(matches!(parse(&close_frame(9)), Some(Frame::Close { id: 9 })));
}

#[test]
fn frames_that_are_cut_short_are_none() {
    let f = open_frame(1, "host", 80);
    for n in 0..f.len() {
        assert!(parse(&f[..n]).is_none(), "{n}");
    }
    assert!(parse(&[OP_CLOSE, 0, 0, 0]).is_none());
    assert!(parse(&[0x04, 0, 0, 0, 1]).is_none());
    assert!(parse(&[]).is_none());
}

// --- SOCKS ------------------------------------------------------------------

/// What a handshake replies, and how it ends.
fn drive(bytes: &[u8]) -> (Vec<u8>, Option<Result<(String, u16), Refusal>>, usize) {
    let mut state = Socks::Greeting;
    let mut sent = Vec::new();
    let mut at = 0;
    loop {
        let n = state.needed();
        if bytes.len() - at < n {
            return (sent, None, at);
        }
        let step = state.advance(&bytes[at..at + n]);
        at += n;
        match step {
            SocksStep::Continue { reply, next } => {
                sent.extend(reply);
                state = next;
            }
            SocksStep::Connect { host, port } => return (sent, Some(Ok((host, port))), at),
            SocksStep::Refuse { reply, why } => {
                sent.extend(reply);
                return (sent, Some(Err(why)), at);
            }
        }
    }
}

#[test]
fn socks_connects_to_a_name() {
    let mut b = vec![5, 2, 0, 2, 5, 1, 0, 3, 11];
    b.extend(b"example.com");
    b.extend([0x1f, 0x90]);
    let n = b.len();
    b.extend(b"more");
    let (sent, end, used) = drive(&b);
    assert_eq!(sent, vec![5, 0]);
    assert_eq!(end, Some(Ok(("example.com".to_string(), 8080))));
    assert_eq!(used, n);
}

#[test]
fn socks_connects_to_addresses() {
    let (_, end, _) = drive(&[5, 0, 5, 1, 0, 1, 10, 0, 0, 7, 0, 80]);
    assert_eq!(end, Some(Ok(("10.0.0.7".to_string(), 80))));
    let mut b = vec![5, 1, 0, 5, 1, 0, 4];
    b.extend([0xfd, 0, 0, 0, 0, 0, 0, 0, 0, 0, 0, 0, 0, 0, 0, 1, 1, 187]);
    let (_, end, _) = drive(&b);
    assert_eq!(end, Some(Ok(("fd00::1".to_string(), 443))));
}

#[test]
fn socks_names_need_not_be_utf8() {
    let (_, end, _) = drive(&[5, 0, 5, 1, 0, 3, 2, b'a', 0xff, 0, 1]);
    assert_eq!(end, Some(Ok(("a\u{fffd}".to_string(), 1))));
}

#[test]
fn socks_refuses() {
    let (sent, end, _) = drive(&[4, 1, 0]);
    assert_eq!((sent, end), (vec![], Some(Err(Refusal::NotSocks5))));
    let (sent, end, _) = drive(&[5, 0, 5, 2, 0, 1]);
    assert_eq!(end, Some(Err(Refusal::Command)));
    assert_eq!(sent, vec![5, 0, 5, 7, 0, 1, 0, 0, 0, 0, 0, 0]);
    let (sent, end, _) = drive(&[5, 0, 5, 1, 0, 2]);
    assert_eq!(end, Some(Err(Refusal::AddressType)));
    assert_eq!(sent[2..], reply_socks(8)[..]);
    assert_eq!(Refusal::NotSocks5.to_text(), "not socks5");
    assert_eq!(Refusal::Command.to_text(), "unsupported socks command");
    assert_eq!(Refusal::AddressType.to_text(), "unsupported socks atyp");
}

#[test]
fn socks_waits_for_more() {
    let b = [5, 1, 0, 5, 1, 0, 1, 10, 0, 0, 7, 0, 80];
    for n in 0..b.len() {
        assert_eq!(drive(&b[..n]).1, None, "{n}");
    }
    assert!(drive(&b).1.is_some());
}

// --- The registry -----------------------------------------------------------

#[test]
fn tunnels_are_registered_while_open() {
    let mut registry = TunnelRegistry::new();
    let mut conn: TunnelConn<u8> = TunnelConn::new();
    assert!(has_room(&registry, 1));
    assert!(!has_room(&registry, 0));
    let (id, first) = open(&mut registry, loopback(4000), "k".to_string());
    assert_eq!(first, format!("{{\"tunnel_id\":\"{id}\"}}"));
    assert!(!has_room(&registry, 1));
    assert!(greet(&mut registry, &id, true));
    let t = registry.get(&id).unwrap();
    assert_eq!(t.proxy_server(), "socks5://127.0.0.1:4000");
    assert_eq!(t.key_id, "k");
    assert!(registry.get("other").is_none());
    conn.open_stream(3, "h", 1);
    close(&mut registry, &id, &mut conn);
    assert_eq!(registry.count(), 0);
    assert!(registry.get(&id).is_none());
    assert!(conn.streams.get(1).is_none());
}

#[test]
fn unsent_hello_ends_the_tunnel() {
    let mut registry = TunnelRegistry::default();
    let (kept, _) = open(&mut registry, loopback(1), "k".to_string());
    let (id, _) = open(&mut registry, loopback(2), "k".to_string());
    assert_eq!(registry.count(), 2);
    assert!(!greet(&mut registry, &id, false));
    assert_eq!(registry.count(), 1);
    assert!(registry.get(&kept).is_some());
}

#[test]
fn client_reads_the_id_from_the_hello() {
    let id = mint_id();
    match read_tunnel_id(&HelloEvent::Text(hello(&id))) {
        Hello::Id(read) => assert_eq!(read, id),
        other => panic!("{other:?}"),
    }
}

#[test]
fn client_needs_an_id() {
    let failed = |e: HelloEvent| match read_tunnel_id(&e) {
        Hello::Failed(ClientError(m)) => m,
        other => panic!("{other:?}"),
    };
    assert_eq!(
        failed(HelloEvent::Text("{}".to_string())),
        "tunnel hello missing tunnel_id"
    );
    assert_eq!(
        failed(HelloEvent::Text("{\"tunnel_id\":5}".to_string())),
        "tunnel hello missing tunnel_id"
    );
    assert_eq!(
        failed(HelloEvent::Text("no".to_string())),
        "parsing tunnel hello: expected ident at line 1 column 2"
    );
    assert_eq!(failed(HelloEvent::Close), "tunnel closed before sending id");
    assert_eq!(failed(HelloEvent::Ended), "tunnel websocket ended before sending id");
    assert_eq!(failed(HelloEvent::Failed("x".to_string())), "reading tunnel hello: x");
    assert!(matches!(read_tunnel_id(&HelloEvent::Other), Hello::Wait));
}

// --- Streams ----------------------------------------------------------------

#[test]
fn streams_are_opened_in_order() {
    let mut conn: TunnelConn<char> = TunnelConn::new();
    let (a, f) = conn.open_stream('a', "x", 80);
    assert_eq!(a, 1);
    assert_eq!(f, open_frame(1, "x", 80));
    let (b, _) = conn.open_stream('b', "y", 81);
    assert_eq!(b, 2);
    assert_eq!(conn.stream_opened(a, true), reply_socks(0));
    assert_eq!(conn.streams.get(a), Some(&'a'));
    assert_eq!(conn.stream_opened(b, false), reply_socks(1));
    assert_eq!(conn.streams.get(b), None);
    conn.stream_ended(a);
    assert_eq!(conn.streams.get(a), None);
    conn.next_id = u32::MAX;
    assert_eq!(conn.open_stream('c', "z", 82).0, u32::MAX);
    assert_eq!(conn.next_id, 0);
}

#[test]
fn server_routes_frames() {
    let mut conn: TunnelConn<char> = TunnelConn::new();
    conn.open_stream('a', "x", 80);
    match conn.handle_frame(&data_frame(1, b"bytes")) {
        Route::Deliver { id: 1, payload } => assert_eq!(payload, b"bytes"),
        other => panic!("{other:?}"),
    }
    assert!(matches!(conn.handle_frame(&data_frame(2, b"bytes")), Route::Ignored));
    assert!(matches!(conn.handle_frame(&open_frame(5, "h", 1)), Route::Ignored));
    assert!(matches!(conn.handle_frame(&[]), Route::Ignored));
    assert!(matches!(conn.handle_frame(&close_frame(1)), Route::Closed { id: 1 }));
    assert!(matches!(conn.handle_frame(&data_frame(1, b"late")), Route::Ignored));
}

#[test]
fn server_pumps_until_the_end() {
    let mut conn: TunnelConn<char> = TunnelConn::new();
    conn.open_stream('a', "x", 80);
    let mut stop = |e: WsEvent| match conn.pump(&e) {
        Pump::Stop(reason) => reason,
        Pump::Go(route) => format!("{route:?}"),
    };
    assert_eq!(stop(WsEvent::Idle { sent: false }), "idle timeout");
    assert_eq!(stop(WsEvent::Idle { sent: true }), "Ignored");
    assert_eq!(stop(WsEvent::Ended), "websocket closed");
    assert_eq!(stop(WsEvent::Failed), "websocket error");
    assert_eq!(stop(WsEvent::Close), "client closed");
    assert_eq!(stop(WsEvent::Other), "Ignored");
    assert_eq!(stop(WsEvent::Binary(close_frame(1))), "Closed { id: 1 }");
}

#[test]
fn bytes_go_up_in_frames() {
    assert!(matches!(pump_up(3, Some(b"ab")), Up::Data(f) if f == data_frame(3, b"ab")));
    assert!(matches!(pump_up(3, Some(b"")), Up::Close(f) if f == close_frame(3)));
    assert!(matches!(pump_up(3, None), Up::Close(f) if f == close_frame(3)));
}

#[test]
fn client_dials_what_the_server_was_asked_for() {
    let mut conn: TunnelConn<u8> = TunnelConn::new();
    let mut agent: Agent<u8> = Agent::new();
    let (id, f) = conn.open_stream(0, "intern\u{e9}", 8443);
    match agent.handle_frame(&f) {
        AgentRoute::Dial { id: dialed, host, port } => {
            assert_eq!((dialed, host.as_str(), port), (id, "intern\u{e9}", 8443));
        }
        other => panic!("{other:?}"),
    }
    assert!(matches!(agent.handle_frame(&data_frame(id, b"x")), AgentRoute::Ignored));
    agent.attach(id, 0);
    match agent.handle_frame(&data_frame(id, b"x")) {
        AgentRoute::Deliver { payload, .. } => assert_eq!(payload, b"x"),
        other => panic!("{other:?}"),
    }
    let last = agent.finish(id, false).unwrap();
    assert!(agent.streams.get(id).is_none());
    assert!(agent.finish(id, true).is_none());
    assert!(matches!(conn.handle_frame(&last), Route::Closed { id: 1 }));
}

#[test]
fn client_follows_the_websocket() {
    let mut agent: Agent<u8> = Agent::new();
    agent.attach(4, 0);
    assert!(matches!(agent.pump(&AgentEvent::Other), Some(AgentRoute::Ignored)));
    assert!(agent.pump(&AgentEvent::Over).is_none());
    assert!(matches!(
        agent.pump(&AgentEvent::Binary(close_frame(4))),
        Some(AgentRoute::Closed { id: 4 })
    ));
    assert!(agent.streams.get(4).is_none());
    assert_eq!(dial_failed("h", 80, "refused"), "ts: tunnel dial h:80 failed: refused");
}

#[test]
fn tunnel_urls() {
    assert_eq!(tunnel_url("https://shot.example.com").unwrap(), "wss://shot.example.com/tunnel");
    assert_eq!(tunnel_url("http://h:8900//").unwrap(), "ws://h:8900/tunnel");
    assert_eq!(tunnel_url("ws://h").unwrap(), "ws://h/tunnel");
    assert_eq!(tunnel_url("wss://h/base/").unwrap(), "wss://h/base/tunnel");
    assert_eq!(tunnel_url("ftp://h").unwrap_err().0, "unsupported server scheme: ftp");
    assert_eq!(
        tunnel_url("h").unwrap_err().0,
        "invalid --server url: relative URL without a base"
    );
    assert_eq!(tunnel_scheme(&Url::parse("https://h/")).unwrap(), "wss");
}

#[test]
fn shots_through_tunnels_say_so() {
    assert_eq!(through_tunnel(Ok(vec![1])).unwrap(), vec![1]);
    let e = through_tunnel(Err(ClientError::new("no"))).unwrap_err();
    assert_eq!(e.0, "taking shot through tunnel: no");
}
