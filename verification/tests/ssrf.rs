use trickshot::error::ApiError;
use trickshot::net::IpAddr;
use trickshot::net::SocketAddr;
use trickshot::ssrf::check;
use trickshot::ssrf::check_resolved;
use trickshot::ssrf::is_blocked;
use trickshot::ssrf::Verdict;
use trickshot::target::Host;
use trickshot::target::Url;

fn u(s: &str) -> Url {
    Url::parse(s).unwrap()
}

fn v6(s: [u16; 8]) -> IpAddr {
    IpAddr::V6(s)
}

#[test]
fn blocks_metadata_and_private() {
    assert!(check(&u("http://169.254.169.254/"), false).is_err());
    assert!(check(&u("http://127.0.0.1/"), false).is_err());
    assert!(check(&u("http://10.0.0.5/"), false).is_err());
    assert!(check(&u("http://192.168.1.1/"), false).is_err());
    assert!(check(&u("http://172.16.0.1/"), false).is_err());
    assert!(check(&u("http://[::1]/"), false).is_err());
}

#[test]
fn allows_public() {
    assert!(check(&u("http://1.1.1.1/"), false).is_ok());
    assert!(check(&u("http://8.8.8.8/"), false).is_ok());
}

#[test]
fn allow_flag_bypasses() {
    assert!(check(&u("http://127.0.0.1/"), true).is_ok());
}

#[test]
fn edges_of_the_blocked_ranges() {
    let blocked = [
        [0, 0, 0, 0],
        [10, 255, 255, 255],
        [100, 64, 0, 0],
        [100, 127, 255, 255],
        [127, 255, 255, 255],
        [169, 254, 0, 0],
        [172, 16, 0, 0],
        [172, 31, 255, 255],
        [192, 168, 0, 0],
        [255, 255, 255, 255],
    ];
    for ip in blocked {
        assert!(is_blocked(&IpAddr::V4(ip)), "{ip:?}");
    }
    let open = [
        [9, 255, 255, 255],
        [11, 0, 0, 0],
        [100, 63, 255, 255],
        [100, 128, 0, 0],
        [126, 255, 255, 255],
        [169, 253, 255, 255],
        [172, 15, 255, 255],
        [172, 32, 0, 0],
        [192, 167, 255, 255],
        [193, 0, 0, 1],
    ];
    for ip in open {
        assert!(!is_blocked(&IpAddr::V4(ip)), "{ip:?}");
    }
}

#[test]
fn blocked_v6_ranges() {
    assert!(is_blocked(&v6([0, 0, 0, 0, 0, 0, 0, 0])));
    assert!(is_blocked(&v6([0, 0, 0, 0, 0, 0, 0, 1])));
    assert!(is_blocked(&v6([0xfc00, 0, 0, 0, 0, 0, 0, 1])));
    assert!(is_blocked(&v6([0xfdff, 0, 0, 0, 0, 0, 0, 1])));
    assert!(is_blocked(&v6([0xfe80, 0, 0, 0, 0, 0, 0, 1])));
    assert!(is_blocked(&v6([0xfebf, 0, 0, 0, 0, 0, 0, 1])));
    assert!(!is_blocked(&v6([0xfec0, 0, 0, 0, 0, 0, 0, 1])));
    assert!(!is_blocked(&v6([0xfbff, 0, 0, 0, 0, 0, 0, 1])));
    assert!(!is_blocked(&v6([0x2606, 0x4700, 0, 0, 0, 0, 0, 0x1111])));
    // An IPv4 address in IPv6 clothes is judged as what it is.
    assert!(is_blocked(&v6([0, 0, 0, 0, 0, 0xffff, 0x7f00, 1])));
    assert!(!is_blocked(&v6([0, 0, 0, 0, 0, 0xffff, 0x0808, 0x0808])));
}

#[test]
fn refusals_say_why() {
    match check(&u("http://127.0.0.1/"), false) {
        Err(ApiError::BadRequest(m)) => {
            assert_eq!(m, "target ip 127.0.0.1 is in a blocked range")
        }
        other => panic!("{other:?}"),
    }
    match check(&u("data:text/plain,hi"), false) {
        Err(ApiError::BadRequest(m)) => assert_eq!(m, "url has no host"),
        other => panic!("{other:?}"),
    }
}

#[test]
fn names_are_resolved_first() {
    match check(&u("https://example.com/a"), false) {
        Ok(Verdict::Resolve(name)) => assert_eq!(name, "example.com"),
        other => panic!("{other:?}"),
    }
    assert!(check_resolved(Ok(vec![IpAddr::V4([8, 8, 8, 8])])).is_ok());
    match check_resolved(Ok(vec![IpAddr::V4([8, 8, 8, 8]), v6([0, 0, 0, 0, 0, 0, 0, 1])])) {
        Err(ApiError::BadRequest(m)) => assert_eq!(m, "target ip ::1 is in a blocked range"),
        other => panic!("{other:?}"),
    }
    match check_resolved(Ok(vec![])) {
        Err(ApiError::BadRequest(m)) => assert_eq!(m, "host did not resolve"),
        other => panic!("{other:?}"),
    }
    match check_resolved(Err("no such host".to_string())) {
        Err(ApiError::BadRequest(m)) => assert_eq!(m, "cannot resolve host: no such host"),
        other => panic!("{other:?}"),
    }
}

#[test]
fn urls_are_parsed() {
    let page = u("HTTPS://Example.COM:8443/a b?q#f");
    assert_eq!(page.scheme, "https");
    assert_eq!(page.host_text.as_deref(), Some("example.com"));
    assert_eq!(page.href, "https://example.com:8443/a%20b?q#f");
    assert!(page.is_web());
    assert!(matches!(&page.host, Some(Host::Domain(d)) if d == "example.com"));
    assert!(matches!(u("http://1.2.3.4").host, Some(Host::Ip(IpAddr::V4([1, 2, 3, 4])))));
    assert!(!u("ftp://h/").is_web());
    assert_eq!(Url::parse("nonsense").unwrap_err(), "relative URL without a base");
}

#[test]
fn addresses_as_text() {
    assert_eq!(IpAddr::V4([192, 0, 2, 1]).to_text(), "192.0.2.1");
    assert_eq!(v6([0, 0, 0, 0, 0, 0, 0, 0]).to_text(), "::");
    assert_eq!(v6([0x2001, 0xdb8, 0, 0, 1, 0, 0, 1]).to_text(), "2001:db8::1:0:0:1");
    assert_eq!(v6([1, 0, 2, 3, 4, 5, 6, 7]).to_text(), "1:0:2:3:4:5:6:7");
    assert_eq!(v6([0, 0, 0, 0, 0, 0xffff, 0x102, 0x304]).to_text(), "::ffff:1.2.3.4");
    let a = SocketAddr { ip: v6([0, 0, 0, 0, 0, 0, 0, 1]), port: 80 };
    assert_eq!(a.to_text(), "[::1]:80");
}

#[test]
fn longest_run_of_zeros_is_left_out() {
    let cases: [([u16; 8], &str); 7] = [
        ([0, 0, 0, 0, 0, 0, 0, 1], "::1"),
        ([1, 0, 0, 0, 0, 0, 0, 0], "1::"),
        ([0, 0, 1, 0, 0, 0, 1, 0], "0:0:1::1:0"),
        ([0, 0, 1, 1, 0, 0, 1, 1], "::1:1:0:0:1:1"),
        ([0xfe80, 0, 0, 0, 0xabcd, 0, 0, 0], "fe80::abcd:0:0:0"),
        ([0, 0, 0, 0, 0, 0xffff, 0x0a0b, 0x0c0d], "::ffff:10.11.12.13"),
        ([0x1234, 0x5678, 0x9abc, 0xdef0, 0, 0x10, 0x100, 0x1000], "1234:5678:9abc:def0:0:10:100:1000"),
    ];
    for (s, said) in cases {
        assert_eq!(v6(s).to_text(), said);
    }
}
