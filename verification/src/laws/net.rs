//! Laws on addresses: their numbers are read back from their texts.

use vstd::prelude::*;

use crate::laws::text as reading;
use crate::net;
use crate::net::IpAddr;
use crate::net::IpView;
use crate::net::SocketAddr;
use crate::text;
use crate::tunnel;
use crate::tunnel::Tunnel;

verus! {

/// The four numbers of an IPv4 address are read back from between the dots.
pub proof fn law_v4_is_read_back(o: Seq<u8>)
    requires
        o.len() == 4,
    ensures
        reading::numbers_between(net::v4_text(o), '.', 10) == seq![
            o[0] as int,
            o[1] as int,
            o[2] as int,
            o[3] as int,
        ],
        forall|i: int|
            0 <= i < net::v4_text(o).len() ==> {
                let c = #[trigger] net::v4_text(o)[i];
                '0' <= c <= '9' || c == '.'
            },
{
    reveal_strlit(".");
    assert("."@ =~= seq!['.']);
    let a = text::decimal_text(o[0] as nat);
    let b = text::decimal_text(o[1] as nat);
    let c = text::decimal_text(o[2] as nat);
    let d = text::decimal_text(o[3] as nat);
    lemma_decimal(o[0] as nat);
    lemma_decimal(o[1] as nat);
    lemma_decimal(o[2] as nat);
    lemma_decimal(o[3] as nat);
    reading::lemma_one_number(a, '.', 10);
    reading::lemma_last_number(a, '.', b, 10);
    reading::lemma_last_number(a + seq!['.'] + b, '.', c, 10);
    reading::lemma_last_number(a + seq!['.'] + b + seq!['.'] + c, '.', d, 10);
    assert(reading::numbers_between(net::v4_text(o), '.', 10) =~= seq![
        o[0] as int,
        o[1] as int,
        o[2] as int,
        o[3] as int,
    ]);
}

proof fn lemma_decimal(n: nat)
    ensures
        reading::all_decimal(text::decimal_text(n)),
        reading::number_value(text::decimal_text(n), 10) == n,
        !reading::occurs('.', text::decimal_text(n)),
        !reading::occurs(':', text::decimal_text(n)),
{
    reading::law_decimal_is_read_back(n);
    reading::lemma_digits_hold_no('.', text::decimal_text(n));
    reading::lemma_digits_hold_no(':', text::decimal_text(n));
}

/// Different IPv4 addresses have different texts.
pub proof fn law_v4_texts_differ(a: Seq<u8>, b: Seq<u8>)
    requires
        a.len() == 4,
        b.len() == 4,
        net::v4_text(a) == net::v4_text(b),
    ensures
        a == b,
{
    law_v4_is_read_back(a);
    law_v4_is_read_back(b);
    let x = reading::numbers_between(net::v4_text(a), '.', 10);
    assert(x[0] == a[0] && x[1] == a[1] && x[2] == a[2] && x[3] == a[3]);
    assert(x[0] == b[0] && x[1] == b[1] && x[2] == b[2] && x[3] == b[3]);
    assert(a =~= b);
}

/// Segments are read back from between the colons, in hexadecimal.
pub proof fn law_segments_are_read_back(s: Seq<u16>)
    requires
        s.len() > 0,
    ensures
        reading::numbers_between(net::groups_text(s), ':', 16) == s.map_values(|x: u16| x as int),
    decreases s.len(),
{
    reveal_strlit(":");
    assert(":"@ =~= seq![':']);
    let last = text::radix_text(s.last() as nat, 16);
    reading::law_number_is_read_back(s.last() as nat, 16);
    reading::lemma_digits_hold_no(':', last);
    if s.len() == 1 {
        reading::lemma_one_number(last, ':', 16);
        assert(s.map_values(|x: u16| x as int) =~= seq![s.last() as int]);
    } else {
        law_segments_are_read_back(s.drop_last());
        reading::lemma_last_number(net::groups_text(s.drop_last()), ':', last, 16);
        assert(s.map_values(|x: u16| x as int) =~= s.drop_last().map_values(
            |x: u16| x as int,
        ).push(s.last() as int));
    }
}

/// No segments have no text.
pub proof fn law_no_segments_have_no_text()
    ensures
        net::groups_text(Seq::empty()) == Seq::<char>::empty(),
{
}

/// Whether the segments from `start` on, `len` of them, are zero.
pub open spec fn zeros(s: Seq<u16>, start: int, len: int) -> bool {
    0 <= start && 0 < len && start + len <= s.len() && forall|i: int|
        start <= i < start + len ==> s[i] == 0
}

/// An IPv6 address stands as its segments, in which `::` takes the place of the first
/// longest run of two or more zeros, where there is one. An address with an IPv4
/// address mapped into it ends in that.
pub proof fn law_v6_text_stands_for_its_segments(s: Seq<u16>)
    requires
        s.len() == 8,
    ensures
        (forall|i: int| 0 <= i < 5 ==> s[i] == 0) && s[5] == 0xffff ==> net::v6_text(s)
            == "::ffff:"@ + net::v4_text(
            seq![
                (s[6] / 0x100) as u8,
                (s[6] % 0x100) as u8,
                (s[7] / 0x100) as u8,
                (s[7] % 0x100) as u8,
            ],
        ),
        !((forall|i: int| 0 <= i < 5 ==> s[i] == 0) && s[5] == 0xffff) && (exists|i: int|
            0 <= i < 7 && #[trigger] s[i] == 0 && s[i + 1] == 0) ==> exists|start: int, len: int|
            {
                &&& #[trigger] zeros(s, start, len)
                &&& len >= 2
                &&& net::v6_text(s) == net::groups_text(s.take(start)) + "::"@ + net::groups_text(
                    s.skip(start + len),
                )
                &&& forall|a: int, n: int| #[trigger]
                    zeros(s, a, n) ==> n <= len && (n == len ==> start <= a)
            },
        !((forall|i: int| 0 <= i < 5 ==> s[i] == 0) && s[5] == 0xffff) && (forall|i: int|
            0 <= i < 7 ==> !(#[trigger] s[i] == 0 && s[i + 1] == 0)) ==> net::v6_text(s)
            == net::groups_text(s),
{
    let mapped = (forall|i: int| 0 <= i < 5 ==> s[i] == 0) && s[5] == 0xffff;
    if mapped {
        assert(s[0] == 0 && s[1] == 0 && s[2] == 0 && s[3] == 0 && s[4] == 0);
    } else {
        assert(net::mapped_v4(s) is None);
        if exists|start: int, len: int| net::elided(s, start, len) {
            let (start, len) = choose|start: int, len: int| net::elided(s, start, len);
            assert(net::zero_run(s, start, len));
            assert(zeros(s, start, len));
            assert(s[start] == 0 && s[start + 1] == 0);
            assert forall|a: int, n: int| #[trigger] zeros(s, a, n) implies n <= len && (n == len
                ==> start <= a) by {
                assert(net::zero_run(s, a, n));
            }
        } else {
            if exists|i: int| 0 <= i < 7 && #[trigger] s[i] == 0 && s[i + 1] == 0 {
                let i = choose|i: int| 0 <= i < 7 && #[trigger] s[i] == 0 && s[i + 1] == 0;
                lemma_longest_run(s, 2, i);
                assert(false);
            }
        }
    }
}

/// Where there is a run of zeros, there is a first longest one.
proof fn lemma_longest_run(s: Seq<u16>, len: int, start: int)
    requires
        net::zero_run(s, start, len),
        len >= 2,
    ensures
        exists|a: int, n: int| net::elided(s, a, n),
    decreases s.len() - len, start,
{
    if exists|a: int, n: int| #[trigger]
        net::zero_run(s, a, n) && 0 < n && (n > len || (n == len && a < start)) {
        let (a, n) = choose|a: int, n: int| #[trigger]
            net::zero_run(s, a, n) && 0 < n && (n > len || (n == len && a < start));
        lemma_longest_run(s, n, a);
    } else {
        assert(net::first_longest_run(s, s.len() as int, start, len)) by {
            assert forall|a: int, n: int| #[trigger]
                net::zero_run(s, a, n) && 0 < n && a + n <= s.len() implies n <= len && (n == len
                ==> start <= a) by {}
        }
        assert(net::elided(s, start, len));
    }
}

/// An address is written as what it is.
pub proof fn law_address_is_written_as_its_kind(o: Seq<u8>, s: Seq<u16>)
    ensures
        net::ip_text(IpView::V4(o)) == net::v4_text(o),
        net::ip_text(IpView::V6(s)) == net::v6_text(s),
{
}

proof fn lemma_socket(a: SocketAddr)
    ensures
        exists|front: Seq<char>| #[trigger]
            (front + seq![':'] + text::decimal_text(a.port as nat)) == net::socket_text(a)
                && front == (match a.ip {
                IpAddr::V4(o) => net::v4_text(o@),
                IpAddr::V6(s) => seq!['['] + net::v6_text(s@) + seq![']'],
            }),
{
    reveal_strlit(":");
    reveal_strlit("[");
    reveal_strlit("]:");
    let p = text::decimal_text(a.port as nat);
    match a.ip {
        IpAddr::V4(o) => {
            let front = net::v4_text(o@);
            assert(front + seq![':'] + p =~= net::socket_text(a));
        },
        IpAddr::V6(s) => {
            let front = seq!['['] + net::v6_text(s@) + seq![']'];
            assert(front + seq![':'] + p =~= net::socket_text(a));
        },
    }
}

/// The port of a socket address is read back from behind the last colon of its text,
/// and its address stands before that, in brackets where it holds colons itself.
pub proof fn law_port_is_read_back(a: SocketAddr)
    ensures
        ({
            let t = net::socket_text(a);
            &&& reading::all_decimal(reading::behind_last(t, ':'))
            &&& reading::number_value(reading::behind_last(t, ':'), 10) == a.port
            &&& match a.ip {
                IpAddr::V4(o) => reading::before_last(t, ':') == net::v4_text(o@),
                IpAddr::V6(s) => reading::before_last(t, ':') == seq!['['] + net::v6_text(s@)
                    + seq![']'],
            }
        }),
{
    let p = text::decimal_text(a.port as nat);
    lemma_decimal(a.port as nat);
    lemma_socket(a);
    let front = choose|front: Seq<char>| #[trigger]
        (front + seq![':'] + p) == net::socket_text(a) && front == (match a.ip {
            IpAddr::V4(o) => net::v4_text(o@),
            IpAddr::V6(s) => seq!['['] + net::v6_text(s@) + seq![']'],
        });
    reading::lemma_behind_last(front, ':', p);
}

/// Different ports on one address have different texts.
pub proof fn law_ports_have_different_texts(a: SocketAddr, b: SocketAddr)
    requires
        a.ip == b.ip,
        a.port != b.port,
    ensures
        net::socket_text(a) != net::socket_text(b),
{
    law_port_is_read_back(a);
    law_port_is_read_back(b);
}

/// The proxy of a tunnel is a SOCKS5 proxy on the port that the tunnel's proxy is bound
/// to: that port is read back from behind the last colon.
pub proof fn law_proxy_leads_to_the_port(t: Tunnel)
    ensures
        ({
            let p = tunnel::proxy_text(t);
            &&& "socks5://"@.is_prefix_of(p)
            &&& reading::number_value(reading::behind_last(p, ':'), 10) == t.socks_addr.port
            &&& p.skip("socks5://"@.len() as int) == net::socket_text(t.socks_addr)
        }),
{
    let a = t.socks_addr;
    let p = text::decimal_text(a.port as nat);
    lemma_decimal(a.port as nat);
    lemma_socket(a);
    let front = choose|front: Seq<char>| #[trigger]
        (front + seq![':'] + p) == net::socket_text(a) && front == (match a.ip {
            IpAddr::V4(o) => net::v4_text(o@),
            IpAddr::V6(s) => seq!['['] + net::v6_text(s@) + seq![']'],
        });
    let whole = "socks5://"@ + front;
    assert(whole + seq![':'] + p =~= tunnel::proxy_text(t));
    reading::lemma_behind_last(whole, ':', p);
    assert(tunnel::proxy_text(t).skip("socks5://"@.len() as int) =~= net::socket_text(a));
}

/// The addresses that are mapped into IPv6 are those whose first five segments are zero
/// and whose sixth has all bits set, and they hold the last two segments.
pub proof fn law_mapped_address_is_in_the_last_segments(s: Seq<u16>)
    requires
        s.len() == 8,
    ensures
        net::mapped_v4(s) is Some <==> (forall|i: int| 0 <= i < 5 ==> s[i] == 0) && s[5] == 0xffff,
        net::mapped_v4(s) matches Some(o) ==> o.len() == 4 && o[0] * 0x100 + o[1] == s[6] && o[2]
            * 0x100 + o[3] == s[7],
{
    if net::mapped_v4(s) is None {
        if forall|i: int| 0 <= i < 5 ==> s[i] == 0 {
            assert(s[0] == 0 && s[1] == 0 && s[2] == 0 && s[3] == 0 && s[4] == 0);
        }
    }
}

} // verus!
