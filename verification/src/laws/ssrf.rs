//! Laws on the targets that may be rendered.

use vstd::prelude::*;

use crate::error::ApiError;
use crate::error::ApiErrorView;
use crate::net;
use crate::net::IpAddr;
use crate::net::IpView;
use crate::ssrf;
use crate::ssrf::VerdictView;
use crate::target::HostView;

verus! {

/// Exactly these IPv4 addresses are blocked: the private networks, loopback, link-local
/// addresses, the addresses of no host and of all hosts, documentation, and the range that
/// carriers share.
pub proof fn law_which_v4_addresses_are_blocked(o: Seq<u8>)
    requires
        o.len() == 4,
    ensures
        ssrf::v4_blocked(o) <==> {
            ||| o[0] == 10
            ||| o[0] == 127
            ||| o[0] == 172 && 16 <= o[1] <= 31
            ||| o[0] == 192 && o[1] == 168
            ||| o[0] == 169 && o[1] == 254
            ||| o[0] == 100 && 64 <= o[1] <= 127
            ||| o[0] == 192 && o[1] == 0 && o[2] == 2
            ||| o[0] == 198 && o[1] == 51 && o[2] == 100
            ||| o[0] == 203 && o[1] == 0 && o[2] == 113
            ||| o[0] == 0 && o[1] == 0 && o[2] == 0 && o[3] == 0
            ||| o[0] == 255 && o[1] == 255 && o[2] == 255 && o[3] == 255
        },
        ssrf::blocked(IpView::V4(o)) == ssrf::v4_blocked(o),
{
}

/// The addresses of a block are those from its first on, as many as it has.
pub proof fn law_addresses_of_a_block(n: int, a: int, b: int, c: int, d: int, size: int)
    ensures
        ssrf::in_block(n, a, b, c, d, size) <==> ((a * 256 + b) * 256 + c) * 256 + d <= n < ((a
            * 256 + b) * 256 + c) * 256 + d + size,
{
}

/// Exactly these IPv6 addresses are blocked: loopback and the address of no host, unique
/// local and link-local addresses, and those that stand for a blocked IPv4 address.
pub proof fn law_which_v6_addresses_are_blocked(s: Seq<u16>, o: Seq<u8>)
    requires
        s.len() == 8,
        o.len() == 4,
        o[0] == s[6] / 256 && o[1] == s[6] % 256 && o[2] == s[7] / 256 && o[3] == s[7] % 256,
    ensures
        ssrf::blocked(IpView::V6(s)) <==> {
            let zeros = s[0] == 0 && s[1] == 0 && s[2] == 0 && s[3] == 0 && s[4] == 0;
            ||| zeros && s[5] == 0 && s[6] == 0 && (s[7] == 0 || s[7] == 1)
            ||| 0xfc00 <= s[0] <= 0xfdff
            ||| 0xfe80 <= s[0] <= 0xfebf
            ||| zeros && s[5] == 0xffff && ssrf::blocked(IpView::V4(o))
        },
{
    if net::mapped_v4(s) is Some {
        assert(net::mapped_v4(s)->0 =~= o);
    }
}

/// What is said of a blocked address names it.
pub proof fn law_blocked_address_is_named(ip: IpView)
    ensures
        ssrf::blocked_error(ip) == ApiErrorView::BadRequest(
            "target ip "@ + net::ip_text(ip) + " is in a blocked range"@,
        ),
{
}

/// Unless private targets are allowed, a host that is an address is permitted exactly where
/// the address is not blocked, a name is to be resolved as it is, and no host is refused.
pub proof fn law_what_a_host_decides(host: HostView)
    ensures
        host matches HostView::Domain(name) ==> ssrf::host_verdict(Some(host), false) == Ok::<
            VerdictView,
            ApiErrorView,
        >(VerdictView::Resolve(name)),
        host matches HostView::Ip(ip) ==> (ssrf::host_verdict(Some(host), false) is Err
            <==> ssrf::blocked(ip)) && (!ssrf::blocked(ip) ==> ssrf::host_verdict(
            Some(host),
            false,
        ) == Ok::<VerdictView, ApiErrorView>(VerdictView::Permitted)) && (ssrf::blocked(ip)
            ==> ssrf::host_verdict(Some(host), false) == Err::<VerdictView, ApiErrorView>(
            ssrf::blocked_error(ip),
        )),
        ssrf::host_verdict(None, false) == Err::<VerdictView, ApiErrorView>(
            ApiErrorView::BadRequest("url has no host"@),
        ),
        ssrf::host_verdict(Some(host), true) == Ok::<VerdictView, ApiErrorView>(
            VerdictView::Permitted,
        ),
{
}

/// A name is permitted exactly where it resolves, and to no blocked address; else the first
/// blocked one is named, or that there is none at all.
pub proof fn law_what_addresses_decide(ips: Seq<IpAddr>, r: Result<(), ApiError>)
    requires
        ssrf::decided(ips, r),
    ensures
        r is Ok <==> ips.len() > 0 && forall|i: int|
            0 <= i < ips.len() ==> !ssrf::blocked(#[trigger] ips[i]@),
        ips.len() == 0 ==> r is Err && r->Err_0@ == ApiErrorView::BadRequest(
            "host did not resolve"@,
        ),
        ips.len() > 0 && r is Err ==> exists|i: int|
            0 <= i < ips.len() && ssrf::blocked(#[trigger] ips[i]@) && r->Err_0@
                == ApiErrorView::BadRequest(
                "target ip "@ + net::ip_text(ips[i]@) + " is in a blocked range"@,
            ) && forall|j: int| 0 <= j < i ==> !ssrf::blocked(#[trigger] ips[j]@),
{
    if ips.len() > 0 && r is Err {
        let i = choose|i: int| #[trigger]
            ssrf::first_blocked(ips, i) && r->Err_0@ == ssrf::blocked_error(ips[i]@);
        assert(ssrf::blocked(ips[i]@));
    }
}

} // verus!
