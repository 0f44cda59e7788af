//! Which targets may be rendered. By default a target on a private or reserved
//! address is refused, so that nobody can point the renderer at internal
//! services or at cloud metadata.
//!
//! A host name is judged by the addresses that it resolves to. Between that and
//! the moment when the browser connects, the name may come to resolve to
//! another address; that gap stays open.

use vstd::prelude::*;

use crate::error::ApiError;
use crate::error::ApiErrorView;
use crate::net;
use crate::net::IpAddr;
use crate::net::IpView;
use crate::target::Host;
use crate::target::HostView;
use crate::target::Url;
use crate::text;

verus! {

/// An IPv4 address as a number.
pub open spec fn v4_number(a: int, b: int, c: int, d: int) -> int {
    a * 0x100_0000 + b * 0x1_0000 + c * 0x100 + d
}

/// Whether `n` is one of the `size` addresses from `a.b.c.d` on.
pub open spec fn in_block(n: int, a: int, b: int, c: int, d: int, size: int) -> bool {
    v4_number(a, b, c, d) <= n < v4_number(a, b, c, d) + size
}

/// Whether an IPv4 address lies in a private or reserved range.
pub open spec fn v4_blocked(o: Seq<u8>) -> bool {
    let n = v4_number(o[0] as int, o[1] as int, o[2] as int, o[3] as int);
    // 10.0.0.0/8, 172.16.0.0/12, 192.168.0.0/16: private
    ||| in_block(n, 10, 0, 0, 0, 0x100_0000)
    ||| in_block(n, 172, 16, 0, 0, 0x10_0000)
    ||| in_block(n, 192, 168, 0, 0, 0x1_0000)
    // 127.0.0.0/8: loopback
    ||| in_block(n, 127, 0, 0, 0, 0x100_0000)
    // 169.254.0.0/16: link-local, with the cloud metadata service
    ||| in_block(n, 169, 254, 0, 0, 0x1_0000)
    // 0.0.0.0 and 255.255.255.255
    ||| in_block(n, 0, 0, 0, 0, 1)
    ||| in_block(n, 255, 255, 255, 255, 1)
    // 192.0.2.0/24, 198.51.100.0/24, 203.0.113.0/24: documentation
    ||| in_block(n, 192, 0, 2, 0, 0x100)
    ||| in_block(n, 198, 51, 100, 0, 0x100)
    ||| in_block(n, 203, 0, 113, 0, 0x100)
    // 100.64.0.0/10: shared by carriers
    ||| in_block(n, 100, 64, 0, 0, 0x40_0000)
}

/// Whether an IPv6 address lies in a private or reserved range.
pub open spec fn v6_blocked(s: Seq<u16>) -> bool {
    // ::1 and ::
    ||| (forall|i: int| 0 <= i < 7 ==> s[i] == 0) && s[7] <= 1
    // fc00::/7: unique local
    ||| 0xfc00 <= s[0] <= 0xfdff
    // fe80::/10: link-local
    ||| 0xfe80 <= s[0] <= 0xfebf
    // ::ffff:0:0/96: judged by the IPv4 address inside
    ||| (net::mapped_v4(s) matches Some(o) && v4_blocked(o))
}

/// Whether an address lies in a private or reserved range.
pub open spec fn blocked(ip: IpView) -> bool {
    match ip {
        IpView::V4(o) => v4_blocked(o),
        IpView::V6(s) => v6_blocked(s),
    }
}

/// What is said of a blocked address.
pub open spec fn blocked_error(ip: IpView) -> ApiErrorView {
    ApiErrorView::BadRequest("target ip "@ + net::ip_text(ip) + " is in a blocked range"@)
}

/// How far a URL alone decides whether its target may be rendered.
#[derive(Debug)]
pub enum Verdict {
    /// The target is permitted.
    Permitted,
    /// The host name has to be resolved, and its addresses decide.
    Resolve(String),
}

/// A [`Verdict`] with its name as a character sequence.
pub enum VerdictView {
    Permitted,
    Resolve(Seq<char>),
}

impl View for Verdict {
    type V = VerdictView;

    open spec fn view(&self) -> VerdictView {
        match self {
            Verdict::Permitted => VerdictView::Permitted,
            Verdict::Resolve(name) => VerdictView::Resolve(name@),
        }
    }
}

/// What a host decides about a target.
pub open spec fn host_verdict(host: Option<HostView>, allow_private: bool) -> Result<
    VerdictView,
    ApiErrorView,
> {
    if allow_private {
        Ok(VerdictView::Permitted)
    } else {
        match host {
            None => Err(ApiErrorView::BadRequest("url has no host"@)),
            Some(HostView::Domain(name)) => Ok(VerdictView::Resolve(name)),
            Some(HostView::Ip(ip)) => if blocked(ip) {
                Err(blocked_error(ip))
            } else {
                Ok(VerdictView::Permitted)
            },
        }
    }
}

/// The view of what [`check`] returns.
pub open spec fn verdict_view(r: Result<Verdict, ApiError>) -> Result<VerdictView, ApiErrorView> {
    match r {
        Ok(v) => Ok(v@),
        Err(e) => Err(e@),
    }
}

/// Whether `ips[i]` is the first blocked address of the list.
pub open spec fn first_blocked(ips: Seq<IpAddr>, i: int) -> bool {
    &&& 0 <= i < ips.len()
    &&& blocked(ips[i]@)
    &&& forall|j: int| 0 <= j < i ==> !blocked(#[trigger] ips[j]@)
}

/// Whether the addresses that a name resolved to permit the target.
pub open spec fn permits(ips: Seq<IpAddr>) -> bool {
    ips.len() > 0 && forall|i: int| 0 <= i < ips.len() ==> !blocked(#[trigger] ips[i]@)
}

/// Decides about the target of a URL, unless private targets are allowed
/// anyway. An address in the URL is judged at once; a name is handed back to be
/// resolved, for [`check_resolved`] to decide.
pub fn check(url: &Url, allow_private: bool) -> (r: Result<Verdict, ApiError>)
    ensures
        verdict_view(r) == host_verdict(url@.host, allow_private),
{
    if allow_private {
        return Ok(Verdict::Permitted);
    }
    match &url.host {
        None => Err(ApiError::BadRequest(text::owned("url has no host"))),
        Some(Host::Domain(name)) => Ok(Verdict::Resolve(name.clone())),
        Some(Host::Ip(ip)) => {
            match guard(ip) {
                Ok(()) => Ok(Verdict::Permitted),
                Err(e) => Err(e),
            }
        },
    }
}

/// What the addresses that a name resolved to decide: `r` is the decision.
pub open spec fn decided(ips: Seq<IpAddr>, r: Result<(), ApiError>) -> bool {
    &&& r is Ok <==> permits(ips)
    &&& r matches Err(e) ==> if ips.len() == 0 {
        e@ == ApiErrorView::BadRequest("host did not resolve"@)
    } else {
        exists|i: int| #[trigger] first_blocked(ips, i) && e@ == blocked_error(ips[i]@)
    }
}

/// Decides about a target whose host name resolved to these addresses, or did
/// not resolve. One blocked address among them is enough to refuse it.
pub fn check_resolved(resolved: Result<Vec<IpAddr>, String>) -> (r: Result<(), ApiError>)
    ensures
        match resolved {
            Err(e) => r is Err && r->Err_0@ == ApiErrorView::BadRequest(
                "cannot resolve host: "@ + e@,
            ),
            Ok(ips) => decided(ips@, r),
        },
{
    match resolved {
        Err(e) => Err(ApiError::BadRequest(text::cat2("cannot resolve host: ", &e))),
        Ok(ips) => check_addresses(&ips),
    }
}

fn check_addresses(ips: &Vec<IpAddr>) -> (r: Result<(), ApiError>)
    ensures
        decided(ips@, r),
{
    if ips.len() == 0 {
        return Err(ApiError::BadRequest(text::owned("host did not resolve")));
    }
    let mut i: usize = 0;
    while i < ips.len()
        invariant
            i <= ips@.len(),
            ips@.len() > 0,
            forall|j: int| 0 <= j < i ==> !blocked(#[trigger] ips@[j]@),
        decreases ips@.len() - i,
    {
        match guard(&ips[i]) {
            Ok(()) => {},
            Err(e) => {
                assert(first_blocked(ips@, i as int));
                return Err(e);
            },
        }
        i = i + 1;
    }
    Ok(())
}

/// Refuses a blocked address.
pub fn guard(ip: &IpAddr) -> (r: Result<(), ApiError>)
    ensures
        r is Err <==> blocked(ip@),
        r matches Err(e) ==> e@ == blocked_error(ip@),
{
    if is_blocked(ip) {
        let t = ip.to_text();
        Err(ApiError::BadRequest(text::cat3("target ip ", &t, " is in a blocked range")))
    } else {
        Ok(())
    }
}

/// Whether an address lies in a private or reserved range: private networks,
/// loopback, link-local with the cloud metadata service, unspecified, unique
/// local, and other space that is not routed globally.
pub fn is_blocked(ip: &IpAddr) -> (r: bool)
    ensures
        r == blocked(ip@),
{
    match ip {
        IpAddr::V4(o) => is_blocked_v4(o),
        IpAddr::V6(s) => {
            let unspecified_or_loopback = s[0] == 0 && s[1] == 0 && s[2] == 0 && s[3] == 0 && s[4]
                == 0 && s[5] == 0 && s[6] == 0 && s[7] <= 1;
            if unspecified_or_loopback || is_unique_local_v6(s) || is_unicast_link_local_v6(s) {
                return true;
            }
            match net::to_ipv4_mapped(s) {
                Some(o) => is_blocked_v4(&o),
                None => false,
            }
        },
    }
}

fn is_blocked_v4(o: &[u8; 4]) -> (r: bool)
    ensures
        r == v4_blocked(o@),
{
    let private = o[0] == 10 || (o[0] == 172 && 16 <= o[1] && o[1] <= 31) || (o[0] == 192 && o[1]
        == 168);
    let loopback = o[0] == 127;
    let link_local = o[0] == 169 && o[1] == 254;
    let unspecified = o[0] == 0 && o[1] == 0 && o[2] == 0 && o[3] == 0;
    let broadcast = o[0] == 255 && o[1] == 255 && o[2] == 255 && o[3] == 255;
    let documentation = (o[0] == 192 && o[1] == 0 && o[2] == 2) || (o[0] == 198 && o[1] == 51
        && o[2] == 100) || (o[0] == 203 && o[1] == 0 && o[2] == 113);
    private || loopback || link_local || unspecified || broadcast || documentation || is_shared_v4(
        o,
    )
}

/// Whether an IPv4 address lies in the range that carriers share,
/// 100.64.0.0/10.
pub fn is_shared_v4(o: &[u8; 4]) -> (r: bool)
    ensures
        r == in_block(
            v4_number(o@[0] as int, o@[1] as int, o@[2] as int, o@[3] as int),
            100,
            64,
            0,
            0,
            0x40_0000,
        ),
{
    let b: u8 = o[1];
    assert((b & 0b1100_0000u8) == 0b0100_0000u8 <==> 64 <= b < 128) by (bit_vector);
    o[0] == 100 && (b & 0b1100_0000u8) == 0b0100_0000u8
}

/// Whether an IPv6 address is unique local, fc00::/7.
pub fn is_unique_local_v6(s: &[u16; 8]) -> (r: bool)
    ensures
        r == (0xfc00 <= s@[0] <= 0xfdff),
{
    let a: u16 = s[0];
    assert((a & 0xfe00u16) == 0xfc00u16 <==> 0xfc00 <= a <= 0xfdff) by (bit_vector);
    (a & 0xfe00u16) == 0xfc00u16
}

/// Whether an IPv6 address is link-local, fe80::/10.
pub fn is_unicast_link_local_v6(s: &[u16; 8]) -> (r: bool)
    ensures
        r == (0xfe80 <= s@[0] <= 0xfebf),
{
    let a: u16 = s[0];
    assert((a & 0xffc0u16) == 0xfe80u16 <==> 0xfe80 <= a <= 0xfebf) by (bit_vector);
    (a & 0xffc0u16) == 0xfe80u16
}

/// Private networks, loopback, link-local addresses, the address of no host and
/// the range that carriers share are blocked, by their first numbers.
pub proof fn law_private_v4_ranges_are_blocked(o: Seq<u8>)
    requires
        o.len() == 4,
    ensures
        o[0] == 10 ==> v4_blocked(o),
        o[0] == 172 && 16 <= o[1] <= 31 ==> v4_blocked(o),
        o[0] == 192 && o[1] == 168 ==> v4_blocked(o),
        o[0] == 127 ==> v4_blocked(o),
        o[0] == 169 && o[1] == 254 ==> v4_blocked(o),
        o == seq![0u8, 0, 0, 0] ==> v4_blocked(o),
        o[0] == 100 && 64 <= o[1] <= 127 ==> v4_blocked(o),
{
}

/// An IPv4 address that is mapped into IPv6 is judged as the IPv4 address.
pub proof fn law_mapped_address_is_judged_as_v4(s: Seq<u16>)
    requires
        s.len() == 8,
        net::mapped_v4(s) is Some,
    ensures
        blocked(IpView::V6(s)) == blocked(IpView::V4(net::mapped_v4(s)->0)),
{
    assert(s[5] == 0xffff);
}

/// One blocked address among those that a name resolves to is enough for its
/// target to be refused.
pub proof fn law_one_blocked_address_refuses(ips: Seq<IpAddr>, i: int, r: Result<(), ApiError>)
    requires
        0 <= i < ips.len(),
        blocked(ips[i]@),
        decided(ips, r),
    ensures
        r is Err,
{
}

/// Where private targets are allowed, every target is.
pub proof fn law_allowing_private_targets_allows_all(host: Option<HostView>)
    ensures
        host_verdict(host, true) == Ok::<VerdictView, ApiErrorView>(VerdictView::Permitted),
{
}

} // verus!
