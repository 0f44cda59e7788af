//! Laws on requests: which key a request presents, who it comes from, and what a shot
//! is taken with.

use vstd::prelude::*;

use crate::chrome::ShotRequestView;
use crate::config::Config;
use crate::error::ApiError;
use crate::error::ApiErrorView;
use crate::handlers;
use crate::handlers::Authenticated;
use crate::handlers::ShotParams;
use crate::handlers::ShotPlanView;
use crate::keys::KeyEntryView;
use crate::net::IpView;
use crate::target::HostView;
use crate::target::UrlView;
use crate::text;
use crate::tunnel::Tunnel;

verus! {

// --- Shots ------------------------------------------------------------------

/// The shot of a plan.
pub open spec fn shot_of(plan: ShotPlanView) -> ShotRequestView {
    match plan {
        ShotPlanView::Take(r) => r,
        ShotPlanView::Resolve { name, request } => request,
    }
}

/// A shot is taken of the page that was asked for, and each of its width, height, ratio
/// and time is the one that was asked for, or the default exactly where none was: one
/// does not depend on another, on the tunnel or on the target.
pub proof fn law_shot_is_the_one_asked_for<P>(
    parsed: Result<UrlView, Seq<char>>,
    params: ShotParams,
    config: Config<P>,
    tunnels: Map<Seq<char>, Tunnel>,
)
    requires
        handlers::planned(parsed, params, config, tunnels) is Ok,
    ensures
        ({
            let r = shot_of(handlers::planned(parsed, params, config, tunnels)->Ok_0);
            &&& r.url == params.url@
            &&& params.width matches Some(w) ==> r.width == w
            &&& params.width is None ==> r.width == config.default_width
            &&& params.height matches Some(h) ==> r.height == h
            &&& params.height is None ==> r.height == config.default_height
            &&& params.scale_bits matches Some(b) ==> r.scale_bits == b
            &&& params.scale_bits is None ==> r.scale_bits == 0x3FF0_0000_0000_0000
            &&& params.timeout matches Some(t) ==> r.timeout_secs == t
            &&& params.timeout is None ==> r.timeout_secs == config.render_timeout_secs
        }),
{
}

/// A shot goes through a proxy exactly where a tunnel is named, and then through the one
/// that the tunnel of that name has.
pub proof fn law_shot_goes_through_the_named_tunnel<P>(
    parsed: Result<UrlView, Seq<char>>,
    params: ShotParams,
    config: Config<P>,
    tunnels: Map<Seq<char>, Tunnel>,
)
    requires
        handlers::planned(parsed, params, config, tunnels) is Ok,
    ensures
        ({
            let plan = handlers::planned(parsed, params, config, tunnels)->Ok_0;
            let r = shot_of(plan);
            &&& params.tunnel is None ==> r.proxy_server is None
            &&& params.tunnel matches Some(id) ==> {
                &&& tunnels.contains_key(id@)
                &&& plan is Take
                &&& r.proxy_server == Some(
                    "socks5://"@ + crate::net::socket_text(tunnels[id@].socks_addr),
                )
            }
        }),
{
}

/// What a shot is taken with depends on nothing of the target but whether it may be
/// taken.
pub proof fn law_target_does_not_change_the_shot<P>(
    one: Result<UrlView, Seq<char>>,
    other: Result<UrlView, Seq<char>>,
    params: ShotParams,
    config: Config<P>,
    tunnels: Map<Seq<char>, Tunnel>,
)
    requires
        handlers::planned(one, params, config, tunnels) is Ok,
        handlers::planned(other, params, config, tunnels) is Ok,
    ensures
        shot_of(handlers::planned(one, params, config, tunnels)->Ok_0) == shot_of(
            handlers::planned(other, params, config, tunnels)->Ok_0,
        ),
{
}

/// A request for a shot is refused exactly where its URL is none, its tunnel is not open,
/// or, without a tunnel and unless private targets are allowed, its URL has no host or a
/// blocked address. It waits for addresses exactly where, otherwise, its host is a name.
pub proof fn law_when_a_shot_is_refused<P>(
    parsed: Result<UrlView, Seq<char>>,
    params: ShotParams,
    config: Config<P>,
    tunnels: Map<Seq<char>, Tunnel>,
)
    ensures
        ({
            let plan = handlers::planned(parsed, params, config, tunnels);
            &&& parsed matches Err(e) ==> plan == Err::<ShotPlanView, ApiErrorView>(
                ApiErrorView::BadRequest("invalid url: "@ + e),
            )
            &&& parsed matches Ok(url) ==> match params.tunnel {
                Some(id) => if tunnels.contains_key(id@) {
                    plan is Ok
                } else {
                    plan == Err::<ShotPlanView, ApiErrorView>(
                        ApiErrorView::BadRequest("unknown or closed tunnel"@),
                    )
                },
                None => if config.allow_private_targets {
                    plan is Ok && plan->Ok_0 is Take
                } else {
                    match url.host {
                        None => plan == Err::<ShotPlanView, ApiErrorView>(
                            ApiErrorView::BadRequest("url has no host"@),
                        ),
                        Some(HostView::Domain(d)) => plan is Ok && plan->Ok_0 is Resolve
                            && plan->Ok_0->name == d,
                        Some(HostView::Ip(ip)) => if crate::ssrf::blocked(ip) {
                            plan == Err::<ShotPlanView, ApiErrorView>(
                                ApiErrorView::BadRequest(
                                    "target ip "@ + crate::net::ip_text(ip)
                                        + " is in a blocked range"@,
                                ),
                            )
                        } else {
                            plan is Ok && plan->Ok_0 is Take
                        },
                    }
                },
            }
        }),
{
}

// --- Keys -------------------------------------------------------------------

/// The value of a name is that of the first pair with it, and there is none exactly where
/// no pair has the name.
pub proof fn law_first_pair_counts(pairs: Seq<(Seq<char>, Seq<char>)>, name: Seq<char>)
    ensures
        match handlers::first_value(pairs, name) {
            Some(v) => exists|i: int|
                0 <= i < pairs.len() && #[trigger] pairs[i] == (name, v) && forall|j: int|
                    0 <= j < i ==> (#[trigger] pairs[j]).0 != name,
            None => forall|i: int| 0 <= i < pairs.len() ==> (#[trigger] pairs[i]).0 != name,
        },
    decreases pairs.len(),
{
    if pairs.len() > 0 && pairs[0].0 != name {
        let rest = pairs.skip(1);
        law_first_pair_counts(rest, name);
        match handlers::first_value(rest, name) {
            Some(v) => {
                let i = choose|i: int|
                    0 <= i < rest.len() && #[trigger] rest[i] == (name, v) && forall|j: int|
                        0 <= j < i ==> (#[trigger] rest[j]).0 != name;
                assert(pairs[i + 1] == (name, v));
                assert forall|j: int| 0 <= j < i + 1 implies (#[trigger] pairs[j]).0 != name by {
                    if j > 0 {
                        assert(rest[j - 1] == pairs[j]);
                    }
                }
            },
            None => {
                assert forall|i: int| 0 <= i < pairs.len() implies (#[trigger] pairs[i]).0
                    != name by {
                    if i > 0 {
                        assert(rest[i - 1] == pairs[i]);
                    }
                }
            },
        }
    } else if pairs.len() > 0 {
        assert(pairs[0] == (name, pairs[0].1));
    }
}

/// The key in the `X-API-Key` header goes before all others, a bearer token before the
/// query, and the query is only looked at without either.
pub proof fn law_order_of_presented_keys(
    header: Seq<char>,
    token: Seq<char>,
    other: Option<Seq<char>>,
    pairs: Seq<(Seq<char>, Seq<char>)>,
)
    ensures
        handlers::presented(Some(header), other, pairs) == Some(header),
        handlers::presented(None, Some("Bearer "@ + token), pairs) == Some(text::trimmed(token)),
        handlers::presented(None, Some("bearer "@ + token), pairs) == Some(text::trimmed(token)),
        handlers::presented(None, None, pairs) == handlers::first_value(pairs, "api_key"@),
        other matches Some(v) && !"Bearer "@.is_prefix_of(v) && !"bearer "@.is_prefix_of(v)
            ==> handlers::presented(None, other, pairs) == handlers::first_value(
            pairs,
            "api_key"@,
        ),
{
    let upper = "Bearer "@ + token;
    let lower = "bearer "@ + token;
    reveal_strlit("Bearer ");
    reveal_strlit("bearer ");
    assert(upper.skip("Bearer "@.len() as int) =~= token);
    assert(lower.skip("bearer "@.len() as int) =~= token);
    assert(lower[0] == 'b' && "Bearer "@[0] == 'B');
    assert(!"Bearer "@.is_prefix_of(lower)) by {
        if "Bearer "@.is_prefix_of(lower) {
            assert("Bearer "@[0] == lower.take("Bearer "@.len() as int)[0]);
        }
    }
}

/// A key that passes is the first enabled one with the hash of what was presented, and
/// the request is told its id, label and role.
pub proof fn law_caller_is_the_holder_of_the_key(
    keys: Seq<KeyEntryView>,
    presented: Option<Seq<char>>,
    r: Result<Authenticated, ApiError>,
)
    requires
        handlers::authorized(keys, presented, r),
    ensures
        r matches Ok(a) ==> presented is Some && exists|i: int|
            {
                &&& 0 <= i < keys.len()
                &&& (#[trigger] keys[i]).hash == crate::keys::key_hash(presented->0)
                &&& !keys[i].disabled
                &&& a.key.0@ == keys[i].id
                &&& a.label@ == keys[i].label
                &&& a.role == keys[i].role
                &&& forall|j: int|
                    0 <= j < i ==> (#[trigger] keys[j]).disabled || keys[j].hash
                        != crate::keys::key_hash(presented->0)
            },
        r matches Err(e) ==> e@ is Unauthorized && (presented matches Some(secret) ==> forall|
            i: int,
        |
            0 <= i < keys.len() ==> (#[trigger] keys[i]).disabled || keys[i].hash
                != crate::keys::key_hash(secret)),
        presented is None ==> r is Err && r->Err_0@ == ApiErrorView::Unauthorized(
            "missing api key"@,
        ),
        presented is Some && r is Err ==> r->Err_0@ == ApiErrorView::Unauthorized(
            "invalid api key"@,
        ),
{
    if let Some(secret) = presented {
        let hash = crate::keys::key_hash(secret);
        match r {
            Ok(a) => {
                crate::laws::keys::law_holder_is_the_first_enabled(
                    keys,
                    hash,
                    a.key.0@,
                    a.label@,
                    a.role,
                );
            },
            Err(e) => {
                crate::laws::keys::law_unknown_means_no_enabled_key(keys, hash);
            },
        }
    }
}

/// No address that is blocked is ever taken without a tunnel.
pub proof fn law_no_blocked_address_without_a_tunnel<P>(
    url: UrlView,
    ip: IpView,
    params: ShotParams,
    config: Config<P>,
    tunnels: Map<Seq<char>, Tunnel>,
)
    requires
        params.tunnel is None,
        url.host == Some(HostView::Ip(ip)),
        handlers::planned(Ok(url), params, config, tunnels) is Ok,
    ensures
        config.allow_private_targets || !crate::ssrf::blocked(ip),
{
}

/// A request without a query has no pairs, and one with a query has those of the query.
pub proof fn law_pairs_of_a_query(query: &str)
    ensures
        handlers::query_of(Some(query)) == crate::target::form_pairs(text::utf8(query@)),
        handlers::query_of(None).len() == 0,
{
}

} // verus!
