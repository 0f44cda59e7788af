//! What the routes of the server decide.

use vstd::prelude::*;

use crate::chrome::ShotRequest;
use crate::chrome::ShotRequestView;
use crate::config::Config;
use crate::error::ApiError;
use crate::error::ApiErrorView;
use crate::keys;
use crate::keys::KeyEntryView;
use crate::keys::KeyStore;
use crate::keys::Role;
use crate::net::IpAddr;
use crate::ssrf;
use crate::ssrf::Verdict;
use crate::ssrf::VerdictView;
use crate::target;
use crate::target::HostView;
use crate::target::Url;
use crate::target::UrlView;
use crate::text;
use crate::tunnel;
use crate::tunnel::Tunnel;
use crate::tunnel::TunnelRegistry;

verus! {

/// What tells that the server is alive.
pub fn health() -> (r: &'static str)
    ensures
        r@ == "ok"@,
{
    "ok"
}

// --- Authentication ---------------------------------------------------------

/// The id of the key that a request was made with.
#[derive(Debug)]
pub struct AuthedKey(pub String);

/// The key that a request was made with.
#[derive(Debug)]
pub struct Authenticated {
    pub key: AuthedKey,
    pub label: String,
    pub role: Role,
}

/// The value of the first pair with a name.
pub open spec fn first_value(pairs: Seq<(Seq<char>, Seq<char>)>, name: Seq<char>) -> Option<
    Seq<char>,
>
    decreases pairs.len(),
{
    if pairs.len() == 0 {
        None
    } else if pairs[0].0 == name {
        Some(pairs[0].1)
    } else {
        first_value(pairs.skip(1), name)
    }
}

/// The token of an `Authorization` header, if it is of the bearer kind.
pub open spec fn bearer(value: Seq<char>) -> Option<Seq<char>> {
    match text::stripped(value, "Bearer "@) {
        Some(token) => Some(text::trimmed(token)),
        None => match text::stripped(value, "bearer "@) {
            Some(token) => Some(text::trimmed(token)),
            None => None,
        },
    }
}

/// The key that a request presents: in its `X-API-Key` header, else in its
/// `Authorization` header, else in the pairs of its query.
pub open spec fn presented(
    x_api_key: Option<Seq<char>>,
    authorization: Option<Seq<char>>,
    pairs: Seq<(Seq<char>, Seq<char>)>,
) -> Option<Seq<char>> {
    match x_api_key {
        Some(key) => Some(key),
        None => match authorization {
            Some(value) => match bearer(value) {
                Some(token) => Some(token),
                None => first_value(pairs, "api_key"@),
            },
            None => first_value(pairs, "api_key"@),
        },
    }
}

/// The pairs of an optional query.
pub open spec fn query_of(query: Option<&str>) -> Seq<(Seq<char>, Seq<char>)> {
    match query {
        Some(q) => target::form_pairs(text::utf8(q@)),
        None => seq![],
    }
}

fn find_value(pairs: &Vec<(String, String)>, name: &str) -> (r: Option<String>)
    ensures
        text::opt_text(r) == first_value(target::pairs_view(pairs@), name@),
{
    let ghost all = target::pairs_view(pairs@);
    let mut i: usize = 0;
    assert(all.skip(0) =~= all);
    while i < pairs.len()
        invariant
            i <= pairs@.len(),
            all == target::pairs_view(pairs@),
            first_value(all, name@) == first_value(all.skip(i as int), name@),
        decreases pairs@.len() - i,
    {
        assert(all.skip(i as int)[0] == (pairs@[i as int].0@, pairs@[i as int].1@));
        if text::str_eq(&pairs[i].0, name) {
            return Some(pairs[i].1.clone());
        }
        assert(all.skip(i as int).skip(1) =~= all.skip(i + 1));
        i = i + 1;
    }
    None
}

/// The token of an `Authorization` header, if it is of the bearer kind.
pub fn bearer_token(value: &str) -> (r: Option<String>)
    ensures
        text::opt_text(r) == bearer(value@),
{
    match text::strip(value, "Bearer ") {
        Some(token) => Some(text::trim(&token)),
        None => match text::strip(value, "bearer ") {
            Some(token) => Some(text::trim(&token)),
            None => None,
        },
    }
}

/// The key that a request presents, with the pairs of its query.
pub fn presented_key(
    x_api_key: Option<&str>,
    authorization: Option<&str>,
    pairs: &Vec<(String, String)>,
) -> (r: Option<String>)
    ensures
        text::opt_text(r) == presented(
            text::opt_str(x_api_key),
            text::opt_str(authorization),
            target::pairs_view(pairs@),
        ),
{
    if let Some(key) = x_api_key {
        return Some(text::owned(key));
    }
    if let Some(value) = authorization {
        if let Some(token) = bearer_token(value) {
            return Some(token);
        }
    }
    find_value(pairs, "api_key")
}

/// The key that a request presents: in its `X-API-Key` header, as a bearer token
/// in its `Authorization` header, or as `api_key` in its query, in this order.
pub fn extract_key(x_api_key: Option<&str>, authorization: Option<&str>, query: Option<&str>) -> (r:
    Option<String>)
    ensures
        text::opt_text(r) == presented(
            text::opt_str(x_api_key),
            text::opt_str(authorization),
            query_of(query),
        ),
{
    let pairs: Vec<(String, String)> = match query {
        Some(q) => target::query_pairs(q),
        None => Vec::new(),
    };
    assert(target::pairs_view(pairs@) =~= query_of(query));
    presented_key(x_api_key, authorization, &pairs)
}

/// Whether `r` is what a presented key comes to with these keys.
pub open spec fn authorized(
    keys: Seq<KeyEntryView>,
    presented: Option<Seq<char>>,
    r: Result<Authenticated, ApiError>,
) -> bool {
    match presented {
        None => r is Err && r->Err_0@ == ApiErrorView::Unauthorized("missing api key"@),
        Some(secret) => match r {
            Ok(a) => keys::held_by(keys, keys::key_hash(secret), a.key.0@, a.label@, a.role),
            Err(e) => keys::unknown_hash(keys, keys::key_hash(secret)) && e@
                == ApiErrorView::Unauthorized("invalid api key"@),
        },
    }
}

/// Lets a request pass that presents an enabled key.
pub fn authorize<P>(store: &KeyStore<P>, presented: Option<String>) -> (r: Result<
    Authenticated,
    ApiError,
>)
    ensures
        authorized(store@, text::opt_text(presented), r),
{
    match presented {
        None => Err(ApiError::Unauthorized(text::owned("missing api key"))),
        Some(secret) => match store.verify(&secret) {
            Some((id, label, role)) => Ok(Authenticated { key: AuthedKey(id), label, role }),
            None => Err(ApiError::Unauthorized(text::owned("invalid api key"))),
        },
    }
}

/// Lets a request pass that presents an enabled key in its headers or its query.
pub fn require_api_key<P>(
    store: &KeyStore<P>,
    x_api_key: Option<&str>,
    authorization: Option<&str>,
    query: Option<&str>,
) -> (r: Result<Authenticated, ApiError>)
    ensures
        authorized(
            store@,
            presented(text::opt_str(x_api_key), text::opt_str(authorization), query_of(query)),
            r,
        ),
{
    authorize(store, extract_key(x_api_key, authorization, query))
}

/// Lets a request pass whose key may manage keys.
pub fn require_admin(role: Role) -> (r: Result<(), ApiError>)
    ensures
        match role {
            Role::Admin => r is Ok,
            Role::Render => r is Err && r->Err_0@ == ApiErrorView::Forbidden("admin key required"@),
        },
{
    match role {
        Role::Admin => Ok(()),
        Role::Render => Err(ApiError::Forbidden(text::owned("admin key required"))),
    }
}

// --- Shots ------------------------------------------------------------------

/// The bits of the device pixel ratio one.
pub const UNIT_SCALE_BITS: u64 = 0x3FF0_0000_0000_0000;

/// What a request for a shot names.
#[derive(Debug)]
pub struct ShotParams {
    pub url: String,
    pub width: Option<u32>,
    pub height: Option<u32>,
    /// The bits of the device pixel ratio, a 64-bit IEEE 754 number.
    pub scale_bits: Option<u64>,
    /// How many seconds the shot may take.
    pub timeout: Option<u64>,
    /// The tunnel that the shot goes through.
    pub tunnel: Option<String>,
}

/// What a request for a shot leads to.
#[derive(Debug)]
pub enum ShotPlan {
    /// Take the shot.
    Take(ShotRequest),
    /// Resolve the name of the host; its addresses decide whether the shot may be
    /// taken.
    Resolve { name: String, request: ShotRequest },
}

/// A [`ShotPlan`] over sequences.
pub enum ShotPlanView {
    Take(ShotRequestView),
    Resolve { name: Seq<char>, request: ShotRequestView },
}

impl View for ShotPlan {
    type V = ShotPlanView;

    open spec fn view(&self) -> ShotPlanView {
        match self {
            ShotPlan::Take(request) => ShotPlanView::Take(request@),
            ShotPlan::Resolve { name, request } => ShotPlanView::Resolve {
                name: name@,
                request: request@,
            },
        }
    }
}

/// The view of what a request for a shot leads to.
pub open spec fn plan_view(r: Result<ShotPlan, ApiError>) -> Result<ShotPlanView, ApiErrorView> {
    match r {
        Ok(plan) => Ok(plan@),
        Err(e) => Err(e@),
    }
}

/// A value, or what stands for it where there is none.
pub open spec fn value_or<T>(value: Option<T>, default: T) -> T {
    match value {
        Some(v) => v,
        None => default,
    }
}

/// The shot that a request asks for, through this proxy.
pub open spec fn request_of<P>(
    params: ShotParams,
    config: Config<P>,
    proxy: Option<Seq<char>>,
) -> ShotRequestView {
    ShotRequestView {
        url: params.url@,
        width: value_or(params.width, config.default_width),
        height: value_or(params.height, config.default_height),
        scale_bits: value_or(params.scale_bits, UNIT_SCALE_BITS),
        timeout_secs: value_or(params.timeout, config.render_timeout_secs),
        proxy_server: proxy,
    }
}

/// What a request for a shot leads to, its URL parsed to `parsed`. Through a tunnel
/// a shot may reach what its client can; without one, private targets are refused.
pub open spec fn planned<P>(
    parsed: Result<UrlView, Seq<char>>,
    params: ShotParams,
    config: Config<P>,
    tunnels: Map<Seq<char>, Tunnel>,
) -> Result<ShotPlanView, ApiErrorView> {
    match parsed {
        Err(e) => Err(ApiErrorView::BadRequest("invalid url: "@ + e)),
        Ok(url) => match params.tunnel {
            Some(id) => if tunnels.contains_key(id@) {
                Ok(
                    ShotPlanView::Take(
                        request_of(params, config, Some(tunnel::proxy_text(tunnels[id@]))),
                    ),
                )
            } else {
                Err(ApiErrorView::BadRequest("unknown or closed tunnel"@))
            },
            None => match ssrf::host_verdict(url.host, config.allow_private_targets) {
                Err(e) => Err(e),
                Ok(VerdictView::Permitted) => Ok(
                    ShotPlanView::Take(request_of(params, config, None)),
                ),
                Ok(VerdictView::Resolve(name)) => Ok(
                    ShotPlanView::Resolve { name, request: request_of(params, config, None) },
                ),
            },
        },
    }
}

fn or_default32(value: Option<u32>, default: u32) -> (r: u32)
    ensures
        r == value_or(value, default),
{
    match value {
        Some(v) => v,
        None => default,
    }
}

fn or_default64(value: Option<u64>, default: u64) -> (r: u64)
    ensures
        r == value_or(value, default),
{
    match value {
        Some(v) => v,
        None => default,
    }
}

fn shot_request<P>(params: &ShotParams, config: &Config<P>, proxy_server: Option<String>) -> (r:
    ShotRequest)
    ensures
        r@ == request_of(*params, *config, text::opt_text(proxy_server)),
{
    ShotRequest {
        url: params.url.clone(),
        width: or_default32(params.width, config.default_width),
        height: or_default32(params.height, config.default_height),
        scale_bits: or_default64(params.scale_bits, UNIT_SCALE_BITS),
        timeout_secs: or_default64(params.timeout, config.render_timeout_secs),
        proxy_server,
    }
}

/// What a request for a shot leads to, its URL parsed to `parsed`.
pub fn shot_of<P>(
    parsed: Result<Url, String>,
    params: &ShotParams,
    config: &Config<P>,
    tunnels: &TunnelRegistry,
) -> (r: Result<ShotPlan, ApiError>)
    ensures
        plan_view(r) == planned(target::parsed_view(parsed), *params, *config, tunnels@),
{
    let url = match parsed {
        Ok(url) => url,
        Err(e) => return Err(ApiError::BadRequest(text::cat2("invalid url: ", &e))),
    };
    match &params.tunnel {
        Some(id) => match tunnels.get(id) {
            Some(t) => {
                let proxy = t.proxy_server();
                Ok(ShotPlan::Take(shot_request(params, config, Some(proxy))))
            },
            None => Err(ApiError::BadRequest(text::owned("unknown or closed tunnel"))),
        },
        None => match ssrf::check(&url, config.allow_private_targets) {
            Err(e) => Err(e),
            Ok(Verdict::Permitted) => Ok(ShotPlan::Take(shot_request(params, config, None))),
            Ok(Verdict::Resolve(name)) => {
                let request = shot_request(params, config, None);
                Ok(ShotPlan::Resolve { name, request })
            },
        },
    }
}

/// What a request for a shot leads to.
pub fn shot<P>(params: &ShotParams, config: &Config<P>, tunnels: &TunnelRegistry) -> (r: Result<
    ShotPlan,
    ApiError,
>)
    ensures
        plan_view(r) == planned(target::url_parse(params.url@), *params, *config, tunnels@),
{
    shot_of(Url::parse(&params.url), params, config, tunnels)
}

/// Whether a shot may be taken whose host has been resolved, or could not be.
pub fn shot_resolved(request: ShotRequest, resolved: Result<Vec<IpAddr>, String>) -> (r: Result<
    ShotRequest,
    ApiError,
>)
    ensures
        match resolved {
            Err(e) => r is Err && r->Err_0@ == ApiErrorView::BadRequest(
                "cannot resolve host: "@ + e@,
            ),
            Ok(ips) => match r {
                Ok(taken) => taken == request && ssrf::permits(ips@),
                Err(e) => ssrf::decided(ips@, Err(e)),
            },
        },
{
    match ssrf::check_resolved(resolved) {
        Ok(()) => Ok(request),
        Err(e) => Err(e),
    }
}

/// Without a tunnel, a URL with an address in a private or reserved range is
/// refused, whatever else the request names, unless private targets are allowed.
pub proof fn law_private_target_is_refused<P>(
    url: UrlView,
    params: ShotParams,
    config: Config<P>,
    tunnels: Map<Seq<char>, Tunnel>,
)
    requires
        params.tunnel is None,
        !config.allow_private_targets,
        url.host matches Some(HostView::Ip(ip)) && ssrf::blocked(ip),
    ensures
        planned(Ok(url), params, config, tunnels) == Err::<ShotPlanView, ApiErrorView>(
            ssrf::blocked_error(url.host->0->Ip_0),
        ),
{
}

/// Without a tunnel, a shot whose host is a name is never taken before its
/// addresses are known, unless private targets are allowed.
pub proof fn law_name_is_resolved_first<P>(
    url: UrlView,
    params: ShotParams,
    config: Config<P>,
    tunnels: Map<Seq<char>, Tunnel>,
)
    requires
        params.tunnel is None,
        !config.allow_private_targets,
        url.host matches Some(HostView::Domain(name)),
    ensures
        planned(Ok(url), params, config, tunnels) == Ok::<ShotPlanView, ApiErrorView>(
            ShotPlanView::Resolve {
                name: url.host->0->Domain_0,
                request: request_of(params, config, None),
            },
        ),
{
}

/// Through an open tunnel any target is taken, and through the proxy of that
/// tunnel. Through a tunnel that is not open none is.
pub proof fn law_tunnel_reaches_any_target<P>(
    url: UrlView,
    params: ShotParams,
    config: Config<P>,
    tunnels: Map<Seq<char>, Tunnel>,
)
    requires
        params.tunnel is Some,
    ensures
        ({
            let id = params.tunnel->0@;
            planned(Ok(url), params, config, tunnels) == if tunnels.contains_key(id) {
                Ok::<ShotPlanView, ApiErrorView>(
                    ShotPlanView::Take(
                        request_of(params, config, Some(tunnel::proxy_text(tunnels[id]))),
                    ),
                )
            } else {
                Err(ApiErrorView::BadRequest("unknown or closed tunnel"@))
            }
        }),
{
}

/// A request without a key, or with one that is unknown or disabled, is refused as
/// unauthorized, and no other request is.
pub proof fn law_only_enabled_keys_pass(
    keys: Seq<KeyEntryView>,
    presented: Option<Seq<char>>,
    r: Result<Authenticated, ApiError>,
)
    requires
        authorized(keys, presented, r),
    ensures
        r is Ok <==> presented is Some && !keys::unknown_hash(keys, keys::key_hash(presented->0)),
        r matches Err(e) ==> e@ is Unauthorized,
{
    if let Some(secret) = presented {
        if let Ok(a) = r {
            let i = choose|i: int| #[trigger] keys::authenticates(keys, keys::key_hash(secret), i);
            assert(keys::matches_hash(keys[i], keys::key_hash(secret)));
        }
    }
}

// --- Tunnels ----------------------------------------------------------------

/// The key that a tunnel belongs to.
pub fn tunnel_owner(key: Option<&AuthedKey>) -> (r: String)
    ensures
        r@ == (match key {
            Some(k) => k.0@,
            None => "unknown"@,
        }),
{
    match key {
        Some(k) => k.0.clone(),
        None => text::owned("unknown"),
    }
}

} // verus!
