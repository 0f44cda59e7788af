//! URLs: what the server and the client read of them.

use vstd::prelude::*;

use crate::error::ApiError;
use crate::error::ApiErrorView;
use crate::net::IpAddr;
use crate::net::IpView;
use crate::text;

verus! {

/// The host of a URL.
#[derive(Debug)]
pub enum Host {
    /// A name that has to be resolved.
    Domain(String),
    /// An address that stands in the URL itself.
    Ip(IpAddr),
}

/// A [`Host`] with its text as a character sequence.
pub enum HostView {
    Domain(Seq<char>),
    Ip(IpView),
}

impl View for Host {
    type V = HostView;

    open spec fn view(&self) -> HostView {
        match self {
            Host::Domain(name) => HostView::Domain(name@),
            Host::Ip(ip) => HostView::Ip(ip@),
        }
    }
}

/// A parsed URL.
#[derive(Debug)]
pub struct Url {
    /// The scheme, in lower case and without the colon.
    pub scheme: String,
    /// The host, if the URL has one.
    pub host: Option<Host>,
    /// The text of the host.
    pub host_text: Option<String>,
    /// The URL as text, in its normal form.
    pub href: String,
}

/// A [`Url`] with its parts as character sequences.
pub struct UrlView {
    pub scheme: Seq<char>,
    pub host: Option<HostView>,
    pub host_text: Option<Seq<char>>,
    pub href: Seq<char>,
}

/// The view of an optional host.
pub open spec fn host_view(h: Option<Host>) -> Option<HostView> {
    match h {
        Some(h) => Some(h@),
        None => None,
    }
}

impl View for Url {
    type V = UrlView;

    open spec fn view(&self) -> UrlView {
        UrlView {
            scheme: self.scheme@,
            host: host_view(self.host),
            host_text: text::opt_text(self.host_text),
            href: self.href@,
        }
    }
}

/// The view of the outcome of a parse.
pub open spec fn parsed_view(r: Result<Url, String>) -> Result<UrlView, Seq<char>> {
    match r {
        Ok(u) => Ok(u@),
        Err(e) => Err(e@),
    }
}

/// The view of a list of name and value pairs.
pub open spec fn pairs_view(pairs: Seq<(String, String)>) -> Seq<(Seq<char>, Seq<char>)> {
    pairs.map_values(|p: (String, String)| (p.0@, p.1@))
}

/// The most bytes that name and value pairs have in a query: three for each byte
/// that is escaped, and two for each pair that join it to the others.
pub open spec fn escaped_size(pairs: Seq<(Seq<char>, Seq<char>)>) -> nat
    decreases pairs.len(),
{
    if pairs.len() == 0 {
        0
    } else {
        escaped_size(pairs.drop_last()) + 3 * text::utf8(pairs.last().0).len() + 3 * text::utf8(
            pairs.last().1,
        ).len() + 2
    }
}

/// The most bytes that a URL may have: the `url` crate keeps offsets into it as
/// 32-bit numbers.
pub const URL_SIZE_LIMIT: u64 = 0xffff_ffff;

/// Whether the pairs can be appended to what a URL was parsed to: the URL may not
/// outgrow its offsets.
pub open spec fn appendable(
    parsed: Result<UrlView, Seq<char>>,
    pairs: Seq<(Seq<char>, Seq<char>)>,
) -> bool {
    match parsed {
        Ok(u) => text::utf8(u.href).len() + 1 + escaped_size(pairs) <= URL_SIZE_LIMIT,
        Err(_) => true,
    }
}

/// What `url::Url::parse` makes of a text: the parts of the URL, or the text of
/// the error.
pub uninterp spec fn url_parse(text: Seq<char>) -> Result<UrlView, Seq<char>>;

/// The text of the URL that `url::Url::query_pairs_mut` leaves behind after
/// the pairs were appended to the query of the URL `text`, or the text of the
/// error if that is no URL.
pub uninterp spec fn url_with_pairs(text: Seq<char>, pairs: Seq<(Seq<char>, Seq<char>)>) -> Result<
    Seq<char>,
    Seq<char>,
>;

/// The text of the URL `text` after `url::Url::set_scheme` gave it another
/// scheme, or nothing if that is no URL or cannot have that scheme.
pub uninterp spec fn url_with_scheme(text: Seq<char>, scheme: Seq<char>) -> Option<Seq<char>>;

/// The name and value pairs that `url::form_urlencoded::parse` finds in a query.
pub uninterp spec fn form_pairs(query: Seq<u8>) -> Seq<(Seq<char>, Seq<char>)>;

/// `url::Url::parse`: reads a URL. The result, the parts of the URL or the text
/// of the error, depends on the text alone.
#[verifier::external_body]
fn parse_url(text: &str) -> (r: Result<Url, String>)
    ensures
        parsed_view(r) == url_parse(text@),
{
    let u = url::Url::parse(text).map_err(|e| e.to_string())?;
    let host = u.host().map(|h| match h {
        url::Host::Domain(name) => Host::Domain(name.to_owned()),
        url::Host::Ipv4(ip) => Host::Ip(IpAddr::V4(ip.octets())),
        url::Host::Ipv6(ip) => Host::Ip(IpAddr::V6(ip.segments())),
    });
    let host_text = u.host_str().map(str::to_owned);
    Ok(Url { scheme: u.scheme().to_owned(), host, host_text, href: u.as_str().to_owned() })
}

/// `url::Url::query_pairs_mut`: appends name and value pairs to the query of a
/// URL, escaped as in a form. The result depends on the text and the pairs
/// alone. A URL that outgrows 32-bit offsets makes it panic.
#[verifier::external_body]
pub(crate) fn append_pairs(text: &str, pairs: &Vec<(String, String)>) -> (r: Result<String, String>)
    requires
        appendable(url_parse(text@), pairs_view(pairs@)),
    ensures
        url_with_pairs(text@, pairs_view(pairs@)) == (match r {
            Ok(t) => Ok::<Seq<char>, Seq<char>>(t@),
            Err(e) => Err(e@),
        }),
{
    let mut u = url::Url::parse(text).map_err(|e| e.to_string())?;
    u.query_pairs_mut().extend_pairs(pairs);
    Ok(u.to_string())
}

/// Whether the pairs can be appended to what a URL was parsed to.
pub fn fits(parsed: &Result<Url, String>, pairs: &Vec<(String, String)>) -> (r: bool)
    ensures
        r == appendable(parsed_view(*parsed), pairs_view(pairs@)),
{
    match parsed {
        Err(_) => true,
        Ok(u) => room_for(u.href.as_str().as_bytes().len(), pairs),
    }
}

fn room_for(size: usize, pairs: &Vec<(String, String)>) -> (r: bool)
    ensures
        r == (size + 1 + escaped_size(pairs_view(pairs@)) <= URL_SIZE_LIMIT),
{
    let ghost all = pairs_view(pairs@);
    if size as u64 >= URL_SIZE_LIMIT {
        return false;
    }
    let mut left: u64 = URL_SIZE_LIMIT - size as u64 - 1;
    let mut i: usize = 0;
    assert(all.take(0) =~= seq![]);
    while i < pairs.len()
        invariant
            i <= pairs@.len(),
            all == pairs_view(pairs@),
            left + size + 1 + escaped_size(all.take(i as int)) == URL_SIZE_LIMIT,
        decreases pairs@.len() - i,
    {
        let ghost taken = all.take(i + 1);
        assert(taken.drop_last() =~= all.take(i as int));
        assert(taken.last() == (pairs@[i as int].0@, pairs@[i as int].1@));
        let name: u64 = pairs[i].0.as_str().as_bytes().len() as u64;
        let value: u64 = pairs[i].1.as_str().as_bytes().len() as u64;
        if name > left || value > left || 3 * name + 3 * value + 2 > left {
            proof {
                lemma_escaped_size(all, i + 1);
            }
            return false;
        }
        left = left - (3 * name + 3 * value + 2);
        i = i + 1;
    }
    assert(all.take(i as int) =~= all);
    true
}

proof fn lemma_escaped_size(pairs: Seq<(Seq<char>, Seq<char>)>, n: int)
    requires
        0 <= n <= pairs.len(),
    ensures
        escaped_size(pairs.take(n)) <= escaped_size(pairs),
    decreases pairs.len(),
{
    if n < pairs.len() {
        assert(pairs.drop_last().take(n) =~= pairs.take(n));
        lemma_escaped_size(pairs.drop_last(), n);
    } else {
        assert(pairs.take(n) =~= pairs);
    }
}

/// `url::Url::set_scheme`: gives a URL another scheme, where that is possible.
/// The result depends on the text and the scheme alone. A longer scheme could move
/// the parts of the URL beyond 32-bit offsets, which makes it panic.
#[verifier::external_body]
pub(crate) fn change_scheme(text: &str, scheme: &str) -> (r: Option<String>)
    requires
        url_parse(text@) matches Ok(u) ==> text::utf8(scheme@).len() <= text::utf8(
            u.scheme,
        ).len(),
    ensures
        url_with_scheme(text@, scheme@) == text::opt_text(r),
{
    let mut u = url::Url::parse(text).ok()?;
    u.set_scheme(scheme).ok()?;
    Some(u.to_string())
}

/// `url::form_urlencoded::parse`: the name and value pairs of a query, with
/// their escapes resolved. The result depends on the query alone.
#[verifier::external_body]
pub(crate) fn query_pairs(query: &str) -> (r: Vec<(String, String)>)
    ensures
        pairs_view(r@) == form_pairs(text::utf8(query@)),
{
    url::form_urlencoded::parse(query.as_bytes()).into_owned().collect()
}

impl Url {
    /// Reads a URL; a text that is none gives the reason.
    pub fn parse(text: &str) -> (r: Result<Url, String>)
        ensures
            parsed_view(r) == url_parse(text@),
    {
        parse_url(text)
    }

    /// Whether the scheme is `http` or `https`.
    pub fn is_web(&self) -> (r: bool)
        ensures
            r == is_web_scheme(self@.scheme),
    {
        text::str_eq(&self.scheme, "http") || text::str_eq(&self.scheme, "https")
    }
}

/// The page that an engine renders for what a text was parsed to: the URL, unless
/// it is none or has another scheme than `http` and `https`, which `refusal`
/// says then.
pub open spec fn page_of(parsed: Result<UrlView, Seq<char>>, refusal: Seq<char>) -> Result<
    UrlView,
    ApiErrorView,
> {
    match parsed {
        Err(e) => Err(ApiErrorView::BadRequest("invalid url: "@ + e)),
        Ok(url) => if is_web_scheme(url.scheme) {
            Ok(url)
        } else {
            Err(ApiErrorView::BadRequest(refusal))
        },
    }
}

/// The view of the page that an engine renders.
pub open spec fn page_view(r: Result<Url, ApiError>) -> Result<UrlView, ApiErrorView> {
    match r {
        Ok(url) => Ok(url@),
        Err(e) => Err(e@),
    }
}

/// The page that an engine renders for what a text was parsed to. Refuses what is
/// no URL, and with `refusal` what has another scheme than `http` and `https`.
pub fn page(parsed: Result<Url, String>, refusal: &str) -> (r: Result<Url, ApiError>)
    ensures
        page_view(r) == page_of(parsed_view(parsed), refusal@),
{
    match parsed {
        Err(e) => Err(ApiError::BadRequest(text::cat2("invalid url: ", &e))),
        Ok(url) => if url.is_web() {
            Ok(url)
        } else {
            Err(ApiError::BadRequest(text::owned(refusal)))
        },
    }
}

/// Whether a scheme is `http` or `https`.
pub open spec fn is_web_scheme(scheme: Seq<char>) -> bool {
    scheme == "http"@ || scheme == "https"@
}

} // verus!
