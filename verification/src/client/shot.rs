//! Taking a shot with a server.

use vstd::prelude::*;

use crate::client;
use crate::client::admin;
use crate::client::admin::Status;
use crate::client::ClientError;
use crate::crypto;
use crate::json;
use crate::target;
use crate::target::Url;
use crate::target::UrlView;
use crate::text;

verus! {

/// A shot to take, with the server that takes it.
#[derive(Debug)]
pub struct Shot {
    /// The page.
    pub url: String,
    /// The URL of the server.
    pub server: String,
    /// The key for the server.
    pub api_key: String,
    /// The width of the page in logical pixels.
    pub width: Option<u32>,
    /// The height of the page in logical pixels.
    pub height: Option<u32>,
    /// The device pixel ratio, a decimal number.
    pub dpr: Option<String>,
    /// How many seconds the shot may take.
    pub timeout: Option<u64>,
    /// Where the image goes.
    pub output: Option<String>,
    /// Whether the shot goes through a tunnel.
    pub tunnel: bool,
}

/// The pair of a name with a value, where there is one.
pub open spec fn pair_if(name: Seq<char>, value: Option<Seq<char>>) -> Seq<(Seq<char>, Seq<char>)> {
    match value {
        Some(v) => seq![(name, v)],
        None => seq![],
    }
}

/// The text of a number, where there is one.
pub open spec fn number_if(n: Option<u64>) -> Option<Seq<char>> {
    match n {
        Some(n) => Some(text::decimal_text(n as nat)),
        None => None,
    }
}

/// A number, where there is one, in 64 bits.
pub open spec fn widened(n: Option<u32>) -> Option<u64> {
    match n {
        Some(n) => Some(n as u64),
        None => None,
    }
}

/// What the query of a shot names.
pub open spec fn shot_query(shot: Shot, tunnel_id: Option<Seq<char>>) -> Seq<
    (Seq<char>, Seq<char>),
> {
    seq![("url"@, shot.url@)] + pair_if("w"@, number_if(widened(shot.width))) + pair_if(
        "height"@,
        number_if(widened(shot.height)),
    ) + pair_if("dpr"@, text::opt_text(shot.dpr)) + pair_if("timeout"@, number_if(shot.timeout))
        + pair_if("tunnel"@, tunnel_id)
}

/// The URL where a server takes shots.
pub open spec fn shot_endpoint(server: Seq<char>) -> Seq<char> {
    text::no_trailing_slash(server) + "/shot"@
}

/// Whether the URL of a shot can be put together: it may not outgrow the offsets
/// into a URL.
pub open spec fn shot_fits(shot: Shot, tunnel_id: Option<Seq<char>>) -> bool {
    target::appendable(
        target::url_parse(shot_endpoint(shot.server@)),
        shot_query(shot, tunnel_id),
    )
}

fn push_if(pairs: &mut Vec<(String, String)>, name: &str, value: Option<String>)
    ensures
        target::pairs_view(final(pairs)@) == target::pairs_view(old(pairs)@) + pair_if(
            name@,
            text::opt_text(value),
        ),
{
    let ghost before = target::pairs_view(pairs@);
    if let Some(v) = value {
        pairs.push((text::owned(name), v));
        assert(target::pairs_view(pairs@) =~= before + seq![(name@, v@)]);
    } else {
        assert(target::pairs_view(pairs@) =~= before + seq![]);
    }
}

fn decimal_if(n: Option<u64>) -> (r: Option<String>)
    ensures
        text::opt_text(r) == number_if(n),
{
    match n {
        Some(n) => Some(text::decimal(n)),
        None => None,
    }
}

fn widen(n: Option<u32>) -> (r: Option<u64>)
    ensures
        r == widened(n),
{
    match n {
        Some(n) => Some(n as u64),
        None => None,
    }
}

/// What the query of a shot names, through a tunnel or not.
pub fn shot_pairs(shot: &Shot, tunnel_id: Option<&str>) -> (r: Vec<(String, String)>)
    ensures
        target::pairs_view(r@) == shot_query(*shot, text::opt_str(tunnel_id)),
{
    let mut pairs: Vec<(String, String)> = Vec::new();
    pairs.push((text::owned("url"), shot.url.clone()));
    assert(target::pairs_view(pairs@) =~= seq![("url"@, shot.url@)]);
    push_if(&mut pairs, "w", decimal_if(widen(shot.width)));
    push_if(&mut pairs, "height", decimal_if(widen(shot.height)));
    push_if(&mut pairs, "dpr", shot.dpr.clone());
    push_if(&mut pairs, "timeout", decimal_if(shot.timeout));
    let id = match tunnel_id {
        Some(id) => Some(text::owned(id)),
        None => None,
    };
    push_if(&mut pairs, "tunnel", id);
    pairs
}

/// The URL where a server takes shots.
pub fn endpoint(server: &str) -> (r: String)
    ensures
        r@ == shot_endpoint(server@),
{
    let base = text::trim_slashes(server);
    text::cat2(&base, "/shot")
}

/// The URL of a shot, or what is wrong with the URL of the server.
pub open spec fn shot_url_of(appended: Result<Seq<char>, Seq<char>>) -> Result<
    Seq<char>,
    Seq<char>,
> {
    match appended {
        Ok(url) => Ok(url),
        Err(e) => Err(client::in_context("invalid server url"@, e)),
    }
}

/// The view of a text, or of an error.
pub open spec fn url_view(r: Result<String, ClientError>) -> Result<Seq<char>, Seq<char>> {
    match r {
        Ok(t) => Ok(t@),
        Err(e) => Err(e@),
    }
}

/// The URL of a shot, through a tunnel or not.
pub fn shot_url(shot: &Shot, tunnel_id: Option<&str>) -> (r: Result<String, ClientError>)
    requires
        shot_fits(*shot, text::opt_str(tunnel_id)),
    ensures
        url_view(r) == shot_url_of(
            target::url_with_pairs(
                shot_endpoint(shot.server@),
                shot_query(*shot, text::opt_str(tunnel_id)),
            ),
        ),
{
    let pairs = shot_pairs(shot, tunnel_id);
    let at = endpoint(&shot.server);
    match target::append_pairs(&at, &pairs) {
        Ok(url) => Ok(url),
        Err(e) => Err(ClientError::context("invalid server url", &e)),
    }
}

/// The URL of a shot, through a tunnel or not; nothing if it would be too long.
pub fn checked_shot_url(shot: &Shot, tunnel_id: Option<&str>) -> (r: Option<
    Result<String, ClientError>,
>)
    ensures
        r is Some <==> shot_fits(*shot, text::opt_str(tunnel_id)),
        r matches Some(url) ==> url_view(url) == shot_url_of(
            target::url_with_pairs(
                shot_endpoint(shot.server@),
                shot_query(*shot, text::opt_str(tunnel_id)),
            ),
        ),
{
    let parsed = Url::parse(&endpoint(&shot.server));
    if target::fits(&parsed, &shot_pairs(shot, tunnel_id)) {
        Some(shot_url(shot, tunnel_id))
    } else {
        None
    }
}

/// The image that a server answered with, or why there is none.
pub open spec fn fetched(
    status: Status,
    body: Seq<u8>,
    parsed: Result<json::JsonView, Seq<char>>,
    lossy: Seq<char>,
) -> Result<Seq<u8>, Seq<char>> {
    if admin::is_success(status.code) {
        Ok(body)
    } else {
        Err(admin::failure(status.text@, parsed, lossy))
    }
}

/// The view of an image, or of an error.
pub open spec fn image_view(r: Result<Vec<u8>, ClientError>) -> Result<Seq<u8>, Seq<char>> {
    match r {
        Ok(b) => Ok(b@),
        Err(e) => Err(e@),
    }
}

/// The image that a server answered with. Any other status than a success comes
/// with the reason of the server.
pub fn fetch_shot(status: &Status, body: Vec<u8>) -> (r: Result<Vec<u8>, ClientError>)
    ensures
        image_view(r) == fetched(
            *status,
            body@,
            json::json_parse(body@),
            crypto::utf8_lossy(body@),
        ),
{
    if 200 <= status.code && status.code < 300 {
        Ok(body)
    } else {
        Err(admin::response_failed(status, &body))
    }
}

/// What is said where no page is named.
pub open spec fn page_missing() -> Seq<char> {
    "missing <url>: `ts <url>` or a subcommand (see `ts --help`)"@
}

/// The page of a shot whose URL was parsed to `parsed`, or what is wrong with it.
pub open spec fn page_of(url: Seq<char>, parsed: Result<UrlView, Seq<char>>) -> Result<
    UrlView,
    Seq<char>,
> {
    match parsed {
        Ok(page) => Ok(page),
        Err(e) => Err(client::in_context("invalid url: "@ + url, e)),
    }
}

/// The view of a page, or of an error.
pub open spec fn page_view(r: Result<Url, ClientError>) -> Result<UrlView, Seq<char>> {
    match r {
        Ok(page) => Ok(page@),
        Err(e) => Err(e@),
    }
}

/// The page of a shot, whose URL was parsed to `parsed`.
pub fn parsed_page(url: &str, parsed: Result<Url, String>) -> (r: Result<Url, ClientError>)
    ensures
        page_view(r) == page_of(url@, target::parsed_view(parsed)),
{
    match parsed {
        Ok(page) => Ok(page),
        Err(e) => {
            let what = text::cat2("invalid url: ", url);
            Err(ClientError::context(&what, &e))
        },
    }
}

/// The page of a shot, if the command line names one that is a URL.
pub fn page(url: Option<&str>) -> (r: Result<Url, ClientError>)
    ensures
        match url {
            Some(u) => page_view(r) == page_of(u@, target::url_parse(u@)),
            None => r is Err && r->Err_0@ == page_missing(),
        },
{
    match url {
        Some(u) => parsed_page(u, Url::parse(u)),
        None => Err(
            ClientError::new("missing <url>: `ts <url>` or a subcommand (see `ts --help`)"),
        ),
    }
}

/// Where an image goes.
#[derive(Debug)]
pub enum Output {
    /// To the standard output.
    Stdout,
    /// To a file.
    File(String),
}

/// An [`Output`] with its path as a character sequence.
pub enum OutputView {
    Stdout,
    File(Seq<char>),
}

impl View for Output {
    type V = OutputView;

    open spec fn view(&self) -> OutputView {
        match self {
            Output::Stdout => OutputView::Stdout,
            Output::File(path) => OutputView::File(path@),
        }
    }
}

/// Where the image of a page goes: where it is told to, or to a file with the name
/// of the page's host.
pub open spec fn output_of(output: Option<Seq<char>>, host: Option<Seq<char>>) -> OutputView {
    match output {
        Some(path) => if path == "-"@ {
            OutputView::Stdout
        } else {
            OutputView::File(path)
        },
        None => OutputView::File(
            (match host {
                Some(host) => host,
                None => "shot"@,
            }) + ".png"@,
        ),
    }
}

/// Where the image of a page goes.
pub fn output_target(output: Option<&str>, page: &Url) -> (r: Output)
    ensures
        r@ == output_of(text::opt_str(output), page@.host_text),
{
    match output {
        Some(path) => if text::str_eq(path, "-") {
            Output::Stdout
        } else {
            Output::File(text::owned(path))
        },
        None => match &page.host_text {
            Some(host) => Output::File(text::cat2(host, ".png")),
            None => Output::File(text::cat2("shot", ".png")),
        },
    }
}

/// What is said of an image that went to a file.
pub fn wrote(path: &str, size: usize) -> (r: String)
    ensures
        r@ == "ts: wrote "@ + path@ + " ("@ + text::decimal_text(size as nat) + " bytes)"@,
{
    let n = text::decimal(size as u64);
    text::cat5("ts: wrote ", path, " (", &n, " bytes)")
}

} // verus!
