//! The client's end of a tunnel: it tells the client the id of the tunnel, and
//! dials the connections that the browser of the server asks for.

use vstd::prelude::*;

use crate::client;
use crate::client::ClientError;
use crate::crypto;
use crate::frame;
use crate::frame::Frame;
use crate::frame::FrameView;
use crate::json;
use crate::json::Json;
use crate::json::JsonView;
use crate::keys;
use crate::streams::Streams;
use crate::target;
use crate::target::Url;
use crate::target::UrlView;
use crate::text;
use crate::tunnel;

verus! {

// --- Opening a tunnel -------------------------------------------------------

/// The scheme of the WebSocket to a server with this scheme.
pub open spec fn ws_scheme(scheme: Seq<char>) -> Option<Seq<char>> {
    if scheme == "https"@ || scheme == "wss"@ {
        Some("wss"@)
    } else if scheme == "http"@ || scheme == "ws"@ {
        Some("ws"@)
    } else {
        None
    }
}

/// The URL where a server opens tunnels, but for its scheme.
pub open spec fn tunnel_endpoint(server: Seq<char>) -> Seq<char> {
    text::no_trailing_slash(server) + "/tunnel"@
}

/// What the scheme of a tunnel is, if its URL was parsed to `parsed`.
pub open spec fn scheme_of(parsed: Result<UrlView, Seq<char>>) -> Result<Seq<char>, Seq<char>> {
    match parsed {
        Err(e) => Err(client::in_context("invalid --server url"@, e)),
        Ok(url) => match ws_scheme(url.scheme) {
            Some(scheme) => Ok(scheme),
            None => Err("unsupported server scheme: "@ + url.scheme),
        },
    }
}

/// The URL of a tunnel: with the scheme of a WebSocket, if it can have that.
pub open spec fn tunnel_address(server: Seq<char>) -> Result<Seq<char>, Seq<char>> {
    let at = tunnel_endpoint(server);
    let parsed = target::url_parse(at);
    match scheme_of(parsed) {
        Err(e) => Err(e),
        Ok(scheme) => match target::url_with_scheme(at, scheme) {
            Some(url) => Ok(url),
            None => Ok(parsed->Ok_0.href),
        },
    }
}

/// The view of a text, or of an error.
pub open spec fn text_view(r: Result<String, ClientError>) -> Result<Seq<char>, Seq<char>> {
    match r {
        Ok(t) => Ok(t@),
        Err(e) => Err(e@),
    }
}

/// The scheme of a tunnel whose URL was parsed to `parsed`.
pub fn tunnel_scheme(parsed: &Result<Url, String>) -> (r: Result<String, ClientError>)
    ensures
        text_view(r) == scheme_of(target::parsed_view(*parsed)),
{
    match parsed {
        Err(e) => Err(ClientError::context("invalid --server url", e)),
        Ok(url) => {
            let scheme = &url.scheme;
            if text::str_eq(scheme, "https") || text::str_eq(scheme, "wss") {
                Ok(text::owned("wss"))
            } else if text::str_eq(scheme, "http") || text::str_eq(scheme, "ws") {
                Ok(text::owned("ws"))
            } else {
                Err(ClientError(text::cat2("unsupported server scheme: ", scheme)))
            }
        },
    }
}

proof fn lemma_scheme_lengths()
    ensures
        text::utf8("wss"@).len() == 3,
        text::utf8("https"@).len() == 5,
        text::utf8("ws"@).len() == 2,
        text::utf8("http"@).len() == 4,
{
    reveal_strlit("wss");
    reveal_strlit("https");
    reveal_strlit("ws");
    reveal_strlit("http");
    vstd::utf8::is_ascii_chars_encode_utf8("wss"@);
    vstd::utf8::is_ascii_chars_encode_utf8("https"@);
    vstd::utf8::is_ascii_chars_encode_utf8("ws"@);
    vstd::utf8::is_ascii_chars_encode_utf8("http"@);
}

/// The URL of a tunnel through a server.
pub fn tunnel_url(server: &str) -> (r: Result<String, ClientError>)
    ensures
        text_view(r) == tunnel_address(server@),
{
    let base = text::trim_slashes(server);
    let at = text::cat2(&base, "/tunnel");
    let parsed = Url::parse(&at);
    let scheme = match tunnel_scheme(&parsed) {
        Ok(scheme) => scheme,
        Err(e) => return Err(e),
    };
    proof {
        lemma_scheme_lengths();
    }
    match target::change_scheme(&at, &scheme) {
        Some(url) => Ok(url),
        None => match parsed {
            Ok(url) => Ok(url.href),
            Err(e) => Err(ClientError::context("invalid --server url", &e)),
        },
    }
}

/// What comes from the WebSocket before the id of the tunnel is known.
#[derive(Debug)]
pub enum HelloEvent {
    /// A text message.
    Text(String),
    /// The server closes the WebSocket.
    Close,
    /// Another message.
    Other,
    /// The WebSocket has failed.
    Failed(String),
    /// The WebSocket has ended.
    Ended,
}

/// What follows.
#[derive(Debug)]
pub enum Hello {
    /// Wait for the next event.
    Wait,
    /// This is the id of the tunnel.
    Id(String),
    /// There will be no tunnel.
    Failed(ClientError),
}

/// A [`Hello`] over sequences.
pub enum HelloView {
    Wait,
    Id(Seq<char>),
    Failed(Seq<char>),
}

impl View for Hello {
    type V = HelloView;

    open spec fn view(&self) -> HelloView {
        match self {
            Hello::Wait => HelloView::Wait,
            Hello::Id(id) => HelloView::Id(id@),
            Hello::Failed(e) => HelloView::Failed(e@),
        }
    }
}

/// What a text message says that was parsed to `parsed`.
pub open spec fn told(parsed: Result<JsonView, Seq<char>>) -> HelloView {
    match parsed {
        Err(e) => HelloView::Failed(client::in_context("parsing tunnel hello"@, e)),
        Ok(v) => match json::text_member(v, "tunnel_id"@) {
            Some(id) => HelloView::Id(id),
            None => HelloView::Failed("tunnel hello missing tunnel_id"@),
        },
    }
}

/// What follows an event before the id of the tunnel is known.
pub open spec fn greeted(event: HelloEvent) -> HelloView {
    match event {
        HelloEvent::Text(t) => told(json::json_parse(text::utf8(t@))),
        HelloEvent::Close => HelloView::Failed("tunnel closed before sending id"@),
        HelloEvent::Other => HelloView::Wait,
        HelloEvent::Failed(e) => HelloView::Failed(
            client::in_context("reading tunnel hello"@, e@),
        ),
        HelloEvent::Ended => HelloView::Failed("tunnel websocket ended before sending id"@),
    }
}

/// What a text message says that was parsed to `parsed`.
pub fn hello_told(parsed: Result<Json, String>) -> (r: Hello)
    ensures
        r@ == told(json::parsed_view(parsed)),
{
    match parsed {
        Err(e) => Hello::Failed(ClientError::context("parsing tunnel hello", &e)),
        Ok(v) => match v.get_text("tunnel_id") {
            Some(id) => Hello::Id(id),
            None => Hello::Failed(ClientError::new("tunnel hello missing tunnel_id")),
        },
    }
}

proof fn lemma_hello_is_plain(id: Seq<char>)
    requires
        keys::url_safe(id),
    ensures
        tunnel::hello_text(id) == json::one_member("tunnel_id"@, id),
        json::plain("tunnel_id"@),
        json::plain(id),
{
    reveal_strlit("{\"tunnel_id\":\"");
    reveal_strlit("{\"");
    reveal_strlit("tunnel_id");
    reveal_strlit("\":\"");
    reveal_strlit("\"}");
    assert("{\"tunnel_id\":\""@ =~= "{\""@ + "tunnel_id"@ + "\":\""@);
    assert(tunnel::hello_text(id) =~= json::one_member("tunnel_id"@, id));
}

/// Follow an event before the id of the tunnel is known. The message that a server
/// sends first tells the id.
pub fn read_tunnel_id(event: &HelloEvent) -> (r: Hello)
    ensures
        r@ == greeted(*event),
        forall|id: Seq<char>|
            (*event matches HelloEvent::Text(t) && keys::url_safe(id) && t@
                == #[trigger] tunnel::hello_text(id)) ==> r@ == HelloView::Id(id),
{
    match event {
        HelloEvent::Text(t) => {
            let parsed = Json::parse(t.as_str().as_bytes());
            proof {
                assert forall|id: Seq<char>|
                    keys::url_safe(id) && t@ == #[trigger] tunnel::hello_text(id) implies told(
                    json::parsed_view(parsed),
                ) == HelloView::Id(id) by {
                    lemma_hello_is_plain(id);
                    let members = seq![("tunnel_id"@, JsonView::Text(id))];
                    assert(text::utf8(t@) == text::utf8(json::one_member("tunnel_id"@, id)));
                    assert(json::parsed_view(parsed)->Ok_0 == JsonView::Object(members));
                    assert(members[0].0 == "tunnel_id"@);
                }
            }
            hello_told(parsed)
        },
        HelloEvent::Close => Hello::Failed(ClientError::new("tunnel closed before sending id")),
        HelloEvent::Other => Hello::Wait,
        HelloEvent::Failed(e) => Hello::Failed(ClientError::context("reading tunnel hello", e)),
        HelloEvent::Ended => Hello::Failed(
            ClientError::new("tunnel websocket ended before sending id"),
        ),
    }
}

// --- Serving a tunnel -------------------------------------------------------

/// What a frame from the server calls for.
#[derive(Debug)]
pub enum Route {
    /// Dial the host and port, and attach the stream.
    Dial { id: u32, host: String, port: u16 },
    /// Hand the bytes to the stream.
    Deliver { id: u32, payload: Vec<u8> },
    /// The stream has been taken out, which ends its connection.
    Closed { id: u32 },
    /// Nothing.
    Ignored,
}

/// A [`Route`] over sequences.
pub enum RouteView {
    Dial { id: u32, host: Seq<char>, port: u16 },
    Deliver { id: u32, payload: Seq<u8> },
    Closed { id: u32 },
    Ignored,
}

impl View for Route {
    type V = RouteView;

    open spec fn view(&self) -> RouteView {
        match self {
            Route::Dial { id, host, port } => RouteView::Dial { id: *id, host: host@, port: *port },
            Route::Deliver { id, payload } => RouteView::Deliver { id: *id, payload: payload@ },
            Route::Closed { id } => RouteView::Closed { id: *id },
            Route::Ignored => RouteView::Ignored,
        }
    }
}

/// What a frame from the server calls for, with these streams open. Bytes of a
/// stream that is not open are dropped.
pub open spec fn route<T>(streams: Map<u32, T>, b: Seq<u8>) -> RouteView {
    match frame::frame_of(b) {
        Some(FrameView::Open { id, host, port }) => RouteView::Dial {
            id,
            host: crypto::utf8_lossy(host),
            port,
        },
        Some(FrameView::Data { id, payload }) => if streams.contains_key(id) {
            RouteView::Deliver { id, payload }
        } else {
            RouteView::Ignored
        },
        Some(FrameView::Close { id }) => RouteView::Closed { id },
        None => RouteView::Ignored,
    }
}

/// The open streams after a frame from the server, before a stream that it opens
/// is attached.
pub open spec fn routed<T>(streams: Map<u32, T>, b: Seq<u8>) -> Map<u32, T> {
    match frame::frame_of(b) {
        Some(FrameView::Close { id }) => streams.remove(id),
        _ => streams,
    }
}

/// Whether a frame opens a stream to this host and port, as a server writes it.
pub open spec fn opens(b: Seq<u8>, id: u32, host: Seq<char>, port: u16) -> bool {
    text::utf8(host).len() < 0x1_0000 && b == frame::open_bytes(id, text::utf8(host), port)
}

proof fn lemma_opens(b: Seq<u8>, id: u32, host: Seq<char>, port: u16)
    requires
        opens(b, id, host, port),
    ensures
        frame::frame_of(b) == Some(FrameView::Open { id, host: text::utf8(host), port }),
        vstd::utf8::valid_utf8(text::utf8(host)),
        vstd::utf8::decode_utf8(text::utf8(host)) == host,
{
    frame::law_open_frame_is_read_back(id, text::utf8(host), port);
    vstd::utf8::encode_utf8_decode_utf8(host);
    vstd::utf8::encode_utf8_valid_utf8(host);
}

/// What comes from the WebSocket of a tunnel.
#[derive(Debug)]
pub enum AgentEvent {
    /// A binary message.
    Binary(Vec<u8>),
    /// Another message.
    Other,
    /// The WebSocket is closed, has failed or has ended.
    Over,
}

/// The streams that a client serves.
pub struct Agent<T> {
    pub streams: Streams<T>,
}

impl<T> View for Agent<T> {
    type V = Map<u32, T>;

    open spec fn view(&self) -> Map<u32, T> {
        self.streams@
    }
}

impl<T> Agent<T> {
    /// A client without streams.
    pub fn new() -> (r: Self)
        ensures
            r@ == Map::<u32, T>::empty(),
    {
        Agent { streams: Streams::new() }
    }

    fn follow(&mut self, b: &[u8]) -> (r: Route)
        ensures
            r@ == route(old(self)@, b@),
            final(self)@ == routed(old(self)@, b@),
            frame::frame_of(b@) matches Some(FrameView::Open { id, host, port }) ==> (
            vstd::utf8::valid_utf8(host) ==> crypto::utf8_lossy(host) == vstd::utf8::decode_utf8(
                host,
            )),
    {
        match frame::parse(b) {
            Some(Frame::Open { id, host, port }) => {
                let host = crypto::lossy_text(&host);
                Route::Dial { id, host, port }
            },
            Some(Frame::Data { id, payload }) => if self.streams.get(id).is_some() {
                Route::Deliver { id, payload }
            } else {
                Route::Ignored
            },
            Some(Frame::Close { id }) => {
                self.streams.remove(id);
                Route::Closed { id }
            },
            None => Route::Ignored,
        }
    }

    /// Follow a frame from the server. A frame that opens a stream gives back the
    /// host and the port that the server was asked for.
    pub fn handle_frame(&mut self, b: &[u8]) -> (r: Route)
        ensures
            r@ == route(old(self)@, b@),
            final(self)@ == routed(old(self)@, b@),
            forall|id: u32, host: Seq<char>, port: u16| #[trigger]
                opens(b@, id, host, port) ==> r@ == (RouteView::Dial { id, host, port }),
    {
        let r = self.follow(b);
        proof {
            assert forall|id: u32, host: Seq<char>, port: u16| #[trigger]
                opens(b@, id, host, port) implies r@ == (RouteView::Dial { id, host, port }) by {
                lemma_opens(b@, id, host, port);
            }
        }
        r
    }

    /// Follow an event of the WebSocket; nothing once there will be no more.
    pub fn pump(&mut self, event: &AgentEvent) -> (r: Option<Route>)
        ensures
            match *event {
                AgentEvent::Binary(b) => r is Some && r->0@ == route(old(self)@, b@)
                    && final(self)@ == routed(old(self)@, b@),
                AgentEvent::Other => r is Some && r->0@ is Ignored && final(self)@ == old(self)@,
                AgentEvent::Over => r is None && final(self)@ == old(self)@,
            },
            *event matches AgentEvent::Binary(b) ==> forall|id: u32, host: Seq<char>, port: u16|
                #[trigger]
                opens(b@, id, host, port) ==> r->0@ == (RouteView::Dial { id, host, port }),
    {
        match event {
            AgentEvent::Binary(b) => Some(self.handle_frame(b)),
            AgentEvent::Other => Some(Route::Ignored),
            AgentEvent::Over => None,
        }
    }

    /// Attach a stream that is dialed.
    pub fn attach(&mut self, id: u32, sink: T)
        ensures
            final(self)@ == old(self)@.insert(id, sink),
    {
        self.streams.insert(id, sink);
    }

    /// Take out a stream that has ended, or could not be dialed. Returns the frame
    /// that tells the server, unless the stream has been closed already.
    pub fn finish(&mut self, id: u32, closed: bool) -> (r: Option<Vec<u8>>)
        ensures
            match r {
                Some(f) => !closed && f@ == frame::close_bytes(id),
                None => closed,
            },
            final(self)@ == old(self)@.remove(id),
    {
        self.streams.remove(id);
        if closed {
            None
        } else {
            Some(frame::close_frame(id))
        }
    }
}

/// What is said of a connection that could not be dialed.
pub fn dial_failed(host: &str, port: u16, e: &str) -> (r: String)
    ensures
        r@ == "ts: tunnel dial "@ + host@ + ":"@ + text::decimal_text(port as nat) + " failed: "@
            + e@,
{
    let p = text::decimal(port as u64);
    text::cat6("ts: tunnel dial ", host, ":", &p, " failed: ", e)
}

/// The name that a browser asks the proxy for is the name that the client dials: in
/// the frame that opens its stream it stands byte by byte, and such a frame opens a
/// stream to that name and port.
pub proof fn law_asked_name_is_dialled(name: Seq<u8>, id: u32, port: u16)
    requires
        name.len() < 256,
        vstd::utf8::valid_utf8(name),
    ensures
        ({
            let host = vstd::utf8::decode_utf8(name);
            let f = frame::open_bytes(id, text::utf8(host), port);
            &&& f == frame::open_bytes(id, name, port)
            &&& opens(f, id, host, port)
        }),
{
    vstd::utf8::decode_utf8_encode_utf8(name);
}

/// The frame with which a client ends a stream ends it on the server too.
pub proof fn law_finished_stream_is_closed<T>(streams: Map<u32, T>, id: u32)
    ensures
        tunnel::route(streams, frame::close_bytes(id)) == (tunnel::RouteView::Closed { id }),
        tunnel::routed(streams, frame::close_bytes(id)) == streams.remove(id),
{
    frame::law_close_frame_is_read_back(id);
}

/// Bytes that the server sends for an open stream reach that stream, unchanged,
/// and change no stream.
pub proof fn law_data_reaches_its_stream<T>(streams: Map<u32, T>, id: u32, payload: Seq<u8>)
    requires
        streams.contains_key(id),
    ensures
        route(streams, frame::data_bytes(id, payload)) == (RouteView::Deliver { id, payload }),
        routed(streams, frame::data_bytes(id, payload)) == streams,
{
    frame::law_data_frame_is_read_back(id, payload);
}

/// The image of a shot through a tunnel, or why there is none.
pub fn through_tunnel(shot: Result<Vec<u8>, ClientError>) -> (r: Result<Vec<u8>, ClientError>)
    ensures
        match shot {
            Ok(png) => r is Ok && r->Ok_0 == png,
            Err(e) => r is Err && r->Err_0@ == client::in_context(
                "taking shot through tunnel"@,
                e@,
            ),
        },
{
    match shot {
        Ok(png) => Ok(png),
        Err(e) => Err(ClientError::context("taking shot through tunnel", &e.0)),
    }
}

} // verus!
