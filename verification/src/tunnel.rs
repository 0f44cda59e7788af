//! Reverse tunnels, on the side of the server.
//!
//! A client that can reach a private network opens a WebSocket. The server binds
//! a SOCKS5 proxy on the loopback interface for it, registers the tunnel under a
//! fresh id and tells the client the id. A shot that names the id is taken by a
//! browser that goes through the proxy, and the client dials the connections.

use vstd::hash_map::StringHashMap;
use vstd::prelude::*;

use crate::crypto;
use crate::frame;
use crate::frame::Frame;
use crate::frame::FrameView;
use crate::keys;
use crate::net;
use crate::net::SocketAddr;
use crate::socks;
use crate::streams::Streams;
use crate::text;

verus! {

/// An open tunnel.
#[derive(Debug)]
pub struct Tunnel {
    /// Where the SOCKS5 proxy of the tunnel listens.
    pub socks_addr: SocketAddr,
    /// The id of the key that opened the tunnel.
    pub key_id: String,
}

impl Tunnel {
    /// The proxy as a browser context takes it.
    pub fn proxy_server(&self) -> (r: String)
        ensures
            r@ == proxy_text(*self),
    {
        let addr = self.socks_addr.to_text();
        text::cat2("socks5://", &addr)
    }
}

/// The proxy of a tunnel as a browser context takes it.
pub open spec fn proxy_text(t: Tunnel) -> Seq<char> {
    "socks5://"@ + net::socket_text(t.socks_addr)
}

/// The limits on tunnels.
#[derive(Debug, Clone, Copy)]
pub struct TunnelConfig {
    /// How many tunnels may be open at a time.
    pub max_tunnels: usize,
    /// A tunnel without traffic for this many seconds is dropped.
    pub idle_timeout_secs: u64,
}

/// The open tunnels, by their ids.
pub struct TunnelRegistry {
    inner: StringHashMap<Tunnel>,
}

impl View for TunnelRegistry {
    type V = Map<Seq<char>, Tunnel>;

    closed spec fn view(&self) -> Map<Seq<char>, Tunnel> {
        self.inner@
    }
}

impl Default for TunnelRegistry {
    fn default() -> (r: Self)
        ensures
            r@ == Map::<Seq<char>, Tunnel>::empty(),
    {
        TunnelRegistry { inner: StringHashMap::new() }
    }
}

impl TunnelRegistry {
    /// No tunnels.
    pub fn new() -> (r: Self)
        ensures
            r@ == Map::<Seq<char>, Tunnel>::empty(),
    {
        TunnelRegistry::default()
    }

    /// How many tunnels are open.
    pub fn count(&self) -> (r: usize)
        ensures
            r == self@.len(),
    {
        self.inner.len()
    }

    /// The tunnel with an id.
    pub fn get(&self, id: &str) -> (r: Option<&Tunnel>)
        ensures
            match r {
                Some(t) => self@.contains_key(id@) && *t == self@[id@],
                None => !self@.contains_key(id@),
            },
    {
        self.inner.get(id)
    }

    fn insert(&mut self, id: String, tunnel: Tunnel)
        ensures
            final(self)@ == old(self)@.insert(id@, tunnel),
    {
        self.inner.insert(id, tunnel);
    }

    fn remove(&mut self, id: &str)
        ensures
            final(self)@ == old(self)@.remove(id@),
    {
        self.inner.remove(id);
    }
}

/// A fresh id for a tunnel: sixteen random bytes in URL-safe base64.
pub fn mint_id() -> (id: String)
    ensures
        exists|b: Seq<u8>| b.len() == 16 && id@ == #[trigger] crypto::base64url(b),
        id@.len() == 22,
        keys::url_safe(id@),
{
    let id = keys::random_text(16);
    proof {
        keys::lemma_drawn(id@, 16);
    }
    id
}

// --- The life of a tunnel ---------------------------------------------------

/// Whether another tunnel may be opened.
pub fn has_room(registry: &TunnelRegistry, max_tunnels: usize) -> (r: bool)
    ensures
        r == (registry@.len() < max_tunnels),
{
    registry.count() < max_tunnels
}

/// The message that tells the client the id of its tunnel.
pub open spec fn hello_text(id: Seq<char>) -> Seq<char> {
    "{\"tunnel_id\":\""@ + id + "\"}"@
}

/// The message that tells the client the id of its tunnel.
pub fn hello(id: &str) -> (r: String)
    ensures
        r@ == hello_text(id@),
{
    text::cat3("{\"tunnel_id\":\"", id, "\"}")
}

/// The registry once a tunnel has been opened.
pub open spec fn opened(
    before: Map<Seq<char>, Tunnel>,
    id: Seq<char>,
    socks_addr: SocketAddr,
    key_id: String,
) -> Map<Seq<char>, Tunnel> {
    before.insert(id, Tunnel { socks_addr, key_id })
}

/// Register a tunnel whose proxy listens, under a fresh id. Returns the id and
/// the message that is due first.
pub fn open(registry: &mut TunnelRegistry, socks_addr: SocketAddr, key_id: String) -> (r: (
    String,
    String,
))
    ensures
        keys::drawn(r.0@, 16),
        keys::url_safe(r.0@),
        r.1@ == hello_text(r.0@),
        final(registry)@ == opened(old(registry)@, r.0@, socks_addr, key_id),
{
    let id = mint_id();
    let first = hello(&id);
    registry.insert(id.clone(), Tunnel { socks_addr, key_id });
    (id, first)
}

/// The registry once the first message was sent, or could not be.
pub open spec fn greeted(
    before: Map<Seq<char>, Tunnel>,
    id: Seq<char>,
    sent: bool,
) -> Map<Seq<char>, Tunnel> {
    if sent {
        before
    } else {
        before.remove(id)
    }
}

/// Note whether the first message was sent. Where it was not, the tunnel is over.
pub fn greet(registry: &mut TunnelRegistry, id: &str, sent: bool) -> (r: bool)
    ensures
        r == sent,
        final(registry)@ == greeted(old(registry)@, id@, sent),
{
    if !sent {
        registry.remove(id);
    }
    sent
}

/// Take down a tunnel whose WebSocket is gone, with all its streams.
pub fn close<T>(registry: &mut TunnelRegistry, id: &str, conn: &mut TunnelConn<T>)
    ensures
        final(registry)@ == old(registry)@.remove(id@),
        final(conn)@ == Map::<u32, T>::empty(),
        final(conn).next_id == old(conn).next_id,
{
    registry.remove(id);
    conn.streams.clear();
}

/// Whatever becomes of a tunnel, it is deregistered in the end: after the
/// message that could not be sent, as after the WebSocket is gone. The other
/// tunnels are as they were.
pub proof fn law_tunnel_is_deregistered(
    before: Map<Seq<char>, Tunnel>,
    id: Seq<char>,
    socks_addr: SocketAddr,
    key_id: String,
)
    ensures
        greeted(opened(before, id, socks_addr, key_id), id, false) == before.remove(id),
        greeted(opened(before, id, socks_addr, key_id), id, true).remove(id) == before.remove(id),
        !before.contains_key(id) ==> before.remove(id) == before,
{
    let after = opened(before, id, socks_addr, key_id);
    assert(after.remove(id) =~= before.remove(id));
    assert(!before.contains_key(id) ==> before.remove(id) =~= before);
}

/// While a tunnel is open its id leads to its proxy.
pub proof fn law_open_tunnel_is_found(
    before: Map<Seq<char>, Tunnel>,
    id: Seq<char>,
    socks_addr: SocketAddr,
    key_id: String,
)
    ensures
        ({
            let after = greeted(opened(before, id, socks_addr, key_id), id, true);
            after.contains_key(id) && proxy_text(after[id]) == "socks5://"@ + net::socket_text(
                socks_addr,
            )
        }),
{
}

// --- The frames of a tunnel -------------------------------------------------

/// What a frame from the client calls for.
#[derive(Debug)]
pub enum Route {
    /// Hand the bytes to the stream.
    Deliver { id: u32, payload: Vec<u8> },
    /// The stream has been taken out, which ends its connection.
    Closed { id: u32 },
    /// Nothing.
    Ignored,
}

/// A [`Route`] over sequences.
pub enum RouteView {
    Deliver { id: u32, payload: Seq<u8> },
    Closed { id: u32 },
    Ignored,
}

impl View for Route {
    type V = RouteView;

    open spec fn view(&self) -> RouteView {
        match self {
            Route::Deliver { id, payload } => RouteView::Deliver { id: *id, payload: payload@ },
            Route::Closed { id } => RouteView::Closed { id: *id },
            Route::Ignored => RouteView::Ignored,
        }
    }
}

/// What a frame from the client calls for, with these streams open. Bytes of a
/// stream that is not open are dropped, and so is a frame that would open one.
pub open spec fn route<T>(streams: Map<u32, T>, b: Seq<u8>) -> RouteView {
    match frame::frame_of(b) {
        Some(FrameView::Data { id, payload }) => if streams.contains_key(id) {
            RouteView::Deliver { id, payload }
        } else {
            RouteView::Ignored
        },
        Some(FrameView::Close { id }) => RouteView::Closed { id },
        _ => RouteView::Ignored,
    }
}

/// The open streams after a frame from the client.
pub open spec fn routed<T>(streams: Map<u32, T>, b: Seq<u8>) -> Map<u32, T> {
    match frame::frame_of(b) {
        Some(FrameView::Close { id }) => streams.remove(id),
        _ => streams,
    }
}

/// What comes from the WebSocket of a tunnel.
#[derive(Debug)]
pub enum WsEvent {
    /// Nothing came for as long as a tunnel may idle. `sent` tells whether anything was
    /// sent meanwhile, which is traffic too.
    Idle { sent: bool },
    /// The WebSocket has ended.
    Ended,
    /// The WebSocket has failed.
    Failed,
    /// A binary message.
    Binary(Vec<u8>),
    /// The client closes the WebSocket.
    Close,
    /// Another message: it only counts as traffic.
    Other,
}

/// What follows from an event of the WebSocket.
#[derive(Debug)]
pub enum Pump {
    /// Follow the route, and wait for the next event.
    Go(Route),
    /// The tunnel is over, for this reason.
    Stop(String),
}

/// A [`Pump`] over sequences.
pub enum PumpView {
    Go(RouteView),
    Stop(Seq<char>),
}

impl View for Pump {
    type V = PumpView;

    open spec fn view(&self) -> PumpView {
        match self {
            Pump::Go(route) => PumpView::Go(route@),
            Pump::Stop(reason) => PumpView::Stop(reason@),
        }
    }
}

/// What follows from an event of the WebSocket, with these streams open.
pub open spec fn pumped<T>(streams: Map<u32, T>, event: WsEvent) -> PumpView {
    match event {
        WsEvent::Idle { sent } => if sent {
            PumpView::Go(RouteView::Ignored)
        } else {
            PumpView::Stop("idle timeout"@)
        },
        WsEvent::Ended => PumpView::Stop("websocket closed"@),
        WsEvent::Failed => PumpView::Stop("websocket error"@),
        WsEvent::Close => PumpView::Stop("client closed"@),
        WsEvent::Binary(b) => PumpView::Go(route(streams, b@)),
        WsEvent::Other => PumpView::Go(RouteView::Ignored),
    }
}

/// The streams of a tunnel, and the id of the next one.
pub struct TunnelConn<T> {
    pub streams: Streams<T>,
    pub next_id: u32,
}

impl<T> View for TunnelConn<T> {
    type V = Map<u32, T>;

    open spec fn view(&self) -> Map<u32, T> {
        self.streams@
    }
}

impl<T> TunnelConn<T> {
    /// A tunnel without streams. The first one has the id 1.
    pub fn new() -> (r: Self)
        ensures
            r@ == Map::<u32, T>::empty(),
            r.next_id == 1,
    {
        TunnelConn { streams: Streams::new(), next_id: 1 }
    }

    /// Open a stream to a host and port. Returns its id, and the frame that asks
    /// the client to dial.
    pub fn open_stream(&mut self, sink: T, host: &str, port: u16) -> (r: (u32, Vec<u8>))
        ensures
            r.0 == old(self).next_id,
            r.1@ == frame::open_bytes(r.0, text::utf8(host@), port),
            final(self)@ == old(self)@.insert(r.0, sink),
            final(self).next_id == id_after(old(self).next_id, 1),
    {
        let id = self.next_id;
        self.next_id = id.wrapping_add(1);
        self.streams.insert(id, sink);
        let f = frame::open_frame(id, host, port);
        (id, f)
    }

    /// Note whether the frame that opens a stream was sent. Where it was not, the
    /// stream is over. Returns the reply that is due to the browser.
    pub fn stream_opened(&mut self, id: u32, sent: bool) -> (r: Vec<u8>)
        ensures
            r@ == socks::reply_bytes(
                if sent {
                    0
                } else {
                    1
                },
            ),
            final(self)@ == if sent {
                old(self)@
            } else {
                old(self)@.remove(id)
            },
            final(self).next_id == old(self).next_id,
    {
        if !sent {
            self.streams.remove(id);
        }
        socks::opened(sent)
    }

    /// Take out a stream that has ended on both sides.
    pub fn stream_ended(&mut self, id: u32)
        ensures
            final(self)@ == old(self)@.remove(id),
            final(self).next_id == old(self).next_id,
    {
        self.streams.remove(id);
    }

    /// Follow a frame from the client.
    pub fn handle_frame(&mut self, b: &[u8]) -> (r: Route)
        ensures
            r@ == route(old(self)@, b@),
            final(self)@ == routed(old(self)@, b@),
            final(self).next_id == old(self).next_id,
    {
        match frame::parse(b) {
            Some(Frame::Data { id, payload }) => if self.streams.get(id).is_some() {
                Route::Deliver { id, payload }
            } else {
                Route::Ignored
            },
            Some(Frame::Close { id }) => {
                self.streams.remove(id);
                Route::Closed { id }
            },
            Some(Frame::Open { .. }) => Route::Ignored,
            None => Route::Ignored,
        }
    }

    /// Follow an event of the WebSocket.
    pub fn pump(&mut self, event: &WsEvent) -> (r: Pump)
        ensures
            r@ == pumped(old(self)@, *event),
            final(self)@ == (match *event {
                WsEvent::Binary(b) => routed(old(self)@, b@),
                _ => old(self)@,
            }),
            final(self).next_id == old(self).next_id,
    {
        match event {
            WsEvent::Idle { sent } => if *sent {
                Pump::Go(Route::Ignored)
            } else {
                Pump::Stop(text::owned("idle timeout"))
            },
            WsEvent::Ended => Pump::Stop(text::owned("websocket closed")),
            WsEvent::Failed => Pump::Stop(text::owned("websocket error")),
            WsEvent::Close => Pump::Stop(text::owned("client closed")),
            WsEvent::Binary(b) => Pump::Go(self.handle_frame(b)),
            WsEvent::Other => Pump::Go(Route::Ignored),
        }
    }
}

/// A tunnel idles out only without traffic in either direction.
pub proof fn law_traffic_keeps_a_tunnel_open<T>(streams: Map<u32, T>)
    ensures
        pumped(streams, WsEvent::Idle { sent: true }) is Go,
        pumped(streams, WsEvent::Idle { sent: false }) == PumpView::Stop("idle timeout"@),
{
}

/// The id of the stream that is opened `n` streams after the one with this id. The
/// ids start again from zero after the last one.
pub open spec fn id_after(id: u32, n: nat) -> u32 {
    ((id + n) % 0x1_0000_0000) as u32
}

/// No two streams have the same id, unless as many lie between them as there are
/// ids.
pub proof fn law_stream_ids_differ(id: u32, n: nat)
    requires
        0 < n < 0x1_0000_0000,
    ensures
        id_after(id, n) != id,
        id_after(id_after(id, n), 1) == id_after(id, n + 1),
{
}

/// A stream that was opened and has ended leaves the others as they were.
pub proof fn law_stream_leaves_nothing_behind<T>(before: Map<u32, T>, id: u32, sink: T)
    requires
        !before.contains_key(id),
    ensures
        before.insert(id, sink).remove(id) == before,
{
    assert(before.insert(id, sink).remove(id) =~= before);
}

/// Bytes that the client sends for an open stream reach that stream, unchanged,
/// and change no stream.
pub proof fn law_data_reaches_its_stream<T>(streams: Map<u32, T>, id: u32, payload: Seq<u8>)
    requires
        streams.contains_key(id),
    ensures
        route(streams, frame::data_bytes(id, payload)) == (RouteView::Deliver { id, payload }),
        routed(streams, frame::data_bytes(id, payload)) == streams,
{
    frame::law_data_frame_is_read_back(id, payload);
}

/// After a client has closed a stream, nothing it sends reaches that stream, and
/// the others are as they were.
pub proof fn law_closed_stream_gets_nothing<T>(streams: Map<u32, T>, id: u32, payload: Seq<u8>)
    ensures
        ({
            let after = routed(streams, frame::close_bytes(id));
            &&& after == streams.remove(id)
            &&& route(after, frame::data_bytes(id, payload)) is Ignored
        }),
{
    frame::law_close_frame_is_read_back(id);
    frame::law_data_frame_is_read_back(id, payload);
}

} // verus!
