//! Laws on tunnels, on both sides, and on the management of keys from afar.

use vstd::prelude::*;

use crate::client;
use crate::client::admin;
use crate::client::admin::KeysCmd;
use crate::client::admin::Method;
use crate::client::admin::Status;
use crate::client::tunnel as agent;
use crate::client::tunnel::HelloEvent;
use crate::client::tunnel::HelloView;
use crate::crypto;
use crate::error::ApiErrorView;
use crate::frame;
use crate::json;
use crate::json::JsonView;
use crate::laws::json as members;
use crate::laws::text as reading;
use crate::net::SocketAddr;
use crate::streams;
use crate::target::UrlView;
use crate::tunnel;
use crate::tunnel::PumpView;
use crate::tunnel::Tunnel;
use crate::tunnel::WsEvent;

verus! {

// --- The server's side ------------------------------------------------------

/// A tunnel that was opened is registered under its id with its proxy and its key, and the
/// others are as they were; it stays exactly where its client could be told the id.
pub proof fn law_tunnel_is_registered(
    before: Map<Seq<char>, Tunnel>,
    id: Seq<char>,
    socks_addr: SocketAddr,
    key_id: String,
    other: Seq<char>,
    sent: bool,
)
    requires
        other != id,
    ensures
        ({
            let open = tunnel::opened(before, id, socks_addr, key_id);
            let after = tunnel::greeted(open, id, sent);
            &&& open.contains_key(id)
            &&& open[id].socks_addr == socks_addr
            &&& open[id].key_id == key_id
            &&& after.contains_key(id) <==> sent
            &&& sent ==> after[id] == open[id]
            &&& after.contains_key(other) <==> before.contains_key(other)
            &&& before.contains_key(other) ==> after[other] == before[other]
        }),
{
}

/// The message to a client is a document whose only member is the id of its tunnel.
pub proof fn law_hello_is_a_document(id: Seq<char>)
    ensures
        tunnel::hello_text(id) == "{\"tunnel_id\":\""@ + id + "\"}"@,
        tunnel::hello_text(id).subrange(
            "{\"tunnel_id\":\""@.len() as int,
            "{\"tunnel_id\":\""@.len() + id.len() as int,
        ) == id,
{
    let first = "{\"tunnel_id\":\""@;
    assert(tunnel::hello_text(id).subrange(first.len() as int, first.len() + id.len() as int)
        =~= id);
}

/// Bytes of a client are followed by their layout: those of an open stream reach it, those
/// of another are dropped, and a stream that is closed is taken out, it alone.
pub proof fn law_server_follows_frames<T>(
    streams: Map<u32, T>,
    id: u32,
    other: u32,
    payload: Seq<u8>,
    host: Seq<u8>,
    port: u16,
)
    requires
        other != id,
        host.len() < 0x1_0000,
    ensures
        streams.contains_key(id) ==> tunnel::route(streams, frame::data_bytes(id, payload)) == (
        tunnel::RouteView::Deliver { id, payload }),
        !streams.contains_key(id) ==> tunnel::route(
            streams,
            frame::data_bytes(id, payload),
        ) is Ignored,
        tunnel::routed(streams, frame::data_bytes(id, payload)) == streams,
        tunnel::route(streams, frame::close_bytes(id)) == (tunnel::RouteView::Closed { id }),
        !tunnel::routed(streams, frame::close_bytes(id)).contains_key(id),
        tunnel::routed(streams, frame::close_bytes(id)).contains_key(other)
            <==> streams.contains_key(other),
        streams.contains_key(other) ==> tunnel::routed(streams, frame::close_bytes(id))[other]
            == streams[other],
        tunnel::route(streams, frame::open_bytes(id, host, port)) is Ignored,
        tunnel::routed(streams, frame::open_bytes(id, host, port)) == streams,
{
    frame::law_data_frame_is_read_back(id, payload);
    frame::law_close_frame_is_read_back(id);
    frame::law_open_frame_is_read_back(id, host, port);
}

/// What is no frame is dropped, on both sides.
pub proof fn law_no_frame_is_dropped<T>(streams: Map<u32, T>, b: Seq<u8>)
    requires
        b.len() < 5 || b[0] != 1 && b[0] != 2 && b[0] != 3,
    ensures
        tunnel::route(streams, b) is Ignored,
        tunnel::routed(streams, b) == streams,
        agent::route(streams, b) is Ignored,
        agent::routed(streams, b) == streams,
{
    crate::laws::wire::law_frames_are_read_by_their_layout(b);
}

/// A tunnel is over exactly when its WebSocket has ended, has failed or is closed, or when
/// nothing went over it in either direction; and each is told apart.
pub proof fn law_when_a_tunnel_is_over<T>(streams: Map<u32, T>, event: WsEvent)
    ensures
        tunnel::pumped(streams, event) is Stop <==> event is Ended || event is Failed || event
             is Close || event == (WsEvent::Idle { sent: false }),
        event is Ended ==> tunnel::pumped(streams, event) == PumpView::Stop("websocket closed"@),
        event is Failed ==> tunnel::pumped(streams, event) == PumpView::Stop("websocket error"@),
        event is Close ==> tunnel::pumped(streams, event) == PumpView::Stop("client closed"@),
        event == (WsEvent::Idle { sent: false }) ==> tunnel::pumped(streams, event)
            == PumpView::Stop("idle timeout"@),
        event matches WsEvent::Binary(b) ==> tunnel::pumped(streams, event) == PumpView::Go(
            tunnel::route(streams, b@),
        ),
        event is Other || event == (WsEvent::Idle { sent: true }) ==> tunnel::pumped(streams, event)
            == PumpView::Go(tunnel::RouteView::Ignored),
{
}

/// The ids of streams count up by one, and start again from zero.
pub proof fn law_ids_count_up(id: u32)
    ensures
        id < 0xffff_ffff ==> tunnel::id_after(id, 1) == id + 1,
        tunnel::id_after(0xffff_ffff, 1) == 0,
        tunnel::id_after(id, 0) == id,
{
}

/// What was read is carried as it is; nothing more is carried once there is nothing more
/// to read.
pub proof fn law_what_was_read_is_carried(id: u32, bytes: Seq<u8>)
    ensures
        bytes.len() > 0 ==> streams::up(id, Some(bytes)) == Some(frame::data_bytes(id, bytes)),
        bytes.len() == 0 ==> streams::up(id, Some(bytes)) is None,
        streams::up(id, None) is None,
{
}

// --- The client's side ------------------------------------------------------

/// A WebSocket is as protected as the server is: `https` leads to `wss`, and `http` to
/// `ws`; any other scheme is refused by its name.
pub proof fn law_scheme_of_a_tunnel(url: UrlView, e: Seq<char>)
    ensures
        url.scheme == "https"@ || url.scheme == "wss"@ ==> agent::scheme_of(Ok(url)) == Ok::<
            Seq<char>,
            Seq<char>,
        >("wss"@),
        url.scheme == "http"@ || url.scheme == "ws"@ ==> agent::scheme_of(Ok(url)) == Ok::<
            Seq<char>,
            Seq<char>,
        >("ws"@),
        url.scheme != "https"@ && url.scheme != "wss"@ && url.scheme != "http"@ && url.scheme
            != "ws"@ ==> agent::scheme_of(Ok(url)) == Err::<Seq<char>, Seq<char>>(
            "unsupported server scheme: "@ + url.scheme,
        ),
        agent::scheme_of(Err(e)) == Err::<Seq<char>, Seq<char>>("invalid --server url: "@ + e),
{
    reveal_strlit("https");
    reveal_strlit("wss");
    reveal_strlit("http");
    reveal_strlit("ws");
    assert("https"@.len() == 5 && "wss"@.len() == 3 && "http"@.len() == 4 && "ws"@.len() == 2);
    reveal_strlit("invalid --server url");
    reveal_strlit(": ");
    reveal_strlit("invalid --server url: ");
    assert("invalid --server url"@ + ": "@ =~= "invalid --server url: "@);
}

/// A tunnel is opened at `/tunnel` below the server, with one slash between, however many
/// the URL of the server ends with.
pub proof fn law_where_tunnels_are_opened(server: Seq<char>, slashes: Seq<char>)
    requires
        server.len() > 0 ==> server.last() != '/',
        forall|i: int| 0 <= i < slashes.len() ==> slashes[i] == '/',
    ensures
        agent::tunnel_endpoint(server + slashes) == server + "/tunnel"@,
{
    reading::law_slashes_do_not_matter(server, slashes);
}

/// What was being done stands before the reason.
pub proof fn law_context_comes_first(what: Seq<char>, why: Seq<char>)
    ensures
        client::in_context(what, why) == what + ": "@ + why,
{
}

/// A message tells the id under `tunnel_id`; one that is no document, or has no such text,
/// tells none.
pub proof fn law_id_that_is_told(v: JsonView, id: Seq<char>, e: Seq<char>)
    ensures
        members::holds(v, "tunnel_id"@, JsonView::Text(id)) ==> agent::told(Ok(v))
            == HelloView::Id(id),
        json::member(v, "tunnel_id"@) is None || json::member(v, "tunnel_id"@)->0 !is Text
            ==> agent::told(Ok(v)) == HelloView::Failed("tunnel hello missing tunnel_id"@),
        agent::told(Err(e)) == HelloView::Failed("parsing tunnel hello: "@ + e),
{
    members::law_what_is_held_is_found(v, "tunnel_id"@, JsonView::Text(id));
    reveal_strlit("parsing tunnel hello");
    reveal_strlit(": ");
    reveal_strlit("parsing tunnel hello: ");
    assert("parsing tunnel hello"@ + ": "@ =~= "parsing tunnel hello: "@);
}

/// Before the id is known, only a text message tells it; another message is passed over,
/// and the end of the WebSocket is the end of the tunnel.
pub proof fn law_waiting_for_the_id(event: HelloEvent)
    ensures
        agent::greeted(event) is Wait <==> event is Other || (event matches HelloEvent::Text(t)
            && agent::told(json::json_parse(crate::text::utf8(t@))) is Wait),
        event is Close ==> agent::greeted(event) == HelloView::Failed(
            "tunnel closed before sending id"@,
        ),
        event is Ended ==> agent::greeted(event) == HelloView::Failed(
            "tunnel websocket ended before sending id"@,
        ),
        event matches HelloEvent::Failed(e) ==> agent::greeted(event) == HelloView::Failed(
            "reading tunnel hello: "@ + e@,
        ),
        event matches HelloEvent::Text(t) ==> agent::greeted(event) == agent::told(
            json::json_parse(crate::text::utf8(t@)),
        ),
{
    reveal_strlit("reading tunnel hello");
    reveal_strlit(": ");
    reveal_strlit("reading tunnel hello: ");
    assert("reading tunnel hello"@ + ": "@ =~= "reading tunnel hello: "@);
}

/// Bytes of a server are followed by their layout: a stream that is opened is dialed at its
/// host and port, those of an open stream reach it, and a stream that is closed is taken
/// out, it alone.
pub proof fn law_client_follows_frames<T>(
    streams: Map<u32, T>,
    id: u32,
    other: u32,
    payload: Seq<u8>,
    host: Seq<u8>,
    port: u16,
)
    requires
        other != id,
        host.len() < 0x1_0000,
    ensures
        agent::route(streams, frame::open_bytes(id, host, port)) == (agent::RouteView::Dial {
            id,
            host: crypto::utf8_lossy(host),
            port,
        }),
        agent::routed(streams, frame::open_bytes(id, host, port)) == streams,
        streams.contains_key(id) ==> agent::route(streams, frame::data_bytes(id, payload)) == (
        agent::RouteView::Deliver { id, payload }),
        !streams.contains_key(id) ==> agent::route(
            streams,
            frame::data_bytes(id, payload),
        ) is Ignored,
        agent::routed(streams, frame::data_bytes(id, payload)) == streams,
        agent::route(streams, frame::close_bytes(id)) == (agent::RouteView::Closed { id }),
        !agent::routed(streams, frame::close_bytes(id)).contains_key(id),
        agent::routed(streams, frame::close_bytes(id)).contains_key(other)
            <==> streams.contains_key(other),
        streams.contains_key(other) ==> agent::routed(streams, frame::close_bytes(id))[other]
            == streams[other],
{
    frame::law_data_frame_is_read_back(id, payload);
    frame::law_close_frame_is_read_back(id);
    frame::law_open_frame_is_read_back(id, host, port);
}

// --- Keys from afar ---------------------------------------------------------

/// Keys are managed at `/admin/keys` below the server, with one slash between, however many
/// the URL of the server ends with, and a key has its id there.
pub proof fn law_where_keys_are_managed(server: Seq<char>, slashes: Seq<char>, id: Seq<char>)
    requires
        server.len() > 0 ==> server.last() != '/',
        forall|i: int| 0 <= i < slashes.len() ==> slashes[i] == '/',
    ensures
        admin::keys_url(server + slashes) == server + "/admin/keys"@,
        admin::key_url(server + slashes, id) == server + "/admin/keys/"@ + id,
{
    reading::law_slashes_do_not_matter(server, slashes);
    reveal_strlit("/admin/keys");
    reveal_strlit("/");
    reveal_strlit("/admin/keys/");
    assert(server + "/admin/keys"@ + "/"@ + id =~= server + "/admin/keys/"@ + id);
}

/// What a subcommand asks of a server: a list is read, a key is deleted, and whatever else
/// is posted; a key by its id and the action. A body comes with a new key, which holds its
/// label and its role, and with a new role.
pub proof fn law_what_is_asked_of_a_server(base: Seq<char>, cmd: KeysCmd)
    ensures
        ({
            let r = admin::requested(base, cmd);
            &&& r.method == Method::Get <==> cmd is List
            &&& r.method == Method::Delete <==> cmd is Delete
            &&& r.body is Some <==> cmd is Create || cmd is Promote || cmd is Demote
            &&& cmd is List ==> r.url == admin::keys_url(base)
            &&& cmd matches KeysCmd::Create { label, role } ==> r.url == admin::keys_url(base)
                && members::holds(r.body->0, "label"@, JsonView::Text(label@)) && members::holds(
                r.body->0,
                "role"@,
                JsonView::Text(role@),
            )
            &&& cmd matches KeysCmd::Disable { id } ==> r.url == admin::key_url(base, id@)
                + "/disable"@
            &&& cmd matches KeysCmd::Enable { id } ==> r.url == admin::key_url(base, id@)
                + "/enable"@
            &&& cmd matches KeysCmd::Delete { id } ==> r.url == admin::key_url(base, id@)
            &&& cmd matches KeysCmd::Promote { id } ==> r.url == admin::key_url(base, id@)
                + "/role"@ && members::holds(r.body->0, "role"@, JsonView::Text("admin"@))
            &&& cmd matches KeysCmd::Demote { id } ==> r.url == admin::key_url(base, id@)
                + "/role"@ && members::holds(r.body->0, "role"@, JsonView::Text("render"@))
        }),
{
    reveal_strlit("label");
    reveal_strlit("role");
    assert("label"@.len() == 5 && "role"@.len() == 4);
    match cmd {
        KeysCmd::Create { label, role } => {
            let m = admin::create_body(label@, role@)->Object_0;
            assert(m[0] == ("label"@, JsonView::Text(label@)));
            assert(m[1] == ("role"@, JsonView::Text(role@)));
        },
        KeysCmd::Promote { id } => {
            let m = admin::role_body("admin"@)->Object_0;
            assert(m[0] == ("role"@, JsonView::Text("admin"@)));
        },
        KeysCmd::Demote { id } => {
            let m = admin::role_body("render"@)->Object_0;
            assert(m[0] == ("role"@, JsonView::Text("render"@)));
        },
        _ => {},
    }
}

/// An answer counts exactly where its status is a success, and is what was parsed then, or
/// null; a missing permission is told as such, and any other failure with its status and
/// the reason of the server, or else the answer as it is.
pub proof fn law_what_an_answer_comes_to(
    status: Status,
    parsed: Result<JsonView, Seq<char>>,
    lossy: Seq<char>,
    why: Seq<char>,
)
    ensures
        ({
            let r = admin::answered(status, parsed, lossy);
            let told = "server returned "@ + status.text@ + ": "@;
            &&& r is Ok <==> 200 <= status.code < 300
            &&& r is Ok && parsed is Ok ==> r->Ok_0 == parsed->Ok_0
            &&& r is Ok && parsed is Err ==> r->Ok_0 is Null
            &&& status.code == 403 ==> r == Err::<JsonView, Seq<char>>(
                "insufficient permission: needs an admin key"@,
            )
            &&& r is Err && status.code != 403 && parsed is Err ==> r->Err_0 == told + lossy
            &&& r is Err && status.code != 403 && parsed is Ok && members::holds(
                parsed->Ok_0,
                "error"@,
                JsonView::Text(why),
            ) ==> r->Err_0 == told + why
            &&& r is Err && status.code != 403 && parsed is Ok && (json::member(
                parsed->Ok_0,
                "error"@,
            ) is None || json::member(parsed->Ok_0, "error"@)->0 !is Text) ==> r->Err_0 == told
                + lossy
        }),
{
    if let Ok(v) = parsed {
        members::law_what_is_held_is_found(v, "error"@, JsonView::Text(why));
    }
}

/// A key in an answer is shown with what the answer holds of it, each under its name, and
/// with a question mark for a text that is not there.
pub proof fn law_key_in_an_answer(
    v: JsonView,
    id: Seq<char>,
    label: Seq<char>,
    role: Seq<char>,
    created_at: u64,
    disabled: bool,
)
    requires
        members::holds(v, "id"@, JsonView::Text(id)),
        members::holds(v, "label"@, JsonView::Text(label)),
        members::holds(v, "role"@, JsonView::Text(role)),
        members::holds(v, "created_at"@, JsonView::Number(Some(created_at))),
        members::holds(v, "disabled"@, JsonView::Bool(disabled)),
    ensures
        admin::key_line(v) == crate::key_cli::list_line(id, label, role, created_at, disabled),
{
    members::law_what_is_held_is_found(v, "id"@, JsonView::Text(id));
    members::law_what_is_held_is_found(v, "label"@, JsonView::Text(label));
    members::law_what_is_held_is_found(v, "role"@, JsonView::Text(role));
    members::law_what_is_held_is_found(v, "created_at"@, JsonView::Number(Some(created_at)));
    members::law_what_is_held_is_found(v, "disabled"@, JsonView::Bool(disabled));
}

/// What an answer does not hold of a key is shown as unknown, as no time, and as active.
pub proof fn law_what_an_answer_lacks(v: JsonView, name: Seq<char>, value: Seq<char>)
    ensures
        members::holds(v, name, JsonView::Text(value)) ==> admin::text_or_unknown(v, name)
            == value,
        json::member(v, name) is None || json::member(v, name)->0 !is Text
            ==> admin::text_or_unknown(v, name) == "?"@,
        admin::key_line(v) == crate::key_cli::list_line(
            admin::text_or_unknown(v, "id"@),
            admin::text_or_unknown(v, "label"@),
            admin::text_or_unknown(v, "role"@),
            if json::number_member(v, "created_at"@) is Some {
                json::number_member(v, "created_at"@)->0
            } else {
                0
            },
            json::bool_member(v, "disabled"@) == Some(true),
        ),
{
    members::law_what_is_held_is_found(v, name, JsonView::Text(value));
}

/// What is printed for an answer: for a new key its id, label, role and secret; for a list
/// a line for each key, or that there are none; and else the key and what was done to it.
pub proof fn law_what_is_printed(cmd: KeysCmd, v: JsonView)
    ensures
        ({
            let lines = admin::reported(cmd, v);
            &&& cmd is Create ==> lines.len() == 2 && lines[0] == "Created key id="@
                + admin::text_or_unknown(v, "id"@) + " label="@ + admin::text_or_unknown(
                v,
                "label"@,
            ) + " role="@ + admin::text_or_unknown(v, "role"@) && lines[1]
                == "Secret (shown once, store it now):\n"@ + admin::text_or_unknown(v, "secret"@)
            &&& cmd is List && v is List && v->List_0.len() > 0 ==> lines.len() == v->List_0.len()
                && forall|i: int|
                0 <= i < v->List_0.len() ==> #[trigger] lines[i] == admin::key_line(v->List_0[i])
            &&& cmd is List && !(v is List && v->List_0.len() > 0) ==> lines == seq!["(no keys)"@]
            &&& cmd matches KeysCmd::Disable { id } ==> lines == seq!["Disabled key id="@ + id@]
            &&& cmd matches KeysCmd::Enable { id } ==> lines == seq!["Enabled key id="@ + id@]
            &&& cmd matches KeysCmd::Delete { id } ==> lines == seq!["Deleted key id="@ + id@]
            &&& cmd matches KeysCmd::Promote { id } ==> lines == seq![
                "Promoted key id="@ + id@ + " to admin"@,
            ]
            &&& cmd matches KeysCmd::Demote { id } ==> lines == seq![
                "Demoted key id="@ + id@ + " to render"@,
            ]
        }),
{
}

/// A request that is refused is told the client with its status as no success.
pub proof fn law_refusal_is_no_success(e: ApiErrorView)
    ensures
        !admin::is_success(crate::error::status_of(e)),
        forall|code: u16| #[trigger] admin::is_success(code) <==> code / 100 == 2,
{
}

/// The address of a tunnel is that of `/tunnel` below the server with the scheme of a
/// WebSocket, as far as it can have that; an error says why there is none.
pub proof fn law_address_of_a_tunnel(server: Seq<char>, slashes: Seq<char>)
    requires
        server.len() > 0 ==> server.last() != '/',
        forall|i: int| 0 <= i < slashes.len() ==> slashes[i] == '/',
    ensures
        ({
            let at = server + "/tunnel"@;
            let r = agent::tunnel_address(server + slashes);
            match crate::target::url_parse(at) {
                Err(e) => r == Err::<Seq<char>, Seq<char>>("invalid --server url: "@ + e),
                Ok(u) => if u.scheme == "https"@ || u.scheme == "wss"@ {
                    r == Ok::<Seq<char>, Seq<char>>(
                        match crate::target::url_with_scheme(at, "wss"@) {
                            Some(url) => url,
                            None => u.href,
                        },
                    )
                } else if u.scheme == "http"@ || u.scheme == "ws"@ {
                    r == Ok::<Seq<char>, Seq<char>>(
                        match crate::target::url_with_scheme(at, "ws"@) {
                            Some(url) => url,
                            None => u.href,
                        },
                    )
                } else {
                    r == Err::<Seq<char>, Seq<char>>("unsupported server scheme: "@ + u.scheme)
                },
            }
        }),
{
    let at = server + "/tunnel"@;
    law_where_tunnels_are_opened(server, slashes);
    match crate::target::url_parse(at) {
        Ok(u) => law_scheme_of_a_tunnel(u, seq![]),
        Err(e) => {
            reveal_strlit("invalid --server url");
            reveal_strlit(": ");
            reveal_strlit("invalid --server url: ");
            assert("invalid --server url"@ + ": "@ =~= "invalid --server url: "@);
        },
    }
}

} // verus!
