//! Laws on what goes over the wire: the errors that clients are told, the frames of a
//! tunnel, and the handshake of its proxy.

use vstd::prelude::*;

use crate::crypto;
use crate::error;
use crate::error::ApiErrorView;
use crate::frame;
use crate::frame::FrameView;
use crate::json::JsonView;
use crate::laws::json as members;
use crate::net;
use crate::reload;
use crate::reload::Reload;
use crate::reload::Trigger;
use crate::socks;
use crate::socks::Handshake;
use crate::socks::Refusal;
use crate::socks::SocksView;
use crate::socks::StepView;

verus! {

// --- Errors -----------------------------------------------------------------

/// Each kind of error has its own status, and what is said of it is its message.
pub proof fn law_status_and_message(m: Seq<char>)
    ensures
        error::status_of(ApiErrorView::BadRequest(m)) == 400,
        error::status_of(ApiErrorView::Unauthorized(m)) == 401,
        error::status_of(ApiErrorView::Forbidden(m)) == 403,
        error::status_of(ApiErrorView::Internal(m)) == 500,
        error::status_of(ApiErrorView::Render(m)) == 502,
        error::status_of(ApiErrorView::Timeout) == 504,
        error::message_of(ApiErrorView::BadRequest(m)) == m,
        error::message_of(ApiErrorView::Unauthorized(m)) == m,
        error::message_of(ApiErrorView::Forbidden(m)) == m,
        error::message_of(ApiErrorView::Internal(m)) == m,
        error::message_of(ApiErrorView::Render(m)) == m,
        error::message_of(ApiErrorView::Timeout) == "render timed out"@,
{
}

/// The answer holds the message under `error`, and nothing else.
pub proof fn law_answer_tells_the_error(e: ApiErrorView)
    ensures
        members::holds(error::body_of(e), "error"@, JsonView::Text(error::message_of(e))),
        error::body_of(e)->Object_0.len() == 1,
{
    assert(error::body_of(e)->Object_0[0] == ("error"@, JsonView::Text(error::message_of(e))));
}

// --- Numbers ----------------------------------------------------------------

/// The number that bytes stand for, the first byte being the highest.
pub open spec fn big_endian(b: Seq<u8>) -> int
    decreases b.len(),
{
    if b.len() == 0 {
        0
    } else {
        big_endian(b.drop_last()) * 256 + b.last()
    }
}

proof fn lemma_big_endian2(a: u8, b: u8)
    ensures
        big_endian(seq![a, b]) == a * 256 + b,
{
    reveal_with_fuel(big_endian, 3);
    assert(seq![a, b].drop_last() =~= seq![a]);
    assert(seq![a].drop_last() =~= seq![]);
}

proof fn lemma_big_endian4(a: u8, b: u8, c: u8, d: u8)
    ensures
        big_endian(seq![a, b, c, d]) == a * 0x100_0000 + b * 0x1_0000 + c * 0x100 + d,
{
    reveal_with_fuel(big_endian, 3);
    assert(seq![a, b, c, d].drop_last() =~= seq![a, b, c]);
    assert(seq![a, b, c].drop_last() =~= seq![a, b]);
    lemma_big_endian2(a, b);
}

/// Numbers are written and read with their highest byte first.
pub proof fn law_numbers_are_big_endian(n: u16, m: u32, a: u8, b: u8, c: u8, d: u8)
    ensures
        frame::be16(n).len() == 2 && big_endian(frame::be16(n)) == n,
        frame::be32(m).len() == 4 && big_endian(frame::be32(m)) == m,
        frame::number16(a, b) == big_endian(seq![a, b]),
        frame::number32(a, b, c, d) == big_endian(seq![a, b, c, d]),
{
    let w = frame::be16(n);
    let v = frame::be32(m);
    lemma_big_endian2(w[0], w[1]);
    lemma_big_endian4(v[0], v[1], v[2], v[3]);
    assert(w =~= seq![w[0], w[1]]);
    assert(v =~= seq![v[0], v[1], v[2], v[3]]);
    lemma_big_endian2(a, b);
    lemma_big_endian4(a, b, c, d);
}

// --- Frames -----------------------------------------------------------------

/// A frame that opens a stream has the opcode 1, the id, the length of the host, the host
/// and the port, and nothing else. The length has two bytes, whatever the host has.
pub proof fn law_layout_of_an_open_frame(id: u32, host: Seq<u8>, port: u16)
    ensures
        ({
            let f = frame::open_bytes(id, host, port);
            let n = host.len() as int;
            &&& f.len() == 9 + n
            &&& f[0] == 1
            &&& big_endian(f.subrange(1, 5)) == id
            &&& big_endian(f.subrange(5, 7)) == n % 0x1_0000
            &&& f.subrange(7, 7 + n) == host
            &&& big_endian(f.subrange(7 + n, 9 + n)) == port
        }),
{
    let f = frame::open_bytes(id, host, port);
    let n = host.len() as int;
    law_numbers_are_big_endian(port, id, 0, 0, 0, 0);
    law_numbers_are_big_endian((n % 0x1_0000) as u16, id, 0, 0, 0, 0);
    assert(f.subrange(1, 5) =~= frame::be32(id));
    assert(f.subrange(5, 7) =~= frame::be16((n % 0x1_0000) as u16));
    assert(f.subrange(7, 7 + n) =~= host);
    assert(f.subrange(7 + n, 9 + n) =~= frame::be16(port));
}

/// A frame with bytes of a stream has the opcode 2, the id and the bytes.
pub proof fn law_layout_of_a_data_frame(id: u32, payload: Seq<u8>)
    ensures
        ({
            let f = frame::data_bytes(id, payload);
            &&& f.len() == 5 + payload.len()
            &&& f[0] == 2
            &&& big_endian(f.subrange(1, 5)) == id
            &&& f.skip(5) == payload
        }),
{
    let f = frame::data_bytes(id, payload);
    law_numbers_are_big_endian(0, id, 0, 0, 0, 0);
    assert(f.subrange(1, 5) =~= frame::be32(id));
    assert(f.skip(5) =~= payload);
}

/// A frame that ends a stream has the opcode 3 and the id.
pub proof fn law_layout_of_a_close_frame(id: u32)
    ensures
        ({
            let f = frame::close_bytes(id);
            &&& f.len() == 5
            &&& f[0] == 3
            &&& big_endian(f.subrange(1, 5)) == id
        }),
{
    let f = frame::close_bytes(id);
    law_numbers_are_big_endian(0, id, 0, 0, 0, 0);
    assert(f.subrange(1, 5) =~= frame::be32(id));
}

/// Bytes are read as the frame that they are laid out as, whoever wrote them; what is cut
/// short, or has another opcode, is no frame.
pub proof fn law_frames_are_read_by_their_layout(b: Seq<u8>)
    ensures
        b.len() < 5 ==> frame::frame_of(b) is None,
        b.len() >= 5 && b[0] != 1 && b[0] != 2 && b[0] != 3 ==> frame::frame_of(b) is None,
        b.len() >= 5 && b[0] == 2 ==> frame::frame_of(b) == Some(
            FrameView::Data { id: big_endian(b.subrange(1, 5)) as u32, payload: b.skip(5) },
        ),
        b.len() >= 5 && b[0] == 3 ==> frame::frame_of(b) == Some(
            FrameView::Close { id: big_endian(b.subrange(1, 5)) as u32 },
        ),
        5 <= b.len() < 7 && b[0] == 1 ==> frame::frame_of(b) is None,
        b.len() >= 7 && b[0] == 1 ==> {
            let n = big_endian(b.subrange(5, 7));
            if b.len() < 9 + n {
                frame::frame_of(b) is None
            } else {
                frame::frame_of(b) == Some(
                    FrameView::Open {
                        id: big_endian(b.subrange(1, 5)) as u32,
                        host: b.subrange(7, 7 + n),
                        port: big_endian(b.subrange(7 + n, 9 + n)) as u16,
                    },
                )
            }
        },
{
    if b.len() >= 5 {
        assert(b.subrange(1, 5) =~= seq![b[1], b[2], b[3], b[4]]);
        lemma_big_endian4(b[1], b[2], b[3], b[4]);
        if b.len() >= 7 {
            assert(b.subrange(5, 7) =~= seq![b[5], b[6]]);
            lemma_big_endian2(b[5], b[6]);
            let n = big_endian(b.subrange(5, 7));
            if b.len() >= 9 + n {
                assert(b.subrange(7 + n, 9 + n) =~= seq![b[7 + n], b[8 + n]]);
                lemma_big_endian2(b[7 + n], b[8 + n]);
            }
        }
    }
}

// --- The handshake ----------------------------------------------------------

/// The greeting of a client: the version, and the methods that it offers.
pub open spec fn greeting(methods: Seq<u8>) -> Seq<u8> {
    seq![5u8, methods.len() as u8] + methods
}

/// A handshake that asks for a name is read as that name and port, and all of it is used,
/// whatever methods the client offers.
pub proof fn law_name_is_asked_for(
    methods: Seq<u8>,
    reserved: u8,
    version: u8,
    name: Seq<u8>,
    port: u16,
    rest: Seq<u8>,
)
    requires
        methods.len() < 256,
        name.len() < 256,
    ensures
        ({
            let b = greeting(methods) + seq![version, 1u8, reserved, 3u8, name.len() as u8] + name
                + seq![(port / 256) as u8, (port % 256) as u8];
            socks::handshake(b + rest) == (Handshake::Connect {
                host: crypto::utf8_lossy(name),
                port,
                used: b.len() as int,
            })
        }),
{
    let head = greeting(methods) + seq![version, 1u8, reserved, 3u8, name.len() as u8];
    let b = head + name + seq![(port / 256) as u8, (port % 256) as u8];
    let all = b + rest;
    let g = 2 + methods.len() as int;
    let n = name.len() as int;
    assert(all[0] == 5 && all[1] == methods.len());
    assert(all[g + 1] == 1 && all[g + 3] == 3 && all[g + 4] == n);
    assert(all.subrange(g + 5, g + 5 + n) =~= name);
    assert(all[g + 5 + n] == port / 256 && all[g + 6 + n] == port % 256);
}

/// A handshake that asks for an IPv4 address is read as the text of that address and as
/// its port.
pub proof fn law_v4_is_asked_for(
    methods: Seq<u8>,
    reserved: u8,
    version: u8,
    octets: Seq<u8>,
    port: u16,
    rest: Seq<u8>,
)
    requires
        methods.len() < 256,
        octets.len() == 4,
    ensures
        ({
            let b = greeting(methods) + seq![version, 1u8, reserved, 1u8] + octets + seq![
                (port / 256) as u8,
                (port % 256) as u8,
            ];
            socks::handshake(b + rest) == (Handshake::Connect {
                host: net::v4_text(octets),
                port,
                used: b.len() as int,
            })
        }),
{
    let b = greeting(methods) + seq![version, 1u8, reserved, 1u8] + octets + seq![
        (port / 256) as u8,
        (port % 256) as u8,
    ];
    let all = b + rest;
    let g = 2 + methods.len() as int;
    assert(all[0] == 5 && all[1] == methods.len());
    assert(all[g + 1] == 1 && all[g + 3] == 1);
    assert(all.subrange(g + 4, g + 8) =~= octets);
    assert(all[g + 8] == port / 256 && all[g + 9] == port % 256);
}

/// A handshake that asks for an IPv6 address is read as the text of the address with these
/// segments, each in two bytes with the higher first, and as its port.
pub proof fn law_v6_is_asked_for(
    methods: Seq<u8>,
    reserved: u8,
    version: u8,
    address: Seq<u8>,
    segments: Seq<u16>,
    port: u16,
    rest: Seq<u8>,
)
    requires
        methods.len() < 256,
        address.len() == 16,
        segments.len() == 8,
        forall|i: int|
            0 <= i < 8 ==> address[2 * i] == #[trigger] segments[i] / 256 && address[2 * i + 1]
                == segments[i] % 256,
    ensures
        ({
            let b = greeting(methods) + seq![version, 1u8, reserved, 4u8] + address + seq![
                (port / 256) as u8,
                (port % 256) as u8,
            ];
            socks::handshake(b + rest) == (Handshake::Connect {
                host: net::v6_text(segments),
                port,
                used: b.len() as int,
            })
        }),
{
    let b = greeting(methods) + seq![version, 1u8, reserved, 4u8] + address + seq![
        (port / 256) as u8,
        (port % 256) as u8,
    ];
    let all = b + rest;
    let g = 2 + methods.len() as int;
    assert(all[0] == 5 && all[1] == methods.len());
    assert(all[g + 1] == 1 && all[g + 3] == 4);
    assert(all.subrange(g + 4, g + 20) =~= address);
    assert(all[g + 20] == port / 256 && all[g + 21] == port % 256);
    let s = socks::segments_of(address);
    assert forall|i: int| 0 <= i < 8 implies s[i] == #[trigger] segments[i] by {
        assert(address[2 * i] == segments[i] / 256);
    }
    assert(s =~= segments);
}

/// A client that greets with another version is refused at once; one that asks for another
/// command than to connect, or for another kind of address, once its request has come.
pub proof fn law_what_a_handshake_is_refused_for(
    methods: Seq<u8>,
    request: Seq<u8>,
    rest: Seq<u8>,
)
    requires
        methods.len() < 256,
        request.len() == 4,
    ensures
        request[0] != 5 ==> socks::handshake(request + rest) == Handshake::Refused(
            Refusal::NotSocks5,
        ),
        request[1] != 1 ==> socks::handshake(greeting(methods) + request + rest)
            == Handshake::Refused(Refusal::Command),
        request[1] == 1 && request[3] != 1 && request[3] != 3 && request[3] != 4
            ==> socks::handshake(greeting(methods) + request + rest) == Handshake::Refused(
            Refusal::AddressType,
        ),
{
    let b = greeting(methods) + request + rest;
    let g = 2 + methods.len() as int;
    assert(b[0] == 5 && b[1] == methods.len());
    assert(b[g + 1] == request[1] && b[g + 3] == request[3]);
    assert((request + rest)[0] == request[0]);
}

/// A handshake that is cut short is neither refused nor complete: nothing is made of a
/// part.
pub proof fn law_more_bytes_are_waited_for(
    methods: Seq<u8>,
    reserved: u8,
    version: u8,
    name: Seq<u8>,
    port: u16,
    cut: int,
)
    requires
        methods.len() < 256,
        name.len() < 256,
        0 <= cut < 2 + methods.len() + 5 + name.len() + 2,
    ensures
        socks::handshake(
            (greeting(methods) + seq![version, 1u8, reserved, 3u8, name.len() as u8] + name + seq![
                (port / 256) as u8,
                (port % 256) as u8,
            ]).take(cut),
        ) is Incomplete,
{
    let b = greeting(methods) + seq![version, 1u8, reserved, 3u8, name.len() as u8] + name + seq![
        (port / 256) as u8,
        (port % 256) as u8,
    ];
    let g = 2 + methods.len() as int;
    let t = b.take(cut);
    assert(b[0] == 5 && b[1] == methods.len());
    assert(b[g + 1] == 1 && b[g + 3] == 3 && b[g + 4] == name.len());
    if cut >= 2 {
        assert(t[0] == b[0] && t[1] == b[1]);
    }
    if cut >= g + 4 {
        assert(t[g + 1] == b[g + 1] && t[g + 3] == b[g + 3]);
    }
    if cut >= g + 5 {
        assert(t[g + 4] == b[g + 4]);
    }
}

/// The same of a handshake that asks for an address.
pub proof fn law_more_bytes_of_an_address_are_waited_for(
    methods: Seq<u8>,
    reserved: u8,
    version: u8,
    kind: u8,
    address: Seq<u8>,
    port: u16,
    cut: int,
)
    requires
        methods.len() < 256,
        kind == 1 && address.len() == 4 || kind == 4 && address.len() == 16,
        0 <= cut < 2 + methods.len() + 4 + address.len() + 2,
    ensures
        socks::handshake(
            (greeting(methods) + seq![version, 1u8, reserved, kind] + address + seq![
                (port / 256) as u8,
                (port % 256) as u8,
            ]).take(cut),
        ) is Incomplete,
{
    let b = greeting(methods) + seq![version, 1u8, reserved, kind] + address + seq![
        (port / 256) as u8,
        (port % 256) as u8,
    ];
    let g = 2 + methods.len() as int;
    let t = b.take(cut);
    assert(b[0] == 5 && b[1] == methods.len());
    assert(b[g + 1] == 1 && b[g + 3] == kind);
    if cut >= 2 {
        assert(t[0] == b[0] && t[1] == b[1]);
    }
    if cut >= g + 4 {
        assert(t[g + 1] == b[g + 1] && t[g + 3] == b[g + 3]);
    }
}

/// What is sent in a handshake: after the methods, that none is asked for; nothing else
/// before it is complete; and with a refusal of a request, its status.
pub proof fn law_replies_of_a_handshake(s: SocksView, b: Seq<u8>)
    requires
        b.len() == socks::needed(s),
    ensures
        match socks::advanced(s, b) {
            StepView::Continue { reply, next } => reply == if s is Methods {
                seq![5u8, 0]
            } else {
                seq![]
            },
            StepView::Refuse { reply, why } => match why {
                Refusal::NotSocks5 => s is Greeting && reply.len() == 0,
                Refusal::Command => s is Request && reply == seq![
                    5u8,
                    7,
                    0,
                    1,
                    0,
                    0,
                    0,
                    0,
                    0,
                    0,
                ],
                Refusal::AddressType => s is Request && reply == seq![
                    5u8,
                    8,
                    0,
                    1,
                    0,
                    0,
                    0,
                    0,
                    0,
                    0,
                ],
            },
            StepView::Connect { host, port } => s == SocksView::Port(host),
        },
{
}

/// A reply is one of version 5 with its status, and with an address and a port of zeros.
pub proof fn law_reply_has_its_status(status: u8)
    ensures
        ({
            let r = socks::reply_bytes(status);
            &&& r.len() == 10
            &&& r[0] == 5
            &&& r[1] == status
            &&& r[3] == 1
            &&& forall|i: int| 0 <= i < 10 && i != 0 && i != 1 && i != 3 ==> r[i] == 0
        }),
{
}

// --- Reading the keys again -------------------------------------------------

/// A signal leads to the keys being read at once; a change of the file only after a pause
/// in which no other came; and after each reading the next trigger is waited for.
pub proof fn law_when_the_keys_are_read(trigger: Trigger, step: Reload, came: bool)
    ensures
        reload::after(trigger, step, came) == Reload::Read <==> step == Reload::Wait && came
            && trigger == Trigger::Hangup || step == Reload::Drain && !came,
        reload::after(trigger, step, came) == Reload::Sleep <==> step == Reload::Wait && came
            && trigger == Trigger::Watch,
        reload::after(trigger, step, came) == Reload::Drain <==> step == Reload::Sleep || step
            == Reload::Drain && came,
        reload::after(trigger, step, came) == Reload::Wait <==> step == Reload::Read,
        reload::after(trigger, step, came) == Reload::End <==> step == Reload::End || step
            == Reload::Wait && !came,
{
}

} // verus!
